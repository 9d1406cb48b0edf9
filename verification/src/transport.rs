//! What the library takes from the USB transport crate.

use rusb::Error as UsbError;
use vstd::prelude::*;

verus! {

/// The transport's own error, `rusb::Error`, carried through unread.
#[verifier::external_type_specification]
#[verifier::external_body]
pub struct ExUsbError(UsbError);

/// The `bmRequestType` byte of a command's control transfer, from `rusb::request_type`.
///
/// Trusted: for the direction host-to-device (bit 7 clear), the type vendor (bits 6..5 are
/// `10`) and the recipient device (bits 4..0 clear) the byte is `0x40`.
#[verifier::external_body]
pub(crate) fn control_request_type() -> (value: u8)
    ensures
        value == 0x40,
{
    rusb::request_type(rusb::Direction::Out, rusb::RequestType::Vendor, rusb::Recipient::Device)
}

/// The transport's own words for one of its errors, from `rusb::Error`'s `Display`.
///
/// Trusted: nothing is claimed of the text.
#[verifier::external_body]
pub(crate) fn usb_error_text(error: &rusb::Error) -> (text: String) {
    error.to_string()
}

} // verus!
