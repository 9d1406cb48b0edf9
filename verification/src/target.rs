//! Telling bootloader targets from other USB devices.

use crate::error::Error;
use crate::target_handle::TargetHandle;
use crate::text::{str_eq, strip_terminators, without_terminators};
use vstd::prelude::*;

verus! {

/// The vendor ID that a target reports. It is shared with devices of other kinds.
pub const VENDOR_ID: u16 = 0x16c0;

/// The product ID that a target reports. It is shared with devices of other kinds.
pub const PRODUCT_ID: u16 = 0x05dc;

/// The manufacturer string that a target reports.
pub open spec fn vendor_string() -> Seq<char> {
    "25120"@
}

/// The product string that a target reports.
pub open spec fn product_string() -> Seq<char> {
    "punt"@
}

/// What the descriptors of a connected USB device say of it.
#[derive(Debug)]
pub struct Probe {
    /// Number of the bus that the device is connected to.
    pub bus_number: u8,
    /// Address of the device on its bus.
    pub address: u8,
    /// Vendor ID from the device descriptor.
    pub vendor_id: u16,
    /// Product ID from the device descriptor.
    pub product_id: u16,
    /// Manufacturer string descriptor.
    pub manufacturer: String,
    /// Product string descriptor.
    pub product: String,
    /// Serial number string descriptor.
    pub serial: String,
}

impl Probe {
    /// Whether the IDs are those of a target. This is necessary for a device to be a target,
    /// and not sufficient.
    pub open spec fn has_target_ids(&self) -> bool {
        self.vendor_id == VENDOR_ID && self.product_id == PRODUCT_ID
    }

    /// Whether the device is a target: it reports the IDs and both strings of one.
    pub open spec fn is_target(&self) -> bool {
        &&& self.has_target_ids()
        &&& self.manufacturer@ == vendor_string()
        &&& self.product@ == product_string()
    }

    /// The target that the device is, if it is one.
    pub open spec fn target(&self) -> TargetView {
        TargetView {
            bus_number: self.bus_number,
            address: self.address,
            serial: strip_terminators(self.serial@),
        }
    }
}

/// Contains necessary information to connect to a target via USB.
#[derive(Debug)]
pub struct Target {
    /// Number of the bus that the target is connected to.
    pub bus_number: u8,
    /// Address of the target on its bus.
    pub address: u8,
    /// The serial number that the target reports, without a terminator at its end.
    pub serial: String,
}

/// A [`Target`] as a mathematical value.
pub struct TargetView {
    pub bus_number: u8,
    pub address: u8,
    pub serial: Seq<char>,
}

impl View for Target {
    type V = TargetView;

    open spec fn view(&self) -> TargetView {
        TargetView { bus_number: self.bus_number, address: self.address, serial: self.serial@ }
    }
}

impl Target {
    /// Tests whether a device with these IDs can be a target. Only such a device is worth
    /// opening to read its strings.
    pub fn is_candidate(vendor_id: u16, product_id: u16) -> (candidate: bool)
        ensures
            candidate == (vendor_id == VENDOR_ID && product_id == PRODUCT_ID),
    {
        vendor_id == VENDOR_ID && product_id == PRODUCT_ID
    }

    /// Converts what a USB device reports into a target if possible. If the device is not a
    /// target, this function returns [`Error::UnsupportedTarget`].
    pub fn try_from(probe: &Probe) -> (target: Result<Target, Error>)
        ensures
            target is Ok <==> probe.is_target(),
            target matches Ok(found) ==> found@ == probe.target(),
            target matches Err(error) ==> error == Error::UnsupportedTarget,
    {
        // The shared VID:PID pair used here mandates a check for the manufacturer and product
        // strings
        if !Target::is_candidate(probe.vendor_id, probe.product_id) {
            return Err(Error::UnsupportedTarget);
        }
        if !str_eq(probe.manufacturer.as_str(), "25120") || !str_eq(
            probe.product.as_str(),
            "punt",
        ) {
            return Err(Error::UnsupportedTarget);
        }
        Ok(
            Target {
                bus_number: probe.bus_number,
                address: probe.address,
                serial: without_terminators(probe.serial.as_str()),
            },
        )
    }

    /// Returns the serial number string the target reports via its USB descriptor.
    pub fn serial(&self) -> (serial: String)
        ensures
            serial@ == self@.serial,
    {
        self.serial.clone()
    }

    /// Connects to a target whose first interface has bulk endpoints with the given buffer
    /// sizes: the first is the inbound one, the second the outbound one. A device with fewer
    /// than two endpoints, or with endpoints that leave no room for a chunk, is not a
    /// supported target.
    pub fn open(&self, endpoint_sizes: &[u16]) -> (handle: Result<TargetHandle, Error>)
        ensures
            handle is Ok <==> endpoint_sizes@.len() >= 2 && TargetHandle::usable_sizes(
                endpoint_sizes@[0],
                endpoint_sizes@[1],
            ),
            handle matches Ok(opened) ==> opened.in_buffer_length() == endpoint_sizes@[0]
                && opened.out_buffer_length() == endpoint_sizes@[1],
            handle matches Err(error) ==> error == Error::UnsupportedTarget,
    {
        if endpoint_sizes.len() < 2 {
            return Err(Error::UnsupportedTarget);
        }
        TargetHandle::new(endpoint_sizes[0], endpoint_sizes[1])
    }
}

} // verus!
