use punt::{EraseError, Error};

#[test]
fn erase_status_codes_map_to_kinds() {
    assert_eq!(EraseError::from(1), EraseError::Prohibited);
    assert_eq!(EraseError::from(2), EraseError::VerifyFailed);
    assert_eq!(EraseError::from(9), EraseError::Unknown);
    assert_eq!(EraseError::from(3), EraseError::Unknown);
    assert_eq!(EraseError::from(0), EraseError::Unknown);
    assert_eq!(EraseError::from(255), EraseError::Unknown);
}

#[test]
fn usb_error_becomes_io_error() {
    assert_eq!(Error::from(rusb::Error::Timeout), Error::IoError(rusb::Error::Timeout));
    assert_eq!(Error::from(rusb::Error::NoDevice), Error::IoError(rusb::Error::NoDevice));
    assert_ne!(Error::from(rusb::Error::NoDevice), Error::IoError(rusb::Error::Timeout));
}

#[test]
fn errors_are_described() {
    assert_eq!(Error::InvalidRequest.description(), "Invalid request.");
    assert_eq!(Error::TargetNotFound.description(), "Target not found");
    assert_eq!(Error::UnsupportedTarget.description(), "Target is unsupported");
    assert_eq!(Error::TooManyMatches.description(), "Too many matches");
    assert_eq!(Error::EraseError(EraseError::Prohibited).description(), "Flash erase error");
    assert_eq!(Error::VerificationError.description(), "Verification error");
    assert_eq!(Error::MalformedResponse.description(), "Malformed response");
}

#[test]
fn io_error_is_described_by_the_transport() {
    assert_eq!(Error::IoError(rusb::Error::Timeout).description(), "Operation timed out");
    assert_eq!(
        Error::IoError(rusb::Error::NoDevice).description(),
        format!("{}", rusb::Error::NoDevice)
    );
}
