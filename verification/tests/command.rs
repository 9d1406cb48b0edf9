use punt::command::{decode_crc, decode_erase_status, push_le_u32, read_ne_u32, read_version};
use punt::{Command, EraseError, Error, Page, Request, Version};

#[test]
fn commands_have_fixed_opcodes() {
    assert_eq!(Command::BootloaderInfo.opcode(), 0x01);
    assert_eq!(Command::ReadCrc.opcode(), 0x02);
    assert_eq!(Command::ReadMemory.opcode(), 0x03);
    assert_eq!(Command::ErasePage.opcode(), 0x04);
    assert_eq!(Command::Program.opcode(), 0x05);
    assert_eq!(Command::Exit.opcode(), 0xff);
}

#[test]
fn integers_are_written_least_significant_first() {
    let mut packet = vec![0xaa];
    push_le_u32(&mut packet, 0x0800_0c00);
    assert_eq!(packet, vec![0xaa, 0x00, 0x0c, 0x00, 0x08]);
    push_le_u32(&mut packet, 0xffff_fffe);
    assert_eq!(packet, vec![0xaa, 0x00, 0x0c, 0x00, 0x08, 0xfe, 0xff, 0xff, 0xff]);
    let mut zero = Vec::new();
    push_le_u32(&mut zero, 0);
    assert_eq!(zero, vec![0, 0, 0, 0]);
}

#[test]
fn integers_are_read_least_significant_first() {
    let bytes = [0x78u8, 0x56, 0x34, 0x12, 0xff, 0xff, 0xff, 0xff, 0x01];
    let mut input = &bytes[..];
    assert_eq!(read_ne_u32(&mut input), 0x1234_5678);
    assert_eq!(input, &[0xff, 0xff, 0xff, 0xff, 0x01]);
    assert_eq!(read_ne_u32(&mut input), u32::MAX);
    assert_eq!(input, &[0x01]);
}

#[test]
fn written_integers_are_read_back() {
    for value in [0u32, 1, 255, 256, 0x0800_0000, 0x1234_5678, u32::MAX] {
        let mut packet = Vec::new();
        push_le_u32(&mut packet, value);
        assert_eq!(packet, value.to_le_bytes().to_vec());
        let mut input = &packet[..];
        assert_eq!(read_ne_u32(&mut input), value);
        assert!(input.is_empty());
    }
}

#[test]
fn version_is_read_from_three_bytes() {
    let bytes = [1u8, 2, 3, 4];
    let mut input = &bytes[..];
    assert_eq!(read_version(&mut input), Version { major: 1, minor: 2, patch: 3 });
    assert_eq!(input, &[4]);
}

#[test]
fn bootloader_info_request_has_no_payload() {
    let request = Request::bootloader_info();
    assert_eq!(request.command, Command::BootloaderInfo);
    assert!(request.payload.is_empty());
    assert_eq!(request.response_length, 64);
}

#[test]
fn read_crc_request_carries_start_and_length() {
    let request = Request::read_crc(0x0800_0c00, 0x0001_0203);
    assert_eq!(request.command, Command::ReadCrc);
    assert_eq!(request.payload, vec![0x00, 0x0c, 0x00, 0x08, 0x03, 0x02, 0x01, 0x00]);
    assert_eq!(request.response_length, 4);
}

#[test]
fn read_memory_request_carries_start_and_length() {
    let request = Request::read_memory(0x0800_0004, 64);
    assert_eq!(request.command, Command::ReadMemory);
    assert_eq!(request.payload, vec![0x04, 0x00, 0x00, 0x08, 64, 0, 0, 0]);
    assert_eq!(request.response_length, 64);
}

#[test]
fn erase_page_request_carries_the_page_index() {
    let request = Request::erase_page(Page::from_index(3));
    assert_eq!(request.command, Command::ErasePage);
    assert_eq!(request.payload, vec![3]);
    assert_eq!(request.response_length, 1);
}

#[test]
fn program_request_carries_address_then_data() {
    let request = Request::program(0x0800_0100, &[0xde, 0xad, 0xbe, 0xef, 0x01]);
    assert_eq!(request.command, Command::Program);
    assert_eq!(request.payload, vec![0x00, 0x01, 0x00, 0x08, 0xde, 0xad, 0xbe, 0xef, 0x01]);
    assert_eq!(request.response_length, 0);
    let empty = Request::program(0x0800_0100, &[]);
    assert_eq!(empty.payload, vec![0x00, 0x01, 0x00, 0x08]);
}

#[test]
fn exit_request_is_empty() {
    let request = Request::exit();
    assert_eq!(request.command, Command::Exit);
    assert!(request.payload.is_empty());
    assert_eq!(request.response_length, 0);
}

#[test]
fn checksum_response_is_little_endian() {
    assert_eq!(decode_crc(&[0x78, 0x56, 0x34, 0x12]), 0x1234_5678);
    assert_eq!(decode_crc(&[0xff, 0xff, 0xff, 0xff]), u32::MAX);
    assert_eq!(decode_crc(&[0x78, 0x56, 0x34, 0x12, 0x99]), 0x1234_5678);
}

#[test]
fn missing_checksum_bytes_count_as_zero() {
    assert_eq!(decode_crc(&[]), 0);
    assert_eq!(decode_crc(&[0x78]), 0x78);
    assert_eq!(decode_crc(&[0x78, 0x56]), 0x5678);
    assert_eq!(decode_crc(&[0x78, 0x56, 0x34]), 0x0034_5678);
}

#[test]
fn erase_status_zero_is_success() {
    assert_eq!(decode_erase_status(&[0]), Ok(()));
    assert_eq!(decode_erase_status(&[]), Ok(()));
    assert_eq!(decode_erase_status(&[0, 7]), Ok(()));
}

#[test]
fn erase_status_codes_surface_as_erase_errors() {
    assert_eq!(decode_erase_status(&[1]), Err(Error::EraseError(EraseError::Prohibited)));
    assert_eq!(decode_erase_status(&[2]), Err(Error::EraseError(EraseError::VerifyFailed)));
    assert_eq!(decode_erase_status(&[9]), Err(Error::EraseError(EraseError::Unknown)));
    assert_eq!(decode_erase_status(&[255]), Err(Error::EraseError(EraseError::Unknown)));
}
