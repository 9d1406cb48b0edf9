use punt::checksum::swap_words;
use punt::{
    Command, Error, EraseError, Operation, Page, Probe, Request, Target, TargetHandle,
    Transaction, Transfer, FLASH_BASE,
};

/// A bootloader target that lives in memory and answers USB transfers.
struct FakeTarget {
    flash: Vec<u8>,
    application_base: u32,
    claimed: bool,
    command: Option<u8>,
    payload: Vec<u8>,
    protected_page: Option<u8>,
    fail_after: Option<usize>,
    transfers: Vec<Transfer>,
}

impl FakeTarget {
    fn new() -> Self {
        FakeTarget {
            flash: vec![0x55; 64 * 1024],
            application_base: FLASH_BASE + 0x2000,
            claimed: false,
            command: None,
            payload: Vec::new(),
            protected_page: None,
            fail_after: None,
            transfers: Vec::new(),
        }
    }

    fn word(bytes: &[u8]) -> u32 {
        u32::from_le_bytes([bytes[0], bytes[1], bytes[2], bytes[3]])
    }

    fn offset(address: u32) -> usize {
        (address - FLASH_BASE) as usize
    }

    fn checksum(data: &[u8]) -> u32 {
        let mut crc = crc_any::CRC::crc32mpeg2();
        crc.digest(&swap_words(data));
        crc.get_crc() as u32
    }

    fn respond(&mut self) -> Vec<u8> {
        let payload = std::mem::take(&mut self.payload);
        match self.command.take() {
            Some(0x01) => {
                let mut info = Vec::new();
                info.extend_from_slice(&20190131u32.to_le_bytes());
                info.extend_from_slice(&7u32.to_le_bytes());
                info.extend_from_slice(&self.application_base.to_le_bytes());
                info.extend_from_slice(&(self.flash.len() as u32 - 0x2000).to_le_bytes());
                info.extend_from_slice(&[1, 4, 2]);
                info.extend_from_slice(b"FAKE32");
                info
            }
            Some(0x02) => {
                let start = Self::offset(Self::word(&payload[0..4]));
                let length = Self::word(&payload[4..8]) as usize;
                Self::checksum(&self.flash[start..start + length]).to_le_bytes().to_vec()
            }
            Some(0x03) => {
                let start = Self::offset(Self::word(&payload[0..4]));
                let length = Self::word(&payload[4..8]) as usize;
                self.flash[start..start + length].to_vec()
            }
            Some(0x04) => {
                let page = payload[0];
                if self.protected_page == Some(page) {
                    return vec![1];
                }
                let start = page as usize * 1024;
                self.flash[start..start + 1024].fill(0xff);
                vec![0]
            }
            _ => Vec::new(),
        }
    }

    fn perform(&mut self, transfer: Transfer, payload: &[u8]) -> Result<Vec<u8>, rusb::Error> {
        if let Some(left) = self.fail_after {
            if left == 0 {
                return Err(rusb::Error::Timeout);
            }
            self.fail_after = Some(left - 1);
        }
        self.transfers.push(transfer);
        match transfer {
            Transfer::ClaimInterface { interface } => {
                assert_eq!(interface, 0);
                assert!(!self.claimed);
                self.claimed = true;
                Ok(Vec::new())
            }
            Transfer::WriteControl { request_type, request, value, index } => {
                assert!(self.claimed);
                assert_eq!((request_type, value, index), (0x40, 0, 0));
                self.command = Some(request);
                Ok(Vec::new())
            }
            Transfer::WriteBulk { endpoint } => {
                assert_eq!(endpoint, 0x02);
                assert!(!payload.is_empty());
                if self.command == Some(0x05) {
                    let start = Self::offset(Self::word(&payload[0..4]));
                    for (index, byte) in payload[4..].iter().enumerate() {
                        self.flash[start + index] &= *byte;
                    }
                    self.command = None;
                } else {
                    self.payload = payload.to_vec();
                }
                Ok(Vec::new())
            }
            Transfer::ReadBulk { endpoint, length } => {
                assert_eq!(endpoint, 0x81);
                let mut response = self.respond();
                response.truncate(length);
                Ok(response)
            }
            Transfer::ReleaseInterface { interface } => {
                assert_eq!(interface, 0);
                assert!(self.claimed);
                self.claimed = false;
                Ok(Vec::new())
            }
        }
    }

    fn transact(&mut self, request: Request) -> Result<Vec<u8>, Error> {
        let mut transaction = Transaction::new(request);
        while let Some(transfer) = transaction.next_transfer() {
            let outcome = self.perform(transfer, transaction.payload());
            transaction.record(outcome);
        }
        transaction.finish().unwrap()
    }

    fn execute<O: Operation>(&mut self, operation: &mut O) -> Result<Vec<usize>, Error> {
        let mut progress = Vec::new();
        let mut last = None;
        while let Some(request) = operation.next_request() {
            let step = operation.record(self.transact(request)).unwrap();
            if let Ok(value) = step {
                progress.push(value);
            }
            last = Some(step);
        }
        punt::operation::completion(last).map(|_| progress)
    }
}

fn open() -> TargetHandle {
    let probe = Probe {
        bus_number: 1,
        address: 9,
        vendor_id: 0x16c0,
        product_id: 0x05dc,
        manufacturer: "25120".to_string(),
        product: "punt".to_string(),
        serial: "FAKE0001".to_string(),
    };
    Target::try_from(&probe).unwrap().open(&[64, 64]).unwrap()
}

#[test]
fn session_queries_bootloader_info() {
    let mut target = FakeTarget::new();
    let handle = open();
    let response = target.transact(Request::bootloader_info()).unwrap();
    let info = handle.bootloader_info(&response).unwrap();
    assert_eq!(info.build_date, "2019-01-31");
    assert_eq!(info.build_number, 7);
    assert_eq!(info.application_base, 0x0800_2000);
    assert_eq!(info.application_size, 56 * 1024);
    assert_eq!((info.version.major, info.version.minor, info.version.patch), (1, 4, 2));
    assert_eq!(info.identifier, "FAKE32");
    assert_eq!(info.application_pages(), Page::from_index(8)..=Page::from_index(63));
}

#[test]
fn session_erases_programs_and_verifies() {
    let mut target = FakeTarget::new();
    let handle = open();
    let response = target.transact(Request::bootloader_info()).unwrap();
    let info = handle.bootloader_info(&response).unwrap();
    let image: Vec<u8> = (0..3000u32).map(|value| (value * 7 % 253) as u8).collect();
    let start = info.application_base;

    let mut erase = handle.erase_area(&info, start, image.len()).unwrap();
    assert_eq!(erase.total(), 3);
    assert_eq!(target.execute(&mut erase), Ok(vec![1, 2, 3]));
    assert!(target.flash[0x2000..0x2c00].iter().all(|byte| *byte == 0xff));
    assert!(target.flash[..0x2000].iter().all(|byte| *byte == 0x55));
    assert!(target.flash[0x2c00..].iter().all(|byte| *byte == 0x55));

    let mut program = handle.program_at(&info, &image, start).unwrap();
    assert_eq!(program.total(), 3000);
    let progress = target.execute(&mut program).unwrap();
    assert_eq!(progress.len(), 50);
    assert_eq!(progress[0], 60);
    assert_eq!(progress[49], 3000);
    assert_eq!(&target.flash[0x2000..0x2000 + 3000], &image[..]);

    let response = target.transact(Request::read_crc(start, image.len())).unwrap();
    let crc = handle.read_crc(&response);
    assert_eq!(handle.verify(&image, crc), Ok(()));
    let mut other = image.clone();
    other[2999] ^= 1;
    assert_eq!(handle.verify(&other, crc), Err(Error::VerificationError));

    let mut read = handle.read_at(&info, vec![0; 3000], start).unwrap();
    let progress = target.execute(&mut read).unwrap();
    assert_eq!(progress.len(), 47);
    assert_eq!(progress[46], 3000);
    assert_eq!(read.into_buffer(), image);
}

#[test]
fn session_surfaces_erase_error_and_stops() {
    let mut target = FakeTarget::new();
    target.protected_page = Some(9);
    let handle = open();
    let response = target.transact(Request::bootloader_info()).unwrap();
    let info = handle.bootloader_info(&response).unwrap();
    let mut erase = handle.erase_area(&info, info.application_base, 3 * 1024).unwrap();
    assert_eq!(target.execute(&mut erase), Err(Error::EraseError(EraseError::Prohibited)));
    // Page 10 was erased before page 9 refused; page 8 was never asked for
    assert!(target.flash[10 * 1024..11 * 1024].iter().all(|byte| *byte == 0xff));
    assert!(target.flash[8 * 1024..10 * 1024].iter().all(|byte| *byte == 0x55));
    let erases = target
        .transfers
        .iter()
        .filter(|transfer| {
            matches!(transfer, Transfer::WriteControl { request, .. } if *request == Command::ErasePage.opcode())
        })
        .count();
    assert_eq!(erases, 2);
    assert_eq!(erase.next_request(), None);
}

#[test]
fn session_surfaces_transport_failure_and_stops() {
    let mut target = FakeTarget::new();
    let handle = open();
    let response = target.transact(Request::bootloader_info()).unwrap();
    let info = handle.bootloader_info(&response).unwrap();
    let image = [0u8; 200];
    let mut program = handle.program_at(&info, &image, info.application_base).unwrap();
    // Two whole transactions of four transfers each, then the claim of the third fails
    target.transfers.clear();
    target.fail_after = Some(8);
    assert_eq!(target.execute(&mut program), Err(Error::IoError(rusb::Error::Timeout)));
    assert_eq!(target.transfers.len(), 8);
    assert_eq!(program.next_request(), None);
    assert_eq!(&target.flash[0x2000..0x2000 + 120], &[0u8; 120][..]);
    assert_eq!(&target.flash[0x2000 + 120..0x2000 + 200], &[0x55u8; 80][..]);
}

#[test]
fn session_release_is_skipped_after_failed_transfer() {
    let mut target = FakeTarget::new();
    target.fail_after = Some(2);
    assert_eq!(
        target.transact(Request::read_crc(FLASH_BASE, 4)),
        Err(Error::IoError(rusb::Error::Timeout))
    );
    assert_eq!(target.transfers.len(), 2);
    assert!(matches!(target.transfers[0], Transfer::ClaimInterface { .. }));
    assert!(matches!(target.transfers[1], Transfer::WriteControl { .. }));
}

#[test]
fn session_exit_is_a_bare_command() {
    let mut target = FakeTarget::new();
    let handle = open();
    assert_eq!(target.transact(handle.exit_bootloader()), Ok(Vec::new()));
    assert_eq!(
        target.transfers,
        vec![
            Transfer::ClaimInterface { interface: 0 },
            Transfer::WriteControl { request_type: 0x40, request: 0xff, value: 0, index: 0 },
            Transfer::ReleaseInterface { interface: 0 },
        ]
    );
}
