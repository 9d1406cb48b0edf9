//! The bootloader's commands and the byte layout of their packets.

use crate::bootloader_info::Version;
use crate::error::{EraseError, Error};
use crate::flash::Page;
use vstd::prelude::*;

verus! {

/// Commands understood by the bootloader.
#[derive(Debug, Clone, Copy, PartialEq, Eq, Structural)]
pub enum Command {
    /// Query build, version and flash geometry of the bootloader.
    BootloaderInfo,
    /// Let the target compute a checksum over a memory area.
    ReadCrc,
    /// Read a memory area back.
    ReadMemory,
    /// Erase one flash page.
    ErasePage,
    /// Write bytes into erased flash.
    Program,
    /// Leave the bootloader and start the application.
    Exit,
}

impl Command {
    /// The byte that selects the command on the wire.
    pub open spec fn spec_opcode(self) -> u8 {
        match self {
            Command::BootloaderInfo => 0x01,
            Command::ReadCrc => 0x02,
            Command::ReadMemory => 0x03,
            Command::ErasePage => 0x04,
            Command::Program => 0x05,
            Command::Exit => 0xff,
        }
    }

    /// The byte that selects the command on the wire.
    pub fn opcode(&self) -> (code: u8)
        ensures
            code == self.spec_opcode(),
    {
        match self {
            Command::BootloaderInfo => 0x01,
            Command::ReadCrc => 0x02,
            Command::ReadMemory => 0x03,
            Command::ErasePage => 0x04,
            Command::Program => 0x05,
            Command::Exit => 0xff,
        }
    }
}

/// The four bytes that carry `value` on the wire, least significant first.
pub open spec fn le_bytes(value: u32) -> Seq<u8> {
    seq![
        (value % 256) as u8,
        (value / 256 % 256) as u8,
        (value / 65536 % 256) as u8,
        (value / 16777216) as u8,
    ]
}

/// The integer that the first four bytes of `bytes` carry, least significant first.
pub open spec fn le_u32(bytes: Seq<u8>) -> u32
    recommends
        bytes.len() >= 4,
{
    (bytes[0] + bytes[1] * 256 + bytes[2] * 65536 + bytes[3] * 16777216) as u32
}

/// Decoding undoes encoding.
pub proof fn lemma_le_u32_of_le_bytes(value: u32)
    ensures
        le_bytes(value).len() == 4,
        le_u32(le_bytes(value)) == value,
{
    let b0 = value % 256;
    let q1 = value / 256;
    let b1 = q1 % 256;
    let q2 = q1 / 256;
    let b2 = q2 % 256;
    let q3 = q2 / 256;
    assert(q2 == value / 65536 && q3 == value / 16777216) by (bit_vector)
        requires
            q1 == value / 256,
            q2 == q1 / 256,
            q3 == q2 / 256,
    ;
    assert(value == b0 + 256 * q1);
    assert(q1 == b1 + 256 * q2);
    assert(q2 == b2 + 256 * q3);
}

/// Encoding undoes the decoding of four bytes.
pub proof fn lemma_le_bytes_of_le_u32(bytes: Seq<u8>)
    requires
        bytes.len() == 4,
    ensures
        le_bytes(le_u32(bytes)) == bytes,
{
    let value = le_u32(bytes);
    let tail = bytes[1] + bytes[2] * 256 + bytes[3] * 65536;
    assert(value == bytes[0] + 256 * tail);
    assert(value % 256 == bytes[0] && value / 256 == tail) by (nonlinear_arith)
        requires
            value == bytes[0] + 256 * tail,
            0 <= bytes[0] < 256,
    ;
    let tail2 = bytes[2] + bytes[3] * 256;
    assert(tail % 256 == bytes[1] && tail / 256 == tail2) by (nonlinear_arith)
        requires
            tail == bytes[1] + 256 * tail2,
            0 <= bytes[1] < 256,
    ;
    assert(tail2 % 256 == bytes[2] && tail2 / 256 == bytes[3]) by (nonlinear_arith)
        requires
            tail2 == bytes[2] + 256 * bytes[3],
            0 <= bytes[2] < 256,
    ;
    lemma_le_u32_of_le_bytes(value);
    let q1 = value / 256;
    let q2 = q1 / 256;
    assert(q2 == value / 65536 && q2 / 256 == value / 16777216) by (bit_vector)
        requires
            q1 == value / 256,
            q2 == q1 / 256,
    ;
    assert(le_bytes(value) =~= bytes);
}

/// Appends the little-endian bytes of `value` to `packet`.
pub fn push_le_u32(packet: &mut Vec<u8>, value: u32)
    ensures
        final(packet)@ == old(packet)@ + le_bytes(value),
{
    packet.push((value % 256) as u8);
    packet.push((value / 256 % 256) as u8);
    packet.push((value / 65536 % 256) as u8);
    packet.push((value / 16777216) as u8);
    assert(packet@ =~= old(packet)@ + le_bytes(value));
}

/// Splits the first four bytes off a slice and interprets them as a little-endian `u32`.
pub fn read_ne_u32(input: &mut &[u8]) -> (value: u32)
    requires
        old(input)@.len() >= 4,
    ensures
        value == le_u32(old(input)@),
        final(input)@ == old(input)@.skip(4),
{
    let (int_bytes, rest) = input.split_at(4);
    *input = rest;
    int_bytes[0] as u32 + int_bytes[1] as u32 * 256 + int_bytes[2] as u32 * 65536
        + int_bytes[3] as u32 * 16777216
}

/// Splits the first three bytes off a slice and interprets them as (major, minor, patch).
pub fn read_version(input: &mut &[u8]) -> (version: Version)
    requires
        old(input)@.len() >= 3,
    ensures
        version == (Version { major: old(input)@[0], minor: old(input)@[1], patch: old(input)@[2] }),
        final(input)@ == old(input)@.skip(3),
{
    let (bytes, rest) = input.split_at(3);
    *input = rest;
    Version { major: bytes[0], minor: bytes[1], patch: bytes[2] }
}

/// One command transaction: what is sent to the target and how much is expected back.
#[derive(Debug, Clone, PartialEq, Eq)]
pub struct Request {
    /// The command that the control transfer carries.
    pub command: Command,
    /// The bytes that follow the command on the outbound bulk channel; may be empty.
    pub payload: Vec<u8>,
    /// The number of bytes to ask for on the inbound bulk channel; may be zero.
    pub response_length: usize,
}

/// A [`Request`] as a mathematical value.
pub struct RequestView {
    pub command: Command,
    pub payload: Seq<u8>,
    pub response_length: usize,
}

impl View for Request {
    type V = RequestView;

    open spec fn view(&self) -> RequestView {
        RequestView {
            command: self.command,
            payload: self.payload@,
            response_length: self.response_length,
        }
    }
}

/// The request as a mathematical value, if there is one.
pub open spec fn request_view(request: Option<Request>) -> Option<RequestView> {
    match request {
        Some(request) => Some(request@),
        None => None,
    }
}

/// The number of bytes asked for in response to a bootloader information query.
pub const INFO_PACKET_SIZE: usize = 64;

impl RequestView {
    /// The query for the bootloader's metadata.
    pub open spec fn bootloader_info() -> RequestView {
        RequestView {
            command: Command::BootloaderInfo,
            payload: Seq::empty(),
            response_length: INFO_PACKET_SIZE,
        }
    }

    /// The query for the target's checksum of `length` bytes from `start`. The length is
    /// carried in 32 bits.
    pub open spec fn read_crc(start: u32, length: usize) -> RequestView {
        RequestView {
            command: Command::ReadCrc,
            payload: le_bytes(start) + le_bytes(length as u32),
            response_length: 4,
        }
    }

    /// The query for the `length` bytes from `start`. The length is carried in 32 bits.
    pub open spec fn read_memory(start: u32, length: usize) -> RequestView {
        RequestView {
            command: Command::ReadMemory,
            payload: le_bytes(start) + le_bytes(length as u32),
            response_length: length,
        }
    }

    /// The order to erase `page`.
    pub open spec fn erase_page(page: Page) -> RequestView {
        RequestView { command: Command::ErasePage, payload: seq![page.0], response_length: 1 }
    }

    /// The order to write `data` to flash from `start`.
    pub open spec fn program(start: u32, data: Seq<u8>) -> RequestView {
        RequestView { command: Command::Program, payload: le_bytes(start) + data, response_length: 0 }
    }

    /// The order to leave the bootloader.
    pub open spec fn exit() -> RequestView {
        RequestView { command: Command::Exit, payload: Seq::empty(), response_length: 0 }
    }
}

impl Request {
    /// The query for the bootloader's metadata: no payload, one packet back.
    pub fn bootloader_info() -> (request: Request)
        ensures
            request@ == RequestView::bootloader_info(),
    {
        Request {
            command: Command::BootloaderInfo,
            payload: Vec::new(),
            response_length: INFO_PACKET_SIZE,
        }
    }

    /// The query for the target's checksum of `length` bytes from `start`: start address and
    /// length as payload, four bytes back.
    pub fn read_crc(start: u32, length: usize) -> (request: Request)
        ensures
            request@ == RequestView::read_crc(start, length),
    {
        let mut payload: Vec<u8> = Vec::new();
        push_le_u32(&mut payload, start);
        push_le_u32(&mut payload, #[verifier::truncate] (length as u32));
        Request { command: Command::ReadCrc, payload, response_length: 4 }
    }

    /// The query for the `length` bytes from `start`: start address and length as payload,
    /// `length` bytes back.
    pub fn read_memory(start: u32, length: usize) -> (request: Request)
        ensures
            request@ == RequestView::read_memory(start, length),
    {
        let mut payload: Vec<u8> = Vec::new();
        push_le_u32(&mut payload, start);
        push_le_u32(&mut payload, #[verifier::truncate] (length as u32));
        Request { command: Command::ReadMemory, payload, response_length: length }
    }

    /// The order to erase `page`: the page index as payload, one status byte back.
    pub fn erase_page(page: Page) -> (request: Request)
        ensures
            request@ == RequestView::erase_page(page),
    {
        let mut payload: Vec<u8> = Vec::new();
        payload.push(page.0);
        Request { command: Command::ErasePage, payload, response_length: 1 }
    }

    /// The order to write `data` to flash from `start`: the start address, then the data, as
    /// payload; nothing back.
    pub fn program(start: u32, data: &[u8]) -> (request: Request)
        ensures
            request@ == RequestView::program(start, data@),
    {
        let mut payload: Vec<u8> = Vec::new();
        push_le_u32(&mut payload, start);
        let mut i: usize = 0;
        while i < data.len()
            invariant
                i <= data@.len(),
                payload@ == le_bytes(start) + data@.take(i as int),
            decreases data.len() - i,
        {
            payload.push(data[i]);
            assert(payload@ =~= le_bytes(start) + data@.take(i + 1));
            i += 1;
        }
        assert(data@.take(i as int) =~= data@);
        Request { command: Command::Program, payload, response_length: 0 }
    }

    /// The order to leave the bootloader: no payload, nothing back.
    pub fn exit() -> (request: Request)
        ensures
            request@ == RequestView::exit(),
    {
        Request { command: Command::Exit, payload: Vec::new(), response_length: 0 }
    }
}

/// `response` as a buffer of `length` zero bytes that the received bytes were written over
/// from its start.
pub open spec fn filled(response: Seq<u8>, length: nat) -> Seq<u8> {
    Seq::new(
        length,
        |i: int|
            if i < response.len() {
                response[i]
            } else {
                0u8
            },
    )
}

/// The checksum that the response to a [`Request::read_crc`] carries.
pub fn decode_crc(response: &[u8]) -> (crc: u32)
    ensures
        crc == le_u32(filled(response@, 4)),
{
    let b0 = if response.len() > 0 { response[0] } else { 0 };
    let b1 = if response.len() > 1 { response[1] } else { 0 };
    let b2 = if response.len() > 2 { response[2] } else { 0 };
    let b3 = if response.len() > 3 { response[3] } else { 0 };
    b0 as u32 + b1 as u32 * 256 + b2 as u32 * 65536 + b3 as u32 * 16777216
}

/// The status code that the response to a [`Request::erase_page`] carries.
pub open spec fn erase_status(response: Seq<u8>) -> u8 {
    filled(response, 1)[0]
}

/// What a status code of the target says of a page erase: zero is success, any other code
/// an erase error of the kind it stands for.
pub open spec fn erase_result(status: u8) -> Result<(), Error> {
    if status == 0 {
        Ok(())
    } else {
        Err(Error::EraseError(EraseError::of_code(status)))
    }
}

/// Reads the response to a [`Request::erase_page`].
pub fn decode_erase_status(response: &[u8]) -> (result: Result<(), Error>)
    ensures
        result == erase_result(erase_status(response@)),
{
    let status = if response.len() > 0 { response[0] } else { 0 };
    if status == 0 {
        Ok(())
    } else {
        Err(Error::EraseError(EraseError::from(status)))
    }
}

} // verus!
