//! The session with one opened target: its transfer limits and the checked operations.

use crate::bootloader_info::{
    date_text, decode_identifier, format_build_date, is_identifier, BootloaderInfo, Version,
};
use crate::checksum::{compare_checksums, crc32, crc32_of};
use crate::command::{decode_crc, filled, le_u32, read_ne_u32, read_version, Request, RequestView};
use crate::error::Error;
use crate::flash::{area_in_flash, is_area_in_flash, Page};
use crate::operation::{
    lemma_page_span_is_minimal_cover, Erase, EraseState, Operation, Program, ProgramState, Read,
    ReadState,
};
use vstd::prelude::*;
use vstd::utf8::decode_utf8;

verus! {

/// The bytes of a program packet that carry the start address and no data.
pub const PROGRAM_HEADER_SIZE: u16 = 4;

/// Contains the transfer limits of a connected target and allows operations on it to be
/// prepared.
#[derive(Debug)]
pub struct TargetHandle {
    /// USB endpoint buffer size for the data in endpoint.
    in_buffer_length: u16,
    /// USB endpoint buffer size for the data out endpoint.
    out_buffer_length: u16,
}

impl TargetHandle {
    #[verifier::type_invariant]
    spec fn usable(self) -> bool {
        self.in_buffer_length >= 1 && self.out_buffer_length > PROGRAM_HEADER_SIZE
    }

    /// The buffer size of the inbound bulk endpoint.
    pub closed spec fn in_buffer_length(self) -> u16 {
        self.in_buffer_length
    }

    /// The buffer size of the outbound bulk endpoint.
    pub closed spec fn out_buffer_length(self) -> u16 {
        self.out_buffer_length
    }

    /// Whether chunks can be cut for endpoints with these buffer sizes: a read chunk and a
    /// program chunk behind its header must each hold at least one byte.
    pub open spec fn usable_sizes(in_buffer_length: u16, out_buffer_length: u16) -> bool {
        in_buffer_length >= 1 && out_buffer_length > PROGRAM_HEADER_SIZE
    }

    /// The largest read chunk, as a mathematical integer.
    pub open spec fn spec_max_read_chunk_size(self) -> nat {
        self.in_buffer_length() as nat
    }

    /// The largest program chunk, as a mathematical integer.
    pub open spec fn spec_max_program_chunk_size(self) -> nat {
        (self.out_buffer_length() - PROGRAM_HEADER_SIZE) as nat
    }

    /// A handle for a target whose bulk endpoints have the given buffer sizes. A target whose
    /// endpoints leave no room for a chunk is not supported.
    pub fn new(in_buffer_length: u16, out_buffer_length: u16) -> (handle: Result<
        TargetHandle,
        Error,
    >)
        ensures
            handle is Ok <==> Self::usable_sizes(in_buffer_length, out_buffer_length),
            handle matches Ok(opened) ==> opened.in_buffer_length() == in_buffer_length
                && opened.out_buffer_length() == out_buffer_length,
            handle matches Err(error) ==> error == Error::UnsupportedTarget,
    {
        if in_buffer_length >= 1 && out_buffer_length > PROGRAM_HEADER_SIZE {
            Ok(TargetHandle { in_buffer_length, out_buffer_length })
        } else {
            Err(Error::UnsupportedTarget)
        }
    }

    /// Returns the maximum size of a single chunk for a memory read operation (limited by the
    /// USB endpoint buffer size).
    pub fn max_read_chunk_size(&self) -> (size: usize)
        ensures
            size == self.spec_max_read_chunk_size(),
            size >= 1,
    {
        proof {
            use_type_invariant(self);
        }
        self.in_buffer_length as usize
    }

    /// Returns the maximum size of a single chunk for a flash write operation (limited by the
    /// USB endpoint buffer size).
    pub fn max_program_chunk_size(&self) -> (size: usize)
        ensures
            size == self.spec_max_program_chunk_size(),
            size >= 1,
    {
        proof {
            use_type_invariant(self);
        }
        // The packets written via USB include not only the payload, but also the start
        // address. The payload size is thus 4 bytes smaller than the available buffer.
        (self.out_buffer_length - PROGRAM_HEADER_SIZE) as usize
    }

    /// Reads the response to a bootloader information query.
    ///
    /// The packet holds the build date, the build number, the base address and the size of
    /// the application flash, four bytes each; then major, minor and patch version, one byte
    /// each; then the identifier up to the packet's end.
    pub fn bootloader_info(&self, response: &[u8]) -> (info: Result<BootloaderInfo, Error>)
        ensures
            info is Ok <==> well_formed_info(response@),
            info matches Ok(parsed) ==> {
                &&& parsed.build_date@ == date_text(le_u32(response@))
                &&& parsed.build_number == le_u32(response@.skip(4))
                &&& parsed.application_base == le_u32(response@.skip(8))
                &&& parsed.application_size == le_u32(response@.skip(12))
                &&& parsed.version == Version {
                    major: response@[16],
                    minor: response@[17],
                    patch: response@[18],
                }
                &&& parsed.identifier@ == decode_utf8(response@.skip(INFO_HEADER_SIZE as int))
            },
            info matches Err(error) ==> error == Error::MalformedResponse,
    {
        if response.len() < INFO_HEADER_SIZE {
            return Err(Error::MalformedResponse);
        }
        let mut packet = response;
        let build_date = read_ne_u32(&mut packet);
        assert(packet@ =~= response@.skip(4));
        let build_number = read_ne_u32(&mut packet);
        assert(packet@ =~= response@.skip(8));
        let application_base = read_ne_u32(&mut packet);
        assert(packet@ =~= response@.skip(12));
        let application_size = read_ne_u32(&mut packet) as usize;
        assert(packet@ =~= response@.skip(16));
        let version = read_version(&mut packet);
        assert(packet@ =~= response@.skip(INFO_HEADER_SIZE as int));

        // Convert raw date integer to legible representation
        let build_date = match format_build_date(build_date) {
            Some(text) => text,
            None => {
                return Err(Error::MalformedResponse);
            },
        };

        // Convert the remainder of the packet to a String
        let identifier = match decode_identifier(packet) {
            Some(text) => text,
            None => {
                return Err(Error::MalformedResponse);
            },
        };

        Ok(
            BootloaderInfo {
                build_number,
                build_date,
                application_base,
                application_size,
                version,
                identifier,
            },
        )
    }

    /// Reads the response to a checksum query: four bytes, least significant first. Bytes
    /// that the target did not send count as zero.
    pub fn read_crc(&self, response: &[u8]) -> (crc: u32)
        ensures
            crc == le_u32(filled(response@, 4)),
    {
        decode_crc(response)
    }

    /// Verifies the supplied buffer against the checksum that the target reported for the
    /// memory region of the buffer's length.
    pub fn verify(&self, data: &[u8], reported: u32) -> (result: Result<(), Error>)
        ensures
            result is Ok <==> reported == crc32_of(data@),
            result matches Err(error) ==> error == Error::VerificationError,
    {
        compare_checksums(reported, crc32(data))
    }

    /// Erases a number of pages. Every page has to hold a part of the application flash.
    pub fn erase_pages(&self, info: &BootloaderInfo, pages: &[Page]) -> (erase: Result<
        Erase,
        Error,
    >)
        ensures
            erase is Ok <==> forall|i: int| 0 <= i < pages@.len() ==> info.has_page(pages@[i]),
            erase matches Ok(operation) ==> operation.wf() && operation@ == EraseState::pages(
                pages@,
            ),
            erase matches Err(error) ==> error == Error::InvalidRequest,
    {
        if pages.len() > 0 {
            if !window_in_flash(info) {
                assert(!info.has_page(pages@[0]));
                return Err(Error::InvalidRequest);
            }
            let (first_page, last_page) = info.page_bounds();
            let first: u8 = first_page.into();
            let last: u8 = last_page.into();
            let mut i: usize = 0;
            while i < pages.len()
                invariant
                    i <= pages@.len(),
                    info.has_pages(),
                    first == info.first_page().0,
                    last == info.last_page().0,
                    forall|k: int| 0 <= k < i ==> info.has_page(pages@[k]),
                decreases pages.len() - i,
            {
                let index: u8 = pages[i].into();
                if index < first || index > last {
                    assert(!info.has_page(pages@[i as int]));
                    return Err(Error::InvalidRequest);
                }
                i += 1;
            }
        }
        Ok(Erase::pages(pages))
    }

    /// Erases the minimum number of pages to ensure the supplied area is completely erased.
    /// This will, in general, erase a larger area due to the page-wise erase of the
    /// microcontroller's flash memory.
    pub fn erase_area(&self, info: &BootloaderInfo, start: u32, length: usize) -> (erase: Result<
        Erase,
        Error,
    >)
        ensures
            erase is Ok <==> erasable(info, start, length),
            erase matches Ok(operation) ==> operation.wf() && operation@ == EraseState::area(
                start as int,
                length as int,
            ),
            erase matches Err(error) ==> error == Error::InvalidRequest,
    {
        // Ensure that the requested area is fully within application flash
        if !window_contains(info, start, length) {
            return Err(Error::InvalidRequest);
        }
        // Ensure that every byte of the area lies in a page
        if length > 0 && !is_area_in_flash(start, length) {
            return Err(Error::InvalidRequest);
        }
        Ok(Erase::area(start, length))
    }

    /// Programs a buffer's contents into the microcontroller's flash at the given start
    /// address. The flash area must have been erased already for this operation to succeed.
    pub fn program_at<'d>(&self, info: &BootloaderInfo, data: &'d [u8], address: u32) -> (program:
        Result<Program<'d>, Error>)
        ensures
            program is Ok <==> programmable(info, address, data@.len()),
            program matches Ok(operation) ==> operation.wf() && operation@ == ProgramState::at(
                data@,
                address,
                self.spec_max_program_chunk_size(),
            ),
            program matches Err(error) ==> error == Error::InvalidRequest,
    {
        // Ensure that the area to be written to is fully within application flash
        if !window_contains(info, address, data.len()) {
            return Err(Error::InvalidRequest);
        }
        // Programming works halfword-wise and fails if the address is not aligned
        if address % 2 != 0 {
            return Err(Error::InvalidRequest);
        }
        if !is_addressable(address, data.len()) {
            return Err(Error::InvalidRequest);
        }
        Ok(Program::at(self, data, address))
    }

    /// Reads from the target's memory into a buffer.
    pub fn read_at(&self, info: &BootloaderInfo, buffer: Vec<u8>, address: u32) -> (read: Result<
        Read,
        Error,
    >)
        ensures
            read is Ok <==> readable(info, address, buffer@.len()),
            read matches Ok(operation) ==> operation.wf() && operation@ == ReadState::at(
                buffer@,
                address,
                self.spec_max_read_chunk_size(),
            ),
            read matches Err(error) ==> error == Error::InvalidRequest,
    {
        // Ensure that the requested area is fully within application flash
        if !window_contains(info, address, buffer.len()) {
            return Err(Error::InvalidRequest);
        }
        if !is_addressable(address, buffer.len()) {
            return Err(Error::InvalidRequest);
        }
        Ok(Read::at(self, buffer, address))
    }

    /// The transaction that lets the target exit from the bootloader and start its
    /// application. The session is of no use afterwards.
    pub fn exit_bootloader(&self) -> (request: Request)
        ensures
            request@ == RequestView::exit(),
    {
        Request::exit()
    }
}

/// The bytes of a bootloader information packet in front of the identifier.
pub const INFO_HEADER_SIZE: usize = 19;

/// Whether `packet` can be read as bootloader information: it holds all fields in front of
/// the identifier, a build date of at least six digits, and an identifier that is text.
pub open spec fn well_formed_info(packet: Seq<u8>) -> bool {
    &&& packet.len() >= INFO_HEADER_SIZE
    &&& le_u32(packet) >= 100_000
    &&& is_identifier(packet.skip(INFO_HEADER_SIZE as int))
}

/// Whether the bytes `[start, start + length)` all have an address of 32 bits.
pub open spec fn addressable(start: u32, length: nat) -> bool {
    start + length <= 0x1_0000_0000
}

/// Whether the area may be erased: it lies inside the application flash, and each of its
/// bytes in a page.
pub open spec fn erasable(info: &BootloaderInfo, start: u32, length: usize) -> bool {
    &&& info.contains(start as int, length as int)
    &&& length > 0 ==> area_in_flash(start as int, length as int)
}

/// Whether `length` bytes may be programmed at `address`: the area lies inside the
/// application flash and the address is even.
pub open spec fn programmable(info: &BootloaderInfo, address: u32, length: nat) -> bool {
    &&& info.contains(address as int, length as int)
    &&& address % 2 == 0
    &&& addressable(address, length)
}

/// Whether `length` bytes may be read from `address`: the area lies inside the application
/// flash.
pub open spec fn readable(info: &BootloaderInfo, address: u32, length: nat) -> bool {
    &&& info.contains(address as int, length as int)
    &&& addressable(address, length)
}

/// Tests whether `[start, start + length)` lies inside the application flash.
pub fn window_contains(info: &BootloaderInfo, start: u32, length: usize) -> (inside: bool)
    ensures
        inside == info.contains(start as int, length as int),
{
    if info.application_base > start {
        return false;
    }
    let offset: usize = (start - info.application_base) as usize;
    length <= info.application_size && offset <= info.application_size - length
}

/// Tests whether the application flash holds a byte and lies in the pages that a page index
/// can name.
pub fn window_in_flash(info: &BootloaderInfo) -> (inside: bool)
    ensures
        inside == info.has_pages(),
{
    info.application_size >= 1 && is_area_in_flash(info.application_base, info.application_size)
}

/// Tests whether the bytes `[start, start + length)` all have an address of 32 bits.
pub fn is_addressable(start: u32, length: usize) -> (fits: bool)
    ensures
        fits == addressable(start, length as nat),
{
    length == 0 || length - 1 <= (u32::MAX - start) as usize
}

/// A request that reaches outside the application flash is refused, whatever else holds of
/// it; so is programming at an odd address.
pub proof fn lemma_outside_requests_are_invalid(
    info: &BootloaderInfo,
    start: u32,
    length: usize,
)
    ensures
        !info.contains(start as int, length as int) ==> {
            &&& !erasable(info, start, length)
            &&& !programmable(info, start, length as nat)
            &&& !readable(info, start, length as nat)
        },
        start % 2 == 1 ==> !programmable(info, start, length as nat),
{
}

/// Where the application flash lies in the pages that a page index can name, an erase of an
/// area inside it is valid and asks for exactly the pages that share a byte with the area:
/// the smallest set of pages that covers it. Each of them is an application page.
pub proof fn lemma_erase_area_touches_minimal_pages(
    info: &BootloaderInfo,
    start: u32,
    length: usize,
)
    requires
        info.has_pages(),
        info.contains(start as int, length as int),
    ensures
        erasable(info, start, length),
        EraseState::area(start as int, length as int).wf(),
        EraseState::area(start as int, length as int).total == EraseState::area(
            start as int,
            length as int,
        ).pending.len(),
        EraseState::area(start as int, length as int).pending.no_duplicates(),
        forall|page: Page| #[trigger]
            EraseState::area(start as int, length as int).pending.contains(page)
                <==> page.overlaps(start as int, length as int),
        forall|page: Page| #[trigger]
            EraseState::area(start as int, length as int).pending.contains(page)
                ==> info.has_page(page),
{
    if length > 0 {
        lemma_page_span_is_minimal_cover(start as int, length as int);
    }
}

/// A request for nothing is valid wherever its address lies in or right behind the
/// application flash; programming nothing still asks for an even address.
pub proof fn lemma_empty_requests_are_valid(info: &BootloaderInfo, start: u32)
    requires
        info.contains(start as int, 0),
    ensures
        erasable(info, start, 0),
        readable(info, start, 0),
        programmable(info, start, 0) <==> start % 2 == 0,
{
}

/// Where the application flash lies in the pages that a page index can name, every area
/// inside it may be erased and read, and programmed if it starts at an even address.
pub proof fn lemma_inside_requests_are_valid(info: &BootloaderInfo, start: u32, length: usize)
    requires
        info.has_pages(),
        info.contains(start as int, length as int),
    ensures
        erasable(info, start, length),
        readable(info, start, length as nat),
        programmable(info, start, length as nat) <==> start % 2 == 0,
{
}

} // verus!
