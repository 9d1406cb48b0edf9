//! Geometry of the target microcontroller's flash memory.

use vstd::prelude::*;
use vstd::std_specs::convert::FromSpecImpl;

verus! {

/// Address of the first byte in the target microcontroller's flash.
pub const FLASH_BASE: u32 = 0x0800_0000;

/// Flash page size of the target microcontroller.
pub const PAGE_SIZE: u32 = 1024;

/// Number of pages a page index can tell apart.
pub const PAGE_COUNT: u32 = 256;

/// Address of the first byte behind the last page that a page index can name.
pub const FLASH_END: u32 = 0x0804_0000;

/// Whether `address` lies in one of the pages that a page index can name.
pub open spec fn in_flash(address: int) -> bool {
    FLASH_BASE <= address < FLASH_END
}

/// Whether each byte of `[start, start + length)` lies in one of the pages that a page index
/// can name.
pub open spec fn area_in_flash(start: int, length: int) -> bool {
    FLASH_BASE <= start && start + length <= FLASH_END
}

/// Tests whether each byte of `[start, start + length)` lies in one of the pages that a page
/// index can name.
pub fn is_area_in_flash(start: u32, length: usize) -> (inside: bool)
    ensures
        inside == area_in_flash(start as int, length as int),
{
    start >= FLASH_BASE && start <= FLASH_END && length <= (FLASH_END - start) as usize
}

/// Index of the page that holds `address`.
pub open spec fn page_index_of(address: int) -> int {
    (address - FLASH_BASE) / (PAGE_SIZE as int)
}

/// A page in the target microcontroller's flash memory.
#[derive(Clone, Copy, Debug, PartialEq, Eq, Structural, PartialOrd, Ord)]
pub struct Page(pub u8);

impl Page {
    /// The first address in the page, as a mathematical integer.
    pub open spec fn spec_begin(self) -> int {
        self.0 * PAGE_SIZE + FLASH_BASE
    }

    /// The address of the last byte of the page, as a mathematical integer.
    pub open spec fn spec_end(self) -> int {
        (self.0 + 1) * PAGE_SIZE + FLASH_BASE - 1
    }

    /// Whether the page shares at least one byte with `[start, start + length)`.
    pub open spec fn overlaps(self, start: int, length: int) -> bool {
        length > 0 && self.spec_begin() < start + length && start <= self.spec_end()
    }

    /// Creates a page from its index, starting at 0 at [`FLASH_BASE`], with each page being
    /// [`PAGE_SIZE`] bytes.
    pub fn from_index(index: u8) -> (page: Page)
        ensures
            page.0 == index,
    {
        Page(index)
    }

    /// Refers to the page containing the given address.
    pub fn from_address(address: u32) -> (page: Page)
        requires
            in_flash(address as int),
        ensures
            page.0 == page_index_of(address as int),
            page.spec_begin() <= address <= page.spec_end(),
    {
        let index: u32 = (address - FLASH_BASE) / PAGE_SIZE;
        Page(index as u8)
    }

    /// The first address in a page.
    pub fn begin(&self) -> (address: u32)
        ensures
            address == self.spec_begin(),
    {
        self.0 as u32 * PAGE_SIZE + FLASH_BASE
    }

    /// Returns the address of the last byte of a page.
    pub fn end(&self) -> (address: u32)
        ensures
            address == self.spec_end(),
    {
        (self.0 as u32 + 1) * PAGE_SIZE + FLASH_BASE - 1
    }
}

impl From<Page> for u8 {
    fn from(page: Page) -> (index: u8)
        ensures
            index == page.0,
    {
        page.0
    }
}

impl FromSpecImpl<Page> for u8 {
    open spec fn obeys_from_spec() -> bool {
        true
    }

    open spec fn from_spec(page: Page) -> u8 {
        page.0
    }
}

impl From<&Page> for u8 {
    fn from(page: &Page) -> (index: u8)
        ensures
            index == page.0,
    {
        page.0
    }
}

impl FromSpecImpl<&Page> for u8 {
    open spec fn obeys_from_spec() -> bool {
        true
    }

    open spec fn from_spec(page: &Page) -> u8 {
        page.0
    }
}

/// Every address in flash lies in exactly one page: the page it is mapped to contains it, and
/// no other page does.
pub proof fn lemma_pages_partition_flash(address: int, page: Page)
    requires
        in_flash(address),
    ensures
        FLASH_END == FLASH_BASE + PAGE_COUNT * PAGE_SIZE,
        0 <= page_index_of(address) < PAGE_COUNT,
        (page.spec_begin() <= address <= page.spec_end()) <==> page.0 == page_index_of(address),
{
}

/// Pages are contiguous and do not overlap: each page starts right after the one before it.
pub proof fn lemma_pages_contiguous(page: Page, next: Page)
    requires
        next.0 == page.0 + 1,
    ensures
        next.spec_begin() == page.spec_end() + 1,
        page.spec_begin() <= page.spec_end(),
{
}

} // verus!
