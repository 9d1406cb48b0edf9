//! Contains data structures for information the bootloader reports back to the connecting PC.

use crate::flash::{area_in_flash, page_index_of, Page};
use crate::text::{append_digits, decimal, decimal_digits, lemma_decimal_len, string_from_utf8};
use std::ops::RangeInclusive;
use vstd::prelude::*;
use vstd::slice::slice_to_vec;
use vstd::string::StringExecFns;
use vstd::utf8::{decode_utf8, valid_utf8};

verus! {

/// Represents a version number as used for the bootloader firmware version.
#[derive(Debug, Clone, Copy, PartialEq, Eq, Structural)]
pub struct Version {
    /// The major version, incremented for breaking changes.
    pub major: u8,
    /// The minor version, incremented when features are added in a backwards-compatible manner.
    pub minor: u8,
    /// The patch version, incremented for backwards-compatible bug fixes.
    pub patch: u8,
}

/// Supplementary information read back from the bootloader.
#[derive(Debug)]
pub struct BootloaderInfo {
    /// Build number of the bootloader.
    pub build_number: u32,
    /// Build date of the bootloader, formatted as an ISO 8601 date (`YYYY-MM-DD`).
    pub build_date: String,
    /// Start address of the application flash.
    pub application_base: u32,
    /// Size of the flash available for the application (in bytes).
    pub application_size: usize,
    /// Bootloader firmware version.
    pub version: Version,
    /// Identifier string, usually containing the MCU MPN.
    pub identifier: String,
}

impl BootloaderInfo {
    /// Whether `[start, start + length)` lies inside the application flash.
    pub open spec fn contains(&self, start: int, length: int) -> bool {
        self.application_base <= start && start + length <= self.application_base
            + self.application_size
    }

    /// Whether the application flash holds at least one byte and lies in the pages that a
    /// page index can name.
    pub open spec fn has_pages(&self) -> bool {
        &&& self.application_size >= 1
        &&& area_in_flash(self.application_base as int, self.application_size as int)
    }

    /// The page that holds the first byte of the application flash.
    pub open spec fn first_page(&self) -> Page {
        Page(page_index_of(self.application_base as int) as u8)
    }

    /// The page that holds the last byte of the application flash.
    pub open spec fn last_page(&self) -> Page {
        Page(page_index_of(self.application_base + self.application_size - 1) as u8)
    }

    /// Whether `page` holds a byte of the application flash.
    pub open spec fn has_page(&self, page: Page) -> bool {
        self.has_pages() && self.first_page().0 <= page.0 <= self.last_page().0
    }

    /// Returns the first and the last application page.
    pub fn page_bounds(&self) -> (bounds: (Page, Page))
        requires
            self.has_pages(),
        ensures
            bounds.0 == self.first_page(),
            bounds.1 == self.last_page(),
            bounds.0.0 <= bounds.1.0,
    {
        let last: u32 = self.application_base + (self.application_size as u32 - 1);
        (Page::from_address(self.application_base), Page::from_address(last))
    }

    /// Returns a range containing all application pages.
    pub fn application_pages(&self) -> (pages: RangeInclusive<Page>)
        requires
            self.has_pages(),
        ensures
            pages@.start == self.first_page(),
            pages@.end == self.last_page(),
            !pages@.exhausted,
            self.first_page().0 <= self.last_page().0,
    {
        let (first, last) = self.page_bounds();
        RangeInclusive::new(first, last)
    }
}

/// A page holds a byte of the application flash exactly if it overlaps the flash's range.
pub proof fn lemma_has_page_iff_overlaps(info: BootloaderInfo, page: Page)
    requires
        info.has_pages(),
    ensures
        info.has_page(page) <==> page.overlaps(
            info.application_base as int,
            info.application_size as int,
        ),
{
}

/// The text of a build date: the decimal digits of the raw number with a separator after
/// the fourth and after the sixth.
pub open spec fn date_text(raw: u32) -> Seq<char> {
    let digits = decimal(raw as nat);
    digits.take(4) + seq!['-'] + digits.subrange(4, 6) + seq!['-'] + digits.skip(6)
}

/// Formats a raw build date. There is no such text for a number of less than six digits.
pub fn format_build_date(raw: u32) -> (text: Option<String>)
    ensures
        text is Some <==> raw >= 100_000,
        text matches Some(date) ==> date@ == date_text(raw),
{
    let digits = decimal_digits(raw);
    proof {
        lemma_decimal_len(raw as nat);
        reveal_strlit("-");
    }
    if digits.len() < 6 {
        return None;
    }
    let mut date = String::new();
    append_digits(&mut date, &digits, 0, 4);
    date.append("-");
    append_digits(&mut date, &digits, 4, 6);
    date.append("-");
    append_digits(&mut date, &digits, 6, digits.len());
    assert(date@ =~= date_text(raw));
    Some(date)
}

/// Whether `bytes` can be an identifier: well-formed UTF-8 without a zero byte.
pub open spec fn is_identifier(bytes: Seq<u8>) -> bool {
    !bytes.contains(0u8) && valid_utf8(bytes)
}

/// Decodes the identifier that ends a bootloader information packet.
pub fn decode_identifier(bytes: &[u8]) -> (identifier: Option<String>)
    ensures
        identifier is Some <==> is_identifier(bytes@),
        identifier matches Some(text) ==> text@ == decode_utf8(bytes@),
{
    let mut i: usize = 0;
    while i < bytes.len()
        invariant
            i <= bytes@.len(),
            forall|k: int| 0 <= k < i ==> bytes@[k] != 0,
        decreases bytes.len() - i,
    {
        if bytes[i] == 0 {
            assert(bytes@.contains(0u8));
            return None;
        }
        i += 1;
    }
    string_from_utf8(slice_to_vec(bytes))
}

} // verus!
