//! Operations that take several command transactions: erasing pages, programming and
//! reading memory in chunks.
//!
//! An operation performs no I/O itself. It names the next transaction to make, takes the
//! outcome of that transaction, and reports the progress made or the failure. After a failure
//! it names no further transaction.

use crate::command::{decode_erase_status, erase_result, erase_status, request_view, Request, RequestView};
use crate::error::Error;
use crate::flash::{area_in_flash, page_index_of, Page};
use crate::target_handle::TargetHandle;
use vstd::prelude::*;
use vstd::slice::{slice_subrange, slice_to_vec};

verus! {

/// The outcome of a transaction with the received bytes as a sequence.
pub open spec fn reply_view(outcome: Result<Vec<u8>, Error>) -> Result<Seq<u8>, Error> {
    match outcome {
        Ok(response) => Ok(response@),
        Err(error) => Err(error),
    }
}

/// General-purpose trait for operations which take multiple command transactions, e.g.
/// reading or writing a larger section of memory in smaller blocks.
///
/// An operation is driven by asking it for the next transaction with
/// [`Operation::next_request`], performing that transaction, and handing its outcome to
/// [`Operation::record`], until no transaction is left.
pub trait Operation {
    /// The value in terms of which the progress is expressed.
    spec fn spec_total(&self) -> nat;

    /// The progress made so far.
    spec fn progress(&self) -> nat;

    /// Whether the operation has ended, in completion or in failure.
    spec fn finished(&self) -> bool;

    /// What holds of every operation from its construction on.
    spec fn wf(&self) -> bool;

    /// Returns the total value in terms of which the progress is expressed.
    ///
    /// For example, for an erase operation it would be the total number of pages, while for a
    /// flash read it would be the total number of bytes to be read.
    fn total(&self) -> (total: usize)
        requires
            self.wf(),
        ensures
            total == self.spec_total(),
            self.progress() <= total,
    ;

    /// The transaction to perform next, or `None` once the operation has ended.
    fn next_request(&self) -> (request: Option<Request>)
        requires
            self.wf(),
        ensures
            request is None <==> self.finished(),
    ;

    /// Takes the outcome of the transaction that [`Operation::next_request`] named: the bytes
    /// received, or the error. Returns the new progress, or the failure, which ends the
    /// operation; returns `None` and changes nothing once the operation has ended.
    fn record(&mut self, outcome: Result<Vec<u8>, Error>) -> (step: Option<Result<usize, Error>>)
        requires
            old(self).wf(),
        ensures
            final(self).wf(),
            final(self).spec_total() == old(self).spec_total(),
            step is None <==> old(self).finished(),
            old(self).finished() ==> final(self).finished() && final(self).progress() == old(
                self,
            ).progress(),
            !old(self).finished() ==> (outcome matches Err(error) ==> step == Some(
                Err::<usize, Error>(error),
            )),
            step matches Some(Err(_)) ==> final(self).finished() && final(self).progress()
                == old(self).progress(),
            step matches Some(Ok(progress)) ==> {
                &&& progress == final(self).progress()
                &&& old(self).progress() < progress <= final(self).spec_total()
                &&& final(self).finished() <==> progress == final(self).spec_total()
            },
    ;
}

/// The pages that share a byte with `[start, start + length)`, in rising order.
pub open spec fn page_span(start: int, length: int) -> Seq<Page> {
    if length <= 0 {
        Seq::empty()
    } else {
        let first = page_index_of(start);
        let last = page_index_of(start + length - 1);
        Seq::new((last - first + 1) as nat, |i: int| Page((first + i) as u8))
    }
}

/// An [`Erase`] as a mathematical value.
pub struct EraseState {
    /// The pages still to erase; the last one is erased next.
    pub pending: Seq<Page>,
    /// The number of pages that the operation started with.
    pub total: nat,
    /// Whether the operation was ended.
    pub done: bool,
}

impl EraseState {
    /// The operation that erases `pages`.
    pub open spec fn pages(pages: Seq<Page>) -> EraseState {
        EraseState { pending: pages, total: pages.len(), done: pages.len() == 0 }
    }

    /// The operation that erases the pages of `[start, start + length)`.
    pub open spec fn area(start: int, length: int) -> EraseState {
        EraseState::pages(page_span(start, length))
    }

    /// What holds of every erase operation.
    pub open spec fn wf(self) -> bool {
        self.pending.len() <= self.total <= usize::MAX
    }

    /// Whether the operation has ended.
    pub open spec fn finished(self) -> bool {
        self.done || self.pending.len() == 0
    }

    /// The number of pages erased so far.
    pub open spec fn progress(self) -> nat {
        (self.total - self.pending.len()) as nat
    }

    /// The transaction to perform next.
    pub open spec fn next_request(self) -> Option<RequestView> {
        if self.finished() {
            None
        } else {
            Some(RequestView::erase_page(self.pending.last()))
        }
    }

    /// What the outcome of the pending transaction means for the operation.
    pub open spec fn report(self, outcome: Result<Seq<u8>, Error>) -> Option<Result<usize, Error>> {
        if self.finished() {
            None
        } else {
            match outcome {
                Err(error) => Some(Err(error)),
                Ok(response) => match erase_result(erase_status(response)) {
                    Ok(_) => Some(Ok((self.progress() + 1) as usize)),
                    Err(error) => Some(Err(error)),
                },
            }
        }
    }

    /// The operation after the outcome of the pending transaction.
    pub open spec fn record(self, outcome: Result<Seq<u8>, Error>) -> EraseState {
        match self.report(outcome) {
            None => self,
            Some(Err(_)) => EraseState { done: true, ..self },
            Some(Ok(_)) => EraseState {
                pending: self.pending.drop_last(),
                done: self.pending.len() == 1,
                ..self
            },
        }
    }
}

/// Page-wise flash erase operation.
#[derive(Debug)]
pub struct Erase {
    pages: Vec<Page>,
    count: usize,
    done: bool,
}

impl View for Erase {
    type V = EraseState;

    closed spec fn view(&self) -> EraseState {
        EraseState { pending: self.pages@, total: self.count as nat, done: self.done }
    }
}

impl Erase {
    /// Erase a set of given pages (not necessarily a continuous range).
    pub(crate) fn pages(pages: &[Page]) -> (erase: Erase)
        ensures
            erase.wf(),
            erase@ == EraseState::pages(pages@),
    {
        Erase { done: pages.len() == 0, pages: slice_to_vec(pages), count: pages.len() }
    }

    /// Erase all necessary pages so that the flash area specified by a start address and length
    /// is completely erased. Due to the page-wise erase, this might erase memory outside the
    /// given area.
    pub(crate) fn area(start: u32, length: usize) -> (erase: Erase)
        requires
            length > 0 ==> area_in_flash(start as int, length as int),
        ensures
            erase.wf(),
            erase@ == EraseState::area(start as int, length as int),
    {
        let mut pages: Vec<Page> = Vec::new();
        if length > 0 {
            // No pages are erased if the area is zero-length
            let first: u8 = Page::from_address(start).into();
            let last: u8 = Page::from_address(start + (length as u32 - 1)).into();
            let mut index: u8 = first;
            loop
                invariant_except_break
                    pages@ == page_span(start as int, length as int).take(index - first),
                invariant
                    first <= index <= last,
                    first == page_index_of(start as int),
                    last == page_index_of(start + length - 1),
                    length > 0,
                ensures
                    pages@ == page_span(start as int, length as int),
                decreases last - index,
            {
                pages.push(Page::from_index(index));
                assert(pages@ =~= page_span(start as int, length as int).take(index - first + 1));
                if index == last {
                    assert(pages@ =~= page_span(start as int, length as int));
                    break;
                }
                index += 1;
            }
        }
        Erase { done: pages.len() == 0, count: pages.len(), pages }
    }
}

impl Operation for Erase {
    open spec fn spec_total(&self) -> nat {
        self@.total
    }

    open spec fn progress(&self) -> nat {
        self@.progress()
    }

    open spec fn finished(&self) -> bool {
        self@.finished()
    }

    open spec fn wf(&self) -> bool {
        self@.wf()
    }

    fn total(&self) -> (total: usize)
        ensures
            total == self@.total,
    {
        self.count
    }

    fn next_request(&self) -> (request: Option<Request>)
        ensures
            request_view(request) == self@.next_request(),
    {
        if self.done || self.pages.len() == 0 {
            None
        } else {
            Some(Request::erase_page(self.pages[self.pages.len() - 1]))
        }
    }

    fn record(&mut self, outcome: Result<Vec<u8>, Error>) -> (step: Option<Result<usize, Error>>)
        ensures
            step == old(self)@.report(reply_view(outcome)),
            final(self)@ == old(self)@.record(reply_view(outcome)),
    {
        if self.done || self.pages.len() == 0 {
            return None;
        }
        let result = match outcome {
            Err(error) => Err(error),
            Ok(response) => decode_erase_status(response.as_slice()),
        };
        match result {
            Ok(_) => {
                self.pages.pop();
                // The operation ends with the last page
                if self.pages.len() == 0 {
                    self.done = true;
                }
                Some(Ok(self.count - self.pages.len()))
            },
            Err(error) => {
                // No transaction is made after one has failed
                self.done = true;
                Some(Err(error))
            },
        }
    }
}

/// A [`Program`] as a mathematical value.
pub struct ProgramState {
    /// The bytes to write.
    pub data: Seq<u8>,
    /// The address that the first byte goes to.
    pub address: u32,
    /// The largest number of bytes that one transaction carries.
    pub chunk_size: nat,
    /// The number of bytes written so far.
    pub written: nat,
    /// Whether the operation was ended.
    pub done: bool,
}

impl ProgramState {
    /// The operation that writes `data` to `address` in chunks of at most `chunk_size` bytes.
    pub open spec fn at(data: Seq<u8>, address: u32, chunk_size: nat) -> ProgramState {
        ProgramState { data, address, chunk_size, written: 0, done: data.len() == 0 }
    }

    /// What holds of every program operation.
    pub open spec fn wf(self) -> bool {
        &&& self.chunk_size >= 1
        &&& self.written <= self.data.len() <= usize::MAX
        &&& self.address + self.data.len() <= 0x1_0000_0000
    }

    /// Whether the operation has ended.
    pub open spec fn finished(self) -> bool {
        self.done || self.written >= self.data.len()
    }

    /// The number of bytes that the next transaction carries.
    pub open spec fn chunk_len(self) -> nat {
        if self.data.len() - self.written < self.chunk_size {
            (self.data.len() - self.written) as nat
        } else {
            self.chunk_size
        }
    }

    /// The transaction to perform next.
    pub open spec fn next_request(self) -> Option<RequestView> {
        if self.finished() {
            None
        } else {
            Some(
                RequestView::program(
                    (self.address + self.written) as u32,
                    self.data.subrange(
                        self.written as int,
                        (self.written + self.chunk_len()) as int,
                    ),
                ),
            )
        }
    }

    /// What the outcome of the pending transaction means for the operation.
    pub open spec fn report(self, outcome: Result<Seq<u8>, Error>) -> Option<Result<usize, Error>> {
        if self.finished() {
            None
        } else {
            match outcome {
                Err(error) => Some(Err(error)),
                Ok(_) => Some(Ok((self.written + self.chunk_len()) as usize)),
            }
        }
    }

    /// The operation after the outcome of the pending transaction.
    pub open spec fn record(self, outcome: Result<Seq<u8>, Error>) -> ProgramState {
        match self.report(outcome) {
            None => self,
            Some(Err(_)) => ProgramState { done: true, ..self },
            Some(Ok(_)) => ProgramState { written: self.written + self.chunk_len(), ..self },
        }
    }
}

/// Flash program operation.
#[derive(Debug)]
pub struct Program<'d> {
    data: &'d [u8],
    address: u32,
    chunk_size: usize,
    written: usize,
    done: bool,
}

impl<'d> View for Program<'d> {
    type V = ProgramState;

    closed spec fn view(&self) -> ProgramState {
        ProgramState {
            data: self.data@,
            address: self.address,
            chunk_size: self.chunk_size as nat,
            written: self.written as nat,
            done: self.done,
        }
    }
}

impl<'d> Program<'d> {
    /// Write to flash, starting at a given memory location. The memory has to be manually
    /// erased before starting a programming operation.
    pub(crate) fn at(handle: &TargetHandle, data: &'d [u8], address: u32) -> (program: Program<'d>)
        requires
            address + data@.len() <= 0x1_0000_0000,
        ensures
            program.wf(),
            program@ == ProgramState::at(data@, address, handle.spec_max_program_chunk_size()),
    {
        Program {
            data,
            address,
            chunk_size: handle.max_program_chunk_size(),
            written: 0,
            done: data.len() == 0,
        }
    }
}

impl<'d> Operation for Program<'d> {
    open spec fn spec_total(&self) -> nat {
        self@.data.len()
    }

    open spec fn progress(&self) -> nat {
        self@.written
    }

    open spec fn finished(&self) -> bool {
        self@.finished()
    }

    open spec fn wf(&self) -> bool {
        self@.wf()
    }

    fn total(&self) -> (total: usize)
        ensures
            total == self@.data.len(),
    {
        self.data.len()
    }

    fn next_request(&self) -> (request: Option<Request>)
        ensures
            request_view(request) == self@.next_request(),
    {
        if self.done || self.written >= self.data.len() {
            None
        } else {
            let left: usize = self.data.len() - self.written;
            let length: usize = if left < self.chunk_size { left } else { self.chunk_size };
            let chunk = slice_subrange(self.data, self.written, self.written + length);
            Some(Request::program(self.address + self.written as u32, chunk))
        }
    }

    fn record(&mut self, outcome: Result<Vec<u8>, Error>) -> (step: Option<Result<usize, Error>>)
        ensures
            step == old(self)@.report(reply_view(outcome)),
            final(self)@ == old(self)@.record(reply_view(outcome)),
    {
        if self.done || self.written >= self.data.len() {
            return None;
        }
        match outcome {
            Ok(_) => {
                let left: usize = self.data.len() - self.written;
                let length: usize = if left < self.chunk_size { left } else { self.chunk_size };
                self.written = self.written + length;
                Some(Ok(self.written))
            },
            Err(error) => {
                // No transaction is made after one has failed
                self.done = true;
                Some(Err(error))
            },
        }
    }
}

/// `buffer` with `bytes` written over it from index `at` on.
pub open spec fn overwritten(buffer: Seq<u8>, at: int, bytes: Seq<u8>) -> Seq<u8> {
    Seq::new(
        buffer.len(),
        |i: int|
            if at <= i < at + bytes.len() {
                bytes[i - at]
            } else {
                buffer[i]
            },
    )
}

/// Writes the first `count` of `bytes` over `buffer` from index `at` on.
fn overwrite(buffer: &mut Vec<u8>, at: usize, bytes: &[u8], count: usize)
    requires
        count <= bytes@.len(),
        at + count <= old(buffer)@.len(),
    ensures
        final(buffer)@ == overwritten(old(buffer)@, at as int, bytes@.take(count as int)),
{
    let size: usize = buffer.len();
    let mut i: usize = 0;
    while i < count
        invariant
            i <= count <= bytes@.len(),
            at + count <= buffer@.len() == size,
            buffer@ == overwritten(old(buffer)@, at as int, bytes@.take(i as int)),
        decreases count - i,
    {
        buffer[at + i] = bytes[i];
        assert(buffer@ =~= overwritten(old(buffer)@, at as int, bytes@.take(i + 1)));
        i += 1;
    }
    assert(buffer@ =~= overwritten(old(buffer)@, at as int, bytes@.take(count as int)));
}

/// A [`Read`] as a mathematical value.
pub struct ReadState {
    /// The destination buffer; its first `read` bytes have been asked for.
    pub buffer: Seq<u8>,
    /// The address that the first byte comes from.
    pub address: u32,
    /// The largest number of bytes that one transaction carries.
    pub chunk_size: nat,
    /// The number of bytes read so far.
    pub read: nat,
    /// Whether the operation was ended.
    pub done: bool,
}

impl ReadState {
    /// The operation that fills `buffer` from `address` in chunks of at most `chunk_size`
    /// bytes.
    pub open spec fn at(buffer: Seq<u8>, address: u32, chunk_size: nat) -> ReadState {
        ReadState { buffer, address, chunk_size, read: 0, done: buffer.len() == 0 }
    }

    /// What holds of every read operation.
    pub open spec fn wf(self) -> bool {
        &&& self.chunk_size >= 1
        &&& self.read <= self.buffer.len() <= usize::MAX
        &&& self.address + self.buffer.len() <= 0x1_0000_0000
    }

    /// Whether the operation has ended.
    pub open spec fn finished(self) -> bool {
        self.done || self.read >= self.buffer.len()
    }

    /// The number of bytes that the next transaction asks for.
    pub open spec fn chunk_len(self) -> nat {
        if self.buffer.len() - self.read < self.chunk_size {
            (self.buffer.len() - self.read) as nat
        } else {
            self.chunk_size
        }
    }

    /// The transaction to perform next.
    pub open spec fn next_request(self) -> Option<RequestView> {
        if self.finished() {
            None
        } else {
            Some(
                RequestView::read_memory(
                    (self.address + self.read) as u32,
                    self.chunk_len() as usize,
                ),
            )
        }
    }

    /// What the outcome of the pending transaction means for the operation.
    pub open spec fn report(self, outcome: Result<Seq<u8>, Error>) -> Option<Result<usize, Error>> {
        if self.finished() {
            None
        } else {
            match outcome {
                Err(error) => Some(Err(error)),
                Ok(_) => Some(Ok((self.read + self.chunk_len()) as usize)),
            }
        }
    }

    /// The bytes of `response` that belong to the pending chunk: all of them, but no more
    /// than were asked for.
    pub open spec fn accepted(self, response: Seq<u8>) -> Seq<u8> {
        if response.len() <= self.chunk_len() {
            response
        } else {
            response.take(self.chunk_len() as int)
        }
    }

    /// The operation after the outcome of the pending transaction. The bytes received are
    /// written to the chunk's place in the buffer; where fewer came than were asked for, the
    /// rest of the chunk keeps what it held.
    pub open spec fn record(self, outcome: Result<Seq<u8>, Error>) -> ReadState {
        if self.finished() {
            self
        } else {
            match outcome {
                Err(_) => ReadState { done: true, ..self },
                Ok(response) => ReadState {
                    buffer: overwritten(self.buffer, self.read as int, self.accepted(response)),
                    read: self.read + self.chunk_len(),
                    ..self
                },
            }
        }
    }
}

/// Memory read operation.
#[derive(Debug)]
pub struct Read {
    buffer: Vec<u8>,
    address: u32,
    chunk_size: usize,
    read: usize,
    done: bool,
}

impl View for Read {
    type V = ReadState;

    closed spec fn view(&self) -> ReadState {
        ReadState {
            buffer: self.buffer@,
            address: self.address,
            chunk_size: self.chunk_size as nat,
            read: self.read as nat,
            done: self.done,
        }
    }
}

impl Read {
    /// Read from the microcontroller's memory to a buffer, starting at the supplied address.
    pub(crate) fn at(handle: &TargetHandle, buffer: Vec<u8>, address: u32) -> (read: Read)
        requires
            address + buffer@.len() <= 0x1_0000_0000,
        ensures
            read.wf(),
            read@ == ReadState::at(buffer@, address, handle.spec_max_read_chunk_size()),
    {
        Read {
            done: buffer.len() == 0,
            buffer,
            address,
            chunk_size: handle.max_read_chunk_size(),
            read: 0,
        }
    }

    /// The destination buffer as it is filled so far.
    pub fn buffer(&self) -> (buffer: &[u8])
        ensures
            buffer@ == self@.buffer,
    {
        self.buffer.as_slice()
    }

    /// Ends the operation and gives the destination buffer back.
    pub fn into_buffer(self) -> (buffer: Vec<u8>)
        ensures
            buffer@ == self@.buffer,
    {
        self.buffer
    }
}

impl Operation for Read {
    open spec fn spec_total(&self) -> nat {
        self@.buffer.len()
    }

    open spec fn progress(&self) -> nat {
        self@.read
    }

    open spec fn finished(&self) -> bool {
        self@.finished()
    }

    open spec fn wf(&self) -> bool {
        self@.wf()
    }

    fn total(&self) -> (total: usize)
        ensures
            total == self@.buffer.len(),
    {
        self.buffer.len()
    }

    fn next_request(&self) -> (request: Option<Request>)
        ensures
            request_view(request) == self@.next_request(),
    {
        if self.done || self.read >= self.buffer.len() {
            None
        } else {
            let left: usize = self.buffer.len() - self.read;
            let length: usize = if left < self.chunk_size { left } else { self.chunk_size };
            Some(Request::read_memory(self.address + self.read as u32, length))
        }
    }

    fn record(&mut self, outcome: Result<Vec<u8>, Error>) -> (step: Option<Result<usize, Error>>)
        ensures
            step == old(self)@.report(reply_view(outcome)),
            final(self)@ == old(self)@.record(reply_view(outcome)),
    {
        if self.done || self.read >= self.buffer.len() {
            return None;
        }
        match outcome {
            Ok(response) => {
                let left: usize = self.buffer.len() - self.read;
                let length: usize = if left < self.chunk_size { left } else { self.chunk_size };
                let count: usize = if response.len() < length { response.len() } else { length };
                assert(response@.take(count as int) =~= old(self)@.accepted(response@));
                overwrite(&mut self.buffer, self.read, response.as_slice(), count);
                self.read = self.read + length;
                Some(Ok(self.read))
            },
            Err(error) => {
                // No transaction is made after one has failed
                self.done = true;
                Some(Err(error))
            },
        }
    }
}

/// An erase of an area asks for exactly the pages that share a byte with the area, each of
/// them once: the smallest set of pages that covers it.
pub proof fn lemma_page_span_is_minimal_cover(start: int, length: int)
    requires
        length > 0,
        area_in_flash(start, length),
    ensures
        forall|page: Page| #[trigger]
            page_span(start, length).contains(page) <==> page.overlaps(start, length),
        page_span(start, length).no_duplicates(),
        page_span(start, length).len() == page_index_of(start + length - 1) - page_index_of(start)
            + 1,
{
    let span = page_span(start, length);
    let first = page_index_of(start);
    assert forall|page: Page| #[trigger] span.contains(page) <==> page.overlaps(start, length) by {
        if page.overlaps(start, length) {
            assert(span[page.0 - first] == page);
        }
    }
}

impl EraseState {
    /// The operation after `count` further page erases, each of which succeeded.
    pub open spec fn after_successes(self, count: nat) -> EraseState
        decreases count,
    {
        if count == 0 {
            self
        } else {
            self.record(Ok(seq![0u8])).after_successes((count - 1) as nat)
        }
    }
}

/// An erase in which nothing fails asks for each of its pages exactly once, the last one
/// first, counts one page more with each step, and ends with the first page.
pub proof fn lemma_erase_visits_each_page(state: EraseState, count: nat)
    requires
        state.wf(),
        state.done ==> state.pending.len() == 0,
        count <= state.pending.len(),
    ensures
        state.after_successes(count).pending == state.pending.take(state.pending.len() - count),
        state.after_successes(count).progress() == state.progress() + count,
        count < state.pending.len() ==> state.after_successes(count).next_request() == Some(
            RequestView::erase_page(state.pending[state.pending.len() - 1 - count]),
        ),
        count == state.pending.len() ==> state.after_successes(count).next_request() is None,
    decreases count,
{
    if count == 0 {
        assert(state.pending.take(state.pending.len() as int) =~= state.pending);
    } else {
        let next = state.record(Ok(seq![0u8]));
        assert(erase_status(seq![0u8]) == 0);
        lemma_erase_visits_each_page(next, (count - 1) as nat);
        assert(next.pending.take(next.pending.len() - (count - 1)) =~= state.pending.take(
            state.pending.len() - count,
        ));
    }
}

/// The smaller of two numbers.
pub open spec fn smaller(left: nat, right: nat) -> nat {
    if left < right {
        left
    } else {
        right
    }
}

impl ProgramState {
    /// The operation after `count` further transactions, each of which succeeded.
    pub open spec fn after_successes(self, count: nat) -> ProgramState
        decreases count,
    {
        if count == 0 {
            self
        } else {
            self.record(Ok(Seq::empty())).after_successes((count - 1) as nat)
        }
    }
}

impl ReadState {
    /// The operation after further transactions that succeeded with the given responses, one
    /// after the other.
    pub open spec fn after_responses(self, responses: Seq<Seq<u8>>) -> ReadState
        decreases responses.len(),
    {
        if responses.len() == 0 {
            self
        } else {
            self.record(Ok(responses[0])).after_responses(responses.drop_first())
        }
    }
}

/// A program operation in which nothing fails writes the data in chunks of the chunk size,
/// one after the other, each at its own address; only the last chunk may be shorter. After
/// `count` steps the progress is `count` times the chunk size, or the total if that is less.
pub proof fn lemma_program_walks_chunks(state: ProgramState, count: nat)
    requires
        state.wf(),
        !state.done,
    ensures
        state.after_successes(count).written == smaller(
            state.written + count * state.chunk_size,
            state.data.len(),
        ),
        state.written + count * state.chunk_size < state.data.len() ==> state.after_successes(
            count,
        ).next_request() == Some(
            RequestView::program(
                (state.address + state.written + count * state.chunk_size) as u32,
                state.data.subrange(
                    (state.written + count * state.chunk_size) as int,
                    smaller(
                        state.written + (count + 1) * state.chunk_size,
                        state.data.len(),
                    ) as int,
                ),
            ),
        ),
        state.written + count * state.chunk_size >= state.data.len() ==> state.after_successes(
            count,
        ).next_request() is None,
    decreases count,
{
    let size = state.chunk_size;
    assert((count + 1) * size == count * size + size) by (nonlinear_arith);
    if count > 0 {
        let fewer = (count - 1) as nat;
        let next = state.record(Ok(Seq::empty()));
        lemma_program_walks_chunks(next, fewer);
        assert(count * size == fewer * size + size && fewer * size >= 0) by (nonlinear_arith)
            requires
                count == fewer + 1,
                fewer >= 0,
                size >= 0,
        ;
    } else {
        assert(count * size == 0 && (count + 1) * size == size) by (nonlinear_arith)
            requires
                count == 0,
        ;
    }
}

/// A read in which nothing fails asks for the buffer's bytes in chunks of the chunk size, one
/// after the other, each at its own address; only the last chunk may be shorter. This holds
/// whatever the target sends, and however much of it.
pub proof fn lemma_read_walks_chunks(state: ReadState, responses: Seq<Seq<u8>>)
    requires
        state.wf(),
        !state.done,
    ensures
        state.after_responses(responses).buffer.len() == state.buffer.len(),
        state.after_responses(responses).read == smaller(
            state.read + responses.len() * state.chunk_size,
            state.buffer.len(),
        ),
        state.read + responses.len() * state.chunk_size < state.buffer.len()
            ==> state.after_responses(responses).next_request() == Some(
            RequestView::read_memory(
                (state.address + state.read + responses.len() * state.chunk_size) as u32,
                smaller(
                    state.chunk_size,
                    (state.buffer.len() - state.read - responses.len() * state.chunk_size) as nat,
                ) as usize,
            ),
        ),
        state.read + responses.len() * state.chunk_size >= state.buffer.len()
            ==> state.after_responses(responses).next_request() is None,
    decreases responses.len(),
{
    let size = state.chunk_size;
    let count = responses.len();
    if count > 0 {
        let fewer = (count - 1) as nat;
        let next = state.record(Ok(responses[0]));
        lemma_read_walks_chunks(next, responses.drop_first());
        assert(count * size == fewer * size + size && fewer * size >= 0) by (nonlinear_arith)
            requires
                count == fewer + 1,
                fewer >= 0,
                size >= 0,
        ;
    } else {
        assert(count * size == 0) by (nonlinear_arith)
            requires
                count == 0,
        ;
    }
}

/// What driving an operation to its end comes to, given the last step that it reported: the
/// failure if that step failed, success otherwise. An operation ends with its first failure,
/// so the last step is the only one that can have failed.
pub fn completion(last: Option<Result<usize, Error>>) -> (result: Result<(), Error>)
    ensures
        result == match last {
            Some(Err(error)) => Err::<(), Error>(error),
            _ => Ok(()),
        },
{
    match last {
        Some(Err(error)) => Err(error),
        _ => Ok(()),
    }
}

/// An operation on nothing has a total of zero and asks for no transaction.
pub proof fn lemma_empty_operations_are_finished(
    start: int,
    address: u32,
    chunk_size: nat,
)
    ensures
        EraseState::area(start, 0).total == 0,
        EraseState::area(start, 0).next_request() is None,
        EraseState::pages(Seq::empty()).next_request() is None,
        ProgramState::at(Seq::empty(), address, chunk_size).data.len() == 0,
        ProgramState::at(Seq::empty(), address, chunk_size).next_request() is None,
        ReadState::at(Seq::empty(), address, chunk_size).buffer.len() == 0,
        ReadState::at(Seq::empty(), address, chunk_size).next_request() is None,
{
}

/// Once a step of an erase has failed, the operation asks for no further transaction and
/// reports nothing, whatever is recorded afterwards.
pub proof fn lemma_erase_is_fused(
    state: EraseState,
    outcome: Result<Seq<u8>, Error>,
    later: Result<Seq<u8>, Error>,
)
    requires
        state.report(outcome) matches Some(Err(_)),
    ensures
        state.record(outcome).next_request() is None,
        state.record(outcome).report(later) is None,
        state.record(outcome).record(later) == state.record(outcome),
{
}

/// Once a step of a program operation has failed, the operation asks for no further
/// transaction and reports nothing, whatever is recorded afterwards.
pub proof fn lemma_program_is_fused(
    state: ProgramState,
    outcome: Result<Seq<u8>, Error>,
    later: Result<Seq<u8>, Error>,
)
    requires
        state.report(outcome) matches Some(Err(_)),
    ensures
        state.record(outcome).next_request() is None,
        state.record(outcome).report(later) is None,
        state.record(outcome).record(later) == state.record(outcome),
{
}

/// Once a step of a read has failed, the operation asks for no further transaction and
/// reports nothing, whatever is recorded afterwards.
pub proof fn lemma_read_is_fused(
    state: ReadState,
    outcome: Result<Seq<u8>, Error>,
    later: Result<Seq<u8>, Error>,
)
    requires
        state.report(outcome) matches Some(Err(_)),
    ensures
        state.record(outcome).next_request() is None,
        state.record(outcome).report(later) is None,
        state.record(outcome).record(later) == state.record(outcome),
{
}

/// A failed transaction always fails the step, with the transaction's own error; and an
/// erase whose transaction succeeded fails exactly if the target answered with a status
/// other than zero.
pub proof fn lemma_step_fails_with_transaction(
    erase: EraseState,
    program: ProgramState,
    read: ReadState,
    error: Error,
    response: Seq<u8>,
)
    requires
        !erase.finished(),
        !program.finished(),
        !read.finished(),
    ensures
        erase.report(Err(error)) == Some(Err::<usize, Error>(error)),
        program.report(Err(error)) == Some(Err::<usize, Error>(error)),
        read.report(Err(error)) == Some(Err::<usize, Error>(error)),
        program.report(Ok(response)) matches Some(Ok(_)),
        read.report(Ok(response)) matches Some(Ok(_)),
        erase.report(Ok(response)) matches Some(Ok(_)) <==> erase_status(response) == 0,
{
}

} // verus!
