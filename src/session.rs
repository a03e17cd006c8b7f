//! The decisions of the client's operations, apart from the transport: what
//! to send, and what a reassembled response means for the operation.
use vstd::prelude::*;
use vstd::string::*;
use crate::chunk::{chunk_plan, chunked_range, lemma_page_bounds, page_count, plan_view, PAGE_SIZE};
use crate::request::{envelope_text, optional_plain, plain_envelope_text, strings_view, upper_hex, Opcode, Request, Space};
use crate::results::{ResultData, ResultModel};
use crate::Qusb2snesError;

verus! {

/// The text to send for `req`. The codec never fails on a request; were it
/// to, its error would come back as a message error.
pub fn encode_request(req: &Request) -> (r: Result<String, Qusb2snesError>)
    ensures
        r matches Ok(t) && t@ == envelope_text(*req),
        optional_plain(strings_view(req.flags)) && optional_plain(strings_view(req.operands)) ==> (
        r matches Ok(t) && t@ == plain_envelope_text(*req)),
{
    match req.to_json() {
        Ok(t) => Ok(t),
        Err(e) => Err(Qusb2snesError::MessageError { source: e }),
    }
}

/// The strings of a text response; any other response is a frame error
/// whose message is `context`.
pub fn expect_text(data: ResultData, context: &str) -> (r: Result<Vec<String>, Qusb2snesError>)
    ensures
        match data@ {
            ResultModel::Text(v) => r matches Ok(x) && x@ == v,
            ResultModel::Binary(_) => r matches Err(Qusb2snesError::FrameError { msg }) && msg@
                == context@,
        },
{
    match data {
        ResultData::Text(v) => Ok(v),
        ResultData::Binary(_) => Err(Qusb2snesError::FrameError { msg: String::from_str(context) }),
    }
}

/// The bytes of a binary response; any other response is a frame error.
pub fn expect_binary(data: ResultData) -> (r: Result<Vec<u8>, Qusb2snesError>)
    ensures
        match data@ {
            ResultModel::Binary(b) => r matches Ok(x) && x@ == b,
            ResultModel::Text(_) => r matches Err(e) && e is FrameError,
        },
{
    match data {
        ResultData::Binary(b) => Ok(b),
        ResultData::Text(_) => Err(
            Qusb2snesError::FrameError { msg: String::from_str("Unable to decode response") },
        ),
    }
}

/// The byte runs of a list of responses, joined in order.
pub open spec fn joined(pages: Seq<Seq<u8>>) -> Seq<u8>
    decreases pages.len(),
{
    if pages.len() == 0 {
        Seq::empty()
    } else {
        joined(pages.drop_last()) + pages.last()
    }
}

proof fn lemma_joined_prefix(start: int, length: int, device: Seq<u8>, pages: Seq<Seq<u8>>, m: int)
    requires
        length > PAGE_SIZE,
        device.len() == length,
        pages.len() == chunk_plan(start, length).len(),
        forall|i: int|
            0 <= i < pages.len() ==> #[trigger] pages[i] == device.subrange(
                chunk_plan(start, length)[i].0 - start,
                chunk_plan(start, length)[i].0 - start + chunk_plan(start, length)[i].1,
            ),
        0 <= m <= pages.len(),
    ensures
        joined(pages.take(m)) == device.take(
            if m * PAGE_SIZE <= length {
                m * PAGE_SIZE
            } else {
                length
            },
        ),
    decreases m,
{
    if m == 0 {
        assert(device.take(0) =~= Seq::<u8>::empty());
    } else {
        lemma_joined_prefix(start, length, device, pages, m - 1);
        lemma_page_bounds(length, m - 1);
        assert(pages.take(m).drop_last() =~= pages.take(m - 1));
        assert((m - 1) * PAGE_SIZE + PAGE_SIZE == m * PAGE_SIZE) by (nonlinear_arith);
        let lo = (m - 1) * PAGE_SIZE;
        let hi = if m * PAGE_SIZE <= length {
            m * PAGE_SIZE
        } else {
            length
        };
        assert(pages[m - 1] == device.subrange(lo, hi));
        assert(device.take(lo) + device.subrange(lo, hi) =~= device.take(hi));
    }
}

/// Where each page of a read holds the device's bytes at the addresses that
/// its request named, the pages joined in plan order are the whole range in
/// ascending address order: the byte at `start + k` stands at `k`.
pub proof fn lemma_pages_in_address_order(
    start: int,
    length: int,
    device: Seq<u8>,
    pages: Seq<Seq<u8>>,
)
    requires
        length >= 0,
        device.len() == length,
        pages.len() == chunk_plan(start, length).len(),
        forall|i: int|
            0 <= i < pages.len() ==> #[trigger] pages[i] == device.subrange(
                chunk_plan(start, length)[i].0 - start,
                chunk_plan(start, length)[i].0 - start + chunk_plan(start, length)[i].1,
            ),
    ensures
        joined(pages) == device,
{
    if length <= PAGE_SIZE {
        assert(pages[0] == device.subrange(0, length));
        assert(pages.drop_last() =~= Seq::<Seq<u8>>::empty());
        assert(joined(pages.drop_last()) == Seq::<u8>::empty());
        assert(joined(pages) == Seq::<u8>::empty() + pages[0]);
        assert(device.subrange(0, length) =~= device);
        assert(Seq::<u8>::empty() + pages[0] =~= device);
    } else {
        let n = page_count(length);
        lemma_joined_prefix(start, length, device, pages, n);
        lemma_page_bounds(length, 0);
        assert(pages.take(n) =~= pages);
        assert(device.take(length) =~= device);
    }
}

/// Whether every response is binary.
pub open spec fn all_binary(responses: Seq<ResultData>) -> bool {
    forall|i: int| 0 <= i < responses.len() ==> #[trigger] responses[i]@ is Binary
}

/// The bytes of each binary response (none for any other).
pub open spec fn response_pages(responses: Seq<ResultData>) -> Seq<Seq<u8>> {
    responses.map_values(
        |d: ResultData|
            match d@ {
                ResultModel::Binary(b) => b,
                ResultModel::Text(_) => Seq::empty(),
            },
    )
}

/// A read of an address range, one page per request, in the order of the
/// range's chunk plan. Each binary response is appended to the memory read
/// so far; the first response that is not binary ends the read with an
/// error.
pub struct AddressRead {
    plan: Vec<(usize, usize)>,
    next: usize,
    memory: Vec<u8>,
    pages: Ghost<Seq<Seq<u8>>>,
}

impl AddressRead {
    /// The pages to ask for, in order.
    pub closed spec fn plan(&self) -> Seq<(int, int)> {
        plan_view(self.plan@)
    }

    /// How many pages have been read.
    pub closed spec fn pages_read(&self) -> int {
        self.next as int
    }

    /// The bytes of each page read so far, in plan order.
    pub closed spec fn pages(&self) -> Seq<Seq<u8>> {
        self.pages@
    }

    /// The memory read so far.
    pub closed spec fn memory(&self) -> Seq<u8> {
        self.memory@
    }

    /// The memory read so far is the pages read, joined in plan order, and
    /// no more pages were read than the plan holds.
    pub closed spec fn wf(&self) -> bool {
        &&& self.next <= self.plan@.len()
        &&& self.pages@.len() == self.next
        &&& self.memory@ == joined(self.pages@)
    }

    /// Starts a read of `length` bytes from `offset`.
    pub fn new(offset: usize, length: usize) -> (r: Self)
        requires
            length <= PAGE_SIZE || offset + length <= usize::MAX + 1,
        ensures
            r.wf(),
            r.plan() == chunk_plan(offset as int, length as int),
            r.pages_read() == 0,
            r.memory() == Seq::<u8>::empty(),
    {
        AddressRead {
            plan: chunked_range(offset, length),
            next: 0,
            memory: Vec::new(),
            pages: Ghost(Seq::empty()),
        }
    }

    /// Whether every page of the plan has been read.
    pub fn is_done(&self) -> (r: bool)
        requires
            self.wf(),
        ensures
            r == (self.pages_read() == self.plan().len()),
    {
        self.next == self.plan.len()
    }

    /// The request for the next page, or `None` once every page is read.
    pub fn next_request(&self) -> (r: Option<Request>)
        requires
            self.wf(),
        ensures
            self.pages_read() == self.plan().len() ==> r is None,
            self.pages_read() < self.plan().len() ==> (r matches Some(req) && req.opcode
                == Opcode::GetAddress && req.space == Space::Snes && req.flags is None
                && strings_view(req.operands) == Some(
                seq![
                    upper_hex(self.plan()[self.pages_read()].0 as nat),
                    upper_hex(self.plan()[self.pages_read()].1 as nat),
                ],
            )),
    {
        if self.next < self.plan.len() {
            let (start, len) = self.plan[self.next];
            Some(Request::get_address(start, len))
        } else {
            None
        }
    }

    /// Takes the response to the request for the next page: a binary one is
    /// appended to the memory read; any other one is a frame error, and
    /// changes nothing.
    pub fn take_response(&mut self, data: ResultData) -> (r: Result<(), Qusb2snesError>)
        requires
            old(self).wf(),
            old(self).pages_read() < old(self).plan().len(),
        ensures
            final(self).wf(),
            final(self).plan() == old(self).plan(),
            match data@ {
                ResultModel::Binary(b) => {
                    &&& r is Ok
                    &&& final(self).pages_read() == old(self).pages_read() + 1
                    &&& final(self).pages() == old(self).pages().push(b)
                    &&& final(self).memory() == old(self).memory() + b
                },
                ResultModel::Text(_) => {
                    &&& r matches Err(e) && e is FrameError
                    &&& *final(self) == *old(self)
                },
            },
    {
        match expect_binary(data) {
            Ok(mut page) => {
                let ghost b = page@;
                let planned = self.plan.len();
                assert(plan_view(self.plan@).len() == planned);
                self.memory.append(&mut page);
                self.pages = Ghost(self.pages@.push(b));
                self.next = self.next + 1;
                assert(self.pages@.drop_last() =~= old(self).pages@);
                Ok(())
            },
            Err(e) => Err(e),
        }
    }

    /// Runs a whole read of `length` bytes from `offset` over the responses
    /// to its page requests, in plan order: the pages joined in order when
    /// every response is binary, else a frame error and no memory.
    pub fn run(offset: usize, length: usize, responses: Vec<ResultData>) -> (r: Result<
        Vec<u8>,
        Qusb2snesError,
    >)
        requires
            length <= PAGE_SIZE || offset + length <= usize::MAX + 1,
            responses@.len() == chunk_plan(offset as int, length as int).len(),
        ensures
            all_binary(responses@) ==> (r matches Ok(m) && m@ == joined(response_pages(responses@))),
            !all_binary(responses@) ==> (r matches Err(e) && e is FrameError),
    {
        let mut read = AddressRead::new(offset, length);
        let ghost all = responses@;
        let mut rest = responses;
        let ghost mut k: int = 0;
        while rest.len() > 0
            invariant
                all == responses@,
                read.wf(),
                read.plan() == chunk_plan(offset as int, length as int),
                read.pages_read() == k,
                0 <= k <= all.len(),
                all.len() == read.plan().len(),
                rest@ == all.subrange(k, all.len() as int),
                all_binary(all.take(k)),
                read.pages() == response_pages(all.take(k)),
            decreases rest.len(),
        {
            let data = rest.remove(0);
            assert(data == all[k]);
            let ghost d = data@;
            match read.take_response(data) {
                Ok(()) => {},
                Err(e) => {
                    assert(!all_binary(all)) by {
                        assert(!(all[k]@ is Binary));
                    }
                    return Err(e);
                },
            }
            proof {
                assert(all.take(k + 1) =~= all.take(k).push(all[k]));
                assert(response_pages(all.take(k + 1)) =~= response_pages(all.take(k)).push(
                    d->Binary_0,
                ));
                k = k + 1;
            }
            assert(rest@ =~= all.subrange(k, all.len() as int));
        }
        assert(all.take(k) =~= all);
        Ok(read.into_memory())
    }

    /// The memory read, once every page is read.
    pub fn into_memory(self) -> (r: Vec<u8>)
        requires
            self.wf(),
        ensures
            r@ == self.memory(),
            r@ == joined(self.pages()),
    {
        self.memory
    }
}

} // verus!
