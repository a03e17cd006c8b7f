//! Splitting an address range into pages for paginated reads.
use vstd::prelude::*;

verus! {

/// The largest number of bytes asked for in one read.
pub const PAGE_SIZE: usize = 1024;

/// Number of pages in the plan of a range of `length` bytes.
pub open spec fn page_count(length: int) -> int {
    if length <= PAGE_SIZE {
        1
    } else {
        (length + PAGE_SIZE - 1) / PAGE_SIZE as int
    }
}

/// The `i`-th pair of the plan of a range longer than a page.
pub open spec fn page_at(start: int, length: int, i: int) -> (int, int) {
    let offset = i * PAGE_SIZE;
    (start + offset, if length - offset < PAGE_SIZE { length - offset } else { PAGE_SIZE as int })
}

/// The plan of `(start, length)`: one pair when the range fits in a page,
/// else pages of `PAGE_SIZE` bytes from `start`, the last one holding what is left.
pub open spec fn chunk_plan(start: int, length: int) -> Seq<(int, int)> {
    if length <= PAGE_SIZE {
        seq![(start, length)]
    } else {
        Seq::new(page_count(length) as nat, |i: int| page_at(start, length, i))
    }
}

/// Sum of the lengths of a plan.
pub open spec fn total_length(plan: Seq<(int, int)>) -> int
    decreases plan.len(),
{
    if plan.len() == 0 {
        0
    } else {
        total_length(plan.drop_last()) + plan.last().1
    }
}

/// A plan held in machine integers, read as a plan over `int`.
pub open spec fn plan_view(v: Seq<(usize, usize)>) -> Seq<(int, int)> {
    v.map_values(|p: (usize, usize)| (p.0 as int, p.1 as int))
}

pub(crate) proof fn lemma_page_bounds(length: int, i: int)
    requires
        length > PAGE_SIZE,
        0 <= i < page_count(length),
    ensures
        i * PAGE_SIZE < length,
        length <= page_count(length) * PAGE_SIZE,
        i < page_count(length) - 1 ==> (i + 1) * PAGE_SIZE < length,
{
    let n = page_count(length);
    assert(n == (length + 1023) / 1024);
    assert(i * 1024 < length && length <= n * 1024 && (i < n - 1 ==> (i + 1) * 1024 < length))
        by (nonlinear_arith)
        requires
            n == (length + 1023) / 1024,
            0 <= i < n,
            length > 1024,
    ;
}

proof fn lemma_prefix_total(start: int, length: int, m: int)
    requires
        length > PAGE_SIZE,
        0 <= m <= page_count(length),
    ensures
        total_length(chunk_plan(start, length).subrange(0, m)) == if m * PAGE_SIZE <= length {
            m * PAGE_SIZE
        } else {
            length
        },
    decreases m,
{
    let plan = chunk_plan(start, length);
    if m > 0 {
        lemma_prefix_total(start, length, m - 1);
        lemma_page_bounds(length, m - 1);
        assert(plan.subrange(0, m).drop_last() =~= plan.subrange(0, m - 1));
        assert((m - 1) * PAGE_SIZE + PAGE_SIZE == m * PAGE_SIZE) by (nonlinear_arith);
    }
}

/// For a range longer than a page, the plan starts at `start`; each pair holds
/// between one byte and a page; every pair but the last holds a full page and
/// ends where the next one begins; and the lengths add up to `length`.
pub proof fn lemma_plan_covers_range(start: int, length: int)
    requires
        length > PAGE_SIZE,
    ensures
        ({
            let plan = chunk_plan(start, length);
            &&& plan.len() > 0
            &&& plan[0].0 == start
            &&& total_length(plan) == length
            &&& forall|i: int| 0 <= i < plan.len() ==> 0 < #[trigger] plan[i].1 <= PAGE_SIZE
            &&& forall|i: int|
                0 <= i < plan.len() - 1 ==> #[trigger] plan[i].1 == PAGE_SIZE && plan[i + 1].0
                    == plan[i].0 + plan[i].1
        }),
{
    let plan = chunk_plan(start, length);
    let n = page_count(length);
    lemma_page_bounds(length, 0);
    lemma_prefix_total(start, length, n);
    assert(plan.subrange(0, n) =~= plan);
    assert forall|i: int| 0 <= i < plan.len() implies 0 < #[trigger] plan[i].1 <= PAGE_SIZE by {
        lemma_page_bounds(length, i);
    }
    assert forall|i: int| 0 <= i < plan.len() - 1 implies #[trigger] plan[i].1 == PAGE_SIZE
        && plan[i + 1].0 == plan[i].0 + plan[i].1 by {
        lemma_page_bounds(length, i);
        assert((i + 1) * PAGE_SIZE == i * PAGE_SIZE + PAGE_SIZE) by (nonlinear_arith);
    }
}

/// Splits `length` bytes from `start` into pages of at most `PAGE_SIZE` bytes,
/// in ascending address order.
pub fn chunked_range(start: usize, length: usize) -> (r: Vec<(usize, usize)>)
    requires
        length <= PAGE_SIZE || start + length <= usize::MAX + 1,
    ensures
        plan_view(r@) == chunk_plan(start as int, length as int),
        r@.len() == chunk_plan(start as int, length as int).len(),
        length <= PAGE_SIZE ==> r@ == seq![(start, length)],
{
    let mut chunks: Vec<(usize, usize)> = Vec::new();
    if length > PAGE_SIZE {
        let mut total_bytes: usize = 0;
        while total_bytes < length
            invariant
                PAGE_SIZE < length,
                start + length <= usize::MAX + 1,
                total_bytes <= length,
                total_bytes <= chunks.len() * PAGE_SIZE,
                chunks.len() > 0 ==> (chunks.len() - 1) * PAGE_SIZE < length,
                total_bytes < length ==> total_bytes == chunks.len() * PAGE_SIZE,
                forall|i: int|
                    0 <= i < chunks.len() ==> (#[trigger] chunks@[i].0 as int, chunks@[i].1 as int)
                        == page_at(start as int, length as int, i),
            decreases length - total_bytes,
        {
            let rest = length - total_bytes;
            let current_page_size = if rest < PAGE_SIZE { rest } else { PAGE_SIZE };
            chunks.push((start + total_bytes, current_page_size));
            total_bytes = total_bytes + current_page_size;
        }
        let ghost n = chunks.len() as int;
        assert(n == page_count(length as int)) by (nonlinear_arith)
            requires
                n > 0,
                (n - 1) * 1024 < length,
                length <= n * 1024,
                length > 1024,
                page_count(length as int) == (length + 1023) / 1024,
        ;
    } else {
        chunks.push((start, length));
    }
    assert(plan_view(chunks@) =~= chunk_plan(start as int, length as int));
    assert(length <= PAGE_SIZE ==> chunks@ =~= seq![(start, length)]);
    chunks
}

} // verus!
