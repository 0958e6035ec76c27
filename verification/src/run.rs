//! Runs of consecutive blocks, and their conversion from and to sets of blocks.
use std::collections::BTreeSet;

use vstd::prelude::*;

use crate::error::{self, invalid_spec, BlockError, BlockErrorKind, BlockErrorView};
use crate::text::{self, decimal};

verus! {

/// `block_count` consecutive blocks from `start_block` on.
#[derive(Clone, Copy, Debug, PartialEq, Eq, Structural)]
pub struct BlockRun {
    pub start_block: u64,
    pub block_count: u64,
}

impl BlockRun {
    /// The first block past the run.
    pub open spec fn end(self) -> int {
        self.start_block + self.block_count
    }

    /// `block` is one of the `block_count` blocks from `start_block` on.
    pub open spec fn spans(self, block: u64) -> bool {
        self.start_block <= block < self.end()
    }

    /// `block` belongs to the run. A run whose end is not a 64-bit block number holds nothing.
    pub open spec fn covers(self, block: u64) -> bool {
        self.end() <= u64::MAX && self.spans(block)
    }

    /// Why the run is refused in a spec or an index at `path`.
    pub open spec fn fault(self, block_size: u64, path: Seq<char>) -> Option<BlockErrorView> {
        if self.block_count == 0 {
            Some(error::invalid_spec_error(path, "block run block_count must be non-zero"@))
        } else if self.end() > u64::MAX || self.end() * block_size > u64::MAX {
            Some(error::overflow_error())
        } else {
            None
        }
    }

    /// Why the run is refused in an index of a disk of `max_blocks` blocks.
    pub open spec fn index_fault(self, block_size: u64, max_blocks: u64, path: Seq<char>) -> Option<
        BlockErrorView,
    > {
        if self.fault(block_size, path) is Some {
            self.fault(block_size, path)
        } else if self.end() > max_blocks {
            Some(
                error::invalid_spec_error(
                    path,
                    "block run ends at block "@ + text::decimal_chars(self.end() as nat)
                        + ", beyond max block "@ + text::decimal_chars(max_blocks as nat),
                ),
            )
        } else {
            None
        }
    }

    /// The first block past the run.
    pub fn end_block_exclusive(self) -> (r: Result<u64, BlockError>)
        ensures
            error::reports(
                r,
                if self.end() > u64::MAX {
                    Some(error::overflow_error())
                } else {
                    None
                },
            ),
            r matches Ok(end) ==> end == self.end(),
    {
        match self.start_block.checked_add(self.block_count) {
            Some(end) => Ok(end),
            None => Err(BlockError::from_kind(BlockErrorKind::Overflow)),
        }
    }

    /// Whether `block` belongs to the run.
    pub fn contains_block(self, block: u64) -> (r: bool)
        ensures
            r == self.covers(block),
    {
        if block < self.start_block {
            return false;
        }
        match self.end_block_exclusive() {
            Ok(end_block) => block < end_block,
            Err(_) => false,
        }
    }

    /// The byte position just past the run.
    pub fn end_byte_offset(self, block_size: u64) -> (r: Result<u64, BlockError>)
        ensures
            error::reports(
                r,
                if self.end() > u64::MAX || self.end() * block_size > u64::MAX {
                    Some(error::overflow_error())
                } else {
                    None
                },
            ),
            r matches Ok(end) ==> end == self.end() * block_size,
    {
        let end_block: u64 = match self.end_block_exclusive() {
            Ok(end_block) => end_block,
            Err(error) => return Err(error),
        };
        match end_block.checked_mul(block_size) {
            Some(end) => Ok(end),
            None => Err(BlockError::from_kind(BlockErrorKind::Overflow)),
        }
    }
}

/// Refuses a run that is empty or that ends past the last 64-bit byte position.
pub fn validate_run(run: BlockRun, block_size: u64, path: &str) -> (r: Result<(), BlockError>)
    ensures
        error::reports(r, run.fault(block_size, path@)),
{
    if run.block_count == 0 {
        return Err(invalid_spec(path, "block run block_count must be non-zero".to_owned()));
    }
    match run.end_byte_offset(block_size) {
        Ok(_) => Ok(()),
        Err(error) => Err(error),
    }
}

/// Adds every block of `run` to `blocks`.
pub fn add_run_blocks(
    blocks: &mut BTreeSet<u64>,
    run: BlockRun,
    block_size: u64,
    max_blocks: u64,
    path: &str,
) -> (r: Result<(), BlockError>)
    ensures
        error::reports(r, run.index_fault(block_size, max_blocks, path@)),
        r is Ok ==> forall|b: u64|
            final(blocks)@.contains(b) <==> old(blocks)@.contains(b) || run.covers(b),
        r is Err ==> final(blocks)@ == old(blocks)@,
{
    match validate_run(run, block_size, path) {
        Ok(()) => {},
        Err(error) => return Err(error),
    }
    let end: u64 = match run.end_block_exclusive() {
        Ok(end) => end,
        Err(error) => return Err(error),
    };
    if end > max_blocks {
        let mut message = "block run ends at block ".to_owned();
        message.append(decimal(end).as_str());
        message.append(", beyond max block ");
        message.append(decimal(max_blocks).as_str());
        return Err(invalid_spec(path, message));
    }
    let mut block: u64 = run.start_block;
    while block < end
        invariant
            run.start_block <= block <= end,
            end == run.end(),
            forall|b: u64|
                blocks@.contains(b) <==> old(blocks)@.contains(b) || run.start_block <= b < block,
        decreases end - block,
    {
        blocks.insert(block);
        block = block + 1;
    }
    Ok(())
}

/// Some run of `runs` covers `block`.
pub open spec fn runs_cover(runs: Seq<BlockRun>, block: u64) -> bool {
    exists|i: int| 0 <= i < runs.len() && (#[trigger] runs[i]).covers(block)
}

/// Some run of `runs` spans `block`.
pub open spec fn runs_span(runs: Seq<BlockRun>, block: u64) -> bool {
    exists|i: int| 0 <= i < runs.len() && (#[trigger] runs[i]).spans(block)
}

/// `runs` is in ascending order, every run is non-empty, and between two runs at least one block
/// is missing.
pub open spec fn canonical_runs(runs: Seq<BlockRun>) -> bool {
    &&& forall|i: int|
        0 <= i < runs.len() ==> (#[trigger] runs[i]).block_count > 0 && runs[i].end() <= u64::MAX
            + 1
    &&& forall|i: int, j: int|
        0 <= i < j < runs.len() ==> (#[trigger] runs[i]).end() < (#[trigger] runs[j]).start_block
}

/// What a `BTreeSet<u64>` lists, it lists in strictly ascending order.
pub proof fn lemma_listing_ascends(listing: Seq<&u64>)
    requires
        vstd::std_specs::btree::increasing_seq(listing),
    ensures
        forall|i: int, j: int| 0 <= i < j < listing.len() ==> *listing[i] < *listing[j],
{
    broadcast use vstd::laws_cmp::group_laws_cmp;

    assert(vstd::laws_cmp::obeys_cmp::<u64>());
    assert(vstd::laws_cmp::obeys_cmp::<&u64>());
    assert forall|i: int, j: int| 0 <= i < j < listing.len() implies *listing[i] < *listing[j] by {
        assert(vstd::std_specs::cmp::OrdSpec::cmp_spec(&listing[i], &listing[j]) is Less);
    }
}

/// `block` lies in a finished run or in the run being collected, given by its first and last block.
spec fn collected(runs: Seq<BlockRun>, current: Option<(u64, u64)>, block: u64) -> bool {
    runs_span(runs, block) || (current matches Some((start, last)) && start <= block <= last)
}

/// A finished run spans what it spanned while it was collected.
proof fn lemma_run_finished(runs: Seq<BlockRun>, start: u64, last: u64)
    requires
        start <= last,
        last - start < u64::MAX,
    ensures
        forall|b: u64| #[trigger]
            runs_span(
                runs.push(BlockRun { start_block: start, block_count: (last - start + 1) as u64 }),
                b,
            ) <==> collected(runs, Some((start, last)), b),
{
    let run = BlockRun { start_block: start, block_count: (last - start + 1) as u64 };
    let longer = runs.push(run);
    assert forall|b: u64| #[trigger] runs_span(longer, b) <==> collected(
        runs,
        Some((start, last)),
        b,
    ) by {
        if runs_span(runs, b) {
            let i = choose|i: int| 0 <= i < runs.len() && (#[trigger] runs[i]).spans(b);
            assert(longer[i].spans(b));
        }
        if start <= b <= last {
            assert(longer[runs.len() as int].spans(b));
        }
    }
}

/// The runs that hold exactly the blocks of a set: the shortest such list, in ascending order.
pub fn runs_from_blocks(blocks: &BTreeSet<u64>) -> (r: Vec<BlockRun>)
    ensures
        canonical_runs(r@),
        forall|b: u64| blocks@.contains(b) <==> runs_span(r@, b),
{
    let mut runs: Vec<BlockRun> = Vec::new();
    // The run being collected: its first and its last block so far.
    let mut current: Option<(u64, u64)> = None;
    let block_total: usize = blocks.len();
    for block in it: blocks.iter()
        invariant
            it.seq().unref().to_set() == blocks@,
            it.seq().len() == block_total,
            vstd::std_specs::btree::increasing_seq(it.seq()),
            canonical_runs(runs@),
            current is None ==> it.index() == 0 && runs@.len() == 0,
            current matches Some((start, last)) ==> {
                &&& it.index() > 0
                &&& start <= last
                &&& last - start < it.index()
                &&& last == *it.seq()[it.index() - 1]
                &&& forall|i: int| 0 <= i < runs@.len() ==> (#[trigger] runs@[i]).end() < start
            },
            forall|i: int|
                0 <= i < it.index() ==> collected(runs@, current, *#[trigger] it.seq()[i]),
            forall|b: u64| #[trigger] collected(runs@, current, b) ==> blocks@.contains(b),
    {
        proof {
            lemma_listing_ascends(it.seq());
            assert(it.seq().unref()[it.index()] == *block);
            assert(blocks@.contains(*block));
        }
        let ghost runs_before = runs@;
        let ghost current_before = current;
        match current {
            Some((start, last)) => {
                proof {
                    assert(last < *block);
                    lemma_run_finished(runs@, start, last);
                }
                if *block == last + 1 {
                    current = Some((start, *block));
                } else {
                    runs.push(BlockRun { start_block: start, block_count: last - start + 1 });
                    current = Some((*block, *block));
                }
            },
            None => {
                current = Some((*block, *block));
            },
        }
        proof {
            assert forall|b: u64|
                #[trigger] collected(runs@, current, b) <==> collected(
                    runs_before,
                    current_before,
                    b,
                ) || b == *block by {
                assert(runs_span(runs@, b) || !runs_span(runs@, b));
            }
        }
    }
    if let Some((start, last)) = current {
        proof {
            lemma_run_finished(runs@, start, last);
        }
        runs.push(BlockRun { start_block: start, block_count: last - start + 1 });
    }
    runs
}

/// A run holds its `block_count` blocks from `start_block` on, as long as it ends at a 64-bit block
/// number.
pub proof fn law_run_blocks(run: BlockRun, block: u64)
    ensures
        run.end() == run.start_block + run.block_count,
        run.spans(block) <==> run.start_block <= block && block - run.start_block
            < run.block_count,
        run.covers(block) <==> run.start_block <= block && block - run.start_block
            < run.block_count && run.start_block + run.block_count <= u64::MAX,
{
}

/// Some run of a list holds a block exactly when the block is among those of one of its runs.
pub proof fn law_runs_blocks(runs: Seq<BlockRun>, block: u64)
    ensures
        runs_span(runs, block) <==> exists|i: int|
            0 <= i < runs.len() && (#[trigger] runs[i]).start_block <= block && block
                - runs[i].start_block < runs[i].block_count,
        runs_cover(runs, block) <==> exists|i: int|
            0 <= i < runs.len() && (#[trigger] runs[i]).start_block <= block && block
                - runs[i].start_block < runs[i].block_count && runs[i].start_block
                + runs[i].block_count <= u64::MAX,
{
    if runs_span(runs, block) {
        let i = choose|i: int| 0 <= i < runs.len() && (#[trigger] runs[i]).spans(block);
        assert(runs[i].start_block <= block);
    }
    if runs_cover(runs, block) {
        let i = choose|i: int| 0 <= i < runs.len() && (#[trigger] runs[i]).covers(block);
        assert(runs[i].start_block <= block);
    }
    if exists|i: int|
        0 <= i < runs.len() && (#[trigger] runs[i]).start_block <= block && block
            - runs[i].start_block < runs[i].block_count {
        let i = choose|i: int|
            0 <= i < runs.len() && (#[trigger] runs[i]).start_block <= block && block
                - runs[i].start_block < runs[i].block_count;
        assert(runs[i].spans(block));
    }
    if exists|i: int|
        0 <= i < runs.len() && (#[trigger] runs[i]).start_block <= block && block
            - runs[i].start_block < runs[i].block_count && runs[i].start_block
            + runs[i].block_count <= u64::MAX {
        let i = choose|i: int|
            0 <= i < runs.len() && (#[trigger] runs[i]).start_block <= block && block
                - runs[i].start_block < runs[i].block_count && runs[i].start_block
                + runs[i].block_count <= u64::MAX;
        assert(runs[i].covers(block));
    }
}

/// A run is accepted in a spec exactly when it is not empty and ends at a 64-bit byte position, and
/// in an index exactly when it also ends on the disk. An empty run is a fault of the file; a
/// position that does not fit is an overflow.
pub proof fn law_run_accepted(run: BlockRun, block_size: u64, max_blocks: u64, path: Seq<char>)
    ensures
        ({
            let end = run.start_block + run.block_count;
            let fits = end <= u64::MAX && end * block_size <= u64::MAX;
            let fault = run.fault(block_size, path);
            let index_fault = run.index_fault(block_size, max_blocks, path);
            &&& fault is None <==> run.block_count > 0 && fits
            &&& index_fault is None <==> run.block_count > 0 && fits && end <= max_blocks
            &&& fault is Some ==> index_fault == fault
            &&& run.block_count == 0 ==> fault->0.kind is InvalidFormat && fault->0.path == Some(
                path,
            ) && fault->0.message == Some("block run block_count must be non-zero"@)
            &&& run.block_count > 0 && !fits ==> fault->0.kind is Overflow && fault->0.path is None
                && fault->0.message is None
            &&& run.block_count > 0 && fits && end > max_blocks ==> index_fault->0.kind
                is InvalidFormat && index_fault->0.path == Some(path) && index_fault->0.message
                == Some(
                "block run ends at block "@ + text::decimal_chars(end as nat)
                    + ", beyond max block "@ + text::decimal_chars(max_blocks as nat),
            )
        }),
{
}

/// A set of blocks has one list of runs: two lists that are in order, without empty runs and
/// without neighbours, and that hold the same blocks, are equal.
pub proof fn law_canonical_runs_unique(a: Seq<BlockRun>, b: Seq<BlockRun>)
    requires
        canonical_runs(a),
        canonical_runs(b),
        forall|block: u64| runs_span(a, block) <==> runs_span(b, block),
    ensures
        a == b,
    decreases a.len(),
{
    if a.len() == 0 {
        if b.len() > 0 {
            assert(b[0].spans(b[0].start_block));
            assert(runs_span(b, b[0].start_block));
        }
        assert(a =~= b);
    } else {
        assert(a[0].spans(a[0].start_block));
        assert(runs_span(a, a[0].start_block));
        assert(runs_span(b, a[0].start_block));
        assert(b.len() > 0);
        assert(b[0].spans(b[0].start_block));
        assert(runs_span(b, b[0].start_block));
        assert(runs_span(a, b[0].start_block));
        lemma_least(a, b[0].start_block);
        lemma_least(b, a[0].start_block);
        assert(a[0].start_block == b[0].start_block);
        lemma_first_gap(a, b);
        lemma_first_gap(b, a);
        assert(a[0].end() == b[0].end());
        let rest_a = a.drop_first();
        let rest_b = b.drop_first();
        assert forall|block: u64| runs_span(rest_a, block) <==> runs_span(rest_b, block) by {
            lemma_rest_spans(a, block);
            lemma_rest_spans(b, block);
        }
        assert(canonical_runs(rest_a)) by {
            assert forall|i: int, j: int| 0 <= i < j < rest_a.len() implies (
            #[trigger] rest_a[i]).end() < (#[trigger] rest_a[j]).start_block by {
                assert(a[i + 1].end() < a[j + 1].start_block);
            }
        }
        assert(canonical_runs(rest_b)) by {
            assert forall|i: int, j: int| 0 <= i < j < rest_b.len() implies (
            #[trigger] rest_b[i]).end() < (#[trigger] rest_b[j]).start_block by {
                assert(b[i + 1].end() < b[j + 1].start_block);
            }
        }
        law_canonical_runs_unique(rest_a, rest_b);
        assert(a =~= seq![a[0]] + rest_a);
        assert(b =~= seq![b[0]] + rest_b);
    }
}

/// The first run of a list in order begins with the least block.
proof fn lemma_least(runs: Seq<BlockRun>, block: u64)
    requires
        canonical_runs(runs),
        runs_span(runs, block),
    ensures
        runs.len() > 0,
        runs[0].start_block <= block,
{
    let i = choose|i: int| 0 <= i < runs.len() && (#[trigger] runs[i]).spans(block);
    if i > 0 {
        assert(runs[0].end() < runs[i].start_block);
    }
}

/// Where the first runs of two lists of the same blocks begin together, one does not end before
/// the other.
proof fn lemma_first_gap(a: Seq<BlockRun>, b: Seq<BlockRun>)
    requires
        canonical_runs(a),
        canonical_runs(b),
        a.len() > 0,
        b.len() > 0,
        a[0].start_block == b[0].start_block,
        forall|block: u64| runs_span(a, block) <==> runs_span(b, block),
    ensures
        a[0].end() >= b[0].end(),
{
    if a[0].end() < b[0].end() {
        let gap = a[0].end() as u64;
        assert(b[0].spans(gap));
        assert(runs_span(b, gap));
        assert(runs_span(a, gap));
        let i = choose|i: int| 0 <= i < a.len() && (#[trigger] a[i]).spans(gap);
        if i > 0 {
            assert(a[0].end() < a[i].start_block);
        }
    }
}

/// The runs after the first hold what the list holds but for the first run.
proof fn lemma_rest_spans(runs: Seq<BlockRun>, block: u64)
    requires
        canonical_runs(runs),
        runs.len() > 0,
    ensures
        runs_span(runs.drop_first(), block) <==> runs_span(runs, block) && !runs[0].spans(block),
{
    let rest = runs.drop_first();
    if runs_span(rest, block) {
        let i = choose|i: int| 0 <= i < rest.len() && (#[trigger] rest[i]).spans(block);
        assert(rest[i] == runs[i + 1]);
        assert(runs[i + 1].spans(block));
        assert(runs[0].end() < runs[i + 1].start_block);
    }
    if runs_span(runs, block) && !runs[0].spans(block) {
        let i = choose|i: int| 0 <= i < runs.len() && (#[trigger] runs[i]).spans(block);
        assert(rest[i - 1] == runs[i]);
        assert(rest[i - 1].spans(block));
    }
}

/// The list of runs of a set takes no more runs than it must: no run is empty, and the block
/// before and the block after each run are not in the set.
pub proof fn law_runs_maximal(runs: Seq<BlockRun>, i: int)
    requires
        canonical_runs(runs),
        0 <= i < runs.len(),
    ensures
        runs[i].block_count > 0,
        runs[i].start_block > 0 ==> !runs_span(runs, (runs[i].start_block - 1) as u64),
        runs[i].start_block + runs[i].block_count <= u64::MAX ==> !runs_span(
            runs,
            (runs[i].start_block + runs[i].block_count) as u64,
        ),
{
    let first = runs[i].start_block;
    let end = runs[i].start_block + runs[i].block_count;
    if first > 0 && runs_span(runs, (first - 1) as u64) {
        let before = (first - 1) as u64;
        let k = choose|k: int| 0 <= k < runs.len() && (#[trigger] runs[k]).spans(before);
        assert(k < i ==> runs[k].end() < runs[i].start_block);
        assert(i < k ==> runs[i].end() < runs[k].start_block);
    }
    if end <= u64::MAX && runs_span(runs, end as u64) {
        let k = choose|k: int| 0 <= k < runs.len() && (#[trigger] runs[k]).spans(end as u64);
        assert(k < i ==> runs[k].end() < runs[i].start_block);
        assert(i < k ==> runs[i].end() < runs[k].start_block);
    }
}

} // verus!
