//! The marks of the live overlay, and the index file that keeps them between runs.
use std::collections::BTreeSet;

use vstd::prelude::*;

use crate::error::{self, invalid_spec, BlockError, BlockErrorView};
use crate::model::{self, LiveView, RootfsView};
use crate::run::{self, add_run_blocks, runs_from_blocks, BlockRun};
use crate::step::LiveStep;
use crate::text::{self, decimal};

verus! {

/// The version of disk specs and live overlay indexes.
pub const SPEC_VERSION: u32 = 1;

/// The blocks that the live overlay overrides.
#[derive(Debug)]
pub struct LiveOverlay {
    dirty_blocks: BTreeSet<u64>,
    zero_blocks: BTreeSet<u64>,
}

impl View for LiveOverlay {
    type V = LiveView;

    closed spec fn view(&self) -> LiveView {
        LiveView { dirty: self.dirty_blocks@, zero: self.zero_blocks@ }
    }
}

impl LiveOverlay {
    /// An overlay that overrides nothing.
    pub fn new() -> (r: LiveOverlay)
        ensures
            r@ == (LiveView { dirty: Set::empty(), zero: Set::empty() }),
    {
        LiveOverlay { dirty_blocks: BTreeSet::new(), zero_blocks: BTreeSet::new() }
    }

    /// Whether the live file holds `block`.
    pub fn is_dirty(&self, block: u64) -> (r: bool)
        ensures
            r == self@.dirty.contains(block),
    {
        self.dirty_blocks.contains(&block)
    }

    /// Whether `block` is marked as zero.
    pub fn is_zero(&self, block: u64) -> (r: bool)
        ensures
            r == self@.zero.contains(block),
    {
        self.zero_blocks.contains(&block)
    }

    /// Carries out what `step` does to the marks. A step that works on the live file changes none.
    pub fn apply(&mut self, step: LiveStep)
        ensures
            final(self)@ == step.marked(old(self)@),
    {
        match step {
            LiveStep::MarkDirty { block } => {
                self.dirty_blocks.insert(block);
            },
            LiveStep::UnmarkDirty { block } => {
                self.dirty_blocks.remove(&block);
            },
            LiveStep::MarkZero { block } => {
                self.zero_blocks.insert(block);
            },
            LiveStep::UnmarkZero { block } => {
                self.zero_blocks.remove(&block);
            },
            _ => {},
        }
    }

    /// The index that records the marks.
    pub fn index(&self) -> (r: LiveOverlayIndex)
        ensures
            r.records(self@),
    {
        LiveOverlayIndex {
            version: SPEC_VERSION,
            dirty_runs: runs_from_blocks(&self.dirty_blocks),
            zero_runs: runs_from_blocks(&self.zero_blocks),
        }
    }
}

/// What the live overlay's index file holds.
#[derive(Clone, Debug)]
pub struct LiveOverlayIndex {
    pub version: u32,
    pub dirty_runs: Vec<BlockRun>,
    pub zero_runs: Vec<BlockRun>,
}

/// Why the first run of `runs` that is refused is refused.
pub open spec fn runs_fault(
    runs: Seq<BlockRun>,
    block_size: u64,
    max_blocks: u64,
    path: Seq<char>,
) -> Option<BlockErrorView>
    decreases runs.len(),
{
    if runs.len() == 0 {
        None
    } else if runs[0].index_fault(block_size, max_blocks, path) is Some {
        runs[0].index_fault(block_size, max_blocks, path)
    } else {
        runs_fault(runs.drop_first(), block_size, max_blocks, path)
    }
}

/// `block` is covered by runs of both lists, and no block before it is.
pub open spec fn first_shared(dirty: Seq<BlockRun>, zero: Seq<BlockRun>, block: u64) -> bool {
    &&& run::runs_cover(dirty, block)
    &&& run::runs_cover(zero, block)
    &&& forall|b: u64|
        b < block ==> !(#[trigger] run::runs_cover(dirty, b) && run::runs_cover(zero, b))
}

impl LiveOverlayIndex {
    /// The index holds exactly the marks of `live`, in the fewest runs.
    pub open spec fn records(self, live: LiveView) -> bool {
        &&& self.version == SPEC_VERSION
        &&& run::canonical_runs(self.dirty_runs@)
        &&& run::canonical_runs(self.zero_runs@)
        &&& forall|b: u64|
            live.dirty.contains(b) <==> #[trigger] run::runs_span(self.dirty_runs@, b)
        &&& forall|b: u64| live.zero.contains(b) <==> #[trigger] run::runs_span(self.zero_runs@, b)
    }

    /// The marks that the index describes.
    pub open spec fn describes(self, live: LiveView) -> bool {
        &&& forall|b: u64|
            live.dirty.contains(b) <==> #[trigger] run::runs_cover(self.dirty_runs@, b)
        &&& forall|b: u64| live.zero.contains(b) <==> #[trigger] run::runs_cover(self.zero_runs@, b)
    }

    /// Why the index at `path` is refused for a disk.
    pub open spec fn fault(self, block_size: u64, logical_size: u64, path: Seq<char>) -> Option<
        BlockErrorView,
    > {
        let max_blocks = model::block_count(logical_size, block_size) as u64;
        if self.version != SPEC_VERSION {
            Some(
                error::invalid_spec_error(
                    path,
                    "unsupported Tensorlake live overlay index version "@ + text::decimal_chars(
                        self.version as nat,
                    ) + ", expected "@ + text::decimal_chars(SPEC_VERSION as nat),
                ),
            )
        } else if runs_fault(self.dirty_runs@, block_size, max_blocks, path) is Some {
            runs_fault(self.dirty_runs@, block_size, max_blocks, path)
        } else if runs_fault(self.zero_runs@, block_size, max_blocks, path) is Some {
            runs_fault(self.zero_runs@, block_size, max_blocks, path)
        } else if exists|b: u64| first_shared(self.dirty_runs@, self.zero_runs@, b) {
            let shared = choose|b: u64| first_shared(self.dirty_runs@, self.zero_runs@, b);
            Some(
                error::invalid_spec_error(
                    path,
                    "live overlay block "@ + text::decimal_chars(shared as nat)
                        + " is both dirty and zero"@,
                ),
            )
        } else {
            None
        }
    }
}

/// `a / b`, rounded up.
fn div_ceil(a: u64, b: u64) -> (r: u64)
    requires
        b > 0,
    ensures
        r == model::block_count(a, b),
{
    let quotient: u64 = a / b;
    let rest: u64 = a % b;
    proof {
        assert(quotient <= a) by (nonlinear_arith)
            requires
                b > 0,
                quotient == a / b,
        ;
        assert(b == 1 ==> rest == 0);
        assert(quotient == u64::MAX ==> rest == 0) by (nonlinear_arith)
            requires
                b > 0,
                quotient == a / b,
                rest == a % b,
        ;
        assert(rest == 0 ==> (a + b - 1) / b as int == quotient) by (nonlinear_arith)
            requires
                b > 0,
                quotient == a / b,
                rest == a % b,
        ;
        assert(rest > 0 ==> (a + b - 1) / b as int == quotient + 1) by (nonlinear_arith)
            requires
                b > 0,
                quotient == a / b,
                rest == a % b,
        ;
    }
    if rest > 0 {
        quotient + 1
    } else {
        quotient
    }
}

/// Adds the blocks of every run, up to the first run that is refused.
fn add_runs(
    blocks: &mut BTreeSet<u64>,
    runs: &Vec<BlockRun>,
    block_size: u64,
    max_blocks: u64,
    path: &str,
) -> (r: Result<(), BlockError>)
    requires
        old(blocks)@ == Set::<u64>::empty(),
    ensures
        error::reports(r, runs_fault(runs@, block_size, max_blocks, path@)),
        r is Ok ==> forall|b: u64|
            final(blocks)@.contains(b) <==> #[trigger] run::runs_cover(runs@, b),
{
    let mut i: usize = 0;
    assert(runs@.skip(0) =~= runs@);
    while i < runs.len()
        invariant
            i <= runs.len(),
            runs_fault(runs@, block_size, max_blocks, path@) == runs_fault(
                runs@.skip(i as int),
                block_size,
                max_blocks,
                path@,
            ),
            forall|b: u64|
                blocks@.contains(b) <==> #[trigger] run::runs_cover(runs@.take(i as int), b),
        decreases runs.len() - i,
    {
        let ghost rest = runs@.skip(i as int);
        assert(rest[0] == runs@[i as int]);
        assert(rest.drop_first() =~= runs@.skip(i + 1));
        match add_run_blocks(blocks, runs[i], block_size, max_blocks, path) {
            Ok(()) => {},
            Err(error) => return Err(error),
        }
        proof {
            let done = runs@.take(i as int);
            let more = runs@.take(i + 1);
            assert forall|b: u64|
                blocks@.contains(b) <==> #[trigger] run::runs_cover(more, b) by {
                if run::runs_cover(done, b) {
                    let k = choose|k: int| 0 <= k < done.len() && (#[trigger] done[k]).covers(b);
                    assert(more[k].covers(b));
                }
                if run::runs_cover(more, b) {
                    let k = choose|k: int| 0 <= k < more.len() && (#[trigger] more[k]).covers(b);
                    if k < i {
                        assert(done[k].covers(b));
                    }
                }
                if runs[i as int].covers(b) {
                    assert(more[i as int].covers(b));
                }
            }
        }
        i = i + 1;
    }
    assert(runs@.take(i as int) =~= runs@);
    Ok(())
}

/// The least block that both sets hold.
fn least_common(a: &BTreeSet<u64>, b: &BTreeSet<u64>) -> (r: Option<u64>)
    ensures
        match r {
            Some(block) => a@.contains(block) && b@.contains(block) && forall|c: u64|
                c < block ==> !(#[trigger] a@.contains(c) && b@.contains(c)),
            None => forall|c: u64| !(#[trigger] a@.contains(c) && b@.contains(c)),
        },
{
    for block in it: a.iter()
        invariant
            it.seq().unref().to_set() == a@,
            vstd::std_specs::btree::increasing_seq(it.seq()),
            forall|k: int| 0 <= k < it.index() ==> !b@.contains(*#[trigger] it.seq()[k]),
    {
        proof {
            run::lemma_listing_ascends(it.seq());
            assert(it.seq().unref()[it.index()] == *block);
            assert(a@.contains(*block));
        }
        if b.contains(block) {
            assert forall|c: u64| c < *block implies !(#[trigger] a@.contains(c) && b@.contains(
                c,
            )) by {
                if a@.contains(c) {
                    assert(it.seq().unref().to_set().contains(c));
                    let k = choose|k: int|
                        0 <= k < it.seq().unref().len() && it.seq().unref()[k] == c;
                    assert(*it.seq()[k] == c);
                }
            }
            return Some(*block);
        }
    }
    None
}

/// Restores the overlay of a disk from what its index file holds. Without an index the overlay
/// overrides nothing.
pub fn load_live_overlay(
    index_path: Option<&str>,
    index: Option<&LiveOverlayIndex>,
    block_size: u64,
    logical_size: u64,
) -> (r: Result<LiveOverlay, BlockError>)
    requires
        index_path is Some && index is Some && index->0.version == SPEC_VERSION ==> block_size > 0,
    ensures
        index_path is None || index is None ==> (r matches Ok(live) && live@ == (LiveView {
            dirty: Set::empty(),
            zero: Set::empty(),
        })),
        index_path is Some && index is Some ==> error::reports(
            r,
            index->0.fault(block_size, logical_size, index_path->0@),
        ),
        index_path is Some && index is Some && r is Ok ==> index->0.describes(r->Ok_0@),
{
    let index_path = match index_path {
        Some(index_path) => index_path,
        None => return Ok(LiveOverlay::new()),
    };
    let index = match index {
        Some(index) => index,
        None => return Ok(LiveOverlay::new()),
    };
    if index.version != SPEC_VERSION {
        let mut message = "unsupported Tensorlake live overlay index version ".to_owned();
        message.append(decimal(index.version as u64).as_str());
        message.append(", expected ");
        message.append(decimal(SPEC_VERSION as u64).as_str());
        return Err(invalid_spec(index_path, message));
    }
    let max_blocks: u64 = div_ceil(logical_size, block_size);
    let mut dirty_blocks: BTreeSet<u64> = BTreeSet::new();
    let mut zero_blocks: BTreeSet<u64> = BTreeSet::new();
    match add_runs(&mut dirty_blocks, &index.dirty_runs, block_size, max_blocks, index_path) {
        Ok(()) => {},
        Err(error) => return Err(error),
    }
    match add_runs(&mut zero_blocks, &index.zero_runs, block_size, max_blocks, index_path) {
        Ok(()) => {},
        Err(error) => return Err(error),
    }
    if let Some(block) = least_common(&dirty_blocks, &zero_blocks) {
        proof {
            assert(first_shared(index.dirty_runs@, index.zero_runs@, block));
            let shared = choose|b: u64| first_shared(index.dirty_runs@, index.zero_runs@, b);
            assert(shared == block);
        }
        let mut message = "live overlay block ".to_owned();
        message.append(decimal(block).as_str());
        message.append(" is both dirty and zero");
        return Err(invalid_spec(index_path, message));
    }
    Ok(LiveOverlay { dirty_blocks, zero_blocks })
}

/// No run is refused exactly when each is accepted.
proof fn lemma_runs_accepted(
    runs: Seq<BlockRun>,
    block_size: u64,
    max_blocks: u64,
    path: Seq<char>,
)
    ensures
        runs_fault(runs, block_size, max_blocks, path) is None <==> forall|i: int|
            0 <= i < runs.len() ==> (#[trigger] runs[i]).index_fault(
                block_size,
                max_blocks,
                path,
            ) is None,
    decreases runs.len(),
{
    if runs.len() > 0 {
        let rest = runs.drop_first();
        lemma_runs_accepted(rest, block_size, max_blocks, path);
        if forall|i: int|
            0 <= i < runs.len() ==> (#[trigger] runs[i]).index_fault(
                block_size,
                max_blocks,
                path,
            ) is None {
            assert forall|i: int| 0 <= i < rest.len() implies (#[trigger] rest[i]).index_fault(
                block_size,
                max_blocks,
                path,
            ) is None by {
                assert(rest[i] == runs[i + 1]);
            }
        }
        if runs_fault(runs, block_size, max_blocks, path) is None {
            assert forall|i: int| 0 <= i < runs.len() implies (#[trigger] runs[i]).index_fault(
                block_size,
                max_blocks,
                path,
            ) is None by {
                if i > 0 {
                    assert(runs[i] == rest[i - 1]);
                }
            }
        }
    }
}

/// Two lists that share a block share a first one.
proof fn lemma_first_shared(dirty: Seq<BlockRun>, zero: Seq<BlockRun>, block: u64)
    requires
        run::runs_cover(dirty, block),
        run::runs_cover(zero, block),
    ensures
        exists|b: u64| first_shared(dirty, zero, b),
    decreases block,
{
    if !first_shared(dirty, zero, block) {
        let earlier = choose|b: u64|
            b < block && #[trigger] run::runs_cover(dirty, b) && run::runs_cover(zero, b);
        lemma_first_shared(dirty, zero, earlier);
    }
}

/// An index that is accepted describes an overlay that its disk admits: it marks only blocks of
/// the disk, and no block both as dirty and as zero.
pub proof fn law_loaded_overlay_admitted(
    disk: RootfsView,
    index: LiveOverlayIndex,
    path: Seq<char>,
    live: LiveView,
)
    requires
        disk.valid(),
        index.fault(disk.block_size, disk.logical_size, path) is None,
        index.describes(live),
    ensures
        disk.admits(live),
{
    let max_blocks = model::block_count(disk.logical_size, disk.block_size);
    lemma_block_count_bound(disk.logical_size, disk.block_size);
    lemma_runs_accepted(index.dirty_runs@, disk.block_size, max_blocks as u64, path);
    lemma_runs_accepted(index.zero_runs@, disk.block_size, max_blocks as u64, path);
    assert forall|b: u64| #[trigger] live.dirty.contains(b) implies b < max_blocks by {
        let runs = index.dirty_runs@;
        assert(run::runs_cover(runs, b));
        let i = choose|i: int| 0 <= i < runs.len() && (#[trigger] runs[i]).covers(b);
        assert(runs[i].index_fault(disk.block_size, max_blocks as u64, path) is None);
    }
    assert forall|b: u64| #[trigger] live.zero.contains(b) implies b < max_blocks by {
        let runs = index.zero_runs@;
        assert(run::runs_cover(runs, b));
        let i = choose|i: int| 0 <= i < runs.len() && (#[trigger] runs[i]).covers(b);
        assert(runs[i].index_fault(disk.block_size, max_blocks as u64, path) is None);
    }
    assert forall|b: u64| !(#[trigger] live.dirty.contains(b) && live.zero.contains(b)) by {
        if live.dirty.contains(b) && live.zero.contains(b) {
            assert(run::runs_cover(index.dirty_runs@, b));
            assert(run::runs_cover(index.zero_runs@, b));
            lemma_first_shared(index.dirty_runs@, index.zero_runs@, b);
        }
    }
}

/// The number of blocks is a 64-bit number, and all blocks but the last end on the disk.
proof fn lemma_block_count_bound(logical_size: u64, block_size: u64)
    requires
        block_size > 0,
    ensures
        0 <= model::block_count(logical_size, block_size) <= u64::MAX,
        (model::block_count(logical_size, block_size) - 1) * block_size <= u64::MAX,
{
    let count = model::block_count(logical_size, block_size);
    assert(0 <= count && count * block_size <= logical_size + block_size - 1) by (nonlinear_arith)
        requires
            block_size > 0,
            count == (logical_size + block_size - 1) / block_size as int,
    ;
    assert((count - 1) * block_size == count * block_size - block_size) by (nonlinear_arith);
    assert(count <= u64::MAX) by (nonlinear_arith)
        requires
            block_size > 0,
            (count - 1) * block_size < logical_size,
            logical_size <= u64::MAX,
    ;
}

/// Runs that list the blocks of a set within the disk are accepted, and cover what they span.
proof fn lemma_listed_runs(
    disk: RootfsView,
    blocks: Set<u64>,
    runs: Seq<BlockRun>,
    path: Seq<char>,
)
    requires
        disk.valid(),
        run::canonical_runs(runs),
        forall|b: u64| blocks.contains(b) <==> #[trigger] run::runs_span(runs, b),
        forall|b: u64| #[trigger]
            blocks.contains(b) ==> b < model::block_count(disk.logical_size, disk.block_size),
        model::block_count(disk.logical_size, disk.block_size) * disk.block_size <= u64::MAX
            || !blocks.contains(
            (model::block_count(disk.logical_size, disk.block_size) - 1) as u64,
        ),
    ensures
        runs_fault(
            runs,
            disk.block_size,
            model::block_count(disk.logical_size, disk.block_size) as u64,
            path,
        ) is None,
        forall|b: u64| blocks.contains(b) <==> #[trigger] run::runs_cover(runs, b),
{
    let max_blocks = model::block_count(disk.logical_size, disk.block_size);
    let size = disk.block_size as int;
    lemma_block_count_bound(disk.logical_size, disk.block_size);
    assert forall|i: int| 0 <= i < runs.len() implies (#[trigger] runs[i]).end() <= max_blocks
        && runs[i].index_fault(disk.block_size, max_blocks as u64, path) is None by {
        let last = (runs[i].end() - 1) as u64;
        assert(runs[i].spans(last));
        assert(run::runs_span(runs, last));
        assert(blocks.contains(last));
        let end = runs[i].end();
        if max_blocks * size <= u64::MAX {
            assert(end * size <= max_blocks * size) by (nonlinear_arith)
                requires
                    0 <= end <= max_blocks,
                    size > 0,
            ;
        } else {
            assert(end <= max_blocks - 1);
            assert(end * size <= (max_blocks - 1) * size) by (nonlinear_arith)
                requires
                    0 <= end <= max_blocks - 1,
                    size > 0,
            ;
        }
    }
    lemma_runs_accepted(runs, disk.block_size, max_blocks as u64, path);
    assert forall|b: u64| blocks.contains(b) <==> #[trigger] run::runs_cover(runs, b) by {
        if blocks.contains(b) {
            assert(run::runs_span(runs, b));
            let i = choose|i: int| 0 <= i < runs.len() && (#[trigger] runs[i]).spans(b);
            assert(runs[i].covers(b));
        }
        if run::runs_cover(runs, b) {
            let i = choose|i: int| 0 <= i < runs.len() && (#[trigger] runs[i]).covers(b);
            assert(runs[i].spans(b));
            assert(run::runs_span(runs, b));
        }
    }
}

/// Every marked block ends at a 64-bit byte position, as a run in an index must.
pub open spec fn index_fits(disk: RootfsView, live: LiveView) -> bool {
    let max_blocks = model::block_count(disk.logical_size, disk.block_size);
    ||| max_blocks * disk.block_size <= u64::MAX
    ||| !live.dirty.contains((max_blocks - 1) as u64) && !live.zero.contains(
        (max_blocks - 1) as u64,
    )
}

/// An overlay whose index was written is restored by loading that index. This leaves out a disk
/// whose last block ends past the last 64-bit byte position, as long as that block is marked.
pub proof fn law_index_round_trip(
    disk: RootfsView,
    live: LiveView,
    index: LiveOverlayIndex,
    path: Seq<char>,
    loaded: LiveView,
)
    requires
        disk.valid(),
        disk.admits(live),
        index.records(live),
        index_fits(disk, live),
    ensures
        index.fault(disk.block_size, disk.logical_size, path) is None,
        index.describes(loaded) ==> loaded == live,
{
    lemma_listed_runs(disk, live.dirty, index.dirty_runs@, path);
    lemma_listed_runs(disk, live.zero, index.zero_runs@, path);
    assert forall|b: u64| !first_shared(index.dirty_runs@, index.zero_runs@, b) by {
        if first_shared(index.dirty_runs@, index.zero_runs@, b) {
            assert(live.dirty.contains(b) && live.zero.contains(b));
        }
    }
    if index.describes(loaded) {
        assert forall|b: u64| loaded.dirty.contains(b) == live.dirty.contains(b) by {
            assert(run::runs_cover(index.dirty_runs@, b) == live.dirty.contains(b));
        }
        assert forall|b: u64| loaded.zero.contains(b) == live.zero.contains(b) by {
            assert(run::runs_cover(index.zero_runs@, b) == live.zero.contains(b));
        }
        assert(loaded.dirty =~= live.dirty);
        assert(loaded.zero =~= live.zero);
    }
}

/// An index that was made from marks is of version 1, and its dirty and zero runs hold exactly the
/// blocks that are marked so.
pub proof fn law_recorded_marks(index: LiveOverlayIndex, live: LiveView, block: u64)
    requires
        index.records(live),
    ensures
        index.version == 1,
        live.dirty.contains(block) <==> exists|i: int|
            0 <= i < index.dirty_runs@.len() && (#[trigger] index.dirty_runs@[i]).start_block
                <= block && block - index.dirty_runs@[i].start_block
                < index.dirty_runs@[i].block_count,
        live.zero.contains(block) <==> exists|i: int|
            0 <= i < index.zero_runs@.len() && (#[trigger] index.zero_runs@[i]).start_block <= block
                && block - index.zero_runs@[i].start_block < index.zero_runs@[i].block_count,
{
    run::law_runs_blocks(index.dirty_runs@, block);
    run::law_runs_blocks(index.zero_runs@, block);
    assert(live.dirty.contains(block) <==> run::runs_span(index.dirty_runs@, block));
    assert(live.zero.contains(block) <==> run::runs_span(index.zero_runs@, block));
}

/// Marks have one index.
pub proof fn law_index_unique(a: LiveOverlayIndex, b: LiveOverlayIndex, live: LiveView)
    requires
        a.records(live),
        b.records(live),
    ensures
        a.version == b.version,
        a.dirty_runs@ == b.dirty_runs@,
        a.zero_runs@ == b.zero_runs@,
{
    assert forall|block: u64|
        run::runs_span(a.dirty_runs@, block) <==> run::runs_span(b.dirty_runs@, block) by {
        assert(live.dirty.contains(block) <==> run::runs_span(a.dirty_runs@, block));
        assert(live.dirty.contains(block) <==> run::runs_span(b.dirty_runs@, block));
    }
    assert forall|block: u64|
        run::runs_span(a.zero_runs@, block) <==> run::runs_span(b.zero_runs@, block) by {
        assert(live.zero.contains(block) <==> run::runs_span(a.zero_runs@, block));
        assert(live.zero.contains(block) <==> run::runs_span(b.zero_runs@, block));
    }
    run::law_canonical_runs_unique(a.dirty_runs@, b.dirty_runs@);
    run::law_canonical_runs_unique(a.zero_runs@, b.zero_runs@);
}

/// The marks that an accepted index gives are those of its runs: a block is dirty, or zero, exactly
/// when it is among the blocks of a dirty, or zero, run.
pub proof fn law_described_marks(
    index: LiveOverlayIndex,
    live: LiveView,
    block_size: u64,
    logical_size: u64,
    path: Seq<char>,
    block: u64,
)
    requires
        index.describes(live),
        index.fault(block_size, logical_size, path) is None,
        block_size > 0,
    ensures
        live.dirty.contains(block) <==> exists|i: int|
            0 <= i < index.dirty_runs@.len() && (#[trigger] index.dirty_runs@[i]).start_block
                <= block && block - index.dirty_runs@[i].start_block
                < index.dirty_runs@[i].block_count,
        live.zero.contains(block) <==> exists|i: int|
            0 <= i < index.zero_runs@.len() && (#[trigger] index.zero_runs@[i]).start_block <= block
                && block - index.zero_runs@[i].start_block < index.zero_runs@[i].block_count,
{
    law_index_accepted(index, block_size, logical_size, path);
    assert forall|i: int| 0 <= i < index.dirty_runs@.len() implies (
    #[trigger] index.dirty_runs@[i]).start_block + index.dirty_runs@[i].block_count <= u64::MAX by {
        lemma_end_fits(index.dirty_runs@[i], block_size, logical_size);
    }
    assert forall|i: int| 0 <= i < index.zero_runs@.len() implies (
    #[trigger] index.zero_runs@[i]).start_block + index.zero_runs@[i].block_count <= u64::MAX by {
        lemma_end_fits(index.zero_runs@[i], block_size, logical_size);
    }
    run::law_runs_blocks(index.dirty_runs@, block);
    run::law_runs_blocks(index.zero_runs@, block);
    assert(live.dirty.contains(block) <==> run::runs_cover(index.dirty_runs@, block));
    assert(live.zero.contains(block) <==> run::runs_cover(index.zero_runs@, block));
}

/// A run that can stand in an index ends at a 64-bit block number.
proof fn lemma_end_fits(run: BlockRun, block_size: u64, logical_size: u64)
    requires
        block_size > 0,
        run_on_disk(run, block_size, logical_size),
    ensures
        run.start_block + run.block_count <= u64::MAX,
{
    let end = run.start_block + run.block_count;
    assert(end <= end * block_size) by (nonlinear_arith)
        requires
            block_size >= 1,
            end >= 0,
    ;
}

/// A run can stand in the index of a disk: it is not empty, ends on the disk's last block at the
/// latest, and ends at a 64-bit byte position.
pub open spec fn run_on_disk(run: BlockRun, block_size: u64, logical_size: u64) -> bool {
    let end = run.start_block + run.block_count;
    &&& run.block_count > 0
    &&& end * block_size <= u64::MAX
    &&& (end - 1) * block_size < logical_size
}

/// An index is accepted exactly when it is of version 1, all its runs can stand in an index of the
/// disk, and no block is in a dirty and in a zero run.
pub proof fn law_index_accepted(
    index: LiveOverlayIndex,
    block_size: u64,
    logical_size: u64,
    path: Seq<char>,
)
    requires
        block_size > 0,
    ensures
        index.fault(block_size, logical_size, path) is None <==> {
            &&& index.version == 1
            &&& forall|i: int|
                0 <= i < index.dirty_runs@.len() ==> run_on_disk(
                    #[trigger] index.dirty_runs@[i],
                    block_size,
                    logical_size,
                )
            &&& forall|i: int|
                0 <= i < index.zero_runs@.len() ==> run_on_disk(
                    #[trigger] index.zero_runs@[i],
                    block_size,
                    logical_size,
                )
            &&& forall|i: int, j: int|
                0 <= i < index.dirty_runs@.len() && 0 <= j < index.zero_runs@.len() ==> (
                #[trigger] index.dirty_runs@[i]).start_block + index.dirty_runs@[i].block_count <= (
                #[trigger] index.zero_runs@[j]).start_block || index.zero_runs@[j].start_block
                    + index.zero_runs@[j].block_count <= index.dirty_runs@[i].start_block
        },
{
    let dirty = index.dirty_runs@;
    let zero = index.zero_runs@;
    let max_blocks = model::block_count(logical_size, block_size) as u64;
    lemma_block_count_bound(logical_size, block_size);
    lemma_runs_accepted(dirty, block_size, max_blocks, path);
    lemma_runs_accepted(zero, block_size, max_blocks, path);
    assert forall|i: int| 0 <= i < dirty.len() implies (run_on_disk(
        #[trigger] dirty[i],
        block_size,
        logical_size,
    ) <==> dirty[i].index_fault(block_size, max_blocks, path) is None) by {
        lemma_run_on_disk(dirty[i], block_size, logical_size, path);
    }
    assert forall|i: int| 0 <= i < zero.len() implies (run_on_disk(
        #[trigger] zero[i],
        block_size,
        logical_size,
    ) <==> zero[i].index_fault(block_size, max_blocks, path) is None) by {
        lemma_run_on_disk(zero[i], block_size, logical_size, path);
    }
    let accepted = (forall|i: int|
        0 <= i < dirty.len() ==> (#[trigger] dirty[i]).index_fault(block_size, max_blocks, path)
            is None) && (forall|i: int|
        0 <= i < zero.len() ==> (#[trigger] zero[i]).index_fault(block_size, max_blocks, path)
            is None);
    if accepted {
        if exists|b: u64| first_shared(dirty, zero, b) {
            let b = choose|b: u64| first_shared(dirty, zero, b);
            let i = choose|i: int| 0 <= i < dirty.len() && (#[trigger] dirty[i]).covers(b);
            let j = choose|j: int| 0 <= j < zero.len() && (#[trigger] zero[j]).covers(b);
            assert(dirty[i].start_block <= b && zero[j].start_block <= b);
        } else {
            assert forall|i: int, j: int|
                0 <= i < dirty.len() && 0 <= j < zero.len() implies (
            #[trigger] dirty[i]).start_block + dirty[i].block_count <= (
            #[trigger] zero[j]).start_block || zero[j].start_block + zero[j].block_count
                <= dirty[i].start_block by {
                assert(dirty[i].index_fault(block_size, max_blocks, path) is None);
                assert(zero[j].index_fault(block_size, max_blocks, path) is None);
                let b = if dirty[i].start_block >= zero[j].start_block {
                    dirty[i].start_block
                } else {
                    zero[j].start_block
                };
                if dirty[i].covers(b) && zero[j].covers(b) {
                    lemma_first_shared(dirty, zero, b);
                }
            }
        }
    }
}

/// A run is accepted in an index exactly when it can stand there.
proof fn lemma_run_on_disk(run: BlockRun, block_size: u64, logical_size: u64, path: Seq<char>)
    requires
        block_size > 0,
    ensures
        run_on_disk(run, block_size, logical_size) <==> run.index_fault(
            block_size,
            model::block_count(logical_size, block_size) as u64,
            path,
        ) is None,
{
    let count = model::block_count(logical_size, block_size);
    let size = block_size as int;
    let end = run.start_block + run.block_count;
    lemma_block_count_bound(logical_size, block_size);
    model::law_block_count_least(logical_size, block_size);
    run::law_run_accepted(run, block_size, count as u64, path);
    assert(end * size <= u64::MAX ==> end <= u64::MAX) by (nonlinear_arith)
        requires
            size >= 1,
            end >= 0,
    ;
    if end <= count {
        assert((end - 1) * size <= (count - 1) * size) by (nonlinear_arith)
            requires
                end <= count,
                size > 0,
        ;
        assert((end - 1) * size < 0 || logical_size > 0 || end == 0) by {
            if logical_size == 0 {
                assert(count == 0);
            }
        }
    } else {
        assert((end - 1) * size >= count * size) by (nonlinear_arith)
            requires
                end - 1 >= count,
                size > 0,
        ;
    }
}

/// Of the runs of an index, dirty ones before zero ones, the first that is refused is reported.
pub proof fn law_first_refused_run(
    runs: Seq<BlockRun>,
    block_size: u64,
    max_blocks: u64,
    path: Seq<char>,
    i: int,
)
    requires
        0 <= i < runs.len(),
        runs[i].index_fault(block_size, max_blocks, path) is Some,
        forall|j: int|
            0 <= j < i ==> (#[trigger] runs[j]).index_fault(block_size, max_blocks, path) is None,
    ensures
        runs_fault(runs, block_size, max_blocks, path) == runs[i].index_fault(
            block_size,
            max_blocks,
            path,
        ),
    decreases runs.len(),
{
    if i > 0 {
        let rest = runs.drop_first();
        assert(rest[i - 1] == runs[i]);
        assert forall|j: int| 0 <= j < i - 1 implies (#[trigger] rest[j]).index_fault(
            block_size,
            max_blocks,
            path,
        ) is None by {
            assert(rest[j] == runs[j + 1]);
        }
        assert(runs[0].index_fault(block_size, max_blocks, path) is None);
        law_first_refused_run(rest, block_size, max_blocks, path, i - 1);
    }
}

/// What is wrong with an index is reported in the order of its version, its dirty runs, its zero
/// runs, and the least block that is both dirty and zero.
pub proof fn law_index_refused(
    index: LiveOverlayIndex,
    block_size: u64,
    logical_size: u64,
    path: Seq<char>,
    shared: u64,
)
    requires
        block_size > 0,
    ensures
        ({
            let max_blocks = model::block_count(logical_size, block_size) as u64;
            let dirty = runs_fault(index.dirty_runs@, block_size, max_blocks, path);
            let zero = runs_fault(index.zero_runs@, block_size, max_blocks, path);
            let fault = index.fault(block_size, logical_size, path);
            &&& index.version != 1 ==> fault == Some(
                error::invalid_spec_error(
                    path,
                    "unsupported Tensorlake live overlay index version "@ + text::decimal_chars(
                        index.version as nat,
                    ) + ", expected "@ + text::decimal_chars(1),
                ),
            )
            &&& index.version == 1 && dirty is Some ==> fault == dirty
            &&& index.version == 1 && dirty is None && zero is Some ==> fault == zero
            &&& index.version == 1 && dirty is None && zero is None && run::runs_cover(
                index.dirty_runs@,
                shared,
            ) && run::runs_cover(index.zero_runs@, shared) && (forall|b: u64|
                b < shared ==> !(#[trigger] run::runs_cover(index.dirty_runs@, b)
                    && run::runs_cover(index.zero_runs@, b))) ==> fault == Some(
                error::invalid_spec_error(
                    path,
                    "live overlay block "@ + text::decimal_chars(shared as nat)
                        + " is both dirty and zero"@,
                ),
            )
        }),
{
    let dirty = index.dirty_runs@;
    let zero = index.zero_runs@;
    if run::runs_cover(dirty, shared) && run::runs_cover(zero, shared) && (forall|b: u64|
        b < shared ==> !(#[trigger] run::runs_cover(dirty, b) && run::runs_cover(zero, b))) {
        assert(first_shared(dirty, zero, shared));
        let chosen = choose|b: u64| first_shared(dirty, zero, b);
        assert(first_shared(dirty, zero, chosen));
        assert(chosen == shared);
    }
}

} // verus!
