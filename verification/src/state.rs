//! An opened disk: where it reads from, and what a write or a zeroing does to its live overlay.
use vstd::prelude::*;

use crate::error::{
    self, BlockError, BlockErrorKind, BlockErrorView, IoError, IoErrorKind, IoErrorView,
};
use crate::model::{self, LayerView, ReadSource, RootfsView, SECTOR_SIZE};
use crate::overlay::LiveOverlay;
use crate::run::{self, BlockRun};
use crate::save::{self, persist_live_index, LiveSync, SaveStep, SaveStepView};
use crate::segment::{self, Segment};
use crate::step::{self, LiveStep};
use crate::text::{self, decimal};

verus! {

/// A committed layer.
#[derive(Debug)]
pub struct CommittedLayer {
    pub path: String,
    pub dirty_runs: Vec<BlockRun>,
    pub zero_runs: Vec<BlockRun>,
}

impl View for CommittedLayer {
    type V = LayerView;

    open spec fn view(&self) -> LayerView {
        LayerView {
            path: self.path@,
            dirty_runs: self.dirty_runs@,
            zero_runs: self.zero_runs@,
        }
    }
}

/// Whether a run of `runs` covers `block`.
fn any_contains(runs: &Vec<BlockRun>, block: u64) -> (r: bool)
    ensures
        r == run::runs_cover(runs@, block),
{
    let mut i: usize = 0;
    while i < runs.len()
        invariant
            i <= runs.len(),
            forall|k: int| 0 <= k < i ==> !(#[trigger] runs@[k]).covers(block),
        decreases runs.len() - i,
    {
        if runs[i].contains_block(block) {
            assert(runs@[i as int].covers(block));
            return true;
        }
        i = i + 1;
    }
    false
}

impl CommittedLayer {
    /// Whether the layer overrides `block` with its file.
    pub fn has_dirty_block(&self, block: u64) -> (r: bool)
        ensures
            r == self@.dirties(block),
    {
        any_contains(&self.dirty_runs, block)
    }

    /// Whether the layer zeroes `block`.
    pub fn has_zero_block(&self, block: u64) -> (r: bool)
        ensures
            r == self@.zeroes(block),
    {
        any_contains(&self.zero_runs, block)
    }
}

/// The models of a list of layers.
pub open spec fn layer_views(layers: Seq<CommittedLayer>) -> Seq<LayerView> {
    layers.map_values(|layer: CommittedLayer| layer@)
}

/// What an opened disk knows about itself.
#[derive(Debug)]
pub struct TensorlakeRootfsState {
    logical_size: u64,
    block_size: u64,
    base_path: String,
    live_path: String,
    live_index_path: Option<String>,
    layers_oldest_to_newest: Vec<CommittedLayer>,
    readonly: bool,
}

impl View for TensorlakeRootfsState {
    type V = RootfsView;

    closed spec fn view(&self) -> RootfsView {
        RootfsView {
            logical_size: self.logical_size,
            block_size: self.block_size,
            base_path: self.base_path@,
            live_path: self.live_path@,
            live_index_path: text::text_view(self.live_index_path),
            layers: layer_views(self.layers_oldest_to_newest@),
            readonly: self.readonly,
        }
    }
}

/// Why an I/O range is refused.
pub open spec fn range_fault(disk: RootfsView, offset: u64, len: u64) -> Option<IoErrorView> {
    if offset + len > u64::MAX {
        Some(
            IoErrorView { kind: IoErrorKind::InvalidInput, message: "I/O range overflows u64"@ },
        )
    } else if offset + len > disk.logical_size {
        Some(
            IoErrorView {
                kind: IoErrorKind::InvalidInput,
                message: "I/O range ["@ + text::decimal_chars(offset as nat) + ", "@
                    + text::decimal_chars((offset + len) as nat) + ") exceeds logical size "@
                    + text::decimal_chars(disk.logical_size as nat),
            },
        )
    } else {
        None
    }
}

/// The error for a change of a disk that was opened for reading only.
pub open spec fn readonly_error() -> IoErrorView {
    IoErrorView {
        kind: IoErrorKind::PermissionDenied,
        message: "Tensorlake rootfs disk is readonly"@,
    }
}

/// Why a request that changes the disk is refused.
pub open spec fn change_fault(disk: RootfsView, offset: u64, len: u64) -> Option<IoErrorView> {
    if disk.readonly {
        Some(readonly_error())
    } else {
        range_fault(disk, offset, len)
    }
}

/// Why a change of the disk's size is refused.
pub open spec fn resize_fault(disk: RootfsView, size: u64) -> Option<BlockErrorView> {
    if size == disk.logical_size {
        None
    } else {
        Some(
            BlockErrorView {
                kind: BlockErrorKind::UnsupportedFeature,
                path: None,
                message: Some("Tensorlake rootfs disk resize is not supported"@),
            },
        )
    }
}

/// `outcome` reports exactly `fault`.
pub open spec fn refuses<T>(outcome: Result<T, IoError>, fault: Option<IoErrorView>) -> bool {
    match fault {
        Some(f) => outcome matches Err(e) && e@ == f,
        None => outcome is Ok,
    }
}

/// The segments of a request that are still to be served.
#[derive(Debug)]
pub struct SegmentWalk {
    logical_size: u64,
    block_size: u64,
    offset: u64,
    start: u64,
    remaining: u64,
}

impl View for SegmentWalk {
    type V = Seq<Segment>;

    closed spec fn view(&self) -> Seq<Segment> {
        segment::segments(
            self.block_size,
            self.offset as int,
            self.remaining as int,
            self.start as int,
        )
    }
}

/// The number of bytes of a segment that begins at `offset`: at most what the request, the block
/// and the disk have left.
pub open spec fn segment_bytes(
    block_size: u64,
    logical_size: u64,
    offset: int,
    remaining: int,
) -> int {
    let block_left = block_size - offset % block_size as int;
    let disk_left = logical_size - offset;
    let left = if block_left < disk_left {
        block_left
    } else {
        disk_left
    };
    if remaining < left {
        remaining
    } else {
        left
    }
}

fn min(a: u64, b: u64) -> (r: u64)
    ensures
        r == if a < b {
            a
        } else {
            b
        },
{
    if a < b {
        a
    } else {
        b
    }
}

fn bytes_in_segment(
    block_size: u64,
    logical_size: u64,
    absolute_offset: u64,
    remaining: u64,
) -> (r: u64)
    requires
        block_size > 0,
        absolute_offset <= logical_size,
    ensures
        r == segment_bytes(block_size, logical_size, absolute_offset as int, remaining as int),
{
    let block_offset: u64 = absolute_offset % block_size;
    let block_remaining: u64 = block_size - block_offset;
    let disk_remaining: u64 = logical_size - absolute_offset;
    min(remaining, min(block_remaining, disk_remaining))
}

impl SegmentWalk {
    #[verifier::type_invariant]
    spec fn well_formed(self) -> bool {
        &&& self.block_size > 0
        &&& self.offset + self.remaining <= self.logical_size
        &&& self.start + self.remaining <= u64::MAX
    }

    /// Takes the next segment.
    pub fn next_segment(&mut self) -> (r: Option<Segment>)
        ensures
            old(self)@.len() == 0 ==> r is None && final(self)@ == old(self)@,
            old(self)@.len() > 0 ==> r == Some(old(self)@[0]) && final(self)@
                == old(self)@.drop_first(),
    {
        proof {
            use_type_invariant(&*self);
        }
        if self.remaining == 0 {
            return None;
        }
        let len: u64 = bytes_in_segment(
            self.block_size,
            self.logical_size,
            self.offset,
            self.remaining,
        );
        let part = Segment { offset: self.offset, start: self.start, len };
        *self = SegmentWalk {
            logical_size: self.logical_size,
            block_size: self.block_size,
            offset: self.offset + len,
            start: self.start + len,
            remaining: self.remaining - len,
        };
        assert(old(self)@.drop_first() =~= self@);
        Some(part)
    }
}

impl TensorlakeRootfsState {
    #[verifier::type_invariant]
    spec fn well_formed(self) -> bool {
        self@.valid()
    }

    /// Puts an opened disk together.
    pub(crate) fn new(
        logical_size: u64,
        block_size: u64,
        base_path: String,
        live_path: String,
        live_index_path: Option<String>,
        layers_oldest_to_newest: Vec<CommittedLayer>,
        readonly: bool,
    ) -> (r: TensorlakeRootfsState)
        requires
            logical_size > 0,
            block_size > 0,
            block_size % SECTOR_SIZE == 0,
        ensures
            r@ == (RootfsView {
                logical_size,
                block_size,
                base_path: base_path@,
                live_path: live_path@,
                live_index_path: text::text_view(live_index_path),
                layers: layer_views(layers_oldest_to_newest@),
                readonly,
            }),
    {
        proof {
            assert(layers_oldest_to_newest.len() <= usize::MAX);
        }
        TensorlakeRootfsState {
            logical_size,
            block_size,
            base_path,
            live_path,
            live_index_path,
            layers_oldest_to_newest,
            readonly,
        }
    }

    pub fn logical_size(&self) -> (r: u64)
        ensures
            r == self@.logical_size,
            self@.valid(),
    {
        proof {
            use_type_invariant(self);
        }
        self.logical_size
    }

    pub fn block_size(&self) -> (r: u64)
        ensures
            r == self@.block_size,
            self@.valid(),
    {
        proof {
            use_type_invariant(self);
        }
        self.block_size
    }

    pub fn readonly(&self) -> (r: bool)
        ensures
            r == self@.readonly,
    {
        self.readonly
    }

    pub fn base_path(&self) -> (r: &str)
        ensures
            r@ == self@.base_path,
    {
        self.base_path.as_str()
    }

    pub fn live_path(&self) -> (r: &str)
        ensures
            r@ == self@.live_path,
    {
        self.live_path.as_str()
    }

    /// The committed layers, oldest first.
    pub fn layers_oldest_to_newest(&self) -> (r: &Vec<CommittedLayer>)
        ensures
            layer_views(r@) == self@.layers,
    {
        &self.layers_oldest_to_newest
    }

    /// Refuses every size but the present one.
    pub fn ensure_size(&self, size: u64) -> (r: Result<(), BlockError>)
        ensures
            error::reports(r, resize_fault(self@, size)),
    {
        if size == self.logical_size {
            Ok(())
        } else {
            Err(
                BlockError::new(
                    BlockErrorKind::UnsupportedFeature,
                    "Tensorlake rootfs disk resize is not supported".to_owned(),
                ),
            )
        }
    }

    /// Refuses a range that does not lie on the disk.
    pub fn ensure_range_in_bounds(&self, offset: u64, len: u64) -> (r: Result<(), IoError>)
        ensures
            refuses(r, range_fault(self@, offset, len)),
    {
        let end: u64 = match offset.checked_add(len) {
            Some(end) => end,
            None => return Err(
                IoError::new(IoErrorKind::InvalidInput, "I/O range overflows u64".to_owned()),
            ),
        };
        if end > self.logical_size {
            let mut message = "I/O range [".to_owned();
            message.append(decimal(offset).as_str());
            message.append(", ");
            message.append(decimal(end).as_str());
            message.append(") exceeds logical size ");
            message.append(decimal(self.logical_size).as_str());
            Err(IoError::new(IoErrorKind::InvalidInput, message))
        } else {
            Ok(())
        }
    }

    /// Splits a range of the disk into segments.
    fn split(&self, offset: u64, len: u64) -> (r: Result<SegmentWalk, IoError>)
        ensures
            refuses(r, range_fault(self@, offset, len)),
            r matches Ok(walk) ==> walk@ == segment::segments(
                self@.block_size,
                offset as int,
                len as int,
                0,
            ),
    {
        match self.ensure_range_in_bounds(offset, len) {
            Ok(()) => {},
            Err(error) => return Err(error),
        }
        proof {
            use_type_invariant(self);
        }
        Ok(
            SegmentWalk {
                logical_size: self.logical_size,
                block_size: self.block_size,
                offset,
                start: 0,
                remaining: len,
            },
        )
    }

    /// Admits a read of `len` bytes at `offset` and splits it into segments.
    pub fn read_at(&self, offset: u64, len: u64) -> (r: Result<SegmentWalk, IoError>)
        ensures
            refuses(r, range_fault(self@, offset, len)),
            r matches Ok(walk) ==> walk@ == segment::segments(
                self@.block_size,
                offset as int,
                len as int,
                0,
            ),
    {
        self.split(offset, len)
    }

    /// Refuses a request that changes a disk opened for reading only.
    fn ensure_writable(&self) -> (r: Result<(), IoError>)
        ensures
            refuses(
                r,
                if self@.readonly {
                    Some(readonly_error())
                } else {
                    None
                },
            ),
    {
        if self.readonly {
            Err(
                IoError::new(
                    IoErrorKind::PermissionDenied,
                    "Tensorlake rootfs disk is readonly".to_owned(),
                ),
            )
        } else {
            Ok(())
        }
    }

    /// Admits a write of `len` bytes at `offset` and splits it into segments.
    pub fn write_at(&self, offset: u64, len: u64) -> (r: Result<SegmentWalk, IoError>)
        ensures
            refuses(r, change_fault(self@, offset, len)),
            r matches Ok(walk) ==> walk@ == segment::segments(
                self@.block_size,
                offset as int,
                len as int,
                0,
            ),
    {
        match self.ensure_writable() {
            Ok(()) => self.split(offset, len),
            Err(error) => Err(error),
        }
    }

    /// Admits a zeroing of `len` bytes at `offset` and splits it into segments.
    pub fn zero_at(&self, offset: u64, len: u64) -> (r: Result<SegmentWalk, IoError>)
        ensures
            refuses(r, change_fault(self@, offset, len)),
            r matches Ok(walk) ==> walk@ == segment::segments(
                self@.block_size,
                offset as int,
                len as int,
                0,
            ),
    {
        match self.ensure_writable() {
            Ok(()) => self.split(offset, len),
            Err(error) => Err(error),
        }
    }

    /// The number of bytes of a segment that begins at `absolute_offset`.
    pub fn segment_len(&self, absolute_offset: u64, remaining: u64) -> (r: u64)
        requires
            absolute_offset <= self@.logical_size,
        ensures
            r == segment_bytes(
                self@.block_size,
                self@.logical_size,
                absolute_offset as int,
                remaining as int,
            ),
    {
        proof {
            use_type_invariant(self);
        }
        bytes_in_segment(self.block_size, self.logical_size, absolute_offset, remaining)
    }

    /// Where the segment at `absolute_offset` is read from.
    pub fn read_segment(
        &self,
        live: &LiveOverlay,
        absolute_offset: u64,
        include_live: bool,
    ) -> (r: ReadSource)
        ensures
            include_live ==> r == self@.source(live@, self@.block_of(absolute_offset as int)),
            !include_live ==> r == self@.committed(self@.block_of(absolute_offset as int)),
    {
        proof {
            use_type_invariant(self);
        }
        let block: u64 = absolute_offset / self.block_size;
        if include_live {
            if live.is_zero(block) {
                return ReadSource::Zeroes;
            }
            if live.is_dirty(block) {
                return ReadSource::Live;
            }
        }
        self.read_committed_segment(block)
    }

    /// Where `block` is read from below the live overlay.
    pub fn read_committed_segment(&self, block: u64) -> (r: ReadSource)
        ensures
            r == self@.committed(block),
    {
        let layers = &self.layers_oldest_to_newest;
        let mut newer: usize = layers.len();
        let ghost views = layer_views(layers@);
        assert(views.take(newer as int) =~= views);
        while newer > 0
            invariant
                newer <= layers.len(),
                views == layer_views(layers@),
                views == self@.layers,
                model::committed_source(views.take(newer as int), block)
                    == model::committed_source(views, block),
            decreases newer,
        {
            let position: usize = newer - 1;
            proof {
                let considered = views.take(newer as int);
                assert(considered.last() == layers@[position as int]@);
                assert(considered.drop_last() =~= views.take(position as int));
            }
            if layers[position].has_zero_block(block) {
                return ReadSource::Zeroes;
            }
            if layers[position].has_dirty_block(block) {
                return ReadSource::Layer(position);
            }
            newer = position;
        }
        ReadSource::Base
    }

    /// How many bytes of `block` lie on the disk.
    pub fn valid_block_len(&self, block: u64) -> (r: u64)
        requires
            self@.block_start(block) <= self@.logical_size,
        ensures
            r == self@.block_len(block),
    {
        let block_start: u64 = block * self.block_size;
        min(self.block_size, self.logical_size - block_start)
    }

    /// The step that fills `block` of the live file from below.
    pub fn seed_live_block(&self, block: u64) -> (r: LiveStep)
        requires
            self@.block_start(block) <= self@.logical_size,
        ensures
            r == (LiveStep::CopyCommitted {
                source: self@.committed(block),
                offset: self@.block_start(block) as u64,
                len: self@.block_len(block) as u64,
            }),
    {
        LiveStep::CopyCommitted {
            source: self.read_committed_segment(block),
            offset: block * self.block_size,
            len: self.valid_block_len(block),
        }
    }

    /// The step that fills `block` of the live file with zeroes.
    pub fn seed_zero_block(&self, block: u64) -> (r: LiveStep)
        requires
            self@.block_start(block) <= self@.logical_size,
        ensures
            r == (LiveStep::WriteZeroes {
                offset: self@.block_start(block) as u64,
                len: self@.block_len(block) as u64,
            }),
    {
        LiveStep::WriteZeroes {
            offset: block * self.block_size,
            len: self.valid_block_len(block),
        }
    }

    /// The steps that write a segment of `len` bytes at `absolute_offset`.
    pub fn write_segment(&self, live: &LiveOverlay, absolute_offset: u64, len: u64) -> (r: Vec<
        LiveStep,
    >)
        requires
            self@.block_start(self@.block_of(absolute_offset as int)) <= self@.logical_size,
        ensures
            r@ == step::write_plan(self@, live@, absolute_offset, len),
    {
        let block: u64 = self.block_at(absolute_offset);
        let valid_block_len: u64 = self.valid_block_len(block);
        let block_start: u64 = block * self.block_size;
        let covers_entire_block = absolute_offset == block_start && len == valid_block_len;
        let mut steps: Vec<LiveStep> = Vec::new();
        if !covers_entire_block && !live.is_dirty(block) && !live.is_zero(block) {
            steps.push(self.seed_live_block(block));
        }
        if live.is_zero(block) {
            steps.push(LiveStep::UnmarkZero { block });
            steps.push(self.seed_zero_block(block));
        }
        steps.push(LiveStep::MarkDirty { block });
        steps.push(LiveStep::WriteData { offset: absolute_offset, len });
        assert(steps@ =~= step::write_plan(self@, live@, absolute_offset, len));
        steps
    }

    /// The steps that zero a segment of `len` bytes at `absolute_offset`.
    pub fn zero_segment(&self, live: &LiveOverlay, absolute_offset: u64, len: u64) -> (r: Vec<
        LiveStep,
    >)
        requires
            self@.block_start(self@.block_of(absolute_offset as int)) <= self@.logical_size,
        ensures
            r@ == step::zero_plan(self@, live@, absolute_offset, len),
    {
        let block: u64 = self.block_at(absolute_offset);
        let valid_block_len: u64 = self.valid_block_len(block);
        let block_start: u64 = block * self.block_size;
        let covers_entire_block = absolute_offset == block_start && len == valid_block_len;
        let mut steps: Vec<LiveStep> = Vec::new();
        if covers_entire_block {
            steps.push(LiveStep::UnmarkDirty { block });
            steps.push(LiveStep::MarkZero { block });
            steps.push(LiveStep::PunchHole { offset: block_start, len: valid_block_len });
        } else {
            if !live.is_dirty(block) {
                if live.is_zero(block) {
                    steps.push(LiveStep::UnmarkZero { block });
                    steps.push(self.seed_zero_block(block));
                } else {
                    steps.push(self.seed_live_block(block));
                }
            }
            steps.push(LiveStep::MarkDirty { block });
            steps.push(LiveStep::WriteZeroes { offset: absolute_offset, len });
        }
        assert(steps@ =~= step::zero_plan(self@, live@, absolute_offset, len));
        steps
    }

    /// How to make the live overlay durable: its file first, and then its index where it has one.
    pub fn sync_live(&self, live: &LiveOverlay) -> (r: LiveSync)
        ensures
            r.saves(self@.live_index_path, live@),
    {
        let mut steps: Vec<SaveStep> = Vec::new();
        steps.push(SaveStep::SyncLive);
        assert(save::save_views(steps@) =~= seq![SaveStepView::SyncLive]);
        match &self.live_index_path {
            None => LiveSync { index: None, steps },
            Some(path) => {
                let saved = persist_live_index(path.as_str(), live);
                let ghost id = choose|id: Seq<char>|
                    {
                        &&& save::random_uuid(id)
                        &&& save::temp_beside(path@, id)
                        &&& save::save_views(saved.steps@) == #[trigger] save::index_plan(path@, id)
                    };
                let mut saving = saved.steps;
                steps.append(&mut saving);
                assert(save::save_views(steps@) =~= save::sync_plan(path@, id));
                assert(save::syncs_to(save::save_views(steps@), path@));
                LiveSync { index: Some(saved.index), steps }
            },
        }
    }

    /// The block that the byte at `absolute_offset` lies in.
    fn block_at(&self, absolute_offset: u64) -> (r: u64)
        ensures
            r == self@.block_of(absolute_offset as int),
            self@.block_start(r) <= absolute_offset,
    {
        proof {
            use_type_invariant(self);
            model::lemma_block_bounds(self@, absolute_offset as int, 0);
        }
        absolute_offset / self.block_size
    }
}

/// A range is refused exactly when it ends past the end of the disk, as invalid input, and the
/// message tells the range where it can be told.
pub proof fn law_range_refused(disk: RootfsView, offset: u64, len: u64)
    ensures
        range_fault(disk, offset, len) is None <==> offset + len <= disk.logical_size,
        range_fault(disk, offset, len) matches Some(fault) ==> fault.kind is InvalidInput,
        offset + len > u64::MAX ==> range_fault(disk, offset, len)->0.message
            == "I/O range overflows u64"@,
        disk.logical_size < offset + len <= u64::MAX ==> range_fault(disk, offset, len)->0.message
            == "I/O range ["@ + text::decimal_chars(offset as nat) + ", "@ + text::decimal_chars(
            (offset + len) as nat,
        ) + ") exceeds logical size "@ + text::decimal_chars(disk.logical_size as nat),
{
}

/// A disk that was opened for reading only refuses every change, wherever it is and whatever else
/// is known of the disk, and a disk that was not refuses exactly what it refuses to read.
pub proof fn law_readonly_refuses_changes(disk: RootfsView, offset: u64, len: u64)
    ensures
        disk.readonly ==> change_fault(disk, offset, len) == Some(
            IoErrorView {
                kind: IoErrorKind::PermissionDenied,
                message: "Tensorlake rootfs disk is readonly"@,
            },
        ),
        !disk.readonly ==> change_fault(disk, offset, len) == range_fault(disk, offset, len),
{
}

/// A write or a zeroing of a disk that was opened for reading only is answered with an error, so
/// that there are no segments to carry out and the content stays what it was.
pub proof fn law_readonly_disk_unchanged(
    disk: RootfsView,
    offset: u64,
    len: u64,
    answer: Result<SegmentWalk, IoError>,
)
    requires
        refuses(answer, change_fault(disk, offset, len)),
        disk.readonly,
    ensures
        answer is Err,
        answer->Err_0.kind is PermissionDenied,
        answer->Err_0.message@ == "Tensorlake rootfs disk is readonly"@,
{
}

/// An outcome that reports a fault is that error, and one that reports none is a success.
pub proof fn law_refuses<T>(outcome: Result<T, IoError>, fault: Option<IoErrorView>)
    requires
        refuses(outcome, fault),
    ensures
        fault is None <==> outcome is Ok,
        outcome matches Err(e) ==> fault == Some(
            IoErrorView { kind: e.kind, message: e.message@ },
        ),
{
}

/// A disk has its size for good: only that size is accepted.
pub proof fn law_resize_refused(disk: RootfsView, size: u64)
    ensures
        resize_fault(disk, size) is None <==> size == disk.logical_size,
        resize_fault(disk, size) matches Some(fault) ==> fault.kind is UnsupportedFeature
            && fault.path is None && fault.message == Some(
            "Tensorlake rootfs disk resize is not supported"@,
        ),
{
}

/// A segment takes as many bytes as it can: it ends with the request, with its block or with the
/// disk, and goes past none of them.
pub proof fn law_segment_bytes(
    block_size: u64,
    logical_size: u64,
    offset: int,
    remaining: int,
    block: int,
)
    requires
        block_size > 0,
        0 <= offset <= logical_size,
        0 <= remaining,
        block * block_size <= offset < block * block_size + block_size,
    ensures
        ({
            let taken = segment_bytes(block_size, logical_size, offset, remaining);
            let end = block * block_size + block_size;
            &&& taken <= remaining
            &&& offset + taken <= end
            &&& offset + taken <= logical_size
            &&& taken == remaining || offset + taken == end || offset + taken == logical_size
        }),
{
    let size = block_size as int;
    assert(offset % size == offset - block * size) by (nonlinear_arith)
        requires
            size > 0,
            block * size <= offset < block * size + size,
    ;
}

/// A layer keeps its path and its runs.
pub proof fn law_layer_view(layer: CommittedLayer, layers: Seq<CommittedLayer>, i: int)
    requires
        0 <= i < layers.len(),
    ensures
        layer@.path == layer.path@,
        layer@.dirty_runs == layer.dirty_runs@,
        layer@.zero_runs == layer.zero_runs@,
        layer_views(layers).len() == layers.len(),
        layer_views(layers)[i] == layers[i]@,
{
}

} // verus!
