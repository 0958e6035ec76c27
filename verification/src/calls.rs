//! What callers can rely on, told of the calls themselves: of their arguments and their results.
use std::collections::BTreeSet;

use vstd::prelude::*;

use crate::config::{default_block_size, validate_spec, TensorlakeLayerSpec, TensorlakeRootfsSpec};
use crate::disk::{self, allocated_size, DiskTopology, TensorlakeRootfsDisk};
use crate::error::{invalid_spec, BlockError, BlockErrorKind, IoError, IoErrorKind};
use crate::laws;
use crate::model::{self, Committed, ReadSource, World};
use crate::open::{self, open_committed_layer, validate_file_covers, AfterLayers, LiveOpenOptions,
    OpenBase, OpenIndex, OpenLayer, OpenLayers, OpenLive};
use crate::overlay::{self, load_live_overlay, LiveOverlay, LiveOverlayIndex};
use crate::paths::{self, directory_of, keep_named, resolve_in, resolve_spec_path};
use crate::permissions;
use crate::run::{self, add_run_blocks, runs_from_blocks, validate_run, BlockRun};
use crate::save::{self, make_temp_name, persist_live_index_as, replace_steps, Host, IndexSave,
    LiveSync, SaveStep};
use crate::seccomp_filters::{self, get_seccomp_rules, CallRule, Target, Thread};
use crate::seccomp_filters::{create_mshv_sev_snp_ioctl_seccomp_rule,
    create_virtio_block_ioctl_seccomp_rule, create_virtio_console_ioctl_seccomp_rule,
    create_virtio_iommu_ioctl_seccomp_rule, create_virtio_mem_ioctl_seccomp_rule,
    create_virtio_net_ctl_ioctl_seccomp_rule, create_vsock_ioctl_seccomp_rule};
use crate::seccomp_filters::{virtio_balloon_thread_rules, virtio_block_thread_rules,
    virtio_console_thread_rules, virtio_generic_vhost_user_thread_rules,
    virtio_iommu_thread_rules, virtio_mem_thread_rules, virtio_net_ctl_thread_rules,
    virtio_net_thread_rules, virtio_pmem_thread_rules, virtio_rng_thread_rules,
    virtio_rtc_thread_rules, virtio_thread_common, virtio_vhost_block_thread_rules,
    virtio_vhost_fs_thread_rules, virtio_vhost_net_ctl_thread_rules,
    virtio_vhost_net_thread_rules, virtio_vsock_thread_rules, virtio_watchdog_thread_rules};
use crate::seccomp_program::{self, build_program, get_seccomp_filter, Error, SeccompAction,
    SockFilter, Verdict};
use crate::segment::{self, Segment};
use crate::state::{self, CommittedLayer, SegmentWalk, TensorlakeRootfsState};
use crate::step::{self, LiveStep};
use crate::sync_io::{self, AsyncIoCompletion, AsyncIoError, TensorlakeRootfsSyncIo};
use crate::syscall::{self, Arch, Syscall};
use crate::text::{self, decimal};

verus! {

/// A block lies in a run of the list.
pub open spec fn in_runs(runs: Seq<BlockRun>, block: u64) -> bool {
    exists|i: int|
        0 <= i < runs.len() && (#[trigger] runs[i]).start_block <= block && block
            - runs[i].start_block < runs[i].block_count && runs[i].start_block
            + runs[i].block_count <= u64::MAX
}

proof fn lemma_layer_mentions(layers: Seq<CommittedLayer>, block: u64, j: int)
    requires
        0 <= j < layers.len(),
    ensures
        state::layer_views(layers)[j].dirties(block) <==> in_runs(layers[j].dirty_runs@, block),
        state::layer_views(layers)[j].zeroes(block) <==> in_runs(layers[j].zero_runs@, block),
{
    model::law_layer_blocks(state::layer_views(layers)[j], block);
}

/// Below the live overlay a block is read from the newest layer one of whose runs it lies in, as
/// zeroes where that is a zero run, and from the base image where it lies in no run.
pub proof fn law_read_committed_segment(
    disk: &TensorlakeRootfsState,
    layers: &Vec<CommittedLayer>,
    block: u64,
    i: int,
    r: ReadSource,
)
    requires
        call_ensures(TensorlakeRootfsState::read_committed_segment, (disk, block), r),
        call_ensures(TensorlakeRootfsState::layers_oldest_to_newest, (disk,), layers),
        -1 <= i < layers@.len(),
        i >= 0 ==> in_runs(layers@[i].zero_runs@, block) || in_runs(layers@[i].dirty_runs@, block),
        forall|j: int|
            i < j < layers@.len() ==> !in_runs((#[trigger] layers@[j]).zero_runs@, block)
                && !in_runs(layers@[j].dirty_runs@, block),
    ensures
        i < 0 ==> r == ReadSource::Base,
        i >= 0 && in_runs(layers@[i].zero_runs@, block) ==> r == ReadSource::Zeroes,
        i >= 0 && !in_runs(layers@[i].zero_runs@, block) ==> r == ReadSource::Layer(i as usize),
{
    let views = state::layer_views(layers@);
    assert(layers.len() <= usize::MAX);
    assert forall|j: int| i < j < views.len() implies !(#[trigger] views[j]).zeroes(block)
        && !views[j].dirties(block) by {
        lemma_layer_mentions(layers@, block, j);
        assert(!in_runs(layers@[j].zero_runs@, block));
    }
    if i < 0 {
        model::law_unmentioned_block_is_base(views, block);
    } else {
        lemma_layer_mentions(layers@, block, i);
        model::lemma_newest_decides(views, block, i);
    }
}

/// A segment is read as zeroes where its block is marked zero, from the live file where it is
/// marked dirty, and otherwise, or where the live overlay is left out, from below.
pub proof fn law_read_segment(
    disk: &TensorlakeRootfsState,
    live: &LiveOverlay,
    block_size: u64,
    offset: u64,
    block: u64,
    below: ReadSource,
    include_live: bool,
    r: ReadSource,
)
    requires
        call_ensures(TensorlakeRootfsState::read_segment, (disk, live, offset, include_live), r),
        call_ensures(TensorlakeRootfsState::read_committed_segment, (disk, block), below),
        call_ensures(TensorlakeRootfsState::block_size, (disk,), block_size),
        block * block_size <= offset < block * block_size + block_size,
    ensures
        include_live && live@.zero.contains(block) ==> r == ReadSource::Zeroes,
        include_live && !live@.zero.contains(block) && live@.dirty.contains(block) ==> r
            == ReadSource::Live,
        !include_live || !live@.zero.contains(block) && !live@.dirty.contains(block) ==> r == below,
{
    model::law_block_positions(disk@, offset as int, block);
}

/// A write is admitted exactly when the disk may be changed and the range ends on it; a disk that
/// was opened for reading only refuses every write for that reason.
pub proof fn law_write_at(
    disk: &TensorlakeRootfsState,
    readonly: bool,
    logical_size: u64,
    offset: u64,
    len: u64,
    r: Result<SegmentWalk, IoError>,
)
    requires
        call_ensures(TensorlakeRootfsState::write_at, (disk, offset, len), r),
        call_ensures(TensorlakeRootfsState::readonly, (disk,), readonly),
        call_ensures(TensorlakeRootfsState::logical_size, (disk,), logical_size),
    ensures
        r is Ok <==> !readonly && offset + len <= logical_size,
        readonly ==> r->Err_0.kind is PermissionDenied && r->Err_0.message@
            == "Tensorlake rootfs disk is readonly"@,
        !readonly && offset + len > logical_size ==> r->Err_0.kind is InvalidInput,
{
    state::law_range_refused(disk@, offset, len);
}

/// A zeroing is admitted exactly when a write of the range is, and refused for the same reason.
pub proof fn law_zero_at(
    disk: &TensorlakeRootfsState,
    readonly: bool,
    logical_size: u64,
    offset: u64,
    len: u64,
    r: Result<SegmentWalk, IoError>,
)
    requires
        call_ensures(TensorlakeRootfsState::zero_at, (disk, offset, len), r),
        call_ensures(TensorlakeRootfsState::readonly, (disk,), readonly),
        call_ensures(TensorlakeRootfsState::logical_size, (disk,), logical_size),
    ensures
        r is Ok <==> !readonly && offset + len <= logical_size,
        readonly ==> r->Err_0.kind is PermissionDenied && r->Err_0.message@
            == "Tensorlake rootfs disk is readonly"@,
        !readonly && offset + len > logical_size ==> r->Err_0.kind is InvalidInput,
{
    state::law_range_refused(disk@, offset, len);
}

/// A read is admitted exactly when the range ends on the disk.
pub proof fn law_read_at(
    disk: &TensorlakeRootfsState,
    logical_size: u64,
    offset: u64,
    len: u64,
    r: Result<SegmentWalk, IoError>,
)
    requires
        call_ensures(TensorlakeRootfsState::read_at, (disk, offset, len), r),
        call_ensures(TensorlakeRootfsState::logical_size, (disk,), logical_size),
    ensures
        r is Ok <==> offset + len <= logical_size,
        r matches Err(e) ==> e.kind is InvalidInput,
{
    state::law_range_refused(disk@, offset, len);
}

/// The segments of a request cover it: the first begins with the request and the last ends with
/// it, one begins where the one before it ended, and all but the first begin where a block begins.
pub open spec fn covers_request(
    parts: Seq<Segment>,
    block_size: u64,
    offset: u64,
    len: u64,
) -> bool {
    &&& len == 0 <==> parts.len() == 0
    &&& parts.len() > 0 ==> parts[0].offset == offset && parts[0].start == 0
    &&& parts.len() > 0 ==> parts.last().offset + parts.last().len == offset + len
    &&& forall|j: int|
        0 <= j < parts.len() ==> (#[trigger] parts[j]).len > 0 && parts[j].offset - parts[j].start
            == offset
    &&& forall|i: int, j: int|
        0 <= i < parts.len() && j == i + 1 && j < parts.len() ==> (#[trigger] parts[i]).offset
            + parts[i].len == (#[trigger] parts[j]).offset
    &&& forall|j: int|
        0 < j < parts.len() ==> (#[trigger] parts[j]).offset as int % block_size as int == 0
    &&& forall|j: int|
        0 <= j < parts.len() ==> exists|block: int| #[trigger]
            (block * block_size) <= parts[j].offset && (#[trigger] parts[j]).offset + parts[j].len
                <= block * block_size + block_size
}

/// The segments of an admitted read, write or zeroing cover it, each within one block.
pub proof fn law_admitted_segments(
    disk: &TensorlakeRootfsState,
    block_size: u64,
    offset: u64,
    len: u64,
    r: Result<SegmentWalk, IoError>,
)
    requires
        call_ensures(TensorlakeRootfsState::read_at, (disk, offset, len), r) || call_ensures(
            TensorlakeRootfsState::write_at,
            (disk, offset, len),
            r,
        ) || call_ensures(TensorlakeRootfsState::zero_at, (disk, offset, len), r),
        call_ensures(TensorlakeRootfsState::block_size, (disk,), block_size),
        r is Ok,
    ensures
        covers_request(r->Ok_0@, block_size, offset, len),
{
    state::law_range_refused(disk@, offset, len);
    lemma_covers(disk@, offset, len);
}

/// The steps of a write, carried out, replace the bytes of the segment by the data, and leave all
/// other bytes of the disk as they were.
pub proof fn law_write_segment(
    disk: &TensorlakeRootfsState,
    live: &LiveOverlay,
    files: Committed,
    offset: u64,
    data: Seq<u8>,
    steps: Vec<LiveStep>,
    trace: Seq<World>,
    i: int,
)
    requires
        call_ensures(
            TensorlakeRootfsState::write_segment,
            (disk, live, offset, data.len() as u64),
            steps,
        ),
        disk@.valid(),
        disk@.in_one_block(offset as int, data.len() as int),
        live@ == trace.first().live,
        disk@.admits(trace.first().live),
        disk@.backed_by(files, trace.first()),
        step::runs_plan(steps@, files, data, trace),
        0 <= i < disk@.logical_size,
    ensures
        disk@.content(files, trace.last())[i] == if offset <= i < offset + data.len() {
            data[i - offset]
        } else {
            disk@.content(files, trace.first())[i]
        },
{
    laws::law_write_segment(disk@, files, offset, data, trace);
}

/// The steps of a zeroing, carried out, turn the bytes of the segment into zeroes, and leave all
/// other bytes of the disk as they were.
pub proof fn law_zero_segment(
    disk: &TensorlakeRootfsState,
    live: &LiveOverlay,
    files: Committed,
    offset: u64,
    len: u64,
    steps: Vec<LiveStep>,
    trace: Seq<World>,
    i: int,
)
    requires
        call_ensures(TensorlakeRootfsState::zero_segment, (disk, live, offset, len), steps),
        disk@.valid(),
        disk@.in_one_block(offset as int, len as int),
        live@ == trace.first().live,
        disk@.admits(trace.first().live),
        disk@.backed_by(files, trace.first()),
        step::runs_plan(steps@, files, seq![], trace),
        0 <= i < disk@.logical_size,
    ensures
        disk@.content(files, trace.last())[i] == if offset <= i < offset + len {
            0u8
        } else {
            disk@.content(files, trace.first())[i]
        },
{
    laws::law_zero_segment(disk@, files, offset, len, seq![], trace);
}

/// The steps of a sync, carried out, flush the live file and put the index of the live marks at the
/// index path, for good where that has a directory; and they can be carried out even where that
/// directory did not exist.
pub proof fn law_sync_live(
    disk: &TensorlakeRootfsState,
    live: &LiveOverlay,
    sync: LiveSync,
    bytes: Seq<u8>,
    trace: Seq<Host>,
)
    requires
        call_ensures(TensorlakeRootfsState::sync_live, (disk, live), sync),
        save::saves_up_to(save::save_views(sync.steps@), bytes, trace, false),
    ensures
        trace.len() == sync.steps@.len() + 1 ==> trace.last().live_flushed,
        disk@.live_index_path is None ==> sync.index is None,
        disk@.live_index_path matches Some(path) ==> {
            &&& sync.index is Some
            &&& sync.index->0.records(live@)
            &&& trace.len() == sync.steps@.len() + 1 ==> trace.last().files.contains_key(path)
                && trace.last().files[path] == bytes
            &&& trace.len() == sync.steps@.len() + 1 && paths::directory(path) is Some
                ==> trace.last().directories.contains(paths::directory(path)->0)
                && trace.last().durable.contains_key(path) && trace.last().durable[path] == bytes
            &&& trace.len() <= sync.steps@.len() && paths::path_file_name(path) is Some && (forall|
                k: int,
            |
                0 <= k < save::save_views(sync.steps@).len() ==> (#[trigger] save::save_views(
                    sync.steps@,
                )[k] matches save::SaveStepView::WriteIndex { path: temp }
                    ==> !trace.first().files.contains_key(temp))) ==> save::save_views(
                sync.steps@,
            )[trace.len() - 1].possible(trace.last())
        },
{
    let steps = save::save_views(sync.steps@);
    assert(steps.len() == sync.steps@.len());
    match disk@.live_index_path {
        None => {
            if trace.len() == steps.len() + 1 {
                assert(steps[0].done(bytes, trace[0], trace[1]));
            }
        },
        Some(path) => {
            if trace.len() == steps.len() + 1 {
                save::law_completed_sync(sync, path, live@, bytes, trace);
            } else if paths::path_file_name(path) is Some && (forall|k: int|
                0 <= k < steps.len() ==> (
                #[trigger] steps[k] matches save::SaveStepView::WriteIndex { path: temp }
                    ==> !trace.first().files.contains_key(temp))) {
                save::law_sync_possible(sync, path, live@, bytes, trace);
            }
        },
    }
}

/// A spec is accepted exactly when it is of version 1, describes a disk that is not empty, and its
/// blocks are one or more whole sectors of 512 bytes; one that says nothing of blocks gets blocks
/// of 4096 bytes, which are.
pub proof fn law_validate_spec(
    spec: &TensorlakeRootfsSpec,
    path: &str,
    r: Result<(), BlockError>,
    default: u64,
)
    requires
        call_ensures(validate_spec, (spec, path), r),
        call_ensures(default_block_size, (), default),
    ensures
        r is Ok <==> spec.version == 1 && spec.logical_size > 0 && spec.block_size > 0
            && spec.block_size % 512 == 0,
        r matches Err(e) ==> e.kind is InvalidFormat && e.path is Some && e.path->0@ == path@,
        default == 4096,
        spec.version == 1 && spec.logical_size > 0 && spec.block_size == default ==> r is Ok,
{
}

/// A run is accepted exactly when it is not empty and ends at a 64-bit byte position.
pub proof fn law_validate_run(
    run: BlockRun,
    block_size: u64,
    path: &str,
    r: Result<(), BlockError>,
    end: Result<u64, BlockError>,
    end_byte: Result<u64, BlockError>,
    block: u64,
    contains: bool,
)
    requires
        call_ensures(validate_run, (run, block_size, path), r),
        call_ensures(BlockRun::end_block_exclusive, (run,), end),
        call_ensures(BlockRun::end_byte_offset, (run, block_size), end_byte),
        call_ensures(BlockRun::contains_block, (run, block), contains),
    ensures
        ({
            let past = run.start_block + run.block_count;
            &&& r is Ok <==> run.block_count > 0 && past <= u64::MAX && past * block_size
                <= u64::MAX
            &&& r matches Err(e) ==> (e.kind is InvalidFormat <==> run.block_count == 0) && (
            e.kind is Overflow <==> run.block_count > 0)
            &&& end is Ok <==> past <= u64::MAX
            &&& end matches Ok(n) ==> n == past
            &&& end matches Err(e) ==> e.kind is Overflow
            &&& end_byte is Ok <==> past <= u64::MAX && past * block_size <= u64::MAX
            &&& end_byte matches Ok(n) ==> n == past * block_size
            &&& end_byte matches Err(e) ==> e.kind is Overflow
            &&& contains <==> run.start_block <= block < past && past <= u64::MAX
        }),
{
}

/// The runs of a set hold its blocks and no others, and two sets of the same blocks have the same
/// runs.
pub proof fn law_runs_from_blocks(
    a: &BTreeSet<u64>,
    b: &BTreeSet<u64>,
    of_a: Vec<BlockRun>,
    of_b: Vec<BlockRun>,
    block: u64,
)
    requires
        call_ensures(runs_from_blocks, (a,), of_a),
        call_ensures(runs_from_blocks, (b,), of_b),
    ensures
        a@.contains(block) <==> exists|i: int|
            0 <= i < of_a@.len() && (#[trigger] of_a@[i]).start_block <= block && block
                - of_a@[i].start_block < of_a@[i].block_count,
        a@ == b@ ==> of_a@ == of_b@,
        forall|i: int, j: int|
            0 <= i < j < of_a@.len() ==> (#[trigger] of_a@[i]).start_block + of_a@[i].block_count
                < (#[trigger] of_a@[j]).start_block,
        forall|i: int| 0 <= i < of_a@.len() ==> (#[trigger] of_a@[i]).block_count > 0,
{
    run::law_runs_blocks(of_a@, block);
    assert(a@.contains(block) <==> run::runs_span(of_a@, block));
    if a@ == b@ {
        assert forall|c: u64| run::runs_span(of_a@, c) <==> run::runs_span(of_b@, c) by {
            assert(a@.contains(c) <==> run::runs_span(of_a@, c));
            assert(b@.contains(c) <==> run::runs_span(of_b@, c));
        }
        run::law_canonical_runs_unique(of_a@, of_b@);
    }
    assert forall|i: int, j: int| 0 <= i < j < of_a@.len() implies (
    #[trigger] of_a@[i]).start_block + of_a@[i].block_count < (
    #[trigger] of_a@[j]).start_block by {
        assert(of_a@[i].end() < of_a@[j].start_block);
    }
}

/// An index is of version 1, its runs lie on the disk, and none of its blocks is both dirty and
/// zero.
pub open spec fn index_sound(index: LiveOverlayIndex, block_size: u64, logical_size: u64) -> bool {
    let dirty = index.dirty_runs@;
    let zero = index.zero_runs@;
    &&& index.version == 1
    &&& forall|i: int|
        0 <= i < dirty.len() ==> overlay::run_on_disk(
            #[trigger] dirty[i],
            block_size,
            logical_size,
        )
    &&& forall|i: int|
        0 <= i < zero.len() ==> overlay::run_on_disk(#[trigger] zero[i], block_size, logical_size)
    &&& forall|i: int, j: int|
        0 <= i < dirty.len() && 0 <= j < zero.len() ==> (#[trigger] dirty[i]).start_block
            + dirty[i].block_count <= (#[trigger] zero[j]).start_block || zero[j].start_block
            + zero[j].block_count <= dirty[i].start_block
}

/// A block lies in a run of an index.
pub open spec fn covered(runs: Seq<BlockRun>, block: u64) -> bool {
    exists|i: int|
        0 <= i < runs.len() && (#[trigger] runs[i]).start_block <= block && block
            - runs[i].start_block < runs[i].block_count
}

/// Without an index nothing is marked. With one, the overlay is loaded exactly when the index is of
/// version 1, its runs lie on the disk, and none of its blocks is both dirty and zero; and then the
/// blocks of its dirty runs are marked dirty and those of its zero runs zero, and no others.
pub proof fn law_load_live_overlay(
    index_path: Option<&str>,
    index: Option<&LiveOverlayIndex>,
    block_size: u64,
    logical_size: u64,
    r: Result<LiveOverlay, BlockError>,
    block: u64,
)
    requires
        call_ensures(load_live_overlay, (index_path, index, block_size, logical_size), r),
        block_size > 0,
    ensures
        index_path is None || index is None ==> r is Ok && !r->Ok_0@.dirty.contains(block)
            && !r->Ok_0@.zero.contains(block),
        index_path is Some && index is Some ==> (r is Ok <==> index_sound(
            *index->0,
            block_size,
            logical_size,
        )),
        index_path is Some && index is Some && r is Ok ==> {
            &&& r->Ok_0@.dirty.contains(block) <==> covered(index->0.dirty_runs@, block)
            &&& r->Ok_0@.zero.contains(block) <==> covered(index->0.zero_runs@, block)
        },
{
    if index_path is Some && index is Some {
        let path = index_path->0@;
        overlay::law_index_accepted(*index->0, block_size, logical_size, path);
        if r is Ok {
            overlay::law_described_marks(
                *index->0,
                r->Ok_0@,
                block_size,
                logical_size,
                path,
                block,
            );
        }
    }
}

/// An overlay that is saved and loaded again has the marks that it had.
pub proof fn law_index_saved_and_loaded(
    disk: &TensorlakeRootfsState,
    live: &LiveOverlay,
    saved: LiveOverlayIndex,
    index_path: &str,
    loaded: Result<LiveOverlay, BlockError>,
)
    requires
        call_ensures(LiveOverlay::index, (live,), saved),
        call_ensures(
            load_live_overlay,
            (Some(index_path), Some(&saved), disk@.block_size, disk@.logical_size),
            loaded,
        ),
        disk@.valid(),
        disk@.admits(live@),
        overlay::index_fits(disk@, live@),
    ensures
        saved.version == 1,
        loaded is Ok,
        loaded->Ok_0@ == live@,
{
    overlay::law_index_round_trip(disk@, live@, saved, index_path@, loaded->Ok_0@);
}

/// A disk starts to open exactly when its spec is accepted and, unless it is only read, names an
/// index; the disk is then the one that the spec describes, with relative paths taken from the
/// directory of the spec.
pub proof fn law_open(
    spec_path: &str,
    spec: TensorlakeRootfsSpec,
    readonly: bool,
    r: Result<OpenBase, BlockError>,
    i: int,
)
    requires
        call_ensures(TensorlakeRootfsDisk::open, (spec_path, spec, readonly), r),
    ensures
        r is Ok <==> spec.version == 1 && spec.logical_size > 0 && spec.block_size > 0
            && spec.block_size % 512 == 0 && (readonly || spec.live_index_path is Some),
        r matches Err(e) ==> e.kind is InvalidFormat && e.path is Some && e.path->0@
            == spec_path@,
        r matches Ok(base) ==> {
            &&& base@.logical_size == spec.logical_size
            &&& base@.block_size == spec.block_size
            &&& base@.readonly == readonly
            &&& base@.layers.len() == spec.layers@.len()
            &&& 0 <= i < spec.layers@.len() ==> base@.layers[i].dirty_runs
                == spec.layers@[i].dirty_runs@
            &&& 0 <= i < spec.layers@.len() ==> base@.layers[i].zero_runs
                == spec.layers@[i].zero_runs@
            &&& base@.live_index_path is Some <==> spec.live_index_path is Some
            &&& found_at(spec_path@, spec.base_path@, base@.base_path)
            &&& found_at(spec_path@, spec.live_overlay_path@, base@.live_path)
            &&& 0 <= i < spec.layers@.len() ==> found_at(
                spec_path@,
                spec.layers@[i].path@,
                base@.layers[i].path,
            )
            &&& spec.live_index_path is Some ==> found_at(
                spec_path@,
                spec.live_index_path->0@,
                base@.live_index_path->0,
            )
        },
{
}

/// `file` is where the spec at `spec_path` means by `path`.
pub open spec fn found_at(spec_path: Seq<char>, path: Seq<char>, file: Seq<char>) -> bool {
    if path.len() > 0 && path[0] == '/' {
        file == path
    } else {
        match paths::path_parent(spec_path) {
            Some(directory) => file == paths::path_joined(directory, path),
            None => file == paths::path_joined("."@, path),
        }
    }
}

/// The base image, and the live file, are accepted exactly when they are as long as the disk.
pub proof fn law_files_opened(
    base: OpenBase,
    base_len: u64,
    after_base: Result<OpenLayers, BlockError>,
    live: OpenLive,
    live_len: u64,
    after_live: Result<OpenIndex, BlockError>,
)
    requires
        call_ensures(OpenBase::opened, (base, base_len), after_base),
        call_ensures(OpenLive::opened, (live, live_len), after_live),
    ensures
        after_base is Ok <==> base_len >= base@.logical_size,
        after_live is Ok <==> live_len >= live@.disk.logical_size,
        after_base matches Ok(layers) ==> layers@.disk == base@,
        after_live matches Ok(index) ==> index@.disk == live@.disk,
        after_base matches Err(e) ==> e.kind is InvalidFormat && e.path is Some && e.path->0@
            == base@.base_path,
        after_live matches Err(e) ==> e.kind is InvalidFormat && e.path is Some && e.path->0@
            == live@.disk.live_path,
{
}

/// A disk that is only read neither writes, creates nor resizes its live file; one that is written
/// does all three, to the size of the disk.
pub proof fn law_live_options(live: &OpenLive, r: LiveOpenOptions)
    requires
        call_ensures(OpenLive::options, (live,), r),
    ensures
        r.write == !live@.disk.readonly,
        r.create == !live@.disk.readonly,
        live@.disk.readonly ==> r.set_len is None,
        !live@.disk.readonly ==> r.set_len == Some(live@.disk.logical_size),
{
}

/// A layer is accepted exactly when none of its runs is empty, all end at a 64-bit byte position,
/// and its file reaches to the end of every dirty run; it keeps its path and its runs.
pub proof fn law_open_committed_layer(
    path: String,
    spec: &TensorlakeLayerSpec,
    block_size: u64,
    len: u64,
    r: Result<CommittedLayer, BlockError>,
)
    requires
        call_ensures(open_committed_layer, (path, spec, block_size, len), r),
    ensures
        r is Ok <==> {
            &&& forall|i: int|
                0 <= i < spec.dirty_runs@.len() ==> open::sound_run(
                    #[trigger] spec.dirty_runs@[i],
                    block_size,
                ) && (spec.dirty_runs@[i].start_block + spec.dirty_runs@[i].block_count)
                    * block_size <= len
            &&& forall|i: int|
                0 <= i < spec.zero_runs@.len() ==> open::sound_run(
                    #[trigger] spec.zero_runs@[i],
                    block_size,
                )
        },
        r matches Ok(layer) ==> layer.path@ == path@ && layer.dirty_runs@ == spec.dirty_runs@
            && layer.zero_runs@ == spec.zero_runs@,
{
    let view = model::LayerView {
        path: path@,
        dirty_runs: spec.dirty_runs@,
        zero_runs: spec.zero_runs@,
    };
    open::law_layer_accepted(view, block_size, len);
}

/// A disk that has been opened is the one that was to be opened, with a live overlay that marks
/// only its own blocks, and none both ways.
pub proof fn law_opened(
    pending: OpenIndex,
    index: Option<&LiveOverlayIndex>,
    r: Result<(TensorlakeRootfsDisk, LiveOverlay), BlockError>,
    block: u64,
)
    requires
        call_ensures(OpenIndex::loaded, (pending, index), r),
    ensures
        index is None ==> r is Ok,
        pending@.disk.live_index_path is None ==> r is Ok,
        r matches Ok((disk, live)) ==> {
            &&& disk@ == pending@.disk
            &&& disk@.logical_size > 0
            &&& disk@.block_size > 0
            &&& disk@.block_size % 512 == 0
            &&& live@.dirty.contains(block) || live@.zero.contains(block) ==> block
                * disk@.block_size < disk@.logical_size
            &&& !(live@.dirty.contains(block) && live@.zero.contains(block))
            &&& index is None || pending@.disk.live_index_path is None
                ==> !live@.dirty.contains(block) && !live@.zero.contains(block)
        },
        pending@.disk.live_index_path is Some && index is Some && pending@.disk.block_size > 0 ==> (
        r is Ok <==> index_sound(
            *index->0,
            pending@.disk.block_size,
            pending@.disk.logical_size,
        )),
        pending@.disk.live_index_path is Some && index is Some && r is Ok ==> {
            &&& r->Ok_0.1@.dirty.contains(block) <==> covered(index->0.dirty_runs@, block)
            &&& r->Ok_0.1@.zero.contains(block) <==> covered(index->0.zero_runs@, block)
        },
{
    if let Ok((disk, live)) = r {
        model::law_admitted_marks(disk@, live@);
        assert(live@.dirty.contains(block) || !live@.dirty.contains(block));
    }
    let disk = pending@.disk;
    if disk.live_index_path is Some && index is Some && disk.block_size > 0 {
        let path = disk.live_index_path->0;
        overlay::law_index_accepted(*index->0, disk.block_size, disk.logical_size, path);
        if let Ok((_, live)) = r {
            overlay::law_described_marks(
                *index->0,
                live@,
                disk.block_size,
                disk.logical_size,
                path,
                block,
            );
        }
    }
}

/// A file is accepted exactly when it is at least as long as it has to be.
pub proof fn law_validate_file_covers(
    len: u64,
    required_len: u64,
    path: &str,
    r: Result<(), BlockError>,
)
    requires
        call_ensures(validate_file_covers, (len, required_len, path), r),
    ensures
        r is Ok <==> len >= required_len,
        r matches Err(e) ==> e.kind is InvalidFormat && e.path is Some && e.path->0@ == path@,
{
}

/// A file takes 512 bytes for each unit that is allocated, and a disk as much as its files
/// together, as far as that fits in 64 bits.
pub proof fn law_physical_size(
    disk: &TensorlakeRootfsDisk,
    units: u64,
    allocated: u64,
    base: u64,
    live: u64,
    layers: &Vec<u64>,
    r: u64,
    more: &Vec<u64>,
    with_more: u64,
    x: u64,
)
    requires
        call_ensures(allocated_size, (units,), allocated),
        call_ensures(TensorlakeRootfsDisk::physical_size, (disk, base, live, layers), r),
        call_ensures(TensorlakeRootfsDisk::physical_size, (disk, base, live, more), with_more),
        more@ == layers@.push(x),
    ensures
        units * 512 <= u64::MAX ==> allocated == units * 512,
        units * 512 > u64::MAX ==> allocated == u64::MAX,
        layers@.len() == 0 && base + live <= u64::MAX ==> r == base + live,
        layers@.len() == 0 && base + live > u64::MAX ==> r == u64::MAX,
        r + x <= u64::MAX ==> with_more == r + x,
        r + x > u64::MAX ==> with_more == u64::MAX,
{
    disk::law_total_adds_up(layers@, seq![x], x);
    assert(layers@ + seq![x] =~= more@);
    disk::lemma_total_nonnegative(layers@);
}

/// A disk tells a guest sectors of 512 bytes and its own blocks, and offers to zero ranges unless
/// it is only read.
pub proof fn law_disk_reports(
    disk: &TensorlakeRootfsDisk,
    topology: DiskTopology,
    size: u64,
    sparse: bool,
    zero: bool,
)
    requires
        call_ensures(TensorlakeRootfsDisk::topology, (disk,), topology),
        call_ensures(TensorlakeRootfsDisk::logical_size, (disk,), size),
        call_ensures(TensorlakeRootfsDisk::supports_sparse_operations, (disk,), sparse),
        call_ensures(TensorlakeRootfsDisk::supports_zero_flag, (disk,), zero),
    ensures
        topology.logical_block_size == 512,
        topology.minimum_io_size == 512,
        topology.physical_block_size == disk@.block_size,
        topology.optimal_io_size == disk@.block_size,
        size == disk@.logical_size,
        sparse == !disk@.readonly,
        zero == !disk@.readonly,
{
}

/// Only the present size of a disk is accepted.
pub proof fn law_ensure_size(disk: &TensorlakeRootfsState, size: u64, r: Result<(), BlockError>)
    requires
        call_ensures(TensorlakeRootfsState::ensure_size, (disk, size), r),
    ensures
        r is Ok <==> size == disk@.logical_size,
        r matches Err(e) ==> e.kind is UnsupportedFeature,
{
}

/// A path of a spec is found where the spec means it, and alike through its directory.
pub proof fn law_resolve_spec_path(
    spec_path: &str,
    path: &str,
    r: String,
    directory: Option<&str>,
    in_directory: String,
)
    requires
        call_ensures(resolve_spec_path, (spec_path, path), r),
        call_ensures(resolve_in, (directory, path), in_directory),
    ensures
        found_at(spec_path@, path@, r@),
        path@.len() > 0 && path@[0] == '/' ==> in_directory@ == path@,
        !(path@.len() > 0 && path@[0] == '/') ==> match directory {
            Some(d) => in_directory@ == paths::path_joined(d@, path@),
            None => in_directory@ == paths::path_joined("."@, path@),
        },
{
}

/// A number is rendered so that it can be read back, and two numbers never alike.
pub proof fn law_decimal(a: u64, b: u64, of_a: String, of_b: String)
    requires
        call_ensures(decimal, (a,), of_a),
        call_ensures(decimal, (b,), of_b),
    ensures
        text::decimal_value(of_a@) == a,
        of_a@ == of_b@ ==> a == b,
        forall|i: int| 0 <= i < of_a@.len() ==> '0' <= #[trigger] of_a@[i] <= '9',
        of_a@.len() > 1 ==> of_a@[0] != '0',
{
    text::law_decimal_reads_back(a as nat);
    text::law_decimal_reads_back(b as nat);
}

/// A data request is answered by the kind of request that it was, and admitted exactly when its
/// offset is not negative, it ends on the disk, and, to write, the disk may be changed.
pub proof fn law_submit_data_operation<B>(
    queue: &TensorlakeRootfsSyncIo<B>,
    disk: &TensorlakeRootfsState,
    is_read: bool,
    offset: i64,
    len: u64,
    r: Result<SegmentWalk, AsyncIoError>,
)
    requires
        call_ensures(
            TensorlakeRootfsSyncIo::<B>::submit_data_operation,
            (queue, disk, is_read, offset, len),
            r,
        ),
        disk@.valid(),
    ensures
        r is Ok <==> offset >= 0 && offset + len <= disk@.logical_size && (is_read
            || !disk@.readonly),
        r matches Err(e) ==> (e is ReadVectored <==> is_read) && (e is WriteVectored <==> !is_read),
        r matches Ok(walk) ==> covers_request(walk@, disk@.block_size, offset as u64, len),
{
    sync_io::law_data_refused(disk@, is_read, offset, len);
    if let Ok(walk) = r {
        lemma_covers(disk@, offset as u64, len);
    }
}

/// The segments of a range on the disk cover it.
proof fn lemma_covers(disk: model::RootfsView, offset: u64, len: u64)
    requires
        disk.valid(),
        offset + len <= disk.logical_size,
    ensures
        covers_request(
            segment::segments(disk.block_size, offset as int, len as int, 0),
            disk.block_size,
            offset,
            len,
        ),
{
    let parts = segment::segments(disk.block_size, offset as int, len as int, 0);
    let block_size = disk.block_size;
    segment::law_segments_partition(disk, offset as int, len as int, 0);
    assert forall|j: int| 0 < j < parts.len() implies (#[trigger] parts[j]).offset as int
        % block_size as int == 0 by {
        segment::law_segments_fewest(disk, offset as int, len as int, j);
    }
    assert forall|j: int| 0 <= j < parts.len() implies exists|block: int| #[trigger]
        (block * block_size) <= parts[j].offset && (#[trigger] parts[j]).offset + parts[j].len
            <= block * block_size + block_size by {
        let block = disk.block_of(parts[j].offset as int) as int;
        model::law_block_positions(disk, parts[j].offset as int, block as u64);
        assert(block * block_size <= parts[j].offset);
    }
}

/// Punching a hole and writing zeroes are admitted exactly when the range ends on a disk that may
/// be changed, and answered by their own kind.
pub proof fn law_zero_requests<B>(
    queue: &TensorlakeRootfsSyncIo<B>,
    disk: &TensorlakeRootfsState,
    offset: u64,
    len: u64,
    punched: Result<SegmentWalk, AsyncIoError>,
    zeroed: Result<SegmentWalk, AsyncIoError>,
)
    requires
        call_ensures(
            TensorlakeRootfsSyncIo::<B>::punch_hole,
            (queue, disk, offset, len),
            punched,
        ),
        call_ensures(
            TensorlakeRootfsSyncIo::<B>::write_zeroes,
            (queue, disk, offset, len),
            zeroed,
        ),
        disk@.valid(),
    ensures
        punched is Ok <==> !disk@.readonly && offset + len <= disk@.logical_size,
        zeroed is Ok <==> !disk@.readonly && offset + len <= disk@.logical_size,
        punched matches Err(e) ==> e is PunchHole,
        zeroed matches Err(e) ==> e is WriteZeroes,
        punched matches Ok(walk) ==> covers_request(walk@, disk@.block_size, offset, len),
        zeroed matches Ok(walk) ==> covers_request(walk@, disk@.block_size, offset, len),
{
    state::law_range_refused(disk@, offset, len);
    if offset + len <= disk@.logical_size {
        lemma_covers(disk@, offset, len);
    }
}

/// The list of a thread's rules names a call exactly when the thread may make it, and without
/// conditions unless the call is an ioctl.
pub proof fn law_get_seccomp_rules(
    thread: Thread,
    target: Target,
    r: Vec<(i64, Vec<CallRule>)>,
    call: Syscall,
)
    requires
        call_ensures(get_seccomp_rules, (thread, target), r),
        call.exists_on(target.arch),
    ensures
        permissions::may_call(thread, call, target) <==> exists|i: int|
            0 <= i < r@.len() && (#[trigger] r@[i]).0 == call.number(target.arch),
        forall|i: int|
            0 <= i < r@.len() ==> syscall::call_of(
                (#[trigger] r@[i]).0 as int,
                target.arch,
            ) is Some,
        forall|i: int|
            0 <= i < r@.len() && (#[trigger] r@[i]).0 != Syscall::Ioctl.number(target.arch)
                ==> r@[i].1@.len() == 0,
{
    let view = seccomp_filters::rules_view(r@);
    let number = call.number(target.arch);
    permissions::law_calls_permitted(thread, call, target);
    seccomp_program::lemma_collected_numbers(view);
    if exists|i: int| 0 <= i < view.len() && (#[trigger] view[i]).0 == number {
        let i = choose|i: int| 0 <= i < view.len() && (#[trigger] view[i]).0 == number;
        assert(r@[i].0 == number);
    }
    if exists|i: int| 0 <= i < r@.len() && (#[trigger] r@[i]).0 == number {
        let i = choose|i: int| 0 <= i < r@.len() && (#[trigger] r@[i]).0 == number;
        assert(view[i].0 == number);
    }
    assert forall|i: int| 0 <= i < r@.len() implies syscall::call_of(
        (#[trigger] r@[i]).0 as int,
        target.arch,
    ) is Some by {
        permissions::lemma_entry_known(thread, target, i);
        assert(view[i].0 == r@[i].0);
    }
    assert forall|i: int|
        0 <= i < r@.len() && (#[trigger] r@[i]).0 != Syscall::Ioctl.number(
            target.arch,
        ) implies r@[i].1@.len() == 0 by {
        assert(view[i].0 == r@[i].0);
        permissions::lemma_entry_open(thread, target, i);
        assert(view[i].1.len() == r@[i].1@.len());
    }
}

/// A thread's filter is empty where it may do everything, and otherwise the program that lets
/// through what the thread may call and logs, or traps, the rest.
pub proof fn law_get_seccomp_filter(
    action: &SeccompAction,
    thread: Thread,
    target: Target,
    r: Result<Vec<SockFilter>, Error>,
    calls: Map<i64, Seq<Seq<seccomp_filters::ArgCondition>>>,
)
    requires
        call_ensures(get_seccomp_filter, (action, thread, target), r),
        forall|call: Syscall|
            #![trigger permissions::may_call(thread, call, target)]
            call.exists_on(target.arch) ==> (calls.contains_key(call.number(target.arch))
                <==> permissions::may_call(thread, call, target)),
        forall|number: i64| #[trigger]
            calls.contains_key(number) ==> syscall::call_of(number as int, target.arch) is Some
                && calls[number] == seccomp_program::thread_calls(thread, target)[number],
    ensures
        r is Ok,
        *action == SeccompAction::Allow ==> r->Ok_0@.len() == 0,
        *action == SeccompAction::Log ==> seccomp_program::filter_program(
            calls,
            Verdict::Log,
            Verdict::Allow,
            target.arch,
        ) == Some(r->Ok_0@),
        *action != SeccompAction::Allow && *action != SeccompAction::Log
            ==> seccomp_program::filter_program(
            calls,
            Verdict::Trap,
            Verdict::Allow,
            target.arch,
        ) == Some(r->Ok_0@),
{
    let own = seccomp_program::thread_calls(thread, target);
    assert forall|number: i64| calls.contains_key(number) == own.contains_key(number) by {
        if own.contains_key(number) {
            permissions::law_only_permitted_calls(thread, target, number);
        }
        if own.contains_key(number) || calls.contains_key(number) {
            let call = syscall::call_of(number as int, target.arch)->0;
            syscall::law_calls_have_their_numbers(number as int, target.arch);
            permissions::law_calls_permitted(thread, call, target);
            assert(permissions::may_call(thread, call, target) || !permissions::may_call(
                thread,
                call,
                target,
            ));
        }
    }
    assert(calls =~= own);
}

/// A call has the number under which Linux knows it on the architecture.
pub proof fn law_number(call: Syscall, arch: Arch, r: i64)
    requires
        call_ensures(Syscall::number, (call, arch), r),
    ensures
        r >= 0 ==> syscall::call_of(r as int, arch) == Some(call),
        r < 0 ==> forall|n: int| syscall::call_of(n, arch) != Some(call),
{
    syscall::law_numbers_lead_back(call, arch);
}

/// A temporary file is hidden, its name ends in `.tmp`, and no two ids give the same name.
pub proof fn law_make_temp_name(
    file_name: Option<&str>,
    a: &str,
    b: &str,
    of_a: String,
    of_b: String,
)
    requires
        call_ensures(make_temp_name, (file_name, a), of_a),
        call_ensures(make_temp_name, (file_name, b), of_b),
    ensures
        of_a@[0] == '.',
        of_a@.subrange(of_a@.len() - 4, of_a@.len() as int) == seq!['.', 't', 'm', 'p'],
        of_a@ == of_b@ ==> a@ == b@,
{
    let name = match file_name {
        Some(name) => Some(name@),
        None => None,
    };
    save::law_temp_name(name, a@);
    save::law_temp_name(name, b@);
}

/// A step sets or clears the mark of its own block that it is named after, and no other mark.
pub proof fn law_apply(live: &mut LiveOverlay, step: LiveStep, block: u64)
    requires
        call_ensures(LiveOverlay::apply, (live, step), ()),
    ensures
        final(live)@.dirty.contains(block) == if step == (LiveStep::MarkDirty { block }) {
            true
        } else if step == (LiveStep::UnmarkDirty { block }) {
            false
        } else {
            old(live)@.dirty.contains(block)
        },
        final(live)@.zero.contains(block) == if step == (LiveStep::MarkZero { block }) {
            true
        } else if step == (LiveStep::UnmarkZero { block }) {
            false
        } else {
            old(live)@.zero.contains(block)
        },
{
    laws::law_step_marks(step, old(live)@, block);
}

/// A walk gives its segments in their order, each once, and then no more.
pub proof fn law_next_segment(walk: &mut SegmentWalk, r: Option<Segment>)
    requires
        call_ensures(SegmentWalk::next_segment, (walk,), r),
    ensures
        r is Some <==> old(walk)@.len() > 0,
        r is Some ==> seq![r->0] + final(walk)@ == old(walk)@,
        r is None ==> final(walk)@ == old(walk)@,
{
    if old(walk)@.len() > 0 {
        assert(seq![r->0] + final(walk)@ =~= old(walk)@);
    }
}

/// A completion is queued behind those that wait, with what the request said of itself, the number
/// of bytes that were transferred, and the request's memory.
pub proof fn law_complete<B>(
    queue: &mut TensorlakeRootfsSyncIo<B>,
    user_data: u64,
    len: u64,
    buffer: B,
)
    requires
        call_ensures(TensorlakeRootfsSyncIo::<B>::complete, (queue, user_data, len, buffer), ()),
    ensures
        final(queue)@.len() == old(queue)@.len() + 1,
        final(queue)@.drop_last() == old(queue)@,
        final(queue)@.last().user_data == user_data,
        final(queue)@.last().buffer == Some(buffer),
        len <= i32::MAX ==> final(queue)@.last().result == len,
        (final(queue)@.last().result - len) % 0x1_0000_0000 == 0,
{
    sync_io::law_transfer_result(len);
    assert(final(queue)@.drop_last() =~= old(queue)@);
}

/// A request without data is queued behind those that wait, as one that transferred nothing.
pub proof fn law_complete_request<B>(queue: &mut TensorlakeRootfsSyncIo<B>, user_data: u64)
    requires
        call_ensures(TensorlakeRootfsSyncIo::<B>::complete_request, (queue, user_data), ()),
    ensures
        final(queue)@.len() == old(queue)@.len() + 1,
        final(queue)@.drop_last() == old(queue)@,
        final(queue)@.last().user_data == user_data,
        final(queue)@.last().buffer is None,
        final(queue)@.last().result == 0,
{
    assert(final(queue)@.drop_last() =~= old(queue)@);
}

/// A flush is queued, and announced, exactly when the request said what to answer it with.
pub proof fn law_fsync<B>(
    queue: &mut TensorlakeRootfsSyncIo<B>,
    user_data: Option<u64>,
    r: bool,
)
    requires
        call_ensures(TensorlakeRootfsSyncIo::<B>::fsync, (queue, user_data), r),
    ensures
        r <==> user_data is Some,
        user_data is None ==> final(queue)@ == old(queue)@,
        user_data is Some ==> {
            &&& final(queue)@.len() == old(queue)@.len() + 1
            &&& final(queue)@.drop_last() == old(queue)@
            &&& final(queue)@.last().user_data == user_data->0
            &&& final(queue)@.last().buffer is None
            &&& final(queue)@.last().result == 0
        },
{
    if user_data is Some {
        assert(final(queue)@.drop_last() =~= old(queue)@);
    }
}

/// Completions are taken in the order in which they were queued.
pub proof fn law_next_completed_request<B>(
    queue: &mut TensorlakeRootfsSyncIo<B>,
    r: Option<AsyncIoCompletion<B>>,
)
    requires
        call_ensures(TensorlakeRootfsSyncIo::<B>::next_completed_request, (queue,), r),
    ensures
        r is Some <==> old(queue)@.len() > 0,
        r is Some ==> seq![r->0] + final(queue)@ == old(queue)@,
        r is None ==> final(queue)@ == old(queue)@,
{
    if old(queue)@.len() > 0 {
        assert(seq![r->0] + final(queue)@ =~= old(queue)@);
    }
}

/// A run is added to a set exactly when it can stand in an index of a disk of `max_blocks` blocks;
/// then the set has the blocks of the run besides its own, and otherwise it stays.
pub proof fn law_add_run_blocks(
    blocks: &mut BTreeSet<u64>,
    run: BlockRun,
    block_size: u64,
    max_blocks: u64,
    path: &str,
    r: Result<(), BlockError>,
    block: u64,
)
    requires
        call_ensures(add_run_blocks, (blocks, run, block_size, max_blocks, path), r),
    ensures
        ({
            let end = run.start_block + run.block_count;
            &&& r is Ok <==> run.block_count > 0 && end <= max_blocks && end * block_size
                <= u64::MAX
            &&& r is Ok ==> (final(blocks)@.contains(block) <==> old(blocks)@.contains(block)
                || run.start_block <= block < end)
            &&& r is Err ==> (final(blocks)@.contains(block) <==> old(blocks)@.contains(block))
        }),
{
    run::law_run_accepted(run, block_size, max_blocks, path@);
    run::law_run_blocks(run, block);
}

/// A disk is not resized: only its present size is accepted, and it stays what it is.
pub proof fn law_resize(disk: &mut TensorlakeRootfsDisk, size: u64, r: Result<(), BlockError>)
    requires
        call_ensures(TensorlakeRootfsDisk::resize, (disk, size), r),
    ensures
        r is Ok <==> size == old(disk)@.logical_size,
        r matches Err(e) ==> e.kind is UnsupportedFeature,
        final(disk)@ == old(disk)@,
{
}

/// A layer has a dirty, or a zero, block exactly when the block lies in one of its dirty, or zero,
/// runs.
pub proof fn law_layer_has_block(layer: &CommittedLayer, block: u64, dirty: bool, zero: bool)
    requires
        call_ensures(CommittedLayer::has_dirty_block, (layer, block), dirty),
        call_ensures(CommittedLayer::has_zero_block, (layer, block), zero),
    ensures
        dirty <==> in_runs(layer.dirty_runs@, block),
        zero <==> in_runs(layer.zero_runs@, block),
{
    model::law_layer_blocks(layer@, block);
}

/// A range is in bounds exactly when it ends on the disk.
pub proof fn law_ensure_range_in_bounds(
    disk: &TensorlakeRootfsState,
    offset: u64,
    len: u64,
    r: Result<(), IoError>,
)
    requires
        call_ensures(TensorlakeRootfsState::ensure_range_in_bounds, (disk, offset, len), r),
    ensures
        r is Ok <==> offset + len <= disk@.logical_size,
        r matches Err(e) ==> e.kind is InvalidInput,
{
    state::law_range_refused(disk@, offset, len);
}

/// A segment ends with the request, with its block or with the disk, and goes past none of them;
/// and a block ends with the next, or with the disk.
pub proof fn law_segment_len(
    disk: &TensorlakeRootfsState,
    offset: u64,
    remaining: u64,
    block: u64,
    r: u64,
    block_len: u64,
)
    requires
        call_ensures(TensorlakeRootfsState::segment_len, (disk, offset, remaining), r),
        call_ensures(TensorlakeRootfsState::valid_block_len, (disk, block), block_len),
        disk@.valid(),
        offset <= disk@.logical_size,
        block * disk@.block_size <= offset < block * disk@.block_size + disk@.block_size,
    ensures
        ({
            let start = block * disk@.block_size;
            let end = start + disk@.block_size;
            &&& r <= remaining
            &&& offset + r <= end
            &&& offset + r <= disk@.logical_size
            &&& r == remaining || offset + r == end || offset + r == disk@.logical_size
            &&& start + block_len <= end
            &&& start + block_len <= disk@.logical_size
            &&& start + block_len == end || start + block_len == disk@.logical_size
        }),
{
    state::law_segment_bytes(
        disk@.block_size,
        disk@.logical_size,
        offset as int,
        remaining as int,
        block as int,
    );
    model::law_block_length(disk@, block);
}

/// To fill a block of the live file means to write the whole of it: from where it is read below the
/// live overlay, or with zeroes.
pub proof fn law_seeds(
    disk: &TensorlakeRootfsState,
    block: u64,
    below: ReadSource,
    from_below: LiveStep,
    from_zero: LiveStep,
)
    requires
        call_ensures(TensorlakeRootfsState::read_committed_segment, (disk, block), below),
        call_ensures(TensorlakeRootfsState::seed_live_block, (disk, block), from_below),
        call_ensures(TensorlakeRootfsState::seed_zero_block, (disk, block), from_zero),
        disk@.valid(),
        block * disk@.block_size <= disk@.logical_size,
    ensures
        ({
            let start = block * disk@.block_size;
            let end = if start + disk@.block_size <= disk@.logical_size {
                start + disk@.block_size
            } else {
                disk@.logical_size as int
            };
            &&& from_below matches LiveStep::CopyCommitted { source, offset, len } && source
                == below && offset == start && offset + len == end
            &&& from_zero matches LiveStep::WriteZeroes { offset, len } && offset == start && offset
                + len == end
        }),
{
    model::law_block_length(disk@, block);
}

/// The directory of a file is its parent, unless that is empty or missing.
pub proof fn law_directory_of(
    path: &str,
    r: Option<String>,
    parent: Option<String>,
    kept: Option<String>,
)
    requires
        call_ensures(directory_of, (path,), r),
        call_ensures(keep_named, (parent,), kept),
    ensures
        r is Some <==> paths::path_parent(path@) is Some && paths::path_parent(path@)->0.len() > 0,
        r is Some ==> r->0@ == paths::path_parent(path@)->0,
        kept is Some <==> parent is Some && parent->0@.len() > 0,
        kept is Some ==> kept->0@ == parent->0@,
{
}

/// An index is replaced in this order: its directory is made, where it has one; the new index is
/// written to the temporary file, which is then renamed; and the directory is flushed.
pub proof fn law_replace_steps(
    directory: Option<String>,
    temp: String,
    path: &str,
    r: Vec<SaveStep>,
)
    requires
        call_ensures(replace_steps, (directory, temp, path), r),
    ensures
        directory is None ==> r@.len() == 2 && (r@[0] matches SaveStep::WriteIndex { path: at }
            && at@ == temp@) && (r@[1] matches SaveStep::Rename { from, to } && from@ == temp@
            && to@ == path@),
        directory is Some ==> r@.len() == 4 && (r@[0] matches SaveStep::CreateDirectories {
            path: made,
        } && made@ == directory->0@) && (r@[1] matches SaveStep::WriteIndex { path: at } && at@
            == temp@) && (r@[2] matches SaveStep::Rename { from, to } && from@ == temp@ && to@
            == path@) && (r@[3] matches SaveStep::SyncDirectory { path: flushed } && flushed@
            == directory->0@),
{
    let views = save::save_views(r@);
    assert(views.len() == r@.len());
    assert forall|k: int| 0 <= k < r@.len() implies #[trigger] views[k] == r@[k]@ by {}
    if directory is None {
        assert(views[0] == r@[0]@ && views[1] == r@[1]@);
    } else {
        assert(views[0] == r@[0]@ && views[1] == r@[1]@ && views[2] == r@[2]@ && views[3]
            == r@[3]@);
    }
}

/// A save records the marks of the overlay, writes them to the temporary file of its id, which is
/// not the index itself, and renames that to the index.
pub proof fn law_persist_live_index_as(
    path: &str,
    live: &LiveOverlay,
    id: &str,
    r: IndexSave,
    block: u64,
)
    requires
        call_ensures(persist_live_index_as, (path, live, id), r),
        !id@.contains('/'),
    ensures
        r.index.version == 1,
        live@.dirty.contains(block) <==> covered(r.index.dirty_runs@, block),
        live@.zero.contains(block) <==> covered(r.index.zero_runs@, block),
        save::temp_path(path@, id@) != path@,
        exists|k: int|
            0 <= k < save::save_views(r.steps@).len() && #[trigger] save::save_views(r.steps@)[k]
                == (save::SaveStepView::Rename { from: save::temp_path(path@, id@), to: path@ }),
{
    overlay::law_recorded_marks(r.index, live@, block);
    let views = save::save_views(r.steps@);
    save::law_replace_order(paths::directory(path@), save::temp_path(path@, id@), path@);
    let at: int = if paths::directory(path@) is Some {
        2
    } else {
        1
    };
    assert(views[at] == (save::SaveStepView::Rename {
        from: save::temp_path(path@, id@),
        to: path@,
    }));
}

/// The layers of a disk are opened one after the other, oldest first, and then the live file; each
/// layer is accepted exactly when its runs make sense and its file reaches to the end of every
/// dirty run.
pub proof fn law_layers_opened(
    layers: OpenLayers,
    after: AfterLayers,
    layer: OpenLayer,
    len: u64,
    r: Result<OpenLayers, BlockError>,
)
    requires
        call_ensures(OpenLayers::next, (layers,), after),
        call_ensures(OpenLayer::opened, (layer, len), r),
    ensures
        after is Layer <==> layers@.layer_lens.len() < layers@.disk.layers.len(),
        after matches AfterLayers::Live(live) ==> live@.disk == layers@.disk
            && layers@.layer_lens.len() == layers@.disk.layers.len(),
        after matches AfterLayers::Layer(next) ==> next@ == layers@,
        r matches Ok(more) ==> more@.disk == layer@.disk && more@.base_len == layer@.base_len
            && more@.layer_lens == layer@.layer_lens.push(len),
        ({
            let view = layer@.disk.layers[layer@.layer_lens.len() as int];
            r is Ok <==> {
                &&& forall|i: int|
                    0 <= i < view.dirty_runs.len() ==> open::sound_run(
                        #[trigger] view.dirty_runs[i],
                        layer@.disk.block_size,
                    ) && (view.dirty_runs[i].start_block + view.dirty_runs[i].block_count)
                        * layer@.disk.block_size <= len
                &&& forall|i: int|
                    0 <= i < view.zero_runs.len() ==> open::sound_run(
                        #[trigger] view.zero_runs[i],
                        layer@.disk.block_size,
                    )
            }
        }),
{
    open::law_layer_accepted(
        layer@.disk.layers[layer@.layer_lens.len() as int],
        layer@.disk.block_size,
        len,
    );
}

/// A list is compiled exactly when every rule has conditions, all on the six arguments of a call,
/// other calls are not let through as well, and the compiler finds a program for it.
pub proof fn law_build_program(
    rules: &Vec<(i64, Vec<CallRule>)>,
    mismatch: Verdict,
    arch: Arch,
    r: Result<Vec<SockFilter>, Error>,
    i: int,
    k: int,
)
    requires
        call_ensures(build_program, (rules, mismatch, arch), r),
        r is Ok,
        0 <= i < rules@.len(),
        0 <= k < rules@[i].1@.len(),
    ensures
        mismatch != Verdict::Allow,
        rules@[i].1@[k].conditions@.len() > 0,
        forall|c: int|
            0 <= c < rules@[i].1@[k].conditions@.len() ==> (
            #[trigger] rules@[i].1@[k].conditions@[c]).arg_index < 6,
{
    let view = seccomp_filters::rules_view(rules@);
    assert(view[i].1 == seccomp_filters::chain_view(rules@[i].1@));
    assert(view[i].1[k] == rules@[i].1@[k].conditions@);
    seccomp_program::lemma_built_rule(view, i, k);
    seccomp_program::law_rule_builds(view[i].1[k]);
}

/// The list is the one that belongs to the thread alone.
pub open spec fn own_list(thread: Thread, target: Target, r: Vec<(i64, Vec<CallRule>)>) -> bool {
    match thread {
        Thread::VirtioBalloon => call_ensures(virtio_balloon_thread_rules, (target,), r),
        Thread::VirtioBlock => call_ensures(virtio_block_thread_rules, (target,), r),
        Thread::VirtioConsole => call_ensures(virtio_console_thread_rules, (target,), r),
        Thread::VirtioIommu => call_ensures(virtio_iommu_thread_rules, (target,), r),
        Thread::VirtioMem => call_ensures(virtio_mem_thread_rules, (target,), r),
        Thread::VirtioNet => call_ensures(virtio_net_thread_rules, (target,), r),
        Thread::VirtioNetCtl => call_ensures(virtio_net_ctl_thread_rules, (target,), r),
        Thread::VirtioPmem => call_ensures(virtio_pmem_thread_rules, (target,), r),
        Thread::VirtioRng => call_ensures(virtio_rng_thread_rules, (target,), r),
        Thread::VirtioRtc => call_ensures(virtio_rtc_thread_rules, (target,), r),
        Thread::VirtioVhostBlock => call_ensures(virtio_vhost_block_thread_rules, (target,), r),
        Thread::VirtioVhostFs => call_ensures(virtio_vhost_fs_thread_rules, (target,), r),
        Thread::VirtioGenericVhostUser => call_ensures(
            virtio_generic_vhost_user_thread_rules,
            (target,),
            r,
        ),
        Thread::VirtioVhostNet => call_ensures(virtio_vhost_net_thread_rules, (target,), r),
        Thread::VirtioVhostNetCtl => call_ensures(
            virtio_vhost_net_ctl_thread_rules,
            (target,),
            r,
        ),
        Thread::VirtioVsock => call_ensures(virtio_vsock_thread_rules, (target,), r),
        Thread::VirtioWatchdog => call_ensures(virtio_watchdog_thread_rules, (target,), r),
    }
}

/// A list of rules has an entry for the number.
pub open spec fn has_entry(rules: Seq<(i64, Vec<CallRule>)>, number: i64) -> bool {
    exists|i: int| 0 <= i < rules.len() && (#[trigger] rules[i]).0 == number
}

/// One of the rules lets through the ioctl with the request number.
pub open spec fn lets_request_through(chain: Seq<CallRule>, request: u64) -> bool {
    exists|k: int|
        0 <= k < chain.len() && permissions::admits_request_number(
            (#[trigger] chain[k]).conditions@,
            request,
        )
}

/// The rules are for ioctls, each for one request number.
pub open spec fn by_request(chain: Seq<CallRule>) -> bool {
    forall|k: int|
        0 <= k < chain.len() ==> permissions::admits_request_number(
            (#[trigger] chain[k]).conditions@,
            chain[k].conditions@[0].value,
        )
}

proof fn lemma_entries(rules: Seq<(i64, Vec<CallRule>)>, number: i64)
    ensures
        has_entry(rules, number) <==> exists|i: int|
            0 <= i < seccomp_filters::rules_view(rules).len() && (
            #[trigger] seccomp_filters::rules_view(rules)[i]).0 == number,
{
    let view = seccomp_filters::rules_view(rules);
    if has_entry(rules, number) {
        let i = choose|i: int| 0 <= i < rules.len() && (#[trigger] rules[i]).0 == number;
        assert(view[i].0 == number);
    }
    if exists|i: int| 0 <= i < view.len() && (#[trigger] view[i]).0 == number {
        let i = choose|i: int| 0 <= i < view.len() && (#[trigger] view[i]).0 == number;
        assert(rules[i].0 == number);
    }
}

proof fn lemma_requests(chain: Seq<CallRule>, request: u64)
    ensures
        ({
            let view = seccomp_filters::chain_view(chain);
            &&& lets_request_through(chain, request) <==> exists|k: int|
                0 <= k < view.len() && permissions::admits_request_number(
                    #[trigger] view[k],
                    request,
                )
            &&& by_request(chain) <==> forall|k: int|
                0 <= k < view.len() ==> permissions::admits_request_number(
                    #[trigger] view[k],
                    view[k][0].value,
                )
        }),
{
    let view = seccomp_filters::chain_view(chain);
    assert(forall|k: int|
        0 <= k < chain.len() ==> #[trigger] view[k] == (#[trigger] chain[k]).conditions@);
    if lets_request_through(chain, request) {
        let k = choose|k: int|
            0 <= k < chain.len() && permissions::admits_request_number(
                (#[trigger] chain[k]).conditions@,
                request,
            );
        assert(permissions::admits_request_number(view[k], request));
    }
    if exists|k: int|
        0 <= k < view.len() && permissions::admits_request_number(#[trigger] view[k], request) {
        let k = choose|k: int|
            0 <= k < view.len() && permissions::admits_request_number(#[trigger] view[k], request);
        assert(permissions::admits_request_number(chain[k].conditions@, request));
    }
    if by_request(chain) {
        assert forall|k: int| 0 <= k < view.len() implies permissions::admits_request_number(
            #[trigger] view[k],
            view[k][0].value,
        ) by {
            assert(permissions::admits_request_number(
                chain[k].conditions@,
                chain[k].conditions@[0].value,
            ));
        }
    }
    if forall|k: int|
        0 <= k < view.len() ==> permissions::admits_request_number(
            #[trigger] view[k],
            view[k][0].value,
        ) {
        assert forall|k: int| 0 <= k < chain.len() implies permissions::admits_request_number(
            (#[trigger] chain[k]).conditions@,
            chain[k].conditions@[0].value,
        ) by {
            assert(permissions::admits_request_number(view[k], view[k][0].value));
        }
    }
}

/// A thread's own list names each call once that the thread may make and that the common list does
/// not give it; all but ioctls without conditions, and ioctls by the request numbers that the
/// thread may use.
pub proof fn law_own_list(
    thread: Thread,
    target: Target,
    r: Vec<(i64, Vec<CallRule>)>,
    call: Syscall,
    request: u64,
)
    requires
        own_list(thread, target, r),
        call.exists_on(target.arch),
    ensures
        has_entry(r@, call.number(target.arch)) <==> permissions::named_by(thread, call, target),
        forall|i: int, j: int|
            0 <= i < j < r@.len() ==> (#[trigger] r@[i]).0 != (#[trigger] r@[j]).0,
        forall|i: int|
            0 <= i < r@.len() ==> syscall::call_of(
                (#[trigger] r@[i]).0 as int,
                target.arch,
            ) is Some,
        forall|i: int|
            0 <= i < r@.len() && (#[trigger] r@[i]).0 != Syscall::Ioctl.number(target.arch)
                ==> r@[i].1@.len() == 0,
        forall|i: int|
            0 <= i < r@.len() && (#[trigger] r@[i]).0 == Syscall::Ioctl.number(target.arch)
                ==> by_request(r@[i].1@) && (lets_request_through(r@[i].1@, request)
                <==> permissions::may_request(thread, request, target)),
{
    let view = seccomp_filters::rules_view(r@);
    let ioctl = Syscall::Ioctl.number(target.arch);
    assert(view == seccomp_filters::thread_rules(thread, target));
    permissions::law_lists_name(thread, call, target);
    lemma_entries(r@, call.number(target.arch));
    assert forall|i: int, j: int| 0 <= i < j < r@.len() implies (#[trigger] r@[i]).0 != (
    #[trigger] r@[j]).0 by {
        permissions::law_named_once(thread, target, i, j);
        assert(view[i].0 == r@[i].0 && view[j].0 == r@[j].0);
    }
    assert forall|i: int| 0 <= i < r@.len() implies syscall::call_of(
        (#[trigger] r@[i]).0 as int,
        target.arch,
    ) is Some && (r@[i].0 != ioctl ==> r@[i].1@.len() == 0) && (r@[i].0 == ioctl ==> by_request(
        r@[i].1@,
    ) && (lets_request_through(r@[i].1@, request) <==> permissions::may_request(
        thread,
        request,
        target,
    ))) by {
        seccomp_filters::law_own_calls_first(thread, target, i);
        assert(view[i].0 == r@[i].0);
        assert(view[i].1 == seccomp_filters::chain_view(r@[i].1@));
        permissions::lemma_entry_known(thread, target, i);
        if r@[i].0 == ioctl {
            permissions::law_requests_listed(thread, target, i, request);
            lemma_requests(r@[i].1@, request);
        } else {
            permissions::lemma_entry_open(thread, target, i);
            assert(view[i].1.len() == r@[i].1@.len());
        }
    }
}

/// The common list names each call once that all threads may make, without conditions.
pub proof fn law_virtio_thread_common(
    target: Target,
    r: Vec<(i64, Vec<CallRule>)>,
    call: Syscall,
)
    requires
        call_ensures(virtio_thread_common, (target,), r),
        call.exists_on(target.arch),
    ensures
        has_entry(r@, call.number(target.arch)) <==> forall|any: Thread|
            #[trigger] permissions::may_call(any, call, target),
        forall|i: int, j: int|
            0 <= i < j < r@.len() ==> (#[trigger] r@[i]).0 != (#[trigger] r@[j]).0,
        forall|i: int|
            0 <= i < r@.len() ==> syscall::call_of(
                (#[trigger] r@[i]).0 as int,
                target.arch,
            ) is Some,
        forall|i: int| 0 <= i < r@.len() ==> (#[trigger] r@[i]).1@.len() == 0,
{
    let thread = Thread::VirtioVhostNetCtl;
    let view = seccomp_filters::rules_view(r@);
    permissions::law_lists_name(thread, call, target);
    lemma_entries(r@, call.number(target.arch));
    assert forall|i: int, j: int| 0 <= i < j < r@.len() implies (#[trigger] r@[i]).0 != (
    #[trigger] r@[j]).0 by {
        permissions::law_named_once(thread, target, i, j);
        assert(view[i].0 == r@[i].0 && view[j].0 == r@[j].0);
    }
    assert forall|i: int| 0 <= i < r@.len() implies syscall::call_of(
        (#[trigger] r@[i]).0 as int,
        target.arch,
    ) is Some && r@[i].1@.len() == 0 by {
        let own = seccomp_filters::thread_rules(thread, target).len();
        seccomp_filters::law_own_calls_first(thread, target, own + i);
        assert(view[i].0 == r@[i].0);
        permissions::lemma_entry_known(thread, target, own + i);
        assert(view[i].1.len() == r@[i].1@.len());
        if view[i].0 == Syscall::Ioctl.number(target.arch) {
            permissions::law_requests_listed(thread, target, own + i, 0);
            permissions::law_calls_permitted(thread, Syscall::Ioctl, target);
            permissions::law_lists_name(thread, Syscall::Ioctl, target);
        } else {
            permissions::lemma_entry_open(thread, target, own + i);
        }
    }
}

/// Where a thread may make ioctls, its list lets through those with the request numbers that it
/// may use, and no others.
pub proof fn law_listed_requests(
    thread: Thread,
    target: Target,
    r: Vec<(i64, Vec<CallRule>)>,
    i: int,
    request: u64,
)
    requires
        call_ensures(get_seccomp_rules, (thread, target), r),
        0 <= i < r@.len(),
        r@[i].0 == Syscall::Ioctl.number(target.arch),
    ensures
        by_request(r@[i].1@),
        lets_request_through(r@[i].1@, request) <==> permissions::may_request(
            thread,
            request,
            target,
        ),
{
    let view = seccomp_filters::rules_view(r@);
    assert(view[i].0 == r@[i].0);
    assert(view[i].1 == seccomp_filters::chain_view(r@[i].1@));
    permissions::law_requests_listed(thread, target, i, request);
    lemma_requests(r@[i].1@, request);
}

/// The rules are those of the thread's ioctls.
pub open spec fn request_rules(thread: Thread, target: Target, r: Vec<CallRule>) -> bool {
    match thread {
        Thread::VirtioBlock => call_ensures(
            create_virtio_block_ioctl_seccomp_rule,
            (target,),
            r,
        ),
        Thread::VirtioConsole => call_ensures(
            create_virtio_console_ioctl_seccomp_rule,
            (target,),
            r,
        ),
        Thread::VirtioIommu => call_ensures(create_virtio_iommu_ioctl_seccomp_rule, (), r),
        Thread::VirtioMem => call_ensures(create_virtio_mem_ioctl_seccomp_rule, (), r),
        Thread::VirtioNetCtl => call_ensures(
            create_virtio_net_ctl_ioctl_seccomp_rule,
            (target,),
            r,
        ),
        Thread::VirtioVsock => call_ensures(create_vsock_ioctl_seccomp_rule, (target,), r),
        _ => target.sev_snp && permissions::shares_pages(thread) && call_ensures(
            create_mshv_sev_snp_ioctl_seccomp_rule,
            (),
            r,
        ),
    }
}

/// A thread's ioctls are let through by their request numbers: exactly those that it may use.
pub proof fn law_request_rules(thread: Thread, target: Target, r: Vec<CallRule>, request: u64)
    requires
        request_rules(thread, target, r),
    ensures
        by_request(r@),
        lets_request_through(r@, request) <==> permissions::may_request(thread, request, target),
{
    let view = seccomp_filters::chain_view(r@);
    lemma_requests(r@, request);
    assert(view.len() > 0);
    assert(view.len() <= 4);
    if permissions::may_request(thread, request, target) {
        assert(permissions::admits_request_number(view[0], request) || (view.len() > 1
            && permissions::admits_request_number(view[1], request)) || (view.len() > 2
            && permissions::admits_request_number(view[2], request)) || (view.len() > 3
            && permissions::admits_request_number(view[3], request)));
    }
}

/// A read is refused as a read, a write as a write; and each is admitted exactly when it ends on
/// the disk and, to write, the disk may be changed.
pub proof fn law_submitted<B>(
    queue: &TensorlakeRootfsSyncIo<B>,
    disk: &TensorlakeRootfsState,
    offset: u64,
    len: u64,
    read: Result<SegmentWalk, AsyncIoError>,
    written: Result<SegmentWalk, AsyncIoError>,
)
    requires
        call_ensures(TensorlakeRootfsSyncIo::<B>::submit_read, (queue, disk, offset, len), read),
        call_ensures(
            TensorlakeRootfsSyncIo::<B>::submit_write,
            (queue, disk, offset, len),
            written,
        ),
        disk@.valid(),
    ensures
        read is Ok <==> offset + len <= disk@.logical_size,
        written is Ok <==> !disk@.readonly && offset + len <= disk@.logical_size,
        read matches Err(e) ==> e is ReadVectored,
        written matches Err(e) ==> e is WriteVectored,
        read matches Ok(walk) ==> covers_request(walk@, disk@.block_size, offset, len),
        written matches Ok(walk) ==> covers_request(walk@, disk@.block_size, offset, len),
{
    state::law_range_refused(disk@, offset, len);
    if offset + len <= disk@.logical_size {
        lemma_covers(disk@, offset, len);
    }
}

/// Requests are aligned to sectors of 512 bytes, and a queue begins without completions.
pub proof fn law_new_queue<B>(queue: TensorlakeRootfsSyncIo<B>, alignment: u64)
    requires
        call_ensures(TensorlakeRootfsSyncIo::<B>::new, (), queue),
        call_ensures(TensorlakeRootfsSyncIo::<B>::alignment, (&queue,), alignment),
    ensures
        alignment == 512,
        queue@.len() == 0,
{
}

/// A new overlay overrides no block; and what it is asked of a block is what its marks say.
pub proof fn law_marks(
    fresh: LiveOverlay,
    live: &LiveOverlay,
    block: u64,
    dirty: bool,
    zero: bool,
)
    requires
        call_ensures(LiveOverlay::new, (), fresh),
        call_ensures(LiveOverlay::is_dirty, (live, block), dirty),
        call_ensures(LiveOverlay::is_zero, (live, block), zero),
    ensures
        !fresh@.dirty.contains(block),
        !fresh@.zero.contains(block),
        dirty <==> live@.dirty.contains(block),
        zero <==> live@.zero.contains(block),
{
}

/// A file takes the name of another.
pub open spec fn renamed(from: Seq<char>, to: Seq<char>) -> save::SaveStepView {
    save::SaveStepView::Rename { from, to }
}

/// A save draws a name for its temporary file that is not the index's own, records the marks of
/// the overlay, and ends with the new index under its name.
pub proof fn law_persist_live_index(path: &str, live: &LiveOverlay, r: IndexSave, block: u64)
    requires
        call_ensures(save::persist_live_index, (path, live), r),
    ensures
        r.index.version == 1,
        live@.dirty.contains(block) <==> covered(r.index.dirty_runs@, block),
        live@.zero.contains(block) <==> covered(r.index.zero_runs@, block),
        exists|k: int, temp: Seq<char>|
            0 < k < save::save_views(r.steps@).len() && temp != path@ && save::save_views(
                r.steps@,
            )[k - 1] == (save::SaveStepView::WriteIndex { path: temp })
                && #[trigger] save::save_views(r.steps@)[k] == (#[trigger] renamed(temp, path@)),
{
    overlay::law_recorded_marks(r.index, live@, block);
    let views = save::save_views(r.steps@);
    let id = choose|id: Seq<char>|
        save::temp_beside(path@, id) && views == #[trigger] save::index_plan(path@, id);
    let temp = save::temp_path(path@, id);
    save::law_replace_order(paths::directory(path@), temp, path@);
    let at: int = if paths::directory(path@) is Some {
        2
    } else {
        1
    };
    assert(views[at] == renamed(temp, path@));
}

/// The files that are to be opened are those that the spec names.
pub proof fn law_files_named(
    base: &OpenBase,
    base_file: &str,
    layer: &OpenLayer,
    layer_file: &str,
    live: &OpenLive,
    live_file: &str,
    index: &OpenIndex,
    index_file: Option<&str>,
)
    requires
        call_ensures(OpenBase::path, (base,), base_file),
        call_ensures(OpenLayer::path, (layer,), layer_file),
        call_ensures(OpenLive::path, (live,), live_file),
        call_ensures(OpenIndex::path, (index,), index_file),
    ensures
        base_file@ == base@.base_path,
        layer@.layer_lens.len() < layer@.disk.layers.len(),
        layer_file@ == layer@.disk.layers[layer@.layer_lens.len() as int].path,
        live_file@ == live@.disk.live_path,
        index_file is Some <==> index@.disk.live_index_path is Some,
        index_file is Some ==> index@.disk.live_index_path->0 == index_file->0@,
{
}

/// An opened disk names its base image and its live file, and keeps its layers in their order.
pub proof fn law_disk_files(
    disk: &TensorlakeRootfsDisk,
    state: &TensorlakeRootfsState,
    base_path: &str,
    live_path: &str,
    layers: &Vec<CommittedLayer>,
    i: int,
)
    requires
        call_ensures(TensorlakeRootfsDisk::state, (disk,), state),
        call_ensures(TensorlakeRootfsState::base_path, (state,), base_path),
        call_ensures(TensorlakeRootfsState::live_path, (state,), live_path),
        call_ensures(TensorlakeRootfsState::layers_oldest_to_newest, (state,), layers),
        0 <= i < layers@.len(),
    ensures
        base_path@ == disk@.base_path,
        live_path@ == disk@.live_path,
        layers@.len() == disk@.layers.len(),
        layers@[i].path@ == disk@.layers[i].path,
        layers@[i].dirty_runs@ == disk@.layers[i].dirty_runs,
        layers@[i].zero_runs@ == disk@.layers[i].zero_runs,
{
    assert(state::layer_views(layers@)[i] == layers@[i]@);
}

/// An error holds what it was made from.
pub proof fn law_errors_made(
    kind: BlockErrorKind,
    message: String,
    path: &str,
    told: BlockError,
    bare: BlockError,
    placed: BlockError,
    invalid: BlockError,
    io_kind: IoErrorKind,
    io: IoError,
)
    requires
        call_ensures(BlockError::new, (kind, message), told),
        call_ensures(BlockError::from_kind, (kind,), bare),
        call_ensures(BlockError::with_path, (told, path), placed),
        call_ensures(invalid_spec, (path, message), invalid),
        call_ensures(IoError::new, (io_kind, message), io),
    ensures
        told.kind == kind && bare.kind == kind && placed.kind == kind && invalid.kind
            is InvalidFormat && io.kind == io_kind,
        told.path is None && bare.path is None && bare.message is None,
        placed.path is Some && placed.path->0@ == path@,
        invalid.path is Some && invalid.path->0@ == path@,
        told.message is Some && told.message->0@ == message@,
        placed.message is Some && placed.message->0@ == message@,
        invalid.message is Some && invalid.message->0@ == message@,
        io.message@ == message@,
{
}

} // verus!
