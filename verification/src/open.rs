//! Opening a disk: which files are opened in which order, and what each of them must be like.
use vstd::prelude::*;

use crate::config::{validate_spec, TensorlakeLayerSpec, TensorlakeRootfsSpec};
use crate::disk::TensorlakeRootfsDisk;
use crate::error::{self, invalid_spec, BlockError, BlockErrorView};
use crate::model::{Committed, LayerView, LiveView, RootfsView, World};
use crate::overlay::{self, load_live_overlay, LiveOverlay, LiveOverlayIndex};
use crate::paths::{self, resolve_spec_path};
use crate::run::{validate_run, BlockRun};
use crate::state::{self, CommittedLayer, TensorlakeRootfsState};
use crate::text::{self, decimal};

verus! {

/// Why a file of `len` bytes is refused where `required_len` are needed.
pub open spec fn cover_fault(len: u64, required_len: u64, path: Seq<char>) -> Option<
    BlockErrorView,
> {
    if len < required_len {
        Some(
            error::invalid_spec_error(
                path,
                "file length "@ + text::decimal_chars(len as nat)
                    + " is smaller than required length "@ + text::decimal_chars(
                    required_len as nat,
                ),
            ),
        )
    } else {
        None
    }
}

/// Refuses a file that is shorter than what is read from it.
pub fn validate_file_covers(len: u64, required_len: u64, path: &str) -> (r: Result<(), BlockError>)
    ensures
        error::reports(r, cover_fault(len, required_len, path@)),
{
    if len < required_len {
        let mut message = "file length ".to_owned();
        message.append(decimal(len).as_str());
        message.append(" is smaller than required length ");
        message.append(decimal(required_len).as_str());
        return Err(invalid_spec(path, message));
    }
    Ok(())
}

/// Why the first run of `runs` that is refused in a spec is refused.
pub open spec fn spec_runs_fault(runs: Seq<BlockRun>, block_size: u64, path: Seq<char>) -> Option<
    BlockErrorView,
>
    decreases runs.len(),
{
    if runs.len() == 0 {
        None
    } else if runs[0].fault(block_size, path) is Some {
        runs[0].fault(block_size, path)
    } else {
        spec_runs_fault(runs.drop_first(), block_size, path)
    }
}

/// Why a layer file of `len` bytes is refused: the first dirty run that reaches past its end.
pub open spec fn runs_cover_fault(
    runs: Seq<BlockRun>,
    block_size: u64,
    len: u64,
    path: Seq<char>,
) -> Option<BlockErrorView>
    decreases runs.len(),
{
    if runs.len() == 0 {
        None
    } else {
        let end = (runs[0].end() * block_size) as u64;
        if cover_fault(len, end, path) is Some {
            cover_fault(len, end, path)
        } else {
            runs_cover_fault(runs.drop_first(), block_size, len, path)
        }
    }
}

/// Why a layer is refused whose file holds `len` bytes: a run that makes no sense, and only then a
/// file that is too short.
pub open spec fn layer_fault(layer: LayerView, block_size: u64, len: u64) -> Option<
    BlockErrorView,
> {
    let path = layer.path;
    if spec_runs_fault(layer.dirty_runs, block_size, path) is Some {
        spec_runs_fault(layer.dirty_runs, block_size, path)
    } else if spec_runs_fault(layer.zero_runs, block_size, path) is Some {
        spec_runs_fault(layer.zero_runs, block_size, path)
    } else {
        runs_cover_fault(layer.dirty_runs, block_size, len, path)
    }
}

/// Refuses the first run that makes no sense.
fn validate_runs(runs: &Vec<BlockRun>, block_size: u64, path: &str) -> (r: Result<(), BlockError>)
    ensures
        error::reports(r, spec_runs_fault(runs@, block_size, path@)),
        r is Ok ==> forall|k: int|
            0 <= k < runs@.len() ==> (#[trigger] runs@[k]).fault(block_size, path@) is None,
{
    let mut i: usize = 0;
    assert(runs@.skip(0) =~= runs@);
    while i < runs.len()
        invariant
            i <= runs.len(),
            spec_runs_fault(runs@, block_size, path@) == spec_runs_fault(
                runs@.skip(i as int),
                block_size,
                path@,
            ),
            forall|k: int|
                0 <= k < i ==> (#[trigger] runs@[k]).fault(block_size, path@) is None,
        decreases runs.len() - i,
    {
        proof {
            assert(runs@.skip(i as int)[0] == runs@[i as int]);
            assert(runs@.skip(i as int).drop_first() =~= runs@.skip(i + 1));
        }
        match validate_run(runs[i], block_size, path) {
            Ok(()) => {},
            Err(error) => return Err(error),
        }
        i = i + 1;
    }
    Ok(())
}

/// Accepts a committed layer whose file at `path` holds `len` bytes.
pub fn open_committed_layer(
    path: String,
    spec: &TensorlakeLayerSpec,
    block_size: u64,
    len: u64,
) -> (r: Result<CommittedLayer, BlockError>)
    ensures
        ({
            let layer = LayerView {
                path: path@,
                dirty_runs: spec.dirty_runs@,
                zero_runs: spec.zero_runs@,
            };
            &&& error::reports(r, layer_fault(layer, block_size, len))
            &&& r matches Ok(accepted) ==> accepted@ == layer
        }),
        r matches Ok(accepted) ==> layer_fits(accepted@, block_size, len),
{
    let ghost layer = LayerView {
        path: path@,
        dirty_runs: spec.dirty_runs@,
        zero_runs: spec.zero_runs@,
    };
    match validate_runs(&spec.dirty_runs, block_size, path.as_str()) {
        Ok(()) => {},
        Err(error) => return Err(error),
    }
    match validate_runs(&spec.zero_runs, block_size, path.as_str()) {
        Ok(()) => {},
        Err(error) => return Err(error),
    }
    let runs = &spec.dirty_runs;
    let mut i: usize = 0;
    assert(runs@.skip(0) =~= runs@);
    while i < runs.len()
        invariant
            i <= runs.len(),
            runs@ == spec.dirty_runs@,
            layer == (LayerView {
                path: path@,
                dirty_runs: spec.dirty_runs@,
                zero_runs: spec.zero_runs@,
            }),
            layer_fault(layer, block_size, len) == runs_cover_fault(
                runs@.skip(i as int),
                block_size,
                len,
                path@,
            ),
            forall|k: int|
                0 <= k < runs@.len() ==> (#[trigger] runs@[k]).fault(block_size, path@) is None,
            forall|k: int|
                0 <= k < i ==> #[trigger] layer.dirty_runs[k].end() * block_size <= len,
        decreases runs.len() - i,
    {
        proof {
            assert(runs@.skip(i as int)[0] == runs@[i as int]);
            assert(runs@.skip(i as int).drop_first() =~= runs@.skip(i + 1));
            assert(runs@[i as int].fault(block_size, path@) is None);
        }
        let end: u64 = match runs[i].end_byte_offset(block_size) {
            Ok(end) => end,
            Err(error) => return Err(error),
        };
        match validate_file_covers(len, end, path.as_str()) {
            Ok(()) => {},
            Err(error) => return Err(error),
        }
        i = i + 1;
    }
    let dirty_runs = spec.dirty_runs.clone();
    let zero_runs = spec.zero_runs.clone();
    assert(dirty_runs@ =~= spec.dirty_runs@);
    assert(zero_runs@ =~= spec.zero_runs@);
    Ok(CommittedLayer { path, dirty_runs, zero_runs })
}

/// A layer file of `len` bytes holds every block that the layer overrides with it.
pub open spec fn layer_fits(layer: LayerView, block_size: u64, len: u64) -> bool {
    forall|k: int|
        0 <= k < layer.dirty_runs.len() ==> #[trigger] layer.dirty_runs[k].end() * block_size <= len
}

/// The layer that the spec at `spec_path` describes by `layer`.
pub open spec fn described_layer(spec_path: Seq<char>, layer: TensorlakeLayerSpec) -> LayerView {
    LayerView {
        path: paths::resolved(spec_path, layer.path@),
        dirty_runs: layer.dirty_runs@,
        zero_runs: layer.zero_runs@,
    }
}

/// The disk that the spec at `spec_path` describes.
pub open spec fn described(
    spec: TensorlakeRootfsSpec,
    spec_path: Seq<char>,
    readonly: bool,
) -> RootfsView {
    RootfsView {
        logical_size: spec.logical_size,
        block_size: spec.block_size,
        base_path: paths::resolved(spec_path, spec.base_path@),
        live_path: paths::resolved(spec_path, spec.live_overlay_path@),
        live_index_path: match spec.live_index_path {
            Some(path) => Some(paths::resolved(spec_path, path@)),
            None => None,
        },
        layers: spec.layers@.map_values(
            |layer: TensorlakeLayerSpec| described_layer(spec_path, layer),
        ),
        readonly,
    }
}

/// Why the spec at `spec_path` is refused before any file of the disk is opened.
pub open spec fn open_fault(
    spec: TensorlakeRootfsSpec,
    spec_path: Seq<char>,
    readonly: bool,
) -> Option<BlockErrorView> {
    if spec.fault(spec_path) is Some {
        spec.fault(spec_path)
    } else if !readonly && spec.live_index_path is None {
        Some(
            error::invalid_spec_error(
                spec_path,
                "live_index_path is required for writable Tensorlake rootfs disks"@,
            ),
        )
    } else {
        None
    }
}

/// What the stages of opening a disk have in common.
struct Opening {
    spec: TensorlakeRootfsSpec,
    spec_path: String,
    readonly: bool,
    base_path: String,
    live_path: String,
    live_index_path: Option<String>,
}

impl Opening {
    spec fn disk(self) -> RootfsView {
        described(self.spec, self.spec_path@, self.readonly)
    }

    #[verifier::type_invariant]
    spec fn well_formed(self) -> bool {
        &&& self.spec.fault(self.spec_path@) is None
        &&& self.base_path@ == self.disk().base_path
        &&& self.live_path@ == self.disk().live_path
        &&& text::text_view(self.live_index_path) == self.disk().live_index_path
    }
}

/// The base image is to be opened for reading.
pub struct OpenBase {
    opening: Opening,
}

impl View for OpenBase {
    type V = RootfsView;

    /// The disk that is being opened.
    closed spec fn view(&self) -> RootfsView {
        self.opening.disk()
    }
}

/// A disk that is being opened, and the lengths of those of its files that were accepted.
pub struct OpeningView {
    pub disk: RootfsView,
    pub base_len: u64,
    /// Oldest layer first.
    pub layer_lens: Seq<u64>,
}

impl OpeningView {
    /// The accepted files hold all that is read from them.
    pub open spec fn fits(self) -> bool {
        &&& self.disk.logical_size <= self.base_len
        &&& self.layer_lens.len() <= self.disk.layers.len()
        &&& forall|i: int|
            0 <= i < self.layer_lens.len() ==> layer_fits(
                self.disk.layers[i],
                self.disk.block_size,
                #[trigger] self.layer_lens[i],
            )
    }
}

/// Starts to open the disk that the spec at `spec_path` describes.
pub(crate) fn begin(spec_path: &str, spec: TensorlakeRootfsSpec, readonly: bool) -> (r: Result<
    OpenBase,
    BlockError,
>)
    ensures
        error::reports(r, open_fault(spec, spec_path@, readonly)),
        r matches Ok(base) ==> base@ == described(spec, spec_path@, readonly),
{
    match validate_spec(&spec, spec_path) {
        Ok(()) => {},
        Err(error) => return Err(error),
    }
    let base_path = resolve_spec_path(spec_path, spec.base_path.as_str());
    let live_path = resolve_spec_path(spec_path, spec.live_overlay_path.as_str());
    let live_index_path = match &spec.live_index_path {
        Some(path) => Some(resolve_spec_path(spec_path, path.as_str())),
        None => None,
    };
    if !readonly && live_index_path.is_none() {
        return Err(
            invalid_spec(
                spec_path,
                "live_index_path is required for writable Tensorlake rootfs disks".to_owned(),
            ),
        );
    }
    Ok(
        OpenBase {
            opening: Opening {
                spec,
                spec_path: spec_path.to_owned(),
                readonly,
                base_path,
                live_path,
                live_index_path,
            },
        },
    )
}

impl OpenBase {
    /// The file to open for reading.
    pub fn path(&self) -> (r: &str)
        ensures
            r@ == self@.base_path,
    {
        proof {
            use_type_invariant(&self.opening);
        }
        self.opening.base_path.as_str()
    }

    /// Goes on with a base image of `len` bytes.
    pub fn opened(self, len: u64) -> (r: Result<OpenLayers, BlockError>)
        ensures
            error::reports(r, cover_fault(len, self@.logical_size, self@.base_path)),
            r matches Ok(layers) ==> layers@ == (OpeningView {
                disk: self@,
                base_len: len,
                layer_lens: Seq::empty(),
            }),
    {
        proof {
            use_type_invariant(&self.opening);
        }
        match validate_file_covers(
            len,
            self.opening.spec.logical_size,
            self.opening.base_path.as_str(),
        ) {
            Ok(()) => {},
            Err(error) => return Err(error),
        }
        let layers: Vec<CommittedLayer> = Vec::new();
        assert(state::layer_views(layers@) =~= self.opening.disk().layers.take(0));
        Ok(
            OpenLayers {
                opening: self.opening,
                layers,
                base_len: Ghost(len),
                layer_lens: Ghost(Seq::empty()),
            },
        )
    }
}

/// Some layers were accepted; the others follow, oldest first.
pub struct OpenLayers {
    opening: Opening,
    layers: Vec<CommittedLayer>,
    base_len: Ghost<u64>,
    layer_lens: Ghost<Seq<u64>>,
}

impl View for OpenLayers {
    type V = OpeningView;

    closed spec fn view(&self) -> OpeningView {
        OpeningView {
            disk: self.opening.disk(),
            base_len: self.base_len@,
            layer_lens: self.layer_lens@,
        }
    }
}

impl OpenLayers {
    #[verifier::type_invariant]
    spec fn well_formed(self) -> bool {
        &&& self@.fits()
        &&& self.layers@.len() == self.layer_lens@.len()
        &&& state::layer_views(self.layers@) == self@.disk.layers.take(self.layers@.len() as int)
    }

    /// What is opened next.
    pub fn next(self) -> (r: AfterLayers)
        ensures
            match r {
                AfterLayers::Layer(layer) => layer@ == self@ && self@.layer_lens.len()
                    < self@.disk.layers.len(),
                AfterLayers::Live(live) => live@ == self@ && self@.layer_lens.len()
                    == self@.disk.layers.len(),
            },
    {
        proof {
            use_type_invariant(&self);
            use_type_invariant(&self.opening);
        }
        if self.layers.len() < self.opening.spec.layers.len() {
            let path = resolve_spec_path(
                self.opening.spec_path.as_str(),
                self.opening.spec.layers[self.layers.len()].path.as_str(),
            );
            AfterLayers::Layer(OpenLayer { before: self, path })
        } else {
            AfterLayers::Live(OpenLive { before: self })
        }
    }
}

/// What is opened after the base image or a layer.
pub enum AfterLayers {
    Layer(OpenLayer),
    Live(OpenLive),
}

/// The next layer is to be opened for reading.
pub struct OpenLayer {
    before: OpenLayers,
    path: String,
}

impl View for OpenLayer {
    type V = OpeningView;

    closed spec fn view(&self) -> OpeningView {
        self.before@
    }
}

impl OpenLayer {
    #[verifier::type_invariant]
    spec fn well_formed(self) -> bool {
        &&& self.before.layers@.len() < self.before.opening.spec.layers@.len()
        &&& self.path@ == self.before@.disk.layers[self.before.layers@.len() as int].path
    }

    /// The file to open for reading.
    pub fn path(&self) -> (r: &str)
        ensures
            self@.layer_lens.len() < self@.disk.layers.len(),
            r@ == self@.disk.layers[self@.layer_lens.len() as int].path,
    {
        proof {
            use_type_invariant(self);
            use_type_invariant(&self.before);
        }
        self.path.as_str()
    }

    /// Goes on with a layer file of `len` bytes.
    pub fn opened(self, len: u64) -> (r: Result<OpenLayers, BlockError>)
        ensures
            self@.layer_lens.len() < self@.disk.layers.len(),
            error::reports(
                r,
                layer_fault(
                    self@.disk.layers[self@.layer_lens.len() as int],
                    self@.disk.block_size,
                    len,
                ),
            ),
            r matches Ok(layers) ==> layers@ == (OpeningView {
                layer_lens: self@.layer_lens.push(len),
                ..self@
            }),
    {
        proof {
            use_type_invariant(&self);
            use_type_invariant(&self.before);
            use_type_invariant(&self.before.opening);
        }
        let OpenLayer { before, path } = self;
        let OpenLayers { opening, layers: accepted, base_len, layer_lens } = before;
        let position: usize = accepted.len();
        let layer = match open_committed_layer(
            path,
            &opening.spec.layers[position],
            opening.spec.block_size,
            len,
        ) {
            Ok(layer) => layer,
            Err(error) => return Err(error),
        };
        let mut layers = accepted;
        layers.push(layer);
        proof {
            let disk = opening.disk();
            assert(layer@ == disk.layers[position as int]);
            assert(state::layer_views(layers@) =~= disk.layers.take(position + 1)) by {
                let before = state::layer_views(accepted@);
                assert forall|k: int| 0 <= k < position implies state::layer_views(layers@)[k]
                    == disk.layers[k] by {
                    assert(before[k] == disk.layers.take(position as int)[k]);
                }
            }
            let lens = layer_lens@.push(len);
            assert forall|i: int| 0 <= i < lens.len() implies layer_fits(
                disk.layers[i],
                disk.block_size,
                #[trigger] lens[i],
            ) by {
                if i < position {
                    assert(lens[i] == layer_lens@[i]);
                }
            }
        }
        Ok(
            OpenLayers {
                opening,
                layers,
                base_len,
                layer_lens: Ghost(layer_lens@.push(len)),
            },
        )
    }
}

/// The live overlay file is to be opened.
pub struct OpenLive {
    before: OpenLayers,
}

impl View for OpenLive {
    type V = OpeningView;

    closed spec fn view(&self) -> OpeningView {
        self.before@
    }
}

/// How the live overlay file is opened. It is always opened for reading.
#[derive(Clone, Copy, Debug, PartialEq, Eq, Structural)]
pub struct LiveOpenOptions {
    pub write: bool,
    pub create: bool,
    /// The length to give the file once it is open.
    pub set_len: Option<u64>,
}

impl OpenLive {
    #[verifier::type_invariant]
    spec fn well_formed(self) -> bool {
        self.before.layers@.len() == self.before.opening.spec.layers@.len()
    }

    /// The file to open.
    pub fn path(&self) -> (r: &str)
        ensures
            r@ == self@.disk.live_path,
    {
        proof {
            use_type_invariant(&self.before.opening);
        }
        self.before.opening.live_path.as_str()
    }

    /// How to open it: a disk that is only read neither creates nor changes the file.
    pub fn options(&self) -> (r: LiveOpenOptions)
        ensures
            self@.disk.readonly ==> r == (LiveOpenOptions {
                write: false,
                create: false,
                set_len: None,
            }),
            !self@.disk.readonly ==> r == (LiveOpenOptions {
                write: true,
                create: true,
                set_len: Some(self@.disk.logical_size),
            }),
    {
        if self.before.opening.readonly {
            LiveOpenOptions { write: false, create: false, set_len: None }
        } else {
            LiveOpenOptions {
                write: true,
                create: true,
                set_len: Some(self.before.opening.spec.logical_size),
            }
        }
    }

    /// Goes on with a live overlay file that now holds `len` bytes.
    pub fn opened(self, len: u64) -> (r: Result<OpenIndex, BlockError>)
        ensures
            error::reports(r, cover_fault(len, self@.disk.logical_size, self@.disk.live_path)),
            r matches Ok(index) ==> index@ == self@ && index.live_len() == len,
    {
        proof {
            use_type_invariant(&self);
            use_type_invariant(&self.before);
            use_type_invariant(&self.before.opening);
        }
        match validate_file_covers(
            len,
            self.before.opening.spec.logical_size,
            self.before.opening.live_path.as_str(),
        ) {
            Ok(()) => {},
            Err(error) => return Err(error),
        }
        Ok(OpenIndex { before: self.before, live_len: Ghost(len) })
    }
}

/// The live overlay's index is to be read, where the disk has one.
pub struct OpenIndex {
    before: OpenLayers,
    live_len: Ghost<u64>,
}

impl View for OpenIndex {
    type V = OpeningView;

    closed spec fn view(&self) -> OpeningView {
        self.before@
    }
}

/// The overlay that overrides nothing.
pub open spec fn empty_live() -> LiveView {
    LiveView { dirty: Set::empty(), zero: Set::empty() }
}

impl OpenIndex {
    #[verifier::type_invariant]
    spec fn well_formed(self) -> bool {
        &&& self.before.layers@.len() == self.before.opening.spec.layers@.len()
        &&& self.before@.disk.logical_size <= self.live_len@
    }

    /// The length of the live overlay file.
    pub closed spec fn live_len(self) -> u64 {
        self.live_len@
    }

    /// The file to read, which may not exist.
    pub fn path(&self) -> (r: Option<&str>)
        ensures
            r is Some <==> self@.disk.live_index_path is Some,
            r matches Some(path) ==> self@.disk.live_index_path == Some(path@),
    {
        proof {
            use_type_invariant(&self.before.opening);
        }
        match &self.before.opening.live_index_path {
            Some(path) => Some(path.as_str()),
            None => None,
        }
    }

    /// Finishes with what the index file holds, or with none where there is no such file.
    pub fn loaded(self, index: Option<&LiveOverlayIndex>) -> (r: Result<
        (TensorlakeRootfsDisk, LiveOverlay),
        BlockError,
    >)
        ensures
            error::reports(
                r,
                if self@.disk.live_index_path is Some && index is Some {
                    index->0.fault(
                        self@.disk.block_size,
                        self@.disk.logical_size,
                        self@.disk.live_index_path->0,
                    )
                } else {
                    None
                },
            ),
            r matches Ok((disk, live)) ==> {
                &&& disk@ == self@.disk
                &&& if self@.disk.live_index_path is Some && index is Some {
                    index->0.describes(live@)
                } else {
                    live@ == empty_live()
                }
                &&& disk@.valid()
                &&& disk@.admits(live@)
                &&& self@.fits()
                &&& self@.layer_lens.len() == disk@.layers.len()
                &&& disk@.logical_size <= self.live_len()
            },
    {
        proof {
            use_type_invariant(&self);
            use_type_invariant(&self.before);
            use_type_invariant(&self.before.opening);
        }
        let ghost view = self@.disk;
        let OpenIndex { before, live_len } = self;
        let OpenLayers { opening, layers, base_len, layer_lens } = before;
        let index_path = match &opening.live_index_path {
            Some(path) => Some(path.as_str()),
            None => None,
        };
        let live = match load_live_overlay(
            index_path,
            index,
            opening.spec.block_size,
            opening.spec.logical_size,
        ) {
            Ok(live) => live,
            Err(error) => return Err(error),
        };
        assert(view.layers.take(layers@.len() as int) =~= view.layers);
        assert(layers.len() <= usize::MAX);
        let disk = TensorlakeRootfsDisk::new(
            TensorlakeRootfsState::new(
                opening.spec.logical_size,
                opening.spec.block_size,
                opening.base_path,
                opening.live_path,
                opening.live_index_path,
                layers,
                opening.readonly,
            ),
        );
        proof {
            if view.live_index_path is Some && index is Some {
                overlay::law_loaded_overlay_admitted(
                    view,
                    *index->0,
                    view.live_index_path->0,
                    live@,
                );
            }
        }
        Ok((disk, live))
    }
}

/// A disk that was opened is backed by its files for as long as they keep at least the lengths
/// with which they were accepted.
pub proof fn law_opened_disk_backed(
    opened: OpeningView,
    live_len: u64,
    files: Committed,
    world: World,
)
    requires
        opened.fits(),
        opened.layer_lens.len() == opened.disk.layers.len(),
        opened.disk.logical_size <= live_len,
        opened.base_len <= files.base.len(),
        live_len <= world.file.len(),
        files.layers.len() == opened.layer_lens.len(),
        forall|i: int|
            0 <= i < files.layers.len() ==> opened.layer_lens[i] <= (
            #[trigger] files.layers[i]).len(),
    ensures
        opened.disk.backed_by(files, world),
{
    let disk = opened.disk;
    assert forall|i: int, r: int|
        0 <= i < disk.layers.len() && 0 <= r < disk.layers[i].dirty_runs.len() implies
    #[trigger] disk.layers[i].dirty_runs[r].end() * disk.block_size <= files.layers[i].len() by {
        assert(layer_fits(disk.layers[i], disk.block_size, opened.layer_lens[i]));
        assert(files.layers[i].len() >= opened.layer_lens[i]);
    }
}

/// A file is accepted exactly when it is at least as long as it has to be; the error names the
/// file and tells both lengths.
pub proof fn law_file_covers(len: u64, required_len: u64, path: Seq<char>)
    ensures
        cover_fault(len, required_len, path) is None <==> len >= required_len,
        cover_fault(len, required_len, path) matches Some(fault) ==> fault.kind is InvalidFormat
            && fault.path == Some(path) && fault.message == Some(
            "file length "@ + text::decimal_chars(len as nat)
                + " is smaller than required length "@ + text::decimal_chars(required_len as nat),
        ),
{
}

/// A layer is accepted exactly when none of its runs is empty, all end at a 64-bit byte position,
/// and its file reaches to the end of every dirty run.
pub proof fn law_layer_accepted(layer: LayerView, block_size: u64, len: u64)
    ensures
        layer_fault(layer, block_size, len) is None <==> {
            &&& forall|i: int|
                0 <= i < layer.dirty_runs.len() ==> sound_run(
                    #[trigger] layer.dirty_runs[i],
                    block_size,
                ) && (layer.dirty_runs[i].start_block + layer.dirty_runs[i].block_count)
                    * block_size <= len
            &&& forall|i: int|
                0 <= i < layer.zero_runs.len() ==> sound_run(
                    #[trigger] layer.zero_runs[i],
                    block_size,
                )
        },
{
    lemma_spec_runs_accepted(layer.dirty_runs, block_size, layer.path);
    lemma_spec_runs_accepted(layer.zero_runs, block_size, layer.path);
    if spec_runs_fault(layer.dirty_runs, block_size, layer.path) is None {
        lemma_runs_covered(layer.dirty_runs, block_size, len, layer.path);
    }
}

/// The run is not empty and ends at a 64-bit byte position.
pub open spec fn sound_run(run: BlockRun, block_size: u64) -> bool {
    let end = run.start_block + run.block_count;
    run.block_count > 0 && end <= u64::MAX && end * block_size <= u64::MAX
}

proof fn lemma_spec_runs_accepted(runs: Seq<BlockRun>, block_size: u64, path: Seq<char>)
    ensures
        spec_runs_fault(runs, block_size, path) is None <==> forall|i: int|
            0 <= i < runs.len() ==> sound_run(#[trigger] runs[i], block_size),
    decreases runs.len(),
{
    if runs.len() > 0 {
        let rest = runs.drop_first();
        lemma_spec_runs_accepted(rest, block_size, path);
        if forall|i: int| 0 <= i < runs.len() ==> sound_run(#[trigger] runs[i], block_size) {
            assert(sound_run(runs[0], block_size));
            assert forall|i: int| 0 <= i < rest.len() implies sound_run(
                #[trigger] rest[i],
                block_size,
            ) by {
                assert(rest[i] == runs[i + 1]);
            }
        }
        if spec_runs_fault(runs, block_size, path) is None {
            assert forall|i: int| 0 <= i < runs.len() implies sound_run(
                #[trigger] runs[i],
                block_size,
            ) by {
                if i > 0 {
                    assert(runs[i] == rest[i - 1]);
                }
            }
        }
    }
}

proof fn lemma_runs_covered(runs: Seq<BlockRun>, block_size: u64, len: u64, path: Seq<char>)
    requires
        forall|i: int| 0 <= i < runs.len() ==> sound_run(#[trigger] runs[i], block_size),
    ensures
        runs_cover_fault(runs, block_size, len, path) is None <==> forall|i: int|
            0 <= i < runs.len() ==> ((#[trigger] runs[i]).start_block + runs[i].block_count)
                * block_size <= len,
    decreases runs.len(),
{
    if runs.len() > 0 {
        let rest = runs.drop_first();
        assert(sound_run(runs[0], block_size));
        assert forall|i: int| 0 <= i < rest.len() implies sound_run(
            #[trigger] rest[i],
            block_size,
        ) by {
            assert(rest[i] == runs[i + 1]);
        }
        lemma_runs_covered(rest, block_size, len, path);
        if forall|i: int|
            0 <= i < runs.len() ==> ((#[trigger] runs[i]).start_block + runs[i].block_count)
                * block_size <= len {
            assert((runs[0].start_block + runs[0].block_count) * block_size <= len);
            assert forall|i: int| 0 <= i < rest.len() implies ((#[trigger] rest[i]).start_block
                + rest[i].block_count) * block_size <= len by {
                assert(rest[i] == runs[i + 1]);
            }
        }
        if runs_cover_fault(runs, block_size, len, path) is None {
            assert forall|i: int| 0 <= i < runs.len() implies ((#[trigger] runs[i]).start_block
                + runs[i].block_count) * block_size <= len by {
                if i > 0 {
                    assert(runs[i] == rest[i - 1]);
                }
            }
        }
    }
}

/// Of the runs of a layer, the first that makes no sense is reported.
pub proof fn law_first_unsound_run(runs: Seq<BlockRun>, block_size: u64, path: Seq<char>, i: int)
    requires
        0 <= i < runs.len(),
        runs[i].fault(block_size, path) is Some,
        forall|j: int| 0 <= j < i ==> (#[trigger] runs[j]).fault(block_size, path) is None,
    ensures
        spec_runs_fault(runs, block_size, path) == runs[i].fault(block_size, path),
    decreases runs.len(),
{
    if i > 0 {
        let rest = runs.drop_first();
        assert(rest[i - 1] == runs[i]);
        assert forall|j: int| 0 <= j < i - 1 implies (#[trigger] rest[j]).fault(block_size, path)
            is None by {
            assert(rest[j] == runs[j + 1]);
        }
        assert(runs[0].fault(block_size, path) is None);
        law_first_unsound_run(rest, block_size, path, i - 1);
    }
}

/// Of the dirty runs of a layer, the first that its file does not reach is reported.
pub proof fn law_first_uncovered_run(
    runs: Seq<BlockRun>,
    block_size: u64,
    len: u64,
    path: Seq<char>,
    i: int,
)
    requires
        forall|j: int| 0 <= j < runs.len() ==> sound_run(#[trigger] runs[j], block_size),
        0 <= i < runs.len(),
        (runs[i].start_block + runs[i].block_count) * block_size > len,
        forall|j: int|
            0 <= j < i ==> ((#[trigger] runs[j]).start_block + runs[j].block_count) * block_size
                <= len,
    ensures
        runs_cover_fault(runs, block_size, len, path) == cover_fault(
            len,
            ((runs[i].start_block + runs[i].block_count) * block_size) as u64,
            path,
        ),
    decreases runs.len(),
{
    assert(sound_run(runs[i], block_size));
    if i > 0 {
        let rest = runs.drop_first();
        assert(rest[i - 1] == runs[i]);
        assert forall|j: int| 0 <= j < rest.len() implies sound_run(
            #[trigger] rest[j],
            block_size,
        ) by {
            assert(rest[j] == runs[j + 1]);
        }
        assert forall|j: int| 0 <= j < i - 1 implies ((#[trigger] rest[j]).start_block
            + rest[j].block_count) * block_size <= len by {
            assert(rest[j] == runs[j + 1]);
        }
        assert(sound_run(runs[0], block_size));
        assert((runs[0].start_block + runs[0].block_count) * block_size <= len);
        law_first_uncovered_run(rest, block_size, len, path, i - 1);
    }
}

/// What is wrong with a layer is reported in the order of its dirty runs, its zero runs, and the
/// length of its file, and under its path.
pub proof fn law_layer_refused(layer: LayerView, block_size: u64, len: u64)
    ensures
        ({
            let dirty = spec_runs_fault(layer.dirty_runs, block_size, layer.path);
            let zero = spec_runs_fault(layer.zero_runs, block_size, layer.path);
            let fault = layer_fault(layer, block_size, len);
            &&& dirty is Some ==> fault == dirty
            &&& dirty is None && zero is Some ==> fault == zero
            &&& dirty is None && zero is None ==> fault == runs_cover_fault(
                layer.dirty_runs,
                block_size,
                len,
                layer.path,
            )
        }),
{
}

/// A disk has the size, the blocks, the layers and the runs that its spec gives, in the spec's
/// order, and its files are where the spec says, from the spec's directory.
pub proof fn law_described_disk(
    spec: TensorlakeRootfsSpec,
    spec_path: Seq<char>,
    readonly: bool,
    i: int,
)
    requires
        0 <= i < spec.layers@.len(),
    ensures
        ({
            let disk = described(spec, spec_path, readonly);
            &&& disk.layers[i].path == paths::resolved(spec_path, spec.layers@[i].path@)
            &&& disk.layers[i].dirty_runs == spec.layers@[i].dirty_runs@
            &&& disk.layers[i].zero_runs == spec.layers@[i].zero_runs@
        }),
{
}

/// A disk has the size and the blocks that its spec gives, as many layers, and the files that the
/// spec names.
pub proof fn law_described_files(spec: TensorlakeRootfsSpec, spec_path: Seq<char>, readonly: bool)
    ensures
        ({
            let disk = described(spec, spec_path, readonly);
            &&& disk.logical_size == spec.logical_size
            &&& disk.block_size == spec.block_size
            &&& disk.readonly == readonly
            &&& disk.layers.len() == spec.layers@.len()
            &&& disk.base_path == paths::resolved(spec_path, spec.base_path@)
            &&& disk.live_path == paths::resolved(spec_path, spec.live_overlay_path@)
            &&& spec.live_index_path is None <==> disk.live_index_path is None
            &&& spec.live_index_path matches Some(path) ==> disk.live_index_path == Some(
                paths::resolved(spec_path, path@),
            )
        }),
{
}

/// A disk starts to open exactly when its spec is accepted and, unless it is only read, has an
/// index to write.
pub proof fn law_open_accepted(spec: TensorlakeRootfsSpec, spec_path: Seq<char>, readonly: bool)
    ensures
        open_fault(spec, spec_path, readonly) is None <==> spec.version == 1 && spec.logical_size
            > 0 && spec.block_size > 0 && spec.block_size % 512 == 0 && (readonly
            || spec.live_index_path is Some),
        spec.fault(spec_path) is Some ==> open_fault(spec, spec_path, readonly) == spec.fault(
            spec_path,
        ),
        spec.fault(spec_path) is None && !readonly && spec.live_index_path is None ==> open_fault(
            spec,
            spec_path,
            readonly,
        ) == Some(
            BlockErrorView {
                kind: error::BlockErrorKind::InvalidFormat,
                path: Some(spec_path),
                message: Some(
                    "live_index_path is required for writable Tensorlake rootfs disks"@,
                ),
            },
        ),
{
}

/// An overlay that overrides nothing marks no block.
pub proof fn law_empty_live(block: u64)
    ensures
        !empty_live().dirty.contains(block),
        !empty_live().zero.contains(block),
{
}

} // verus!
