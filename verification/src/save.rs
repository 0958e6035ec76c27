//! Making the live overlay durable: the order in which its file and its index reach the host.
use vstd::prelude::*;

use crate::model::LiveView;
use crate::overlay::{LiveOverlay, LiveOverlayIndex};
use crate::paths::{self, directory_of};
use crate::text;

verus! {

/// `c` is a digit of a lower-case hexadecimal number.
pub open spec fn hex_digit(c: char) -> bool {
    '0' <= c <= '9' || 'a' <= c <= 'f'
}

/// `id` is the text of a random UUID: 36 characters, hyphens after 8, 4, 4 and 4 digits, and the
/// version in the first digit of the third group.
pub open spec fn random_uuid(id: Seq<char>) -> bool {
    &&& id.len() == 36
    &&& id[8] == '-' && id[13] == '-' && id[18] == '-' && id[23] == '-'
    &&& id[14] == '4'
    &&& forall|i: int|
        0 <= i < 36 && i != 8 && i != 13 && i != 18 && i != 23 ==> hex_digit(#[trigger] id[i])
}

/// Calls `uuid::Uuid::new_v4` and renders the result, which is hyphenated and in lower case. The
/// digits other than that of the version come from the host's random numbers; that no two calls
/// give the same ones is left unsaid. Like `new_v4` it does not return where the host has no
/// random numbers to give.
#[verifier::external_body]
fn new_uuid() -> (r: String)
    ensures
        random_uuid(r@),
{
    uuid::Uuid::new_v4().to_string()
}

/// One step of making the live overlay durable. The steps of a plan are carried out in order, and
/// the first one that the host fails ends the plan.
#[derive(Debug)]
pub enum SaveStep {
    /// Flush the data of the live overlay file.
    SyncLive,
    /// Create the directory and those above it, where they are missing.
    CreateDirectories { path: String },
    /// Create a file that must not exist yet, write the plan's index to it, and flush it.
    WriteIndex { path: String },
    /// Rename a file, replacing what was there. Where this fails the file is removed, as far as
    /// the host lets it be.
    Rename { from: String, to: String },
    /// Flush the directory.
    SyncDirectory { path: String },
}

/// The model of a [`SaveStep`].
pub enum SaveStepView {
    SyncLive,
    CreateDirectories { path: Seq<char> },
    WriteIndex { path: Seq<char> },
    Rename { from: Seq<char>, to: Seq<char> },
    SyncDirectory { path: Seq<char> },
}

impl View for SaveStep {
    type V = SaveStepView;

    open spec fn view(&self) -> SaveStepView {
        match self {
            SaveStep::SyncLive => SaveStepView::SyncLive,
            SaveStep::CreateDirectories { path } => SaveStepView::CreateDirectories { path: path@ },
            SaveStep::WriteIndex { path } => SaveStepView::WriteIndex { path: path@ },
            SaveStep::Rename { from, to } => SaveStepView::Rename { from: from@, to: to@ },
            SaveStep::SyncDirectory { path } => SaveStepView::SyncDirectory { path: path@ },
        }
    }
}

/// The models of a list of steps.
pub open spec fn save_views(steps: Seq<SaveStep>) -> Seq<SaveStepView> {
    steps.map_values(|step: SaveStep| step@)
}

/// How to save the index of a live overlay.
#[derive(Debug)]
pub struct IndexSave {
    pub index: LiveOverlayIndex,
    pub steps: Vec<SaveStep>,
}

/// The name under which an index is written before it takes its place.
pub open spec fn temp_name(file_name: Option<Seq<char>>, id: Seq<char>) -> Seq<char> {
    let stem = match file_name {
        Some(name) => name,
        None => "live-index.json"@,
    };
    "."@ + stem + "."@ + id + ".tmp"@
}

/// The path under which the index at `path` is written before it takes its place.
pub open spec fn temp_path(path: Seq<char>, id: Seq<char>) -> Seq<char> {
    paths::path_with_file_name(path, temp_name(paths::path_file_name(path), id))
}

/// The steps that put a new index at `path`, in `directory`, by way of a file at `temp`. There is
/// never a part of an index at `path`.
pub open spec fn replace_plan(
    directory: Option<Seq<char>>,
    temp: Seq<char>,
    path: Seq<char>,
) -> Seq<SaveStepView> {
    let create = match directory {
        Some(directory) => seq![SaveStepView::CreateDirectories { path: directory }],
        None => seq![],
    };
    let flush = match directory {
        Some(directory) => seq![SaveStepView::SyncDirectory { path: directory }],
        None => seq![],
    };
    create + seq![
        SaveStepView::WriteIndex { path: temp },
        SaveStepView::Rename { from: temp, to: path },
    ] + flush
}

/// The steps that put a new index at `path`, by way of a temporary file named after `id`.
pub open spec fn index_plan(path: Seq<char>, id: Seq<char>) -> Seq<SaveStepView> {
    replace_plan(paths::directory(path), temp_path(path, id), path)
}

/// The name under which an index is written before it takes its place.
pub fn make_temp_name(file_name: Option<&str>, id: &str) -> (r: String)
    ensures
        r@ == temp_name(
            match file_name {
                Some(name) => Some(name@),
                None => None,
            },
            id@,
        ),
{
    let mut name = ".".to_owned();
    name.append(
        match file_name {
            Some(name) => name,
            None => "live-index.json",
        },
    );
    name.append(".");
    name.append(id);
    name.append(".tmp");
    name
}

/// The steps that put a new index at `path`, in `directory`, by way of a file at `temp`.
pub fn replace_steps(directory: Option<String>, temp: String, path: &str) -> (r: Vec<SaveStep>)
    ensures
        save_views(r@) == replace_plan(text::text_view(directory), temp@, path@),
{
    let mut steps: Vec<SaveStep> = Vec::new();
    if let Some(directory) = &directory {
        steps.push(SaveStep::CreateDirectories { path: directory.clone() });
    }
    steps.push(SaveStep::WriteIndex { path: temp.clone() });
    steps.push(SaveStep::Rename { from: temp, to: path.to_owned() });
    if let Some(directory) = directory {
        steps.push(SaveStep::SyncDirectory { path: directory });
    }
    assert(save_views(steps@) =~= replace_plan(text::text_view(directory), temp@, path@));
    steps
}

/// A temporary file's name is a plain one, and longer than the name it is made from.
proof fn lemma_temp_name(file_name: Option<Seq<char>>, id: Seq<char>)
    requires
        file_name matches Some(name) ==> !name.contains('/'),
        !id.contains('/'),
    ensures
        paths::plain_name(temp_name(file_name, id)),
        file_name matches Some(name) ==> temp_name(file_name, id) != name,
{
    reveal_strlit(".");
    reveal_strlit(".tmp");
    reveal_strlit("live-index.json");
    let stem = match file_name {
        Some(name) => name,
        None => "live-index.json"@,
    };
    let name = temp_name(file_name, id);
    assert(name.len() == stem.len() + id.len() + 6);
    assert forall|i: int| 0 <= i < name.len() implies name[i] != '/' by {
        if i == 0 {
            assert(name[i] == '.');
        } else if i < 1 + stem.len() {
            assert(name[i] == stem[i - 1]);
        } else if i < 2 + stem.len() {
            assert(name[i] == '.');
        } else if i < 2 + stem.len() + id.len() {
            assert(name[i] == id[i - 2 - stem.len()]);
        } else {
            assert(name[i] == ".tmp"@[i - 2 - stem.len() - id.len()]);
        }
    }
}

/// A UUID has no path separator in it.
proof fn lemma_uuid_plain(id: Seq<char>)
    requires
        random_uuid(id),
    ensures
        !id.contains('/'),
{
    assert forall|i: int| 0 <= i < id.len() implies id[i] != '/' by {
        if i != 8 && i != 13 && i != 18 && i != 23 {
            assert(hex_digit(id[i]));
        }
    }
}

/// The temporary file is not the index itself, and lies in the directory of the index where the
/// index has a file name.
pub open spec fn temp_beside(path: Seq<char>, id: Seq<char>) -> bool {
    &&& temp_path(path, id) != path
    &&& paths::path_file_name(path) is Some ==> paths::path_parent(temp_path(path, id))
        == paths::path_parent(path)
}

/// How to save the marks of `live` at `path`, by way of a temporary file named after `id`.
pub fn persist_live_index_as(path: &str, live: &LiveOverlay, id: &str) -> (r: IndexSave)
    ensures
        r.index.records(live@),
        save_views(r.steps@) == index_plan(path@, id@),
        !id@.contains('/') ==> temp_beside(path@, id@),
{
    let directory = directory_of(path);
    let file_name = paths::file_name(path);
    let name = match &file_name {
        Some(file_name) => make_temp_name(Some(file_name.as_str()), id),
        None => make_temp_name(None, id),
    };
    let temp = paths::with_file_name(path, name.as_str());
    proof {
        if !id@.contains('/') {
            lemma_temp_name(text::text_view(file_name), id@);
        }
    }
    let steps = replace_steps(directory, temp, path);
    IndexSave { index: live.index(), steps }
}

/// How to save the marks of `live` at `path`. Every call draws a new name for the temporary file.
pub fn persist_live_index(path: &str, live: &LiveOverlay) -> (r: IndexSave)
    ensures
        r.index.records(live@),
        exists|id: Seq<char>|
            {
                &&& random_uuid(id)
                &&& temp_beside(path@, id)
                &&& save_views(r.steps@) == #[trigger] index_plan(path@, id)
            },
{
    let id = new_uuid();
    proof {
        lemma_uuid_plain(id@);
    }
    persist_live_index_as(path, live, id.as_str())
}

/// The steps that flush the live file and then put a new index at `path`.
pub open spec fn sync_plan(path: Seq<char>, id: Seq<char>) -> Seq<SaveStepView> {
    seq![SaveStepView::SyncLive] + index_plan(path, id)
}

/// `steps` flush the live file and put a new index at `path`, by way of a temporary file beside it.
pub open spec fn syncs_to(steps: Seq<SaveStepView>, path: Seq<char>) -> bool {
    exists|id: Seq<char>|
        {
            &&& random_uuid(id)
            &&& temp_beside(path, id)
            &&& steps == #[trigger] sync_plan(path, id)
        }
}

/// How to make a live overlay durable.
#[derive(Debug)]
pub struct LiveSync {
    /// What [`SaveStep::WriteIndex`] writes.
    pub index: Option<LiveOverlayIndex>,
    pub steps: Vec<SaveStep>,
}

impl LiveSync {
    /// The plan flushes the live file, and then saves the marks of `live` where the disk has an
    /// index.
    pub open spec fn saves(self, index_path: Option<Seq<char>>, live: LiveView) -> bool {
        match index_path {
            None => self.index is None && save_views(self.steps@) == seq![SaveStepView::SyncLive],
            Some(path) => {
                &&& self.index is Some
                &&& self.index->0.records(live)
                &&& syncs_to(save_views(self.steps@), path)
            },
        }
    }
}

/// The files of the host, as far as saving an index goes.
#[verifier::ext_equal]
pub struct Host {
    /// The directories that exist. The current directory always does.
    pub directories: Set<Seq<char>>,
    /// What each name leads to.
    pub files: Map<Seq<char>, Seq<u8>>,
    /// What each name would lead to after a crash.
    pub durable: Map<Seq<char>, Seq<u8>>,
    /// The data of the live overlay file was flushed.
    pub live_flushed: bool,
}

impl Host {
    /// A file can be made at `path`.
    pub open spec fn has_directory_of(self, path: Seq<char>) -> bool {
        paths::directory(path) matches Some(directory) ==> self.directories.contains(directory)
    }
}

/// `a` and `b` lead the name `path` to the same.
pub open spec fn same_at(
    a: Map<Seq<char>, Seq<u8>>,
    b: Map<Seq<char>, Seq<u8>>,
    path: Seq<char>,
) -> bool {
    a.contains_key(path) == b.contains_key(path) && (a.contains_key(path) ==> a[path] == b[path])
}

/// The name `path` leads to `bytes`.
pub open spec fn holds(files: Map<Seq<char>, Seq<u8>>, path: Seq<char>, bytes: Seq<u8>) -> bool {
    files.contains_key(path) && files[path] == bytes
}

impl SaveStepView {
    /// The host has what the step needs.
    pub open spec fn possible(self, host: Host) -> bool {
        match self {
            SaveStepView::SyncLive => true,
            SaveStepView::CreateDirectories { path } => true,
            SaveStepView::WriteIndex { path } => host.has_directory_of(path)
                && !host.files.contains_key(path),
            SaveStepView::Rename { from, to } => host.has_directory_of(to)
                && host.files.contains_key(from),
            SaveStepView::SyncDirectory { path } => host.directories.contains(path),
        }
    }

    /// The host carried out the step; `bytes` are those of the index. The contents of a new file
    /// are flushed, but its name, and a rename, are sure to last only once the directory was
    /// flushed.
    pub open spec fn done(self, bytes: Seq<u8>, before: Host, after: Host) -> bool {
        &&& self.possible(before)
        &&& match self {
            SaveStepView::SyncLive => after == (Host { live_flushed: true, ..before }),
            SaveStepView::CreateDirectories { path } => {
                &&& before.directories.subset_of(after.directories)
                &&& after.directories.contains(path)
                &&& after == (Host { directories: after.directories, ..before })
            },
            SaveStepView::WriteIndex { path } => {
                &&& after == (Host {
                    files: before.files.insert(path, bytes),
                    durable: after.durable,
                    ..before
                })
                &&& forall|p: Seq<char>|
                    p != path ==> #[trigger] same_at(after.durable, before.durable, p)
            },
            SaveStepView::Rename { from, to } => {
                &&& after == (Host {
                    files: before.files.insert(to, before.files[from]).remove(from),
                    durable: after.durable,
                    ..before
                })
                &&& same_at(after.durable, before.durable, to) || holds(
                    after.durable,
                    to,
                    before.files[from],
                )
                &&& forall|p: Seq<char>|
                    p != from && p != to ==> #[trigger] same_at(after.durable, before.durable, p)
            },
            SaveStepView::SyncDirectory { path } => {
                &&& after == (Host { durable: after.durable, ..before })
                &&& forall|p: Seq<char>|
                    paths::directory(p) == Some(path) ==> #[trigger] same_at(
                        after.durable,
                        before.files,
                        p,
                    )
                &&& forall|p: Seq<char>|
                    paths::directory(p) != Some(path) ==> #[trigger] same_at(
                        after.durable,
                        before.durable,
                        p,
                    )
            },
        }
    }

    /// The host failed the step, or stopped in it. A file that is being written may hold anything;
    /// a rename happens at once or not at all, and its source may be removed where it fails.
    /// Flushing a directory may have made some of its names last.
    pub open spec fn failed(self, before: Host, after: Host) -> bool {
        &&& after.live_flushed == before.live_flushed
        &&& match self {
            SaveStepView::WriteIndex { path } => {
                &&& after.files.remove(path) == before.files.remove(path)
                &&& forall|p: Seq<char>|
                    p != path ==> #[trigger] same_at(after.durable, before.durable, p)
            },
            SaveStepView::Rename { from, to } => {
                &&& after.files == before.files || after.files == before.files.remove(from)
                &&& forall|p: Seq<char>|
                    p != from ==> #[trigger] same_at(after.durable, before.durable, p)
            },
            SaveStepView::SyncDirectory { path } => {
                &&& after.files == before.files
                &&& forall|p: Seq<char>| #[trigger]
                    same_at(after.durable, before.durable, p) || same_at(
                        after.durable,
                        before.files,
                        p,
                    )
            },
            _ => after.files == before.files && after.durable == before.durable,
        }
    }
}

/// `trace` lists the hosts before, between and after the first steps of `plan`, of which the last
/// was failed where `failing`.
pub open spec fn saves_up_to(
    plan: Seq<SaveStepView>,
    bytes: Seq<u8>,
    trace: Seq<Host>,
    failing: bool,
) -> bool {
    let carried = if failing {
        trace.len() - 2
    } else {
        trace.len() - 1
    };
    &&& 1 <= trace.len() <= plan.len() + 1
    &&& carried >= 0
    &&& forall|k: int|
        0 <= k < carried ==> (#[trigger] plan[k]).done(bytes, trace[k], trace[k + 1])
    &&& failing ==> plan[carried].failed(trace[carried], trace.last())
}

/// The steps of a sync with an index, by position.
proof fn lemma_sync_steps(path: Seq<char>, id: Seq<char>)
    ensures
        ({
            let plan = sync_plan(path, id);
            let temp = temp_path(path, id);
            &&& plan[0] == SaveStepView::SyncLive
            &&& match paths::directory(path) {
                Some(directory) => {
                    &&& plan.len() == 5
                    &&& plan[1] == SaveStepView::CreateDirectories { path: directory }
                    &&& plan[2] == SaveStepView::WriteIndex { path: temp }
                    &&& plan[3] == SaveStepView::Rename { from: temp, to: path }
                    &&& plan[4] == SaveStepView::SyncDirectory { path: directory }
                },
                None => {
                    &&& plan.len() == 3
                    &&& plan[1] == SaveStepView::WriteIndex { path: temp }
                    &&& plan[2] == SaveStepView::Rename { from: temp, to: path }
                },
            }
        }),
{
}

/// The hosts that a sync goes through, step by step.
proof fn lemma_sync_trace(
    path: Seq<char>,
    id: Seq<char>,
    bytes: Seq<u8>,
    trace: Seq<Host>,
    failing: bool,
)
    requires
        saves_up_to(sync_plan(path, id), bytes, trace, failing),
    ensures
        ({
            let plan = sync_plan(path, id);
            let carried = if failing {
                trace.len() - 2
            } else {
                trace.len() - 1
            };
            &&& carried > 0 ==> plan[0].done(bytes, trace[0], trace[1])
            &&& carried > 1 ==> plan[1].done(bytes, trace[1], trace[2])
            &&& carried > 2 ==> plan[2].done(bytes, trace[2], trace[3])
            &&& carried > 3 ==> plan[3].done(bytes, trace[3], trace[4])
            &&& carried > 4 ==> plan[4].done(bytes, trace[4], trace[5])
            &&& trace.first() == trace[0]
        }),
{
}

/// A sync of a disk without an index flushes the live file, and no step of it needs anything of
/// the host.
pub proof fn law_sync_without_index(sync: LiveSync, live: LiveView, trace: Seq<Host>)
    requires
        sync.saves(None, live),
        saves_up_to(save_views(sync.steps@), seq![], trace, false),
        trace.len() == save_views(sync.steps@).len() + 1,
    ensures
        sync.index is None,
        trace.last().live_flushed,
        trace.last().files == trace.first().files,
        trace.last().durable == trace.first().durable,
{
    let plan = save_views(sync.steps@);
    assert(plan[0].done(seq![], trace[0], trace[1]));
}

/// A sync of a disk with an index can be carried out on every host on which the names of its
/// temporary file are free: each step finds what it needs, even where the directory of the index
/// did not exist.
pub proof fn law_sync_possible(
    sync: LiveSync,
    path: Seq<char>,
    live: LiveView,
    bytes: Seq<u8>,
    trace: Seq<Host>,
)
    requires
        sync.saves(Some(path), live),
        paths::path_file_name(path) is Some,
        saves_up_to(save_views(sync.steps@), bytes, trace, false),
        trace.len() <= save_views(sync.steps@).len(),
        forall|k: int|
            0 <= k < save_views(sync.steps@).len() ==> (#[trigger] save_views(
                sync.steps@,
            )[k] matches SaveStepView::WriteIndex { path: temp }
                ==> !trace.first().files.contains_key(temp)),
    ensures
        save_views(sync.steps@)[trace.len() - 1].possible(trace.last()),
{
    let id = choose|id: Seq<char>|
        {
            &&& random_uuid(id)
            &&& temp_beside(path, id)
            &&& save_views(sync.steps@) == #[trigger] sync_plan(path, id)
        };
    let plan = sync_plan(path, id);
    let temp = temp_path(path, id);
    lemma_sync_steps(path, id);
    lemma_sync_trace(path, id, bytes, trace, false);
    assert(paths::directory(temp) == paths::directory(path));
    let write: int = if paths::directory(path) is Some {
        2
    } else {
        1
    };
    assert(plan[write] is WriteIndex);
    assert(!trace.first().files.contains_key(temp));
}

/// A sync that completes has flushed the live file and put the index of the live marks at `path`.
/// Where the path has a directory, that directory exists, and the index is sure to be found at
/// `path` after a crash.
pub proof fn law_completed_sync(
    sync: LiveSync,
    path: Seq<char>,
    live: LiveView,
    bytes: Seq<u8>,
    trace: Seq<Host>,
)
    requires
        sync.saves(Some(path), live),
        saves_up_to(save_views(sync.steps@), bytes, trace, false),
        trace.len() == save_views(sync.steps@).len() + 1,
    ensures
        sync.index matches Some(index) && index.records(live),
        trace.last().live_flushed,
        trace.last().files == trace.first().files.insert(path, bytes),
        paths::directory(path) matches Some(directory) ==> {
            &&& trace.last().directories.contains(directory)
            &&& holds(trace.last().durable, path, bytes)
        },
{
    let id = choose|id: Seq<char>|
        {
            &&& random_uuid(id)
            &&& temp_beside(path, id)
            &&& save_views(sync.steps@) == #[trigger] sync_plan(path, id)
        };
    let plan = sync_plan(path, id);
    let temp = temp_path(path, id);
    let first = trace.first().files;
    let last = trace.last();
    lemma_sync_steps(path, id);
    lemma_sync_trace(path, id, bytes, trace, false);
    assert(!first.contains_key(temp));
    let written = first.insert(temp, bytes);
    assert(written[temp] == bytes);
    assert(written.insert(path, bytes).remove(temp) =~= first.insert(path, bytes));
    if let Some(directory) = paths::directory(path) {
        assert(plan[4].done(bytes, trace[4], trace[5]));
        assert(same_at(last.durable, trace[4].files, path));
    }
}

/// What the index file holds is at every moment, and after a crash at that moment, all of the old
/// index or all of the new one, and the new one only once the live file was flushed. No file but
/// the index and its temporary one is touched.
pub proof fn law_sync_replaces_whole(
    sync: LiveSync,
    path: Seq<char>,
    live: LiveView,
    bytes: Seq<u8>,
    trace: Seq<Host>,
    failing: bool,
)
    requires
        sync.saves(Some(path), live),
        saves_up_to(save_views(sync.steps@), bytes, trace, failing),
    ensures
        same_at(trace.last().files, trace.first().files, path) || (holds(
            trace.last().files,
            path,
            bytes,
        ) && trace.last().live_flushed),
        same_at(trace.last().durable, trace.first().durable, path) || (holds(
            trace.last().durable,
            path,
            bytes,
        ) && trace.last().live_flushed),
        forall|p: Seq<char>|
            p != path && (forall|k: int|
                0 <= k < save_views(sync.steps@).len() ==> #[trigger] save_views(sync.steps@)[k]
                    != (SaveStepView::WriteIndex { path: p })) ==> #[trigger] same_at(
                trace.last().files,
                trace.first().files,
                p,
            ),
{
    let id = choose|id: Seq<char>|
        {
            &&& random_uuid(id)
            &&& temp_beside(path, id)
            &&& save_views(sync.steps@) == #[trigger] sync_plan(path, id)
        };
    let plan = sync_plan(path, id);
    let temp = temp_path(path, id);
    lemma_sync_steps(path, id);
    lemma_sync_trace(path, id, bytes, trace, failing);
    let carried = if failing {
        trace.len() - 2
    } else {
        trace.len() - 1
    };
    let write: int = if paths::directory(path) is Some {
        2
    } else {
        1
    };
    assert(plan[write] == SaveStepView::WriteIndex { path: temp });
    lemma_index_file(path, id, bytes, trace, failing);
    lemma_index_durable(path, id, bytes, trace, failing);
    assert forall|p: Seq<char>|
        p != path && (forall|k: int|
            0 <= k < plan.len() ==> #[trigger] plan[k] != (SaveStepView::WriteIndex {
                path: p,
            })) implies #[trigger] same_at(trace.last().files, trace.first().files, p) by {
        assert(plan[write] != (SaveStepView::WriteIndex { path: p }));
        lemma_other_file(path, id, bytes, trace, failing, p);
    }
}

/// What the index file holds is at every moment all of the old index or all of the new one, and
/// the new one only once the live file was flushed, whatever the id of the temporary file. No file
/// but the index and its temporary one is touched, and a save that completes leaves no temporary
/// file.
pub proof fn law_index_replaced_whole(
    path: Seq<char>,
    id: Seq<char>,
    bytes: Seq<u8>,
    trace: Seq<Host>,
    failing: bool,
)
    requires
        temp_beside(path, id),
        saves_up_to(sync_plan(path, id), bytes, trace, failing),
    ensures
        trace.last().files.contains_key(path) == trace.first().files.contains_key(path)
            && trace.last().files[path] == trace.first().files[path] || (
        trace.last().files.contains_key(path) && trace.last().files[path] == bytes
            && trace.last().live_flushed),
        trace.last().files.remove(path).remove(temp_path(path, id))
            == trace.first().files.remove(path).remove(temp_path(path, id)),
        !failing && trace.len() == sync_plan(path, id).len() + 1 ==> trace.last().files
            == trace.first().files.insert(path, bytes),
{
    let temp = temp_path(path, id);
    let first = trace.first().files;
    let last = trace.last().files;
    let write: int = if paths::directory(path) is Some {
        2
    } else {
        1
    };
    lemma_sync_steps(path, id);
    lemma_sync_trace(path, id, bytes, trace, failing);
    let carried = if failing {
        trace.len() - 2
    } else {
        trace.len() - 1
    };
    let renamed = first.insert(temp, bytes).insert(path, bytes).remove(temp);
    if carried > write {
        assert(trace[write + 1].files =~= first.insert(temp, bytes));
        assert(!first.contains_key(temp));
        assert(first =~= first.insert(temp, bytes).remove(temp));
        assert(renamed =~= first.insert(path, bytes));
    }
    if failing && carried == write {
        assert(last.remove(temp) == first.remove(temp));
        assert(last.remove(temp).contains_key(path) == first.remove(temp).contains_key(path));
        assert(last.remove(temp)[path] == first.remove(temp)[path]);
        assert(last.remove(path).remove(temp) =~= last.remove(temp).remove(path));
        assert(first.remove(path).remove(temp) =~= first.remove(temp).remove(path));
    }
    assert(last.remove(path).remove(temp) =~= first.remove(path).remove(temp));
}

/// A file that is neither the index nor its temporary one.
proof fn lemma_other_file(
    path: Seq<char>,
    id: Seq<char>,
    bytes: Seq<u8>,
    trace: Seq<Host>,
    failing: bool,
    p: Seq<char>,
)
    requires
        temp_beside(path, id),
        saves_up_to(sync_plan(path, id), bytes, trace, failing),
        p != path,
        p != temp_path(path, id),
    ensures
        same_at(trace.last().files, trace.first().files, p),
{
    let temp = temp_path(path, id);
    lemma_sync_steps(path, id);
    lemma_sync_trace(path, id, bytes, trace, failing);
    let last = trace.last().files;
    let before = trace[trace.len() - 2].files;
    if failing {
        assert(last.remove(temp).contains_key(p) == last.contains_key(p));
        assert(before.remove(temp).contains_key(p) == before.contains_key(p));
        assert(last.contains_key(p) ==> last.remove(temp)[p] == last[p]);
        assert(before.contains_key(p) ==> before.remove(temp)[p] == before[p]);
    }
}

/// What the name of the index leads to.
proof fn lemma_index_file(
    path: Seq<char>,
    id: Seq<char>,
    bytes: Seq<u8>,
    trace: Seq<Host>,
    failing: bool,
)
    requires
        temp_beside(path, id),
        saves_up_to(sync_plan(path, id), bytes, trace, failing),
    ensures
        same_at(trace.last().files, trace.first().files, path) || (holds(
            trace.last().files,
            path,
            bytes,
        ) && trace.last().live_flushed),
{
    let temp = temp_path(path, id);
    lemma_sync_steps(path, id);
    lemma_sync_trace(path, id, bytes, trace, failing);
    let last = trace.last().files;
    let before = trace[trace.len() - 2].files;
    if failing {
        assert(last.remove(temp).contains_key(path) == last.contains_key(path));
        assert(before.remove(temp).contains_key(path) == before.contains_key(path));
        assert(last.contains_key(path) ==> last.remove(temp)[path] == last[path]);
        assert(before.contains_key(path) ==> before.remove(temp)[path] == before[path]);
    }
}

/// What the name of the index leads to after a crash.
proof fn lemma_index_durable(
    path: Seq<char>,
    id: Seq<char>,
    bytes: Seq<u8>,
    trace: Seq<Host>,
    failing: bool,
)
    requires
        temp_beside(path, id),
        saves_up_to(sync_plan(path, id), bytes, trace, failing),
    ensures
        same_at(trace.last().durable, trace.first().durable, path) || (holds(
            trace.last().durable,
            path,
            bytes,
        ) && trace.last().live_flushed),
{
    lemma_sync_steps(path, id);
    lemma_sync_trace(path, id, bytes, trace, failing);
    let last = trace.last().durable;
    let carried = if failing {
        trace.len() - 2
    } else {
        trace.len() - 1
    };
    let write: int = if paths::directory(path) is Some {
        2
    } else {
        1
    };
    if carried > write {
        assert(same_at(trace[write + 1].durable, trace[write].durable, path));
    }
    if failing && carried == write {
        assert(same_at(last, trace[write].durable, path));
    }
    if failing && carried == write + 1 {
        assert(same_at(last, trace[write + 1].durable, path));
    }
    if carried > write + 1 {
        assert(holds(trace[write + 2].files, path, bytes));
    }
    if write == 2 && carried > 4 {
        assert(same_at(trace[5].durable, trace[4].files, path));
    }
    if write == 2 && failing && carried == 4 {
        assert(same_at(last, trace[4].durable, path) || same_at(last, trace[4].files, path));
    }
}

/// The steps of a plan mean what the plan's model says.
pub proof fn law_save_views(steps: Seq<SaveStep>, i: int, path: String, to: String)
    requires
        0 <= i < steps.len(),
    ensures
        save_views(steps).len() == steps.len(),
        save_views(steps)[i] == steps[i]@,
        SaveStep::SyncLive@ == SaveStepView::SyncLive,
        (SaveStep::CreateDirectories { path })@ == (SaveStepView::CreateDirectories {
            path: path@,
        }),
        (SaveStep::WriteIndex { path })@ == (SaveStepView::WriteIndex { path: path@ }),
        (SaveStep::Rename { from: path, to })@ == (SaveStepView::Rename { from: path@, to: to@ }),
        (SaveStep::SyncDirectory { path })@ == (SaveStepView::SyncDirectory { path: path@ }),
{
}

/// An index is replaced in this order: its directory is made, where it has one; the new index is
/// written to the temporary file, which is then renamed; and the directory is flushed.
pub proof fn law_replace_order(directory: Option<Seq<char>>, temp: Seq<char>, path: Seq<char>)
    ensures
        ({
            let plan = replace_plan(directory, temp, path);
            let shift: int = if directory is Some {
                1
            } else {
                0
            };
            &&& plan.len() == 2 + 2 * shift
            &&& plan[shift] == SaveStepView::WriteIndex { path: temp }
            &&& plan[shift + 1] == SaveStepView::Rename { from: temp, to: path }
            &&& directory matches Some(d) ==> plan[0] == (SaveStepView::CreateDirectories {
                path: d,
            }) && plan.last() == (SaveStepView::SyncDirectory { path: d })
        }),
{
}

/// A save of an index at `path` makes and flushes the directory of `path`, and no other.
pub proof fn law_index_directory(path: Seq<char>, id: Seq<char>, k: int)
    requires
        0 <= k < index_plan(path, id).len(),
    ensures
        index_plan(path, id)[k] matches SaveStepView::CreateDirectories { path: d }
            ==> paths::path_parent(path) == Some(d),
        index_plan(path, id)[k] matches SaveStepView::SyncDirectory { path: d }
            ==> paths::path_parent(path) == Some(d),
        index_plan(path, id)[k] matches SaveStepView::Rename { from, to } ==> to == path && from
            == temp_path(path, id),
        index_plan(path, id)[k] matches SaveStepView::WriteIndex { path: temp } ==> temp
            == temp_path(path, id),
        !(index_plan(path, id)[k] is SyncLive),
        paths::path_parent(path) matches Some(d) ==> (d.len() > 0 <==> index_plan(path, id).len()
            == 4),
{
}

/// A temporary file is hidden, its name ends in `.tmp`, and between lie the name of the index, or
/// `live-index.json` where that has none, and the id.
pub proof fn law_temp_name(file_name: Option<Seq<char>>, id: Seq<char>)
    ensures
        ({
            let name = temp_name(file_name, id);
            let stem = match file_name {
                Some(stem) => stem,
                None => "live-index.json"@,
            };
            let n = name.len() as int;
            let m = stem.len() as int;
            &&& n == m + id.len() + 6
            &&& name[0] == '.'
            &&& name.subrange(1, 1 + m) == stem
            &&& name[1 + m] == '.'
            &&& name.subrange(2 + m, n - 4) == id
            &&& name.subrange(n - 4, n) == seq!['.', 't', 'm', 'p']
        }),
{
    reveal_strlit(".");
    reveal_strlit(".tmp");
    let name = temp_name(file_name, id);
    let stem = match file_name {
        Some(stem) => stem,
        None => "live-index.json"@,
    };
    let n = name.len() as int;
    let m = stem.len() as int;
    assert(name.subrange(1, 1 + m) =~= stem);
    assert(name.subrange(2 + m, n - 4) =~= id);
    assert(name.subrange(n - 4, n) =~= seq!['.', 't', 'm', 'p']);
}

/// Saves under different ids use different temporary files.
pub proof fn law_temp_names_differ(file_name: Option<Seq<char>>, a: Seq<char>, b: Seq<char>)
    requires
        temp_name(file_name, a) == temp_name(file_name, b),
    ensures
        a == b,
{
    law_temp_name(file_name, a);
    law_temp_name(file_name, b);
}

/// The temporary file of an index has the name that is made from the name of the index.
pub proof fn law_temp_path(path: Seq<char>, id: Seq<char>)
    ensures
        temp_path(path, id) == paths::path_with_file_name(
            path,
            temp_name(paths::path_file_name(path), id),
        ),
{
}

} // verus!
