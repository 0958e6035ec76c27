//! Runs of blocks, paths and the saving of indexes.
use std::collections::BTreeSet;

use tensorlake_rootfs::error::{invalid_spec, BlockErrorKind};
use tensorlake_rootfs::overlay::LiveOverlay;
use tensorlake_rootfs::paths::{directory_of, keep_named, resolve_in, resolve_spec_path};
use tensorlake_rootfs::run::{add_run_blocks, runs_from_blocks, validate_run, BlockRun};
use tensorlake_rootfs::save::{
    make_temp_name, persist_live_index, persist_live_index_as, replace_steps, SaveStep,
};
use tensorlake_rootfs::step::LiveStep;
use tensorlake_rootfs::text::decimal;

fn run(start_block: u64, block_count: u64) -> BlockRun {
    BlockRun { start_block, block_count }
}

#[test]
fn runs_from_blocks_merges_neighbours() {
    let blocks: BTreeSet<u64> = [7, 1, 2, 3, 9, 10].into_iter().collect();
    assert_eq!(runs_from_blocks(&blocks), [run(1, 3), run(7, 1), run(9, 2)]);
    assert_eq!(runs_from_blocks(&BTreeSet::new()), []);
    let last: BTreeSet<u64> = [u64::MAX - 1, u64::MAX].into_iter().collect();
    assert_eq!(runs_from_blocks(&last), [run(u64::MAX - 1, 2)]);
}

#[test]
fn runs_that_were_made_of_blocks_give_them_back() {
    let blocks: BTreeSet<u64> = [0, 1, 5, 6, 8].into_iter().collect();
    let mut back = BTreeSet::new();
    for run in runs_from_blocks(&blocks) {
        add_run_blocks(&mut back, run, 512, 9, "index").unwrap();
    }
    assert_eq!(back, blocks);
}

#[test]
fn ends_of_runs() {
    assert_eq!(run(3, 4).end_block_exclusive().unwrap(), 7);
    assert_eq!(
        run(u64::MAX, 1).end_block_exclusive().unwrap_err().kind,
        BlockErrorKind::Overflow
    );
    assert_eq!(run(3, 4).end_byte_offset(512).unwrap(), 3584);
    assert_eq!(
        run(u64::MAX / 512, 1).end_byte_offset(512).unwrap_err().kind,
        BlockErrorKind::Overflow
    );
    assert!(run(3, 4).contains_block(3));
    assert!(run(3, 4).contains_block(6));
    assert!(!run(3, 4).contains_block(7));
    assert!(!run(3, 4).contains_block(2));
    assert!(!run(u64::MAX, 1).contains_block(u64::MAX));
}

#[test]
fn empty_runs_are_refused() {
    let error = validate_run(run(3, 0), 512, "spec").unwrap_err();
    assert_eq!(error.kind, BlockErrorKind::InvalidFormat);
    assert_eq!(error.path.unwrap(), "spec");
    assert_eq!(error.message.unwrap(), "block run block_count must be non-zero");
    assert!(validate_run(run(3, 1), 512, "spec").is_ok());
}

#[test]
fn decimal_numbers() {
    assert_eq!(decimal(0), "0");
    assert_eq!(decimal(1203), "1203");
    assert_eq!(decimal(u64::MAX), "18446744073709551615");
}

#[test]
fn errors_name_the_file() {
    let error = invalid_spec("some/file", "wrong".to_string());
    assert_eq!(error.kind, BlockErrorKind::InvalidFormat);
    assert_eq!(error.path.unwrap(), "some/file");
    assert_eq!(error.message.unwrap(), "wrong");
}

#[test]
fn paths_are_taken_from_the_directory_of_the_spec() {
    assert_eq!(resolve_spec_path("/a/b/spec.json", "base.img"), "/a/b/base.img");
    assert_eq!(resolve_spec_path("/a/b/spec.json", "/c/base.img"), "/c/base.img");
    assert_eq!(resolve_spec_path("spec.json", "base.img"), "base.img");
    assert_eq!(resolve_spec_path("", "base.img"), "./base.img");
    assert_eq!(resolve_spec_path("/", "base.img"), "./base.img");
    assert_eq!(resolve_in(Some("dir"), "base.img"), "dir/base.img");
    assert_eq!(resolve_in(Some("dir"), "/base.img"), "/base.img");
    assert_eq!(resolve_in(None, "base.img"), "./base.img");
}

#[test]
fn directories_of_files() {
    assert_eq!(directory_of("/a/b/index").unwrap(), "/a/b");
    assert_eq!(directory_of("/index").unwrap(), "/");
    assert!(directory_of("index").is_none());
    assert!(directory_of("").is_none());
    assert_eq!(keep_named(Some("a".to_string())).unwrap(), "a");
    assert!(keep_named(Some(String::new())).is_none());
    assert!(keep_named(None).is_none());
}

fn shown(steps: &[SaveStep]) -> Vec<String> {
    steps.iter().map(|step| format!("{step:?}")).collect()
}

#[test]
fn an_index_is_saved_by_way_of_a_temporary_file() {
    let mut live = LiveOverlay::new();
    live.apply(LiveStep::MarkDirty { block: 4 });
    live.apply(LiveStep::MarkDirty { block: 5 });
    live.apply(LiveStep::MarkZero { block: 9 });
    let save = persist_live_index_as("/a/live.json", &live, "id");
    assert_eq!(save.index.version, 1);
    assert_eq!(save.index.dirty_runs, [run(4, 2)]);
    assert_eq!(save.index.zero_runs, [run(9, 1)]);
    assert_eq!(
        shown(&save.steps),
        [
            "CreateDirectories { path: \"/a\" }",
            "WriteIndex { path: \"/a/.live.json.id.tmp\" }",
            "Rename { from: \"/a/.live.json.id.tmp\", to: \"/a/live.json\" }",
            "SyncDirectory { path: \"/a\" }",
        ]
    );
    assert_eq!(
        shown(&persist_live_index_as("live.json", &live, "id").steps),
        [
            "WriteIndex { path: \".live.json.id.tmp\" }",
            "Rename { from: \".live.json.id.tmp\", to: \"live.json\" }",
        ]
    );
    assert_eq!(
        shown(&persist_live_index_as("..", &live, "id").steps)[0],
        "WriteIndex { path: \"../.live-index.json.id.tmp\" }"
    );
}

#[test]
fn steps_and_names_of_a_save() {
    assert_eq!(make_temp_name(Some("x"), "y"), ".x.y.tmp");
    assert_eq!(make_temp_name(None, "y"), ".live-index.json.y.tmp");
    assert_eq!(
        shown(&replace_steps(Some("d".to_string()), "t".to_string(), "p")),
        [
            "CreateDirectories { path: \"d\" }",
            "WriteIndex { path: \"t\" }",
            "Rename { from: \"t\", to: \"p\" }",
            "SyncDirectory { path: \"d\" }",
        ]
    );
    assert_eq!(replace_steps(None, "t".to_string(), "p").len(), 2);
}

#[test]
fn temporary_files_have_random_names() {
    let live = LiveOverlay::new();
    let temp = |steps: &[SaveStep]| match &steps[0] {
        SaveStep::WriteIndex { path } => path.clone(),
        step => panic!("unexpected {step:?}"),
    };
    let first = temp(&persist_live_index("live.json", &live).steps);
    let second = temp(&persist_live_index("live.json", &live).steps);
    assert_ne!(first, second);
    let id = first
        .strip_prefix(".live.json.")
        .and_then(|rest| rest.strip_suffix(".tmp"))
        .unwrap();
    assert_eq!(id.len(), 36);
    assert_eq!(id.as_bytes()[14], b'4');
    let parsed = uuid::Uuid::parse_str(id).unwrap();
    assert_eq!(parsed.to_string(), id);
    assert_eq!(parsed.get_version_num(), 4);
}
