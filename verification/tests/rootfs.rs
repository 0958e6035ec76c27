//! Disks whose files are held in memory.
use std::cell::RefCell;
use std::collections::BTreeMap;
use std::rc::Rc;

use tensorlake_rootfs::config::{default_block_size, validate_spec};
use tensorlake_rootfs::config::{TensorlakeLayerSpec, TensorlakeRootfsSpec};
use tensorlake_rootfs::disk::{allocated_size, DiskTopology, TensorlakeRootfsDisk};
use tensorlake_rootfs::error::{BlockError, BlockErrorKind, IoErrorKind};
use tensorlake_rootfs::model::{ReadSource, SECTOR_SIZE};
use tensorlake_rootfs::open::AfterLayers;
use tensorlake_rootfs::overlay::{load_live_overlay, LiveOverlay, LiveOverlayIndex};
use tensorlake_rootfs::run::BlockRun;
use tensorlake_rootfs::save::SaveStep;
use tensorlake_rootfs::step::LiveStep;
use tensorlake_rootfs::sync_io::{AsyncIoError, TensorlakeRootfsSyncIo};

const TEST_BLOCK_SIZE: usize = SECTOR_SIZE as usize;
const TEST_LOGICAL_SIZE: u64 = (TEST_BLOCK_SIZE * 4) as u64;

/// The files of a host.
#[derive(Clone, Default)]
struct Files {
    images: Rc<RefCell<BTreeMap<String, Vec<u8>>>>,
    indexes: Rc<RefCell<BTreeMap<String, LiveOverlayIndex>>>,
    /// How many more writes to images succeed.
    writes_left: Rc<RefCell<usize>>,
}

impl Files {
    fn new() -> Files {
        let files = Files::default();
        *files.writes_left.borrow_mut() = usize::MAX;
        files
    }

    fn put(&self, path: &str, bytes: Vec<u8>) {
        self.images.borrow_mut().insert(path.to_string(), bytes);
    }

    fn len(&self, path: &str) -> u64 {
        self.images.borrow()[path].len() as u64
    }

    fn read(&self, path: &str, offset: u64, len: u64) -> Vec<u8> {
        self.images.borrow()[path][offset as usize..(offset + len) as usize].to_vec()
    }

    fn write(&self, path: &str, offset: u64, data: &[u8]) -> Result<(), String> {
        let mut left = self.writes_left.borrow_mut();
        if *left == 0 {
            return Err("host failed".to_string());
        }
        *left -= 1;
        let mut images = self.images.borrow_mut();
        let image = images.get_mut(path).unwrap();
        image[offset as usize..offset as usize + data.len()].copy_from_slice(data);
        Ok(())
    }
}

/// An open disk and one of its queues.
struct Rig {
    disk: Rc<TensorlakeRootfsDisk>,
    live: Rc<RefCell<LiveOverlay>>,
    files: Files,
    io: TensorlakeRootfsSyncIo<Vec<u8>>,
}

impl Rig {
    fn open(
        files: &Files,
        spec_path: &str,
        spec: TensorlakeRootfsSpec,
        readonly: bool,
    ) -> Result<Rig, BlockError> {
        let base = TensorlakeRootfsDisk::open(spec_path, spec, readonly)?;
        let len = files.len(base.path());
        let mut layers = base.opened(len)?;
        let live = loop {
            match layers.next() {
                AfterLayers::Layer(layer) => {
                    let len = files.len(layer.path());
                    layers = layer.opened(len)?;
                }
                AfterLayers::Live(live) => break live,
            }
        };
        let options = live.options();
        assert_eq!(options.write, !readonly);
        assert_eq!(options.create, !readonly);
        if options.create && !files.images.borrow().contains_key(live.path()) {
            files.put(live.path(), vec![]);
        }
        if let Some(len) = options.set_len {
            let mut images = files.images.borrow_mut();
            images.get_mut(live.path()).unwrap().resize(len as usize, 0);
        }
        let len = files.len(live.path());
        let index = live.opened(len)?;
        let stored = match index.path() {
            Some(path) => files.indexes.borrow().get(path).cloned(),
            None => None,
        };
        let (disk, live) = index.loaded(stored.as_ref())?;
        Ok(Rig {
            disk: Rc::new(disk),
            live: Rc::new(RefCell::new(live)),
            files: files.clone(),
            io: TensorlakeRootfsSyncIo::new(),
        })
    }

    /// Another queue on the same disk.
    fn try_clone(&self) -> Rig {
        Rig {
            disk: Rc::clone(&self.disk),
            live: Rc::clone(&self.live),
            files: self.files.clone(),
            io: TensorlakeRootfsSyncIo::new(),
        }
    }

    fn from_source(&self, source: ReadSource, offset: u64, len: u64) -> Vec<u8> {
        let state = self.disk.state();
        match source {
            ReadSource::Zeroes => vec![0; len as usize],
            ReadSource::Live => self.files.read(state.live_path(), offset, len),
            ReadSource::Layer(i) => {
                self.files
                    .read(&state.layers_oldest_to_newest()[i].path, offset, len)
            }
            ReadSource::Base => self.files.read(state.base_path(), offset, len),
        }
    }

    fn run_steps(&self, steps: &[LiveStep], data: &[u8]) -> Result<(), String> {
        let live_path = self.disk.state().live_path().to_string();
        for step in steps {
            self.live.borrow_mut().apply(*step);
            match *step {
                LiveStep::CopyCommitted { source, offset, len } => {
                    let bytes = self.from_source(source, offset, len);
                    self.files.write(&live_path, offset, &bytes)?;
                }
                LiveStep::WriteZeroes { offset, len } => {
                    self.files.write(&live_path, offset, &vec![0; len as usize])?;
                }
                LiveStep::WriteData { offset, len } => {
                    assert_eq!(len as usize, data.len());
                    self.files.write(&live_path, offset, data)?;
                }
                LiveStep::PunchHole { offset, len } => {
                    // What is left behind must never be read.
                    let mut images = self.files.images.borrow_mut();
                    let image = images.get_mut(&live_path).unwrap();
                    image[offset as usize..(offset + len) as usize].fill(0xee);
                }
                _ => {}
            }
        }
        Ok(())
    }

    fn read(&mut self, offset: i64, len: usize, user_data: u64) -> Result<(), AsyncIoError> {
        let state = self.disk.state();
        let mut walk = self
            .io
            .submit_data_operation(state, true, offset, len as u64)?;
        let mut buffer = vec![0; len];
        while let Some(part) = walk.next_segment() {
            let source = state.read_segment(&self.live.borrow(), part.offset, true);
            let bytes = self.from_source(source, part.offset, part.len);
            buffer[part.start as usize..(part.start + part.len) as usize].copy_from_slice(&bytes);
        }
        self.io.complete(user_data, len as u64, buffer);
        Ok(())
    }

    fn write(&mut self, offset: i64, data: &[u8], user_data: u64) -> Result<(), AsyncIoError> {
        let mut walk =
            self.io
                .submit_data_operation(self.disk.state(), false, offset, data.len() as u64)?;
        while let Some(part) = walk.next_segment() {
            let steps =
                self.disk
                    .state()
                    .write_segment(&self.live.borrow(), part.offset, part.len);
            let bytes = &data[part.start as usize..(part.start + part.len) as usize];
            self.run_steps(&steps, bytes).unwrap();
        }
        self.io.complete(user_data, data.len() as u64, data.to_vec());
        Ok(())
    }

    fn write_zeroes(&mut self, offset: u64, len: u64, user_data: u64) -> Result<(), AsyncIoError> {
        let mut walk = self.io.write_zeroes(self.disk.state(), offset, len)?;
        while let Some(part) = walk.next_segment() {
            let steps =
                self.disk
                    .state()
                    .zero_segment(&self.live.borrow(), part.offset, part.len);
            self.run_steps(&steps, &[]).unwrap();
        }
        self.io.complete_request(user_data);
        Ok(())
    }

    fn fsync(&mut self, user_data: Option<u64>) -> bool {
        let sync = self.disk.state().sync_live(&self.live.borrow());
        let mut indexes = self.files.indexes.borrow_mut();
        for step in &sync.steps {
            match step {
                SaveStep::WriteIndex { path } => {
                    assert!(!indexes.contains_key(path));
                    indexes.insert(path.clone(), sync.index.clone().unwrap());
                }
                SaveStep::Rename { from, to } => {
                    let index = indexes.remove(from).unwrap();
                    indexes.insert(to.clone(), index);
                }
                _ => {}
            }
        }
        drop(indexes);
        self.io.fsync(user_data)
    }
}

fn spec_path() -> String {
    "/disks/tensorlake-rootfs.json".to_string()
}

fn make_spec() -> TensorlakeRootfsSpec {
    TensorlakeRootfsSpec {
        version: 1,
        logical_size: TEST_LOGICAL_SIZE,
        block_size: TEST_BLOCK_SIZE as u64,
        base_path: "base.img".to_string(),
        live_overlay_path: "live.img".to_string(),
        live_index_path: Some("live.index.json".to_string()),
        layers: vec![TensorlakeLayerSpec {
            path: "layer0.img".to_string(),
            dirty_runs: vec![BlockRun { start_block: 1, block_count: 1 }],
            zero_runs: vec![BlockRun { start_block: 2, block_count: 1 }],
        }],
    }
}

fn make_files() -> Files {
    let files = Files::new();
    let mut base = Vec::with_capacity(TEST_LOGICAL_SIZE as usize);
    base.extend(vec![b'a'; TEST_BLOCK_SIZE]);
    base.extend(vec![b'b'; TEST_BLOCK_SIZE]);
    base.extend(vec![b'c'; TEST_BLOCK_SIZE]);
    base.extend(vec![b'd'; TEST_BLOCK_SIZE]);
    files.put("/disks/base.img", base);
    let mut layer = vec![0; TEST_LOGICAL_SIZE as usize];
    layer[TEST_BLOCK_SIZE..TEST_BLOCK_SIZE * 2].fill(b'E');
    files.put("/disks/layer0.img", layer);
    files
}

fn make_disk() -> (Files, Rig) {
    let files = make_files();
    let disk = Rig::open(&files, &spec_path(), make_spec(), false)
        .ok()
        .unwrap();
    (files, disk)
}

fn read_vec(io: &mut Rig, offset: u64, len: usize) -> Vec<u8> {
    io.read(offset as i64, len, 7).unwrap();
    let completion = io.io.next_completed_request().unwrap();
    assert_eq!(completion.user_data, 7);
    assert_eq!(completion.result, len as i32);
    completion.buffer.unwrap()
}

fn write_vec(io: &mut Rig, offset: u64, data: &[u8]) {
    io.write(offset as i64, data, 8).unwrap();
    let completion = io.io.next_completed_request().unwrap();
    assert_eq!(completion.user_data, 8);
    assert_eq!(completion.result, data.len() as i32);
}

#[test]
fn reads_base_dirty_and_zero_layers() {
    let (_files, mut io) = make_disk();

    assert_eq!(io.disk.logical_size(), TEST_LOGICAL_SIZE);
    assert_eq!(read_vec(&mut io, 0, 4), b"aaaa");
    assert_eq!(read_vec(&mut io, TEST_BLOCK_SIZE as u64, 4), b"EEEE");
    assert_eq!(
        read_vec(&mut io, (TEST_BLOCK_SIZE * 2) as u64, 4),
        b"\0\0\0\0"
    );
    assert_eq!(read_vec(&mut io, (TEST_BLOCK_SIZE * 3) as u64, 4), b"dddd");
}

#[test]
fn partial_write_seeds_from_committed_layers() {
    let (_files, mut io) = make_disk();

    write_vec(&mut io, TEST_BLOCK_SIZE as u64 + 2, b"xy");

    assert_eq!(read_vec(&mut io, TEST_BLOCK_SIZE as u64, 4), b"EExy");
    assert_eq!(
        read_vec(&mut io, (TEST_BLOCK_SIZE * 2) as u64, 4),
        b"\0\0\0\0"
    );
}

#[test]
fn zeroes_override_lower_layers_without_allocating_dirty_data() {
    let (_files, mut io) = make_disk();

    io.write_zeroes(TEST_BLOCK_SIZE as u64, TEST_BLOCK_SIZE as u64, 9)
        .unwrap();
    let completion = io.io.next_completed_request().unwrap();
    assert_eq!(completion.user_data, 9);
    assert_eq!(completion.result, 0);
    assert!(!io.live.borrow().is_dirty(1));

    assert_eq!(read_vec(&mut io, TEST_BLOCK_SIZE as u64, 4), b"\0\0\0\0");
    assert_eq!(read_vec(&mut io, (TEST_BLOCK_SIZE * 3) as u64, 4), b"dddd");
}

#[test]
fn cloned_handles_share_live_overlay_state() {
    let (_files, mut writer) = make_disk();
    let mut reader = writer.try_clone();

    write_vec(&mut writer, (TEST_BLOCK_SIZE * 3) as u64, b"zzzz");

    assert_eq!(
        read_vec(&mut reader, (TEST_BLOCK_SIZE * 3) as u64, 4),
        b"zzzz"
    );
}

#[test]
fn reports_allocated_size_across_all_files() {
    let (files, io) = make_disk();
    let blocks = |path: &str| files.len(path).div_ceil(512);
    let base = allocated_size(blocks("/disks/base.img"));
    let live = allocated_size(blocks("/disks/live.img"));
    let layers = vec![allocated_size(blocks("/disks/layer0.img"))];

    assert!(io.disk.physical_size(base, live, &layers) > 0);
    assert_eq!(
        io.disk.physical_size(base, live, &layers),
        3 * TEST_LOGICAL_SIZE
    );
}

#[test]
fn fsync_persists_live_overlay_index_for_reopen() {
    let (files, mut io) = make_disk();

    write_vec(&mut io, TEST_BLOCK_SIZE as u64 + 2, b"xy");
    io.write_zeroes((TEST_BLOCK_SIZE * 2) as u64, TEST_BLOCK_SIZE as u64, 9)
        .unwrap();
    let _ = io.io.next_completed_request().unwrap();
    assert!(io.fsync(Some(10)));
    let completion = io.io.next_completed_request().unwrap();
    assert_eq!(completion.user_data, 10);

    let mut reopened = Rig::open(&files, &spec_path(), make_spec(), false)
        .ok()
        .unwrap();
    assert_eq!(read_vec(&mut reopened, TEST_BLOCK_SIZE as u64, 4), b"EExy");
    assert_eq!(
        read_vec(&mut reopened, (TEST_BLOCK_SIZE * 2) as u64, 4),
        b"\0\0\0\0"
    );
}

#[test]
fn writable_disk_requires_live_index_path() {
    let files = Files::new();
    files.put(
        "/disks/base.img",
        vec![b'a'; TEST_LOGICAL_SIZE as usize],
    );
    let spec = TensorlakeRootfsSpec {
        live_index_path: None,
        layers: vec![],
        ..make_spec()
    };

    let error = Rig::open(&files, &spec_path(), spec, false).err().unwrap();
    assert!(format!("{error:?}").contains("live_index_path is required"));
    assert_eq!(
        error.message.unwrap(),
        "live_index_path is required for writable Tensorlake rootfs disks"
    );
    assert_eq!(error.kind, BlockErrorKind::InvalidFormat);
    assert_eq!(error.path.unwrap(), spec_path());
}

#[test]
fn readonly_disk_needs_no_index_and_refuses_changes() {
    let files = make_files();
    files.put("/disks/live.img", vec![0; TEST_LOGICAL_SIZE as usize]);
    let spec = TensorlakeRootfsSpec {
        live_index_path: None,
        ..make_spec()
    };
    let mut io = Rig::open(&files, &spec_path(), spec, true).ok().unwrap();

    assert_eq!(read_vec(&mut io, 0, 4), b"aaaa");
    let error = io.write(0, b"x", 1).unwrap_err();
    assert!(matches!(
        &error,
        AsyncIoError::WriteVectored(e) if e.kind == IoErrorKind::PermissionDenied
            && e.message == "Tensorlake rootfs disk is readonly"
    ));
    assert!(matches!(
        io.write_zeroes(0, 512, 1).unwrap_err(),
        AsyncIoError::WriteZeroes(e) if e.kind == IoErrorKind::PermissionDenied
    ));
    assert!(matches!(
        io.io.punch_hole(io.disk.state(), 0, 512).unwrap_err(),
        AsyncIoError::PunchHole(e) if e.kind == IoErrorKind::PermissionDenied
    ));
    assert!(!io.disk.supports_sparse_operations());
    assert!(!io.disk.supports_zero_flag());
    assert!(!io.fsync(None));
    assert!(io.io.next_completed_request().is_none());
}

#[test]
fn requests_outside_the_disk_are_refused() {
    let (_files, mut io) = make_disk();

    let error = io.read(2047, 2, 1).unwrap_err();
    assert!(matches!(
        &error,
        AsyncIoError::ReadVectored(e) if e.kind == IoErrorKind::InvalidInput
            && e.message == "I/O range [2047, 2049) exceeds logical size 2048"
    ));
    let error = io.read(-1, 2, 1).unwrap_err();
    assert!(matches!(
        &error,
        AsyncIoError::ReadVectored(e) if e.message == "negative disk offset"
    ));
    let error = io.write(-512, b"x", 1).unwrap_err();
    assert!(matches!(
        &error,
        AsyncIoError::WriteVectored(e) if e.message == "negative disk offset"
    ));
    let error = io.write_zeroes(u64::MAX, 1, 1).unwrap_err();
    assert!(matches!(
        &error,
        AsyncIoError::WriteZeroes(e) if e.message == "I/O range overflows u64"
    ));
    assert!(io.disk.state().ensure_range_in_bounds(2048, 0).is_ok());
    assert!(io.io.next_completed_request().is_none());
}

#[test]
fn requests_are_split_at_block_boundaries() {
    let (_files, io) = make_disk();
    let state = io.disk.state();
    let mut walk = state.read_at(500, 600).unwrap();
    let mut parts = vec![];
    while let Some(part) = walk.next_segment() {
        parts.push((part.offset, part.start, part.len));
    }
    assert_eq!(parts, [(500, 0, 12), (512, 12, 512), (1024, 524, 76)]);
    assert!(state.write_at(0, 0).unwrap().next_segment().is_none());
    assert_eq!(state.segment_len(500, 600), 12);
    assert_eq!(state.segment_len(2040, 600), 8);
    assert_eq!(state.valid_block_len(3), 512);
}

#[test]
fn short_last_block_is_written_and_zeroed_whole() {
    let files = make_files();
    let spec = TensorlakeRootfsSpec {
        logical_size: 1636,
        ..make_spec()
    };
    let mut io = Rig::open(&files, &spec_path(), spec, false).ok().unwrap();
    let state = io.disk.state();
    assert_eq!(state.valid_block_len(3), 100);
    assert_eq!(
        state.write_segment(&io.live.borrow(), 1536, 100),
        [
            LiveStep::MarkDirty { block: 3 },
            LiveStep::WriteData { offset: 1536, len: 100 },
        ]
    );
    assert_eq!(
        state.zero_segment(&io.live.borrow(), 1536, 100),
        [
            LiveStep::UnmarkDirty { block: 3 },
            LiveStep::MarkZero { block: 3 },
            LiveStep::PunchHole { offset: 1536, len: 100 },
        ]
    );
    io.write_zeroes(1500, 136, 1).unwrap();
    let _ = io.io.next_completed_request();
    assert_eq!(read_vec(&mut io, 1536, 100), vec![0; 100]);
}

#[test]
fn plans_follow_the_state_of_the_block() {
    let (_files, mut io) = make_disk();
    let plan = |io: &Rig, offset, len| {
        io.disk
            .state()
            .write_segment(&io.live.borrow(), offset, len)
    };
    assert_eq!(
        plan(&io, 514, 2),
        [
            LiveStep::CopyCommitted { source: ReadSource::Layer(0), offset: 512, len: 512 },
            LiveStep::MarkDirty { block: 1 },
            LiveStep::WriteData { offset: 514, len: 2 },
        ]
    );
    assert_eq!(
        io.disk.state().zero_segment(&io.live.borrow(), 1030, 5),
        [
            LiveStep::CopyCommitted { source: ReadSource::Zeroes, offset: 1024, len: 512 },
            LiveStep::MarkDirty { block: 2 },
            LiveStep::WriteZeroes { offset: 1030, len: 5 },
        ]
    );
    io.write_zeroes(0, 512, 1).unwrap();
    assert_eq!(
        plan(&io, 1, 2),
        [
            LiveStep::UnmarkZero { block: 0 },
            LiveStep::WriteZeroes { offset: 0, len: 512 },
            LiveStep::MarkDirty { block: 0 },
            LiveStep::WriteData { offset: 1, len: 2 },
        ]
    );
    io.write(1, b"xy", 1).unwrap();
    assert_eq!(
        plan(&io, 1, 2),
        [
            LiveStep::MarkDirty { block: 0 },
            LiveStep::WriteData { offset: 1, len: 2 },
        ]
    );
    let _ = io.io.next_completed_request();
    let _ = io.io.next_completed_request();
    assert_eq!(read_vec(&mut io, 0, 5), b"\0xy\0\0");
    assert_eq!(
        io.disk.state().read_segment(&io.live.borrow(), 0, true),
        ReadSource::Live
    );
    assert_eq!(
        io.disk.state().read_segment(&io.live.borrow(), 0, false),
        ReadSource::Base
    );
}

#[test]
fn a_write_across_blocks_reads_back() {
    let (_files, mut io) = make_disk();
    let data: Vec<u8> = (0..1300u32).map(|i| (i % 251) as u8).collect();
    write_vec(&mut io, 300, &data);
    assert_eq!(read_vec(&mut io, 300, 1300), data);
    assert_eq!(read_vec(&mut io, 0, 300), vec![b'a'; 300]);
    assert_eq!(read_vec(&mut io, 1600, 448), vec![b'd'; 448]);
}

#[test]
fn a_zeroing_across_blocks_reads_back() {
    let (_files, mut io) = make_disk();
    io.write_zeroes(300, 800, 1).unwrap();
    let _ = io.io.next_completed_request();
    assert_eq!(read_vec(&mut io, 300, 800), vec![0; 800]);
    assert_eq!(read_vec(&mut io, 0, 300), vec![b'a'; 300]);
    assert!(io.live.borrow().is_zero(1));
    assert!(io.live.borrow().is_dirty(0));
    assert!(io.live.borrow().is_dirty(2));
}

#[test]
fn a_failed_write_leaves_other_bytes_alone() {
    let (files, mut io) = make_disk();
    let steps = io
        .disk
        .state()
        .write_segment(&io.live.borrow(), 1540, 2);
    // The block is filled from below; the write of the data fails.
    *files.writes_left.borrow_mut() = 1;
    assert!(io.run_steps(&steps, b"xy").is_err());
    *files.writes_left.borrow_mut() = usize::MAX;
    assert_eq!(read_vec(&mut io, 1536, 4), b"dddd");
    assert_eq!(read_vec(&mut io, 1542, 4), b"dddd");
}

#[test]
fn parts_before_a_failure_hold_the_new_bytes() {
    let (files, mut io) = make_disk();
    let data = vec![b'x'; 1200];
    let mut walk = io.disk.state().write_at(300, 1200).unwrap();
    // The first block is filled and written, the second is written whole, the third fails.
    *files.writes_left.borrow_mut() = 3;
    let mut failed = 0;
    while let Some(part) = walk.next_segment() {
        let steps = io
            .disk
            .state()
            .write_segment(&io.live.borrow(), part.offset, part.len);
        let bytes = &data[part.start as usize..(part.start + part.len) as usize];
        if io.run_steps(&steps, bytes).is_err() {
            failed = part.offset;
            break;
        }
    }
    *files.writes_left.borrow_mut() = usize::MAX;
    assert_eq!(failed, 1024);
    assert_eq!(read_vec(&mut io, 300, 724), vec![b'x'; 724]);
    assert_eq!(read_vec(&mut io, 0, 300), vec![b'a'; 300]);
    assert_eq!(read_vec(&mut io, 1500, 36), vec![0; 36]);
    assert_eq!(read_vec(&mut io, 1536, 512), vec![b'd'; 512]);
    for block in 0..4 {
        assert!(!(io.live.borrow().is_dirty(block) && io.live.borrow().is_zero(block)));
    }
}

#[test]
fn an_uncovered_block_reads_from_below() {
    let (files, mut io) = make_disk();
    io.write_zeroes(1536, 512, 1).unwrap();
    let _ = io.io.next_completed_request();
    let steps = io
        .disk
        .state()
        .write_segment(&io.live.borrow(), 1540, 2);
    *files.writes_left.borrow_mut() = 0;
    assert!(io.run_steps(&steps, b"xy").is_err());
    assert_eq!(read_vec(&mut io, 1536, 4), b"dddd");
}

#[test]
fn newest_layer_decides() {
    let files = make_files();
    files.put("/disks/layer1.img", vec![b'N'; 2048]);
    let mut spec = make_spec();
    spec.layers.push(TensorlakeLayerSpec {
        path: "/disks/layer1.img".to_string(),
        dirty_runs: vec![BlockRun { start_block: 2, block_count: 2 }],
        zero_runs: vec![BlockRun { start_block: 3, block_count: 1 }],
    });
    let mut io = Rig::open(&files, &spec_path(), spec, false).ok().unwrap();
    assert_eq!(read_vec(&mut io, 512, 2), b"EE");
    assert_eq!(read_vec(&mut io, 1024, 2), b"NN");
    assert_eq!(read_vec(&mut io, 1536, 2), b"\0\0");
    assert_eq!(io.disk.state().read_committed_segment(2), ReadSource::Layer(1));
    assert!(io.disk.state().layers_oldest_to_newest()[1].has_dirty_block(3));
    assert!(io.disk.state().layers_oldest_to_newest()[1].has_zero_block(3));
}

fn spec_error(change: impl Fn(&mut TensorlakeRootfsSpec)) -> (BlockErrorKind, Option<String>) {
    let mut spec = make_spec();
    change(&mut spec);
    let error = Rig::open(&make_files(), &spec_path(), spec, false)
        .err()
        .unwrap();
    (error.kind, error.message)
}

#[test]
fn specs_that_make_no_sense_are_refused() {
    let invalid = |message: &str| (BlockErrorKind::InvalidFormat, Some(message.to_string()));
    assert_eq!(
        spec_error(|s| s.version = 2),
        invalid("unsupported Tensorlake rootfs spec version 2, expected 1")
    );
    assert_eq!(
        spec_error(|s| s.logical_size = 0),
        invalid("logical_size must be greater than zero")
    );
    assert_eq!(
        spec_error(|s| s.block_size = 0),
        invalid("block_size must be a non-zero multiple of 512, got 0")
    );
    assert_eq!(
        spec_error(|s| s.block_size = 1000),
        invalid("block_size must be a non-zero multiple of 512, got 1000")
    );
    assert_eq!(
        spec_error(|s| s.logical_size = 2049),
        invalid("file length 2048 is smaller than required length 2049")
    );
    assert_eq!(
        spec_error(|s| s.layers[0].dirty_runs[0].block_count = 0),
        invalid("block run block_count must be non-zero")
    );
    assert_eq!(
        spec_error(|s| s.layers[0].dirty_runs[0].block_count = 4),
        invalid("file length 2048 is smaller than required length 2560")
    );
    assert_eq!(
        spec_error(|s| s.layers[0].zero_runs[0].start_block = u64::MAX),
        (BlockErrorKind::Overflow, None)
    );
    assert_eq!(
        spec_error(|s| s.layers[0].zero_runs[0].start_block = u64::MAX / 2),
        (BlockErrorKind::Overflow, None)
    );
    assert!(validate_spec(&make_spec(), &spec_path()).is_ok());
    assert_eq!(default_block_size(), 4096);
}

fn run(start_block: u64, block_count: u64) -> BlockRun {
    BlockRun { start_block, block_count }
}

fn index_error(index: LiveOverlayIndex) -> (BlockErrorKind, Option<String>) {
    let error = load_live_overlay(Some("index"), Some(&index), 512, 2000)
        .err()
        .unwrap();
    (error.kind, error.message)
}

#[test]
fn indexes_that_make_no_sense_are_refused() {
    let invalid = |message: &str| (BlockErrorKind::InvalidFormat, Some(message.to_string()));
    let index = |version, dirty_runs, zero_runs| LiveOverlayIndex {
        version,
        dirty_runs,
        zero_runs,
    };
    assert_eq!(
        index_error(index(7, vec![], vec![])),
        invalid("unsupported Tensorlake live overlay index version 7, expected 1")
    );
    assert_eq!(
        index_error(index(1, vec![run(3, 2)], vec![])),
        invalid("block run ends at block 5, beyond max block 4")
    );
    assert_eq!(
        index_error(index(1, vec![run(0, 1), run(2, 2)], vec![run(3, 1), run(2, 1)])),
        invalid("live overlay block 2 is both dirty and zero")
    );
    assert_eq!(
        index_error(index(1, vec![], vec![run(1, u64::MAX)])),
        (BlockErrorKind::Overflow, None)
    );
    let loaded = load_live_overlay(
        Some("index"),
        Some(&index(1, vec![run(0, 1), run(1, 1)], vec![run(3, 1)])),
        512,
        2000,
    )
    .unwrap();
    assert_eq!(loaded.index().dirty_runs, [run(0, 2)]);
    assert_eq!(loaded.index().zero_runs, [run(3, 1)]);
    assert_eq!(loaded.index().version, 1);
    let empty = load_live_overlay(Some("index"), None, 512, 2000).unwrap();
    assert!(empty.index().dirty_runs.is_empty());
    let bad = index(7, vec![], vec![]);
    assert!(load_live_overlay(None, Some(&bad), 512, 2000).is_ok());
    // The block size is only looked at where there is an index to read.
    assert!(load_live_overlay(None, None, 0, 2000).is_ok());
    assert!(load_live_overlay(Some("index"), None, 0, 2000).is_ok());
    let error = load_live_overlay(Some("index"), Some(&bad), 0, 2000)
        .err()
        .unwrap();
    assert_eq!(
        error.message.unwrap(),
        "unsupported Tensorlake live overlay index version 7, expected 1"
    );
}

#[test]
fn live_file_of_a_readonly_disk_must_be_long_enough() {
    let files = make_files();
    files.put("/disks/live.img", vec![0; 100]);
    let error = Rig::open(&files, &spec_path(), make_spec(), true)
        .err()
        .unwrap();
    assert_eq!(
        error.message.unwrap(),
        "file length 100 is smaller than required length 2048"
    );
    assert_eq!(error.path.unwrap(), "/disks/live.img");
    assert_eq!(files.len("/disks/live.img"), 100);
}

#[test]
fn geometry_and_resizing() {
    let (files, _) = make_disk();
    let spec = TensorlakeRootfsSpec {
        block_size: 1024,
        layers: vec![],
        ..make_spec()
    };
    let base = TensorlakeRootfsDisk::open(&spec_path(), spec, false).ok().unwrap();
    let layers = base.opened(files.len("/disks/base.img")).ok().unwrap();
    let live = match layers.next() {
        AfterLayers::Live(live) => live,
        AfterLayers::Layer(_) => panic!("no layer was given"),
    };
    let (mut disk, _live) = live.opened(2048).ok().unwrap().loaded(None).unwrap();
    assert_eq!(
        disk.topology(),
        DiskTopology {
            logical_block_size: 512,
            physical_block_size: 1024,
            minimum_io_size: 512,
            optimal_io_size: 1024,
        }
    );
    assert!(disk.supports_sparse_operations());
    assert!(disk.supports_zero_flag());
    assert!(disk.resize(2048).is_ok());
    let error = disk.resize(4096).unwrap_err();
    assert_eq!(error.kind, BlockErrorKind::UnsupportedFeature);
    assert_eq!(
        error.message.unwrap(),
        "Tensorlake rootfs disk resize is not supported"
    );
    assert_eq!(disk.logical_size(), 2048);
    assert_eq!(
        disk.physical_size(u64::MAX - 1, 1, &vec![5, 6]),
        u64::MAX
    );
    assert_eq!(disk.physical_size(1, 2, &vec![5, 6]), 14);
    assert_eq!(allocated_size(3), 1536);
    assert_eq!(allocated_size(u64::MAX / 2), u64::MAX);
}

#[test]
fn completions_come_in_order() {
    let mut io: TensorlakeRootfsSyncIo<u8> = TensorlakeRootfsSyncIo::new();
    assert_eq!(io.alignment(), 512);
    io.complete(1, 100, 7);
    io.complete_request(2);
    io.complete(3, 1 << 32, 8);
    let first = io.next_completed_request().unwrap();
    assert_eq!((first.user_data, first.result, first.buffer), (1, 100, Some(7)));
    let second = io.next_completed_request().unwrap();
    assert_eq!((second.user_data, second.result, second.buffer), (2, 0, None));
    let third = io.next_completed_request().unwrap();
    assert_eq!((third.user_data, third.result, third.buffer), (3, 0, Some(8)));
    assert!(io.next_completed_request().is_none());
}
