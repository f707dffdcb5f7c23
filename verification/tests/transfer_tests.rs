use rftp::file::{FileEntry, LocalFileEntry};
use rftp::progress::{ProgressDirectory, ProgressFile};
use rftp::transfer::{collision_outcome, plan_job, refuse_parent_error, Direction, JobPlan, TransferQueue};
use rftp::utils::ErrorKind;
use std::collections::HashMap;
use std::collections::HashSet;

#[test]
fn test_collision_is_refused() {
    // A destination that already holds the name fails with the "exists"
    // error of the destination namespace, and nothing is written.
    let r = collision_outcome(Direction::Upload, "home/tree", true);
    match r {
        Err(ErrorKind::RemoteFileExists(p)) => assert_eq!(p, "home/tree".to_string()),
        _ => panic!("expected the remote exists error"),
    }
    let r = collision_outcome(Direction::Download, "/tmp/tree", true);
    match r {
        Err(ErrorKind::LocalFileExists(p)) => assert_eq!(p, "/tmp/tree".to_string()),
        _ => panic!("expected the local exists error"),
    }
    assert!(collision_outcome(Direction::Upload, "home/new", false).is_ok());
}

#[test]
fn test_parent_marker_is_refused() {
    let e = refuse_parent_error(Direction::Upload, "/a/b");
    assert!(matches!(e, ErrorKind::CannotUploadParent(p) if p == "/a/b"));
    let e = refuse_parent_error(Direction::Download, "home");
    assert!(matches!(e, ErrorKind::CannotDownloadParent(p) if p == "home"));
    let marker = LocalFileEntry::Parent("/a".to_string());
    assert!(matches!(plan_job(&marker, "home"), JobPlan::RefuseParent { path } if path == "/a"));
}

#[test]
fn test_symlink_is_skipped() {
    let link = LocalFileEntry::Symlink("/d/link".to_string());
    assert!(matches!(plan_job(&link, "home"), JobPlan::SkipSymlink { path } if path == "/d/link"));
}

#[test]
fn test_plan_paths() {
    let f = LocalFileEntry::File("/d/a.txt".to_string(), 5);
    match plan_job(&f, "home/files") {
        JobPlan::TransferFile { dest_path, size } => {
            assert_eq!(dest_path, "home/files/a.txt".to_string());
            assert_eq!(size, 5);
        }
        _ => panic!("expected a file plan"),
    }
    let d = LocalFileEntry::Directory("/d/sub".to_string());
    match plan_job(&d, "home/files") {
        JobPlan::EnterDirectory { dest_path } => {
            assert_eq!(dest_path, "home/files/sub".to_string());
        }
        _ => panic!("expected a directory plan"),
    }
}

/// One simulated namespace: file contents by path, plus a set of
/// directories.
struct FakeTree {
    files: HashMap<String, Vec<u8>>,
    dirs: HashSet<String>,
}

impl FakeTree {
    fn new() -> Self {
        FakeTree { files: HashMap::new(), dirs: HashSet::new() }
    }

    fn holds(&self, path: &str) -> bool {
        self.files.contains_key(path) || self.dirs.contains(path)
    }

    fn children_of(&self, dir: &str) -> Vec<LocalFileEntry> {
        let mut out = Vec::new();
        let prefix = format!("{}/", dir);
        for (p, content) in &self.files {
            if p.starts_with(&prefix) && !p[prefix.len()..].contains('/') {
                out.push(LocalFileEntry::File(p.clone(), content.len() as u64));
            }
        }
        for p in &self.dirs {
            if p.starts_with(&prefix) && !p[prefix.len()..].contains('/') {
                out.push(LocalFileEntry::Directory(p.clone()));
            }
        }
        out
    }
}

/// Drive the verified engine over a simulated source and destination,
/// the way a transfer worker does, and report any engine error.
fn run_transfer(
    source: LocalFileEntry,
    dest_dir: &str,
    src_tree: &FakeTree,
    dst_tree: &mut FakeTree,
    meters: &mut Vec<ProgressFile>,
    aggregate: &mut ProgressDirectory,
) -> Result<(), ErrorKind> {
    let mut queue = TransferQueue::new_transfer(source, dest_dir.to_string());
    let result = loop {
        let (src, dest) = match queue.next_job() {
            Some(job) => job,
            None => break Ok(()),
        };
        match plan_job(&src, &dest) {
            JobPlan::TransferFile { dest_path, size } => {
                if let Err(e) = collision_outcome(Direction::Upload, &dest_path, dst_tree.holds(&dest_path)) {
                    break Err(e);
                }
                let content = src_tree.files.get(src.path()).unwrap().clone();
                let mut meter = ProgressFile::new(&dest_path, size, 0);
                meter.inc(1, content.len() as u64);
                dst_tree.files.insert(dest_path, content);
                meter.finish();
                meters.push(meter);
                aggregate.inc(size);
            }
            JobPlan::EnterDirectory { dest_path } => {
                if let Err(e) = collision_outcome(Direction::Upload, &dest_path, dst_tree.holds(&dest_path)) {
                    break Err(e);
                }
                dst_tree.dirs.insert(dest_path.clone());
                queue.enqueue_children(src_tree.children_of(src.path()), &dest_path);
            }
            JobPlan::SkipSymlink { path: _ } => {}
            JobPlan::RefuseParent { path } => {
                break Err(refuse_parent_error(Direction::Upload, &path));
            }
        }
    };
    aggregate.finish();
    result
}

#[test]
fn test_recursive_transfer() {
    // A directory holding one file and one subdirectory with one file
    // arrives at the destination with the same two-level structure and
    // byte-identical contents, and no aggregate meter is left
    // unfinished.
    let mut src = FakeTree::new();
    src.dirs.insert("tree".to_string());
    src.files.insert("tree/a.txt".to_string(), b"alpha".to_vec());
    src.dirs.insert("tree/sub".to_string());
    src.files.insert("tree/sub/b.txt".to_string(), b"beta".to_vec());

    let mut dst = FakeTree::new();
    let mut meters = Vec::new();
    let mut aggregate = ProgressDirectory::new("tree");
    let r = run_transfer(
        LocalFileEntry::Directory("tree".to_string()),
        "home",
        &src,
        &mut dst,
        &mut meters,
        &mut aggregate,
    );
    assert!(r.is_ok());
    assert!(dst.dirs.contains("home/tree"));
    assert!(dst.dirs.contains("home/tree/sub"));
    assert_eq!(dst.files.get("home/tree/a.txt").unwrap(), b"alpha");
    assert_eq!(dst.files.get("home/tree/sub/b.txt").unwrap(), b"beta");
    assert_eq!(dst.files.len(), 2);
    assert!(aggregate.is_finished());
    assert_eq!(aggregate.get_files_sent(), 2);
    assert_eq!(aggregate.get_bytes_sent(), 9);
    for m in &meters {
        assert!(m.is_finished());
    }
}

#[test]
fn test_transfer_into_occupied_destination() {
    // The destination already holds an entry named like the source: the
    // whole job fails with the "exists" error and nothing is written.
    let mut src = FakeTree::new();
    src.dirs.insert("tree".to_string());
    src.files.insert("tree/a.txt".to_string(), b"alpha".to_vec());

    let mut dst = FakeTree::new();
    dst.dirs.insert("home/tree".to_string());
    let files_before = dst.files.len();
    let mut meters = Vec::new();
    let mut aggregate = ProgressDirectory::new("tree");
    let r = run_transfer(
        LocalFileEntry::Directory("tree".to_string()),
        "home",
        &src,
        &mut dst,
        &mut meters,
        &mut aggregate,
    );
    assert!(matches!(r, Err(ErrorKind::RemoteFileExists(p)) if p == "home/tree"));
    assert_eq!(dst.files.len(), files_before);
    assert!(aggregate.is_finished());
}

#[test]
fn test_queue_is_fifo() {
    let mut q = TransferQueue::new_transfer(
        LocalFileEntry::File("/d/first".to_string(), 1),
        "home".to_string(),
    );
    q.enqueue_children(
        vec![
            LocalFileEntry::File("/d/second".to_string(), 2),
            LocalFileEntry::File("/d/third".to_string(), 3),
        ],
        "home/sub",
    );
    let (a, da) = q.next_job().unwrap();
    assert_eq!(a.path(), "/d/first");
    assert_eq!(da, "home".to_string());
    let (b, db) = q.next_job().unwrap();
    assert_eq!(b.path(), "/d/second");
    assert_eq!(db, "home/sub".to_string());
    let (c, _) = q.next_job().unwrap();
    assert_eq!(c.path(), "/d/third");
    assert!(q.next_job().is_none());
    assert!(q.is_empty());
}
