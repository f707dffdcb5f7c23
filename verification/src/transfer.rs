use vstd::prelude::*;

use crate::file::{
    join_path, file_name_of, spec_join, spec_file_name, EntryKind, FileEntry,
};
use crate::utils::ErrorKind;
use std::collections::VecDeque;

verus! {

/// Which way a transfer moves data: from the local namespace to the
/// remote one, or back.
#[derive(Clone, Copy)]
pub enum Direction {
    Upload,
    Download,
}

/// The FIFO work list of one recursive transfer: each job pairs a source
/// entry with the directory it is to land in.
pub struct TransferQueue<E> {
    jobs: VecDeque<(E, String)>,
}

impl<E: FileEntry> TransferQueue<E> {
    /// The queued jobs, next first.
    pub closed spec fn spec_jobs(&self) -> Seq<(E, String)> {
        self.jobs@
    }

    /// A queue seeded with the one top-level job: transfer `source` into
    /// `dest_dir`.
    pub fn new_transfer(source: E, dest_dir: String) -> (q: TransferQueue<E>)
        ensures
            q.spec_jobs().len() == 1,
            q.spec_jobs()[0].0 == source,
            q.spec_jobs()[0].1 == dest_dir,
    {
        let mut jobs: VecDeque<(E, String)> = VecDeque::new();
        jobs.push_back((source, dest_dir));
        TransferQueue { jobs }
    }

    /// Return `true` if no job is left.
    pub fn is_empty(&self) -> (r: bool)
        ensures
            r == (self.spec_jobs().len() == 0),
    {
        self.jobs.len() == 0
    }

    /// Take the next job off the front of the queue.
    pub fn next_job(&mut self) -> (r: Option<(E, String)>)
        ensures
            match r {
                Option::Some(job) => old(self).spec_jobs().len() > 0 && job == old(
                    self,
                ).spec_jobs()[0] && final(self).spec_jobs() == old(self).spec_jobs().drop_first(),
                Option::None => old(self).spec_jobs().len() == 0 && final(self).spec_jobs() == old(
                    self,
                ).spec_jobs(),
            },
    {
        let r = self.jobs.pop_front();
        proof {
            if old(self).jobs@.len() > 0 {
                assert(self.jobs@ =~= old(self).jobs@.drop_first());
            }
        }
        r
    }

    /// Append one job per child of a directory just entered, each bound
    /// for the new destination subdirectory; the jobs already queued stay
    /// in place, so the traversal is breadth-first.
    pub fn enqueue_children(&mut self, children: Vec<E>, dest_dir: &str)
        ensures
            final(self).spec_jobs().len() == old(self).spec_jobs().len() + children@.len(),
            forall|t: int|
                0 <= t < old(self).spec_jobs().len() ==> final(self).spec_jobs()[t] == old(
                    self,
                ).spec_jobs()[t],
            forall|t: int|
                0 <= t < children@.len() ==> (#[trigger] final(self).spec_jobs()[old(
                    self,
                ).spec_jobs().len() + t]).0 == children@[t] && final(self).spec_jobs()[old(
                    self,
                ).spec_jobs().len() + t].1@ == dest_dir@,
    {
        let ghost base = self.jobs@;
        let ghost kids = children@;
        let mut rest = children;
        let ghost mut done: int = 0;
        while rest.len() > 0
            invariant
                0 <= done <= kids.len(),
                rest@ =~= kids.skip(done),
                self.jobs@.len() == base.len() + done,
                forall|t: int| 0 <= t < base.len() ==> self.jobs@[t] == base[t],
                forall|t: int|
                    0 <= t < done ==> (#[trigger] self.jobs@[base.len() + t]).0 == kids[t]
                        && self.jobs@[base.len() + t].1@ == dest_dir@,
            decreases rest@.len(),
        {
            let c = rest.remove(0);
            proof {
                assert(kids.skip(done)[0] == kids[done]);
                assert(rest@ =~= kids.skip(done).drop_first());
                assert(kids.skip(done).drop_first() =~= kids.skip(done + 1));
            }
            self.jobs.push_back((c, dest_dir.to_owned()));
            proof {
                done = done + 1;
            }
        }
        proof {
            assert(done == kids.len());
        }
    }
}

/// What the engine decides to do with one job, before any check against
/// the destination.
pub enum JobPlan {
    TransferFile { dest_path: String, size: u64 },
    EnterDirectory { dest_path: String },
    SkipSymlink { path: String },
    RefuseParent { path: String },
}

/// Decide what one job asks for.  A file or directory source is bound
/// for `dest_dir` slash its file name; a symlink is skipped with a
/// warning; the parent marker is refused outright.
pub fn plan_job<E: FileEntry>(source: &E, dest_dir: &str) -> (p: JobPlan)
    requires
        (source.spec_kind() == EntryKind::File || source.spec_kind() == EntryKind::Directory)
            ==> spec_file_name(source.spec_path()) is Some,
        source.spec_kind() == EntryKind::File ==> source.spec_size() is Some,
    ensures
        match p {
            JobPlan::TransferFile { dest_path, size } => {
                &&& source.spec_kind() == EntryKind::File
                &&& source.spec_size() == Option::Some(size)
                &&& dest_path@ == spec_join(dest_dir@, spec_file_name(source.spec_path()).unwrap())
            },
            JobPlan::EnterDirectory { dest_path } => {
                &&& source.spec_kind() == EntryKind::Directory
                &&& dest_path@ == spec_join(dest_dir@, spec_file_name(source.spec_path()).unwrap())
            },
            JobPlan::SkipSymlink { path } => source.spec_kind() == EntryKind::Symlink && path@
                == source.spec_path(),
            JobPlan::RefuseParent { path } => source.spec_kind() == EntryKind::Parent && path@
                == source.spec_path(),
        },
{
    if source.is_parent() {
        JobPlan::RefuseParent { path: source.path().to_owned() }
    } else if source.is_symlink() {
        JobPlan::SkipSymlink { path: source.path().to_owned() }
    } else {
        let name = match file_name_of(source.path()) {
            Option::Some(name) => name,
            Option::None => vstd::pervasive::unreached(),
        };
        let dest_path = join_path(dest_dir, name.as_str());
        if source.is_file() {
            let size = match source.len() {
                Option::Some(size) => size,
                Option::None => vstd::pervasive::unreached(),
            };
            JobPlan::TransferFile { dest_path, size }
        } else {
            JobPlan::EnterDirectory { dest_path }
        }
    }
}

/// Settle the collision check on a transfer target: a destination path
/// that already exists fails the whole job with the destination
/// namespace's "exists" error, and nothing is written; otherwise the job
/// may proceed.
pub fn collision_outcome(direction: Direction, dest_path: &str, dest_exists: bool) -> (r: Result<
    (),
    ErrorKind,
>)
    ensures
        r is Ok <==> !dest_exists,
        dest_exists ==> match direction {
            Direction::Upload => r matches Err(ErrorKind::RemoteFileExists(p)) && p@ == dest_path@,
            Direction::Download => r matches Err(ErrorKind::LocalFileExists(p)) && p@ == dest_path@,
        },
{
    if dest_exists {
        match direction {
            Direction::Upload => Result::Err(ErrorKind::RemoteFileExists(dest_path.to_owned())),
            Direction::Download => Result::Err(ErrorKind::LocalFileExists(dest_path.to_owned())),
        }
    } else {
        Result::Ok(())
    }
}

/// The error that refusing to transfer a parent marker reports, for the
/// given direction.
pub fn refuse_parent_error(direction: Direction, path: &str) -> (e: ErrorKind)
    ensures
        match direction {
            Direction::Upload => e matches ErrorKind::CannotUploadParent(p) && p@ == path@,
            Direction::Download => e matches ErrorKind::CannotDownloadParent(p) && p@ == path@,
        },
{
    match direction {
        Direction::Upload => ErrorKind::CannotUploadParent(path.to_owned()),
        Direction::Download => ErrorKind::CannotDownloadParent(path.to_owned()),
    }
}

} // verus!
