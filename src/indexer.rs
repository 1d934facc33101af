use vstd::prelude::*;
use crate::digest::{hash_bytes, is_digest_text, sha256_hex};

verus! {

/// What a directory entry is, as seen without following it.
#[derive(Debug)]
pub enum EntryKind {
    File,
    Directory,
    SymlinkToFile,
    SymlinkToDirectory,
    Other,
}

/// One entry of a directory listing.
#[derive(Debug)]
pub struct DirEntry {
    pub path: String,
    pub kind: EntryKind,
}

/// What the caller found at the root path before the run.
#[derive(Debug)]
pub enum RootStatus {
    Missing,
    NotADirectory,
    Directory,
}

/// Why a run could not start.
#[derive(Debug, PartialEq, Eq, Structural)]
pub enum IndexError {
    PathNotFound,
    NotADirectory,
}

/// Why a file was left out of the catalog.
#[derive(Debug, PartialEq, Eq, Structural, Clone, Copy)]
pub enum SkipReason {
    Unreadable,
    InsertFailed,
}

/// A file left out of the catalog, and why.
#[derive(Debug)]
pub struct Skipped {
    pub path: String,
    pub reason: SkipReason,
}

/// What the run asks its caller to do next.
#[derive(Debug)]
pub enum Action {
    /// List the entries of this directory and report `Listed` or `ListFailed`.
    ListDirectory(String),
    /// Read this file's bytes and report `FileRead` or `FileFailed`.
    ReadFile(String),
    /// Insert the record (path, hash) and report `Inserted` or `InsertFailed`.
    Insert(String, String),
    /// Nothing is left to do.
    Finished,
}

/// The outcome of the last action, as the caller reports it.
#[derive(Debug)]
pub enum Event {
    Listed(Vec<DirEntry>),
    ListFailed,
    FileRead(Vec<u8>),
    FileFailed,
    Inserted(i64),
    InsertFailed,
}

/// Which outcome the run waits for.
#[derive(Debug)]
pub enum Phase {
    /// The listing of this directory.
    Listing(String),
    /// The bytes of the current file.
    Reading,
    /// The insertion of the current file, whose digest this is.
    Inserting(String),
    /// None: the run is over.
    Done,
}

/// Regular files, and links to them, are indexed.
pub open spec fn is_indexed_kind(k: EntryKind) -> bool {
    k is File || k is SymlinkToFile
}

/// Only real directories are descended into: a link to a directory is never
/// followed, so a link back to an ancestor cannot make the walk go round.
pub open spec fn is_descended_kind(k: EntryKind) -> bool {
    k is Directory
}

/// The paths of the entries of a listing that are indexed, in listing order.
pub open spec fn file_paths(entries: Seq<DirEntry>) -> Seq<String>
    decreases entries.len(),
{
    if entries.len() == 0 {
        Seq::empty()
    } else {
        let rest = file_paths(entries.drop_last());
        if is_indexed_kind(entries.last().kind) {
            rest.push(entries.last().path)
        } else {
            rest
        }
    }
}

/// The paths of the entries of a listing that are descended into, in listing order.
pub open spec fn subdirectory_paths(entries: Seq<DirEntry>) -> Seq<String>
    decreases entries.len(),
{
    if entries.len() == 0 {
        Seq::empty()
    } else {
        let rest = subdirectory_paths(entries.drop_last());
        if is_descended_kind(entries.last().kind) {
            rest.push(entries.last().path)
        } else {
            rest
        }
    }
}

/// The state of a run, as plain values.
pub struct RunView {
    /// Directories still to be listed; the last one is listed first.
    pub dirs: Seq<String>,
    /// The indexed files of the latest listing.
    pub files: Seq<String>,
    /// Position in `files` of the file being worked on.
    pub next: int,
    pub phase: Phase,
    /// The identifiers the store gave to the records inserted so far.
    pub inserted: Seq<i64>,
    pub skipped_files: Seq<Skipped>,
    pub skipped_dirs: Seq<String>,
    /// Every file found so far, in the order found.
    pub discovered: Seq<String>,
    /// The files found so far whose work is over, inserted or skipped.
    pub done: Seq<String>,
}

impl RunView {
    /// A run over `root` that has listed nothing yet.
    pub open spec fn fresh(root: String) -> RunView {
        RunView {
            dirs: Seq::empty(),
            files: Seq::empty(),
            next: 0,
            phase: Phase::Listing(root),
            inserted: Seq::empty(),
            skipped_files: Seq::empty(),
            skipped_dirs: Seq::empty(),
            discovered: Seq::empty(),
            done: Seq::empty(),
        }
    }

    /// Every file found is done or still waits in the latest listing, each
    /// done file was inserted or skipped, and the phase fits the position.
    pub open spec fn wf(self) -> bool {
        &&& 0 <= self.next <= self.files.len()
        &&& self.discovered == self.done + self.files.skip(self.next)
        &&& self.done.len() == self.inserted.len() + self.skipped_files.len()
        &&& forall|i: int| 0 <= i < self.skipped_files.len() ==> self.done.contains(#[trigger] self.skipped_files[i].path)
        &&& match self.phase {
            Phase::Listing(_) => self.next == self.files.len(),
            Phase::Reading => self.next < self.files.len(),
            Phase::Inserting(h) => self.next < self.files.len() && is_digest_text(h@),
            Phase::Done => self.next == self.files.len() && self.dirs.len() == 0,
        }
    }

    /// The action that the run waits to hear the outcome of.
    pub open spec fn awaited(self) -> Action {
        match self.phase {
            Phase::Listing(d) => Action::ListDirectory(d),
            Phase::Reading => Action::ReadFile(self.files[self.next]),
            Phase::Inserting(h) => Action::Insert(self.files[self.next], h),
            Phase::Done => Action::Finished,
        }
    }

    /// The file being worked on is over: inserted under the identifier that
    /// `outcome` holds, or, where it holds none, skipped for `reason`.
    pub open spec fn concluded(self, outcome: Option<i64>, reason: SkipReason) -> RunView {
        let path = self.files[self.next];
        RunView {
            next: self.next + 1,
            done: self.done.push(path),
            inserted: match outcome {
                Some(id) => self.inserted.push(id),
                None => self.inserted,
            },
            skipped_files: match outcome {
                Some(_) => self.skipped_files,
                None => self.skipped_files.push(Skipped { path, reason }),
            },
            ..self
        }
    }

    /// A listing of `entries` has come in.
    pub open spec fn listed(self, entries: Seq<DirEntry>) -> RunView {
        RunView {
            files: file_paths(entries),
            next: 0,
            dirs: self.dirs + subdirectory_paths(entries),
            discovered: self.discovered + file_paths(entries),
            ..self
        }
    }

    /// From `self`, the run takes up the next file of the latest listing, else
    /// the last directory of the worklist, else it is done; nothing else changes.
    pub open spec fn moved_on(self, post: RunView) -> bool {
        if self.next < self.files.len() {
            post == (RunView { phase: Phase::Reading, ..self })
        } else if self.dirs.len() > 0 {
            post == (RunView {
                dirs: self.dirs.drop_last(),
                phase: Phase::Listing(self.dirs.last()),
                ..self
            })
        } else {
            post == (RunView { phase: Phase::Done, ..self })
        }
    }

    /// How one event changes the run. An event that does not answer the
    /// awaited action changes nothing.
    pub open spec fn transition(self, e: Event, post: RunView) -> bool {
        match self.phase {
            Phase::Listing(d) => match e {
                Event::Listed(entries) => self.listed(entries@).moved_on(post),
                Event::ListFailed => (RunView {
                    skipped_dirs: self.skipped_dirs.push(d),
                    ..self
                }).moved_on(post),
                _ => post == self,
            },
            Phase::Reading => match e {
                Event::FileRead(bytes) => {
                    &&& post.phase matches Phase::Inserting(h) && h@ == sha256_hex(bytes@) && is_digest_text(h@)
                    &&& post == (RunView { phase: post.phase, ..self })
                },
                Event::FileFailed => self.concluded(None, SkipReason::Unreadable).moved_on(post),
                _ => post == self,
            },
            Phase::Inserting(_) => match e {
                Event::Inserted(id) => self.concluded(Some(id), SkipReason::InsertFailed).moved_on(post),
                Event::InsertFailed => self.concluded(None, SkipReason::InsertFailed).moved_on(post),
                _ => post == self,
            },
            Phase::Done => post == self,
        }
    }
}

/// One indexing run over a directory tree.
///
/// The run decides; its caller does the work. Each call of [`IndexRun::step`]
/// takes the outcome of the action last returned and gives the next action.
/// Directories wait on a worklist, so the walk needs no recursion, and the
/// files of one listing are hashed and inserted before the next directory is
/// listed. A file that cannot be read or inserted, or a directory that cannot
/// be listed, is recorded as skipped and the run goes on.
pub struct IndexRun {
    dirs: Vec<String>,
    files: Vec<String>,
    next: usize,
    phase: Phase,
    inserted: Vec<i64>,
    skipped_files: Vec<Skipped>,
    skipped_dirs: Vec<String>,
    discovered: Ghost<Seq<String>>,
    done: Ghost<Seq<String>>,
}

impl View for IndexRun {
    type V = RunView;

    closed spec fn view(&self) -> RunView {
        RunView {
            dirs: self.dirs@,
            files: self.files@,
            next: self.next as int,
            phase: self.phase,
            inserted: self.inserted@,
            skipped_files: self.skipped_files@,
            skipped_dirs: self.skipped_dirs@,
            discovered: self.discovered@,
            done: self.done@,
        }
    }
}

impl IndexRun {
    /// Starts a run over `root`, given what the caller found there. A missing
    /// root or one that is no directory is refused before anything is listed.
    pub fn start(root: String, status: RootStatus) -> (r: Result<(IndexRun, Action), IndexError>)
        ensures
            status is Missing <==> r == Err::<(IndexRun, Action), IndexError>(IndexError::PathNotFound),
            status is NotADirectory <==> r == Err::<(IndexRun, Action), IndexError>(IndexError::NotADirectory),
            status is Directory <==> r is Ok,
            r matches Ok((run, a)) ==> {
                &&& run@.wf()
                &&& run@ == RunView::fresh(root)
                &&& a == run@.awaited()
                &&& a == Action::ListDirectory(root)
            },
    {
        match status {
            RootStatus::Missing => Err(IndexError::PathNotFound),
            RootStatus::NotADirectory => Err(IndexError::NotADirectory),
            RootStatus::Directory => {
                let run = IndexRun {
                    dirs: Vec::new(),
                    files: Vec::new(),
                    next: 0,
                    phase: Phase::Listing(root.clone()),
                    inserted: Vec::new(),
                    skipped_files: Vec::new(),
                    skipped_dirs: Vec::new(),
                    discovered: Ghost(Seq::empty()),
                    done: Ghost(Seq::empty()),
                };
                proof {
                    assert(run@.discovered =~= run@.done + run@.files.skip(0));
                }
                Ok((run, Action::ListDirectory(root)))
            },
        }
    }

    /// The action whose outcome the run waits for.
    pub fn awaited(&self) -> (a: Action)
        requires
            self@.wf(),
        ensures
            a == self@.awaited(),
    {
        match &self.phase {
            Phase::Listing(d) => Action::ListDirectory(d.clone()),
            Phase::Reading => Action::ReadFile(self.files[self.next].clone()),
            Phase::Inserting(h) => Action::Insert(self.files[self.next].clone(), h.clone()),
            Phase::Done => Action::Finished,
        }
    }

    /// Takes up the next file of the latest listing, else the last directory of
    /// the worklist, else ends the run.
    fn move_on(&mut self) -> (a: Action)
        requires
            0 <= old(self)@.next <= old(self)@.files.len(),
            old(self)@.discovered == old(self)@.done + old(self)@.files.skip(old(self)@.next),
            old(self)@.done.len() == old(self)@.inserted.len() + old(self)@.skipped_files.len(),
            forall|i: int| 0 <= i < old(self)@.skipped_files.len() ==> old(self)@.done.contains(#[trigger] old(self)@.skipped_files[i].path),
        ensures
            old(self)@.moved_on(final(self)@),
            final(self)@.wf(),
            a == final(self)@.awaited(),
    {
        if self.next < self.files.len() {
            self.phase = Phase::Reading;
            Action::ReadFile(self.files[self.next].clone())
        } else if self.dirs.len() > 0 {
            let d = self.dirs.pop().unwrap();
            self.phase = Phase::Listing(d.clone());
            Action::ListDirectory(d)
        } else {
            self.phase = Phase::Done;
            Action::Finished
        }
    }

    /// Ends the work on the current file: inserted under `outcome`'s
    /// identifier, or skipped for `reason`.
    fn conclude(&mut self, outcome: Option<i64>, reason: SkipReason)
        requires
            old(self)@.wf(),
            old(self)@.phase is Reading || old(self)@.phase is Inserting,
        ensures
            final(self)@ == old(self)@.concluded(outcome, reason),
            0 <= final(self)@.next <= final(self)@.files.len(),
            final(self)@.discovered == final(self)@.done + final(self)@.files.skip(final(self)@.next),
            final(self)@.done.len() == final(self)@.inserted.len() + final(self)@.skipped_files.len(),
            forall|i: int| 0 <= i < final(self)@.skipped_files.len() ==> final(self)@.done.contains(#[trigger] final(self)@.skipped_files[i].path),
    {
        let ghost pre = self@;
        assert(self.next < self.files.len());
        let path = self.files[self.next].clone();
        match outcome {
            Some(id) => self.inserted.push(id),
            None => self.skipped_files.push(Skipped { path, reason }),
        }
        proof {
            self.done@ = self.done@.push(pre.files[pre.next]);
        }
        self.next = self.next + 1;
        proof {
            assert(pre.files.skip(pre.next) =~= seq![pre.files[pre.next]] + pre.files.skip(pre.next + 1));
            assert(self@.discovered =~= self@.done + self@.files.skip(self@.next));
            assert forall|i: int| 0 <= i < self@.skipped_files.len() implies self@.done.contains(#[trigger] self@.skipped_files[i].path) by {
                if i < pre.skipped_files.len() {
                    assert(pre.done.contains(pre.skipped_files[i].path));
                    let k = choose|k: int| 0 <= k < pre.done.len() && pre.done[k] == pre.skipped_files[i].path;
                    assert(self@.done[k] == pre.done[k]);
                } else {
                    assert(self@.done[pre.done.len() as int] == pre.files[pre.next]);
                }
            }
        }
    }

    /// Takes in a listing: its files become the files to work on and its
    /// directories join the worklist.
    fn take_listing(&mut self, entries: Vec<DirEntry>)
        requires
            old(self)@.wf(),
            old(self)@.phase is Listing,
        ensures
            final(self)@ == old(self)@.listed(entries@),
            0 <= final(self)@.next <= final(self)@.files.len(),
            final(self)@.discovered == final(self)@.done + final(self)@.files.skip(final(self)@.next),
            final(self)@.done.len() == final(self)@.inserted.len() + final(self)@.skipped_files.len(),
            forall|i: int| 0 <= i < final(self)@.skipped_files.len() ==> final(self)@.done.contains(#[trigger] final(self)@.skipped_files[i].path),
    {
        let ghost pre = self@;
        let mut files: Vec<String> = Vec::new();
        let mut i: usize = 0;
        while i < entries.len()
            invariant
                i <= entries@.len(),
                files@ == file_paths(entries@.take(i as int)),
                self@.dirs == pre.dirs + subdirectory_paths(entries@.take(i as int)),
                self@.files == pre.files,
                self@.next == pre.next,
                self@.phase == pre.phase,
                self@.inserted == pre.inserted,
                self@.skipped_files == pre.skipped_files,
                self@.skipped_dirs == pre.skipped_dirs,
                self@.discovered == pre.discovered,
                self@.done == pre.done,
            decreases entries.len() - i,
        {
            proof {
                assert(entries@.take(i + 1).drop_last() =~= entries@.take(i as int));
            }
            let e = &entries[i];
            match e.kind {
                EntryKind::File | EntryKind::SymlinkToFile => files.push(e.path.clone()),
                EntryKind::Directory => self.dirs.push(e.path.clone()),
                _ => {},
            }
            proof {
                assert(self@.dirs =~= pre.dirs + subdirectory_paths(entries@.take(i + 1)));
            }
            i = i + 1;
        }
        proof {
            assert(entries@.take(entries@.len() as int) =~= entries@);
        }
        self.files = files;
        self.next = 0;
        proof {
            self.discovered@ = pre.discovered + self.files@;
            assert(pre.files.skip(pre.next) =~= Seq::<String>::empty());
            assert(pre.discovered =~= pre.done);
            assert(self@.files.skip(0) =~= self@.files);
        }
    }

    /// Takes the outcome of the action last returned and gives the next action.
    pub fn step(&mut self, e: Event) -> (a: Action)
        requires
            old(self)@.wf(),
        ensures
            final(self)@.wf(),
            old(self)@.transition(e, final(self)@),
            a == final(self)@.awaited(),
    {
        match (&self.phase, e) {
            (Phase::Listing(_), Event::Listed(entries)) => {
                self.take_listing(entries);
                self.move_on()
            },
            (Phase::Listing(d), Event::ListFailed) => {
                let d = d.clone();
                self.skipped_dirs.push(d);
                self.move_on()
            },
            (Phase::Reading, Event::FileRead(bytes)) => {
                let h = hash_bytes(&bytes);
                self.phase = Phase::Inserting(h.clone());
                Action::Insert(self.files[self.next].clone(), h)
            },
            (Phase::Reading, Event::FileFailed) => {
                self.conclude(None, SkipReason::Unreadable);
                self.move_on()
            },
            (Phase::Inserting(_), Event::Inserted(id)) => {
                self.conclude(Some(id), SkipReason::InsertFailed);
                self.move_on()
            },
            (Phase::Inserting(_), Event::InsertFailed) => {
                self.conclude(None, SkipReason::InsertFailed);
                self.move_on()
            },
            _ => self.awaited(),
        }
    }

    /// Whether the run is over.
    pub fn is_finished(&self) -> (r: bool)
        ensures
            r == (self@.phase is Done),
    {
        match self.phase {
            Phase::Done => true,
            _ => false,
        }
    }

    /// How many records were inserted so far.
    pub fn indexed_count(&self) -> (r: usize)
        ensures
            r == self@.inserted.len(),
    {
        self.inserted.len()
    }

    /// The identifiers the store gave to the records inserted so far.
    pub fn inserted_ids(&self) -> (r: &Vec<i64>)
        ensures
            r@ == self@.inserted,
    {
        &self.inserted
    }

    /// The files left out so far, and why.
    pub fn skipped_files(&self) -> (r: &Vec<Skipped>)
        ensures
            r@ == self@.skipped_files,
    {
        &self.skipped_files
    }

    /// The directories that could not be listed.
    pub fn skipped_dirs(&self) -> (r: &Vec<String>)
        ensures
            r@ == self@.skipped_dirs,
    {
        &self.skipped_dirs
    }
}

/// When a run is over, every file it found was either inserted or skipped,
/// exactly once: the inserted records and the skipped files add up to the
/// files found.
pub proof fn lemma_finished_run_accounts_for_every_file(v: RunView)
    requires
        v.wf(),
        v.phase is Done,
    ensures
        v.done == v.discovered,
        v.inserted.len() + v.skipped_files.len() == v.discovered.len(),
{
    assert(v.files.skip(v.next) =~= Seq::<String>::empty());
    assert(v.discovered =~= v.done);
}

/// A run that is over and skipped no file inserted one record for each file
/// it found.
pub proof fn lemma_clean_run_indexes_every_file(v: RunView)
    requires
        v.wf(),
        v.phase is Done,
        v.skipped_files.len() == 0,
    ensures
        v.inserted.len() == v.discovered.len(),
{
    lemma_finished_run_accounts_for_every_file(v);
}

/// A run that is over and skipped exactly one file inserted one record for
/// each other file it found, and the skipped file is one that it found.
pub proof fn lemma_one_skipped_file_is_isolated(v: RunView)
    requires
        v.wf(),
        v.phase is Done,
        v.skipped_files.len() == 1,
    ensures
        v.inserted.len() == v.discovered.len() - 1,
        v.discovered.contains(v.skipped_files[0].path),
{
    lemma_finished_run_accounts_for_every_file(v);
}

/// The listing holds a real directory entry at `p`.
pub open spec fn has_directory_entry(entries: Seq<DirEntry>, p: String) -> bool {
    exists|i: int| 0 <= i < entries.len() && is_descended_kind(entries[i].kind) && #[trigger] entries[i].path == p
}

/// Every directory that a listing adds to the worklist is a real directory
/// entry of that listing: links to directories, and so links back to an
/// ancestor, are never descended into.
pub proof fn lemma_only_real_directories_descended(entries: Seq<DirEntry>)
    ensures
        subdirectory_paths(entries).len() <= entries.len(),
        forall|j: int|
            0 <= j < subdirectory_paths(entries).len() ==> has_directory_entry(
                entries,
                #[trigger] subdirectory_paths(entries)[j],
            ),
    decreases entries.len(),
{
    if entries.len() > 0 {
        let init = entries.drop_last();
        let sp = subdirectory_paths(init);
        lemma_only_real_directories_descended(init);
        assert forall|j: int| 0 <= j < subdirectory_paths(entries).len() implies has_directory_entry(
            entries,
            #[trigger] subdirectory_paths(entries)[j],
        ) by {
            if j < sp.len() {
                assert(has_directory_entry(init, sp[j]));
                let i = choose|i: int| 0 <= i < init.len() && is_descended_kind(init[i].kind) && #[trigger] init[i].path == sp[j];
                assert(entries[i] == init[i]);
                assert(subdirectory_paths(entries)[j] == sp[j]);
            } else {
                let i = entries.len() - 1;
                assert(entries[i] == entries.last());
                assert(entries[i].path == subdirectory_paths(entries)[j]);
            }
        }
    }
}

/// A file's bytes coming in make the run ask to insert that file's path, which
/// the run found in a listing, with the digest of exactly those bytes.
pub proof fn lemma_inserted_record_matches_file(pre: RunView, bytes: Vec<u8>, post: RunView)
    requires
        pre.wf(),
        pre.phase is Reading,
        pre.transition(Event::FileRead(bytes), post),
    ensures
        post.wf(),
        post.awaited() matches Action::Insert(p, h) && p == pre.files[pre.next]
            && h@ == sha256_hex(bytes@) && pre.discovered.contains(p),
{
    let p = pre.files[pre.next];
    assert(pre.files.skip(pre.next)[0] == p);
    assert(pre.discovered[pre.done.len() as int] == p);
}

/// A run over an empty root directory ends at its first listing, having
/// inserted nothing and skipped nothing.
pub proof fn lemma_empty_root_inserts_nothing(root: String, entries: Vec<DirEntry>, post: RunView)
    requires
        entries@.len() == 0,
        RunView::fresh(root).transition(Event::Listed(entries), post),
    ensures
        post.phase is Done,
        post.inserted.len() == 0,
        post.skipped_files.len() == 0,
        post.discovered.len() == 0,
{
}

} // verus!
