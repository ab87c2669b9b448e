use vstd::prelude::*;
use crate::metadata::{is_photo_extension, photo_count, photo_extension, to_ascii_lowercase, PhotoMetadata};
use crate::text::ascii_lower_seq;
use crate::timestamp::{
    display_text, file_time_format, file_time_text, formatted, instant_of, normalized_text, utc_format,
    utc_representable, Moment,
};

verus! {

/// Progress of an indexing run, as shown to clients.
#[derive(Clone)]
pub struct IndexingStatus {
    pub total_files: usize,
    pub indexed_files: usize,
    pub last_indexed: Option<String>,
    pub is_indexing: bool,
    pub last_error: Option<String>,
}

impl Default for IndexingStatus {
    fn default() -> (r: IndexingStatus)
        ensures
            r.total_files == 0,
            r.indexed_files == 0,
            r.last_indexed is None,
            !r.is_indexing,
            r.last_error is None,
    {
        IndexingStatus {
            total_files: 0,
            indexed_files: 0,
            last_indexed: None,
            is_indexing: false,
            last_error: None,
        }
    }
}

/// How many new rows an indexing run writes per transaction.
pub const BATCH_SIZE: usize = 2000;

/// A file whose stored row has this modification time and size is already indexed.
pub open spec fn up_to_date(stored: Option<(String, i64)>, mtime: Seq<char>, size: i64) -> bool {
    match stored {
        Some(row) => row.0@ == mtime && row.1 == size,
        None => false,
    }
}

/// What the walk of the library tells of one entry.
pub struct WalkedEntry {
    /// The entry is a regular file.
    pub is_file: bool,
    /// The entry's file metadata could be read.
    pub has_metadata: bool,
    /// The extension of its name, if it has one that is text.
    pub extension: Option<String>,
    /// Its path as text; `None` when the path is not UTF-8.
    pub path: Option<String>,
    /// The file's size in bytes.
    pub size: i64,
    /// The file's modification time, or the message of the error reading it.
    pub modified: Result<Moment, String>,
}

/// A photo file that may need a row: its path, size, stored modification time text and
/// lower-case extension.
pub struct Candidate {
    pub path: String,
    pub size: i64,
    pub mtime: String,
    pub extension: String,
}

/// Why a run ends with an error.
pub enum IndexError {
    /// The walk of the library reported an error.
    Walk,
    /// A path is not UTF-8.
    NonUtf8Path,
    /// A modification time could not be read; the reading error's message.
    ModificationTime(String),
    /// An instant is outside the range chrono can hold.
    TimeOutOfRange,
}

/// The row written for a photo (its duration, always zero for a photo, is added by the
/// writer).
pub struct MediaRow {
    pub path: String,
    pub size: i64,
    pub mtime: String,
    pub timestamp: String,
    pub indexed_at: String,
    pub taken_at: String,
    pub width: i32,
    pub height: i32,
    pub missing: i32,
}

/// What the run waits for next.
pub enum Phase {
    /// The next item of the walk.
    Walking,
    /// The stored row of the candidate's path.
    LookingUp(Candidate),
    /// The metadata of the candidate's file.
    Reading(Candidate),
    /// The confirmation that the row of this path was written.
    Writing(String),
}

/// What the run is told.
pub enum IndexEvent {
    /// The walk gave its next item (`None` for an error of the walk); `stop` is the stop
    /// flag as read before it.
    Walked { stop: bool, entry: Option<WalkedEntry> },
    /// The stored modification time and size for the candidate's path, if it has a row.
    Stored(Option<(String, i64)>),
    /// The candidate's metadata, `None` when it could not be read, and the current time.
    MetadataRead { metadata: Option<PhotoMetadata>, now: Moment },
    /// The candidate's row was written.
    Written,
}

/// What the run asks to be done.
pub enum IndexAction {
    /// End the walk: commit and finish.
    Stop,
    /// Go on with the next item of the walk.
    Next,
    /// End the run with this error.
    Fail(IndexError),
    /// Look up the stored row of `path`.
    LookUp { path: String },
    /// Read the metadata of the file at `path`, with its lower-case `extension`.
    ReadMetadata { path: String, extension: String },
    /// Insert (or replace) this row.
    Insert(MediaRow),
    /// Commit the batch, then go on with the next item of the walk.
    Commit,
}

/// The event is the one the phase waits for.
pub open spec fn accepts_event(phase: Phase, e: IndexEvent) -> bool {
    match phase {
        Phase::Walking => e is Walked,
        Phase::LookingUp(_) => e is Stored,
        Phase::Reading(_) => e is MetadataRead,
        Phase::Writing(_) => e is Written,
    }
}

/// The entry is one the indexer looks at further: a regular file with readable metadata
/// and an extension.
pub open spec fn examined(e: WalkedEntry) -> bool {
    e.is_file && e.has_metadata && e.extension is Some
}

/// The entry is a photo whose row is looked up: examined, with a UTF-8 path, a readable
/// modification time chrono can hold, and a lower-cased extension that is a photo's.
pub open spec fn is_candidate(e: WalkedEntry) -> bool {
    &&& examined(e)
    &&& e.path is Some
    &&& e.modified matches Ok(m) && utc_representable(m)
    &&& photo_extension(ascii_lower_seq(e.extension->Some_0@))
}

/// A phase that waits on a candidate.
pub open spec fn pending(phase: Phase) -> nat {
    match phase {
        Phase::Walking => 0,
        _ => 1,
    }
}

/// What a run does with one event: the next phase and the action, as `step` performs it.
pub open spec fn step_relation(phase: Phase, e: IndexEvent, next: Phase, action: IndexAction) -> bool {
    match e {
        IndexEvent::Walked { stop, entry } => if stop {
            action is Stop && next is Walking
        } else {
            match entry {
                None => action == IndexAction::Fail(IndexError::Walk) && next is Walking,
                Some(w) => if !examined(w) {
                    action is Next && next is Walking
                } else if w.path is None {
                    action == IndexAction::Fail(IndexError::NonUtf8Path) && next is Walking
                } else if w.modified is Err {
                    action == IndexAction::Fail(IndexError::ModificationTime(w.modified->Err_0))
                        && next is Walking
                } else if !utc_representable(w.modified->Ok_0) {
                    action == IndexAction::Fail(IndexError::TimeOutOfRange) && next is Walking
                } else if !photo_extension(ascii_lower_seq(w.extension->Some_0@)) {
                    action is Next && next is Walking
                } else {
                    &&& action matches IndexAction::LookUp { path } && path@ == w.path->Some_0@
                    &&& next matches Phase::LookingUp(c) && c.path@ == w.path->Some_0@ && c.size
                        == w.size && c.mtime@ == formatted(w.modified->Ok_0, 0, file_time_format())
                        && c.extension@ == ascii_lower_seq(w.extension->Some_0@)
                }
            }
        },
        IndexEvent::Stored(stored) => match phase {
            Phase::LookingUp(c) => if up_to_date(stored, c.mtime@, c.size) {
                action is Next && next is Walking
            } else {
                &&& action matches IndexAction::ReadMetadata { path, extension } && path@ == c.path@
                    && extension@ == c.extension@
                &&& next == Phase::Reading(c)
            },
            _ => false,
        },
        IndexEvent::MetadataRead { metadata, now } => match phase {
            Phase::Reading(c) => match metadata {
                None => action is Next && next is Walking,
                Some(md) => if !utc_representable(now) {
                    action == IndexAction::Fail(IndexError::TimeOutOfRange) && next is Walking
                } else {
                    &&& action matches IndexAction::Insert(row) && row.path@ == c.path@ && row.size
                        == c.size && row.mtime@ == c.mtime@ && row.timestamp@ == normalized_text(
                        md.taken_at,
                    ) && row.indexed_at@ == formatted(now, 0, file_time_format()) && row.taken_at@
                        == display_text(md.taken_at) && row.width == md.width && row.height
                        == md.height && row.missing == 0
                    &&& next matches Phase::Writing(p) && p@ == c.path@
                },
            },
            _ => false,
        },
        IndexEvent::Written => false,
    }
}

/// The bookkeeping of one indexing run: the rows it has written and what it waits for.
pub struct IndexRun {
    inserted: usize,
    phase: Phase,
    candidates: Ghost<nat>,
    seen: Ghost<Seq<Option<String>>>,
}

impl IndexRun {
    /// The number of rows written so far.
    pub closed spec fn count(&self) -> nat {
        self.inserted as nat
    }

    /// What the run waits for.
    pub closed spec fn phase(&self) -> Phase {
        self.phase
    }

    /// The number of photo entries whose row was looked up so far.
    pub closed spec fn candidates(&self) -> nat {
        self.candidates@
    }

    /// The extensions of the walked entries so far, in walk order.
    pub closed spec fn seen(&self) -> Seq<Option<String>> {
        self.seen@
    }

    /// Every written row belongs to a distinct photo entry of the walk, so a run writes no
    /// more rows than the walk holds photos.
    pub open spec fn wf(&self) -> bool {
        &&& self.count() + pending(self.phase()) <= self.candidates()
        &&& self.candidates() <= photo_count(self.seen())
    }

    /// Starts a run over `total` files: the status shows an indexing in progress with
    /// nothing indexed yet.
    pub fn begin(status: &mut IndexingStatus, total: usize) -> (r: IndexRun)
        ensures
            r.wf(),
            r.count() == 0,
            r.candidates() == 0,
            r.seen() == Seq::<Option<String>>::empty(),
            r.phase() is Walking,
            final(status).total_files == total,
            final(status).is_indexing,
            final(status).indexed_files == 0,
            final(status).last_indexed is None,
            final(status).last_error == old(status).last_error,
    {
        status.total_files = total;
        status.is_indexing = true;
        status.indexed_files = 0;
        status.last_indexed = None;
        IndexRun { inserted: 0, phase: Phase::Walking, candidates: Ghost(0), seen: Ghost(Seq::empty()) }
    }

    /// Whether a photo must be (re)indexed: it has no stored row, or its stored
    /// modification time or size differs.
    pub fn needs_indexing(stored: &Option<(String, i64)>, mtime: &String, size: i64) -> (r: bool)
        ensures
            r == !up_to_date(*stored, mtime@, size),
    {
        match stored {
            Some(row) => !(row.0 == *mtime && row.1 == size),
            None => true,
        }
    }

    /// Whether `e` is the event the run waits for.
    pub fn accepts(&self, e: &IndexEvent) -> (r: bool)
        ensures
            r == accepts_event(self.phase(), *e),
    {
        match (&self.phase, e) {
            (Phase::Walking, IndexEvent::Walked { .. }) => true,
            (Phase::LookingUp(_), IndexEvent::Stored(_)) => true,
            (Phase::Reading(_), IndexEvent::MetadataRead { .. }) => true,
            (Phase::Writing(_), IndexEvent::Written) => true,
            _ => false,
        }
    }

    /// The run's reaction to one event: a stop flag ends the walk; of the walked entries,
    /// regular files with readable metadata and a (lower-cased) photo extension are looked
    /// up; those whose stored row differs have their metadata read; those whose metadata
    /// reads get a row; each written row is counted in the status, and every
    /// `BATCH_SIZE`-th one asks for a commit.
    pub fn step(&mut self, status: &mut IndexingStatus, e: IndexEvent) -> (action: IndexAction)
        requires
            old(self).wf(),
            accepts_event(old(self).phase(), e),
            e matches IndexEvent::MetadataRead { metadata, now } ==> (metadata matches Some(md)
                ==> md.taken_at.valid()),
            e is Written ==> old(self).count() < usize::MAX && old(status).indexed_files
                < usize::MAX,
        ensures
            final(self).wf(),
            final(status).total_files == old(status).total_files,
            final(status).is_indexing == old(status).is_indexing,
            final(status).last_error == old(status).last_error,
            e is Written ==> {
                &&& old(self).phase() matches Phase::Writing(p) && final(status).last_indexed
                    == Some(p)
                &&& final(self).count() == old(self).count() + 1
                &&& final(status).indexed_files == old(status).indexed_files + 1
                &&& final(self).phase() is Walking
                &&& (action is Commit) == (final(self).count() % (BATCH_SIZE as nat) == 0)
                &&& (action is Next) == (final(self).count() % (BATCH_SIZE as nat) != 0)
            },
            !(e is Written) ==> {
                &&& step_relation(old(self).phase(), e, final(self).phase(), action)
                &&& final(self).count() == old(self).count()
                &&& final(status).indexed_files == old(status).indexed_files
                &&& final(status).last_indexed == old(status).last_indexed
            },
            e matches IndexEvent::Walked { stop, entry } ==> (stop ==> final(self).seen() == old(
                self,
            ).seen()) && (!stop ==> final(self).seen() == old(self).seen().push(
                match entry {
                    Some(w) => w.extension,
                    None => None,
                },
            )),
            !(e is Walked) ==> final(self).seen() == old(self).seen(),
            e matches IndexEvent::MetadataRead { metadata, now } ==> (action matches IndexAction::Insert(
                row,
            ) ==> (metadata matches Some(md) && row.timestamp@ == formatted(
                instant_of(md.taken_at),
                0,
                utc_format(),
            ) && row.taken_at@ == display_text(md.taken_at))),
    {
        let ghost old_phase = self.phase;
        match e {
            IndexEvent::Walked { stop, entry } => {
                if stop {
                    return IndexAction::Stop;
                }
                let ghost ext_seen = if entry is Some {
                    entry->Some_0.extension
                } else {
                    None
                };
                proof {
                    let s = self.seen@.push(ext_seen);
                    assert(s.drop_last() =~= self.seen@);
                    self.seen = Ghost(s);
                }
                let w = match entry {
                    None => return IndexAction::Fail(IndexError::Walk),
                    Some(w) => w,
                };
                if !w.is_file || !w.has_metadata {
                    return IndexAction::Next;
                }
                let ext = match &w.extension {
                    None => return IndexAction::Next,
                    Some(x) => to_ascii_lowercase(x.as_str()),
                };
                let path = match w.path {
                    None => return IndexAction::Fail(IndexError::NonUtf8Path),
                    Some(p) => p,
                };
                let m = match w.modified {
                    Err(msg) => return IndexAction::Fail(IndexError::ModificationTime(msg)),
                    Ok(m) => m,
                };
                let mtime = match file_time_text(m) {
                    None => return IndexAction::Fail(IndexError::TimeOutOfRange),
                    Some(t) => t,
                };
                if !is_photo_extension(ext.as_str()) {
                    return IndexAction::Next;
                }
                proof {
                    self.candidates = Ghost(self.candidates@ + 1);
                }
                let look = path.clone();
                self.phase = Phase::LookingUp(Candidate { path, size: w.size, mtime, extension: ext });
                IndexAction::LookUp { path: look }
            },
            IndexEvent::Stored(stored) => {
                let c = match self.take_phase() {
                    Phase::LookingUp(c) => c,
                    _ => {
                        assert(false);
                        return IndexAction::Next;
                    },
                };
                if !IndexRun::needs_indexing(&stored, &c.mtime, c.size) {
                    return IndexAction::Next;
                }
                let path = c.path.clone();
                let extension = c.extension.clone();
                self.phase = Phase::Reading(c);
                IndexAction::ReadMetadata { path, extension }
            },
            IndexEvent::MetadataRead { metadata, now } => {
                let c = match self.take_phase() {
                    Phase::Reading(c) => c,
                    _ => {
                        assert(false);
                        return IndexAction::Next;
                    },
                };
                let md = match metadata {
                    None => return IndexAction::Next,
                    Some(md) => md,
                };
                let indexed_at = match file_time_text(now) {
                    None => return IndexAction::Fail(IndexError::TimeOutOfRange),
                    Some(t) => t,
                };
                let row = MediaRow {
                    path: c.path.clone(),
                    size: c.size,
                    mtime: c.mtime,
                    timestamp: md.taken_at.to_normalized_utc_string(),
                    indexed_at,
                    taken_at: md.taken_at.to_display_string(),
                    width: md.width,
                    height: md.height,
                    missing: 0,
                };
                self.phase = Phase::Writing(c.path);
                IndexAction::Insert(row)
            },
            IndexEvent::Written => {
                let p = match self.take_phase() {
                    Phase::Writing(p) => p,
                    _ => {
                        assert(false);
                        return IndexAction::Next;
                    },
                };
                self.inserted = self.inserted + 1;
                status.indexed_files = status.indexed_files + 1;
                status.last_indexed = Some(p);
                if self.inserted % BATCH_SIZE == 0 {
                    IndexAction::Commit
                } else {
                    IndexAction::Next
                }
            },
        }
    }

    fn take_phase(&mut self) -> (p: Phase)
        ensures
            p == old(self).phase,
            final(self).phase is Walking,
            final(self).inserted == old(self).inserted,
            final(self).candidates == old(self).candidates,
            final(self).seen == old(self).seen,
    {
        let mut p = Phase::Walking;
        std::mem::swap(&mut p, &mut self.phase);
        p
    }

    /// The number of rows written so far.
    pub fn inserted(&self) -> (r: usize)
        ensures
            r == self.count(),
    {
        self.inserted
    }

    /// Ends the run: the status no longer shows an indexing in progress.
    pub fn finish(self, status: &mut IndexingStatus)
        ensures
            !final(status).is_indexing,
            final(status).total_files == old(status).total_files,
            final(status).indexed_files == old(status).indexed_files,
            final(status).last_indexed == old(status).last_indexed,
            final(status).last_error == old(status).last_error,
    {
        status.is_indexing = false;
    }
}

/// A second run over an unchanged file writes nothing for it: walking the same entry
/// gives the same candidate (its modification time text is a function of the instant),
/// the row the first run inserted holds that text and size, and a stored row with them
/// makes the run go on without reading or writing.
pub proof fn lemma_unchanged_file_skipped(
    w: WalkedEntry,
    first: Phase,
    first_action: IndexAction,
    read: IndexEvent,
    writing: Phase,
    row: MediaRow,
    second: Phase,
    second_action: IndexAction,
    next: Phase,
    action: IndexAction,
)
    requires
        step_relation(
            Phase::Walking,
            IndexEvent::Walked { stop: false, entry: Some(w) },
            first,
            first_action,
        ),
        first is LookingUp,
        read is MetadataRead,
        step_relation(Phase::Reading(first->LookingUp_0), read, writing, IndexAction::Insert(row)),
        step_relation(
            Phase::Walking,
            IndexEvent::Walked { stop: false, entry: Some(w) },
            second,
            second_action,
        ),
        step_relation(second, IndexEvent::Stored(Some((row.mtime, row.size))), next, action),
    ensures
        action is Next,
        next is Walking,
{
    let c1 = first->LookingUp_0;
    assert(second is LookingUp);
    let c2 = second->LookingUp_0;
    assert(c2.mtime@ == c1.mtime@ && c2.size == c1.size);
    assert(row.mtime@ == c1.mtime@ && row.size == c1.size);
    assert(up_to_date(Some((row.mtime, row.size)), c2.mtime@, c2.size));
}

/// A regular photo file with readable metadata, a UTF-8 path and a modification time that
/// can be written is looked up by its path, whatever the case of its extension; a file
/// whose extension is not a photo's is passed over.
pub proof fn lemma_photo_entry_looked_up(w: WalkedEntry, next: Phase, action: IndexAction)
    requires
        step_relation(Phase::Walking, IndexEvent::Walked { stop: false, entry: Some(w) }, next, action),
        w.is_file,
        w.has_metadata,
        w.extension is Some,
        w.path is Some,
        w.modified is Ok,
        utc_representable(w.modified->Ok_0),
    ensures
        photo_extension(ascii_lower_seq(w.extension->Some_0@)) ==> (action matches IndexAction::LookUp {
            path,
        } && path@ == w.path->Some_0@),
        !photo_extension(ascii_lower_seq(w.extension->Some_0@)) ==> action is Next,
{
}

/// A photo is (re)read exactly when its stored row is missing or records another
/// modification time or size; otherwise it is skipped.
pub proof fn lemma_changed_photo_read(
    c: Candidate,
    stored: Option<(String, i64)>,
    next: Phase,
    action: IndexAction,
)
    requires
        step_relation(Phase::LookingUp(c), IndexEvent::Stored(stored), next, action),
    ensures
        stored is None ==> (action matches IndexAction::ReadMetadata { path, extension } && path@
            == c.path@ && extension@ == c.extension@),
        stored matches Some(row) ==> ((row.0@ == c.mtime@ && row.1 == c.size) <==> action is Next),
        stored matches Some(row) ==> (!(row.0@ == c.mtime@ && row.1 == c.size) ==> (
        action matches IndexAction::ReadMetadata { path, extension } && path@ == c.path@
            && extension@ == c.extension@)),
{
}

/// A photo whose metadata cannot be read gets no row: the walk goes on.
pub proof fn lemma_unreadable_photo_skipped(c: Candidate, now: Moment, next: Phase, action: IndexAction)
    requires
        step_relation(Phase::Reading(c), IndexEvent::MetadataRead { metadata: None, now }, next, action),
    ensures
        action is Next,
        next is Walking,
{
}

/// The row written for a photo whose metadata was read carries as its timestamp the instant
/// the photo was taken, written in UTC, whatever zone its metadata recorded; the recorded
/// zone is kept only in `taken_at`. A row is written whenever the current time can be
/// written.
pub proof fn lemma_row_timestamp_is_utc(
    c: Candidate,
    md: PhotoMetadata,
    now: Moment,
    next: Phase,
    action: IndexAction,
)
    requires
        step_relation(
            Phase::Reading(c),
            IndexEvent::MetadataRead { metadata: Some(md), now },
            next,
            action,
        ),
    ensures
        utc_representable(now) ==> action is Insert,
        action matches IndexAction::Insert(row) ==> row.timestamp@ == formatted(
            instant_of(md.taken_at),
            0,
            utc_format(),
        ) && row.taken_at@ == display_text(md.taken_at),
{
}

/// Two photos taken at the same instant get the same timestamp in their rows, though their
/// metadata recorded different zones: the timeline orders rows by instant.
pub proof fn lemma_same_instant_same_timestamp(
    c1: Candidate,
    md1: PhotoMetadata,
    now1: Moment,
    next1: Phase,
    action1: IndexAction,
    c2: Candidate,
    md2: PhotoMetadata,
    now2: Moment,
    next2: Phase,
    action2: IndexAction,
)
    requires
        step_relation(
            Phase::Reading(c1),
            IndexEvent::MetadataRead { metadata: Some(md1), now: now1 },
            next1,
            action1,
        ),
        step_relation(
            Phase::Reading(c2),
            IndexEvent::MetadataRead { metadata: Some(md2), now: now2 },
            next2,
            action2,
        ),
        instant_of(md1.taken_at) == instant_of(md2.taken_at),
    ensures
        action1 matches IndexAction::Insert(row1) ==> (action2 matches IndexAction::Insert(row2)
            ==> row1.timestamp@ == row2.timestamp@),
{
}

/// Of a walk that yields a prefix of what an earlier count walked, no more entries are
/// photos than were counted: with the library unchanged since `count_photo_files`, a run
/// writes at most `total_files` rows.
pub proof fn lemma_photo_count_prefix(prefix: Seq<Option<String>>, all: Seq<Option<String>>)
    requires
        prefix.len() <= all.len(),
        all.subrange(0, prefix.len() as int) == prefix,
    ensures
        photo_count(prefix) <= photo_count(all),
    decreases all.len(),
{
    if all.len() > prefix.len() {
        let d = all.drop_last();
        assert(d.subrange(0, prefix.len() as int) =~= all.subrange(0, prefix.len() as int));
        lemma_photo_count_prefix(prefix, d);
    } else {
        assert(all =~= all.subrange(0, prefix.len() as int));
    }
}

/// How many of the first `n` recorded rows end a batch (`record` returned true).
pub open spec fn commits_in(n: nat) -> nat
    decreases n,
{
    if n == 0 {
        0
    } else {
        commits_in((n - 1) as nat) + (if n % (BATCH_SIZE as nat) == 0 {
            1nat
        } else {
            0nat
        })
    }
}

/// A run commits once per full batch: after `n` rows, `n / BATCH_SIZE` commits were
/// asked for, and the rows not yet committed are fewer than a batch.
pub proof fn lemma_commits_per_batch(n: nat)
    ensures
        commits_in(n) == n / (BATCH_SIZE as nat),
        n - commits_in(n) * (BATCH_SIZE as nat) < BATCH_SIZE as nat,
    decreases n,
{
    let b = BATCH_SIZE as nat;
    if n > 0 {
        lemma_commits_per_batch((n - 1) as nat);
        let m = (n - 1) as nat;
        assert((n % b == 0) ==> (n / b == m / b + 1)) by (nonlinear_arith)
            requires
                b == 2000,
                n == m + 1,
        ;
        assert((n % b != 0) ==> (n / b == m / b)) by (nonlinear_arith)
            requires
                b == 2000,
                n == m + 1,
        ;
    }
    assert(n - (n / b) * b < b) by (nonlinear_arith)
        requires
            b == 2000,
    ;
}

} // verus!
