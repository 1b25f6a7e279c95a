//! Download records, their lifecycle state machine, and the registry that
//! is the authority on both.
//!
//! The registry is a mapping from track identity to one [`Download`]
//! record, meant to sit behind a single lock with short critical sections.
//! Its view is the mathematical map from identity to record. Each
//! submission stamps the record with a fresh job token; a worker quotes
//! its token on every later step, so a result arriving after the entry was
//! overwritten by a newer submission is recognized as stale and discarded
//! silently.
//!
//! The worker protocol around the blocking I/O is two decisions:
//! [`DownloadRegistry::pickup`] before any I/O (abort, or move to
//! `Started` and fetch), and [`DownloadRegistry::finalize`] after the
//! fetched bytes stand in a temporary artifact (commit it to the final
//! path, or discard it). Cancellation is checked at both points, so a
//! cancelled download never gets a file at its destination.

use vstd::prelude::*;

use crate::api::Track;
use crate::text::{
    after_last_dot, spec_after_last_dot, spec_with_extension, with_extension,
};

verus! {

/// Lifecycle state of one download record.
///
/// A record starts `Planned` when it is queued, moves to `Started` when a
/// worker picks it up, and ends in `Done` on success. `Cancelled` is the
/// cooperative escape from `Planned` or `Started`; `Failed` is where a
/// network or filesystem error leaves the record instead of crashing the
/// worker. `Done`, `Cancelled` and `Failed` are terminal.
#[derive(Clone, Copy, Debug, PartialEq, Eq, Structural)]
pub enum DlStatus {
    Planned,
    Started,
    Done,
    Cancelled,
    Failed,
}

impl DlStatus {
    /// A terminal state is never left again.
    pub open spec fn is_terminal(self) -> bool {
        self is Done || self is Cancelled || self is Failed
    }

    /// The strict one-step transitions of the download state machine.
    pub open spec fn can_step(self, to: Self) -> bool {
        match self {
            DlStatus::Planned => to is Started || to is Cancelled,
            DlStatus::Started => to is Done || to is Cancelled || to is Failed,
            DlStatus::Done => false,
            DlStatus::Cancelled => false,
            DlStatus::Failed => false,
        }
    }

    /// One observation step: either nothing happened or a legal transition.
    pub open spec fn step_ok(self, to: Self) -> bool {
        self == to || self.can_step(to)
    }
}

/// A terminal status admits no further transition: whatever single step is
/// observed out of it, the status is unchanged.
pub proof fn lemma_terminal_is_final(a: DlStatus, b: DlStatus)
    requires
        a.is_terminal(),
        a.step_ok(b),
    ensures
        b == a,
{
}

/// Every status sequence whose adjacent pairs are legal observation steps is
/// a valid path of the state machine: once a terminal status appears, every
/// later observation shows that same status — `Done`, `Cancelled` and
/// `Failed` are never revisited or replaced.
pub proof fn lemma_valid_path_sticks(path: Seq<DlStatus>, i: int, j: int)
    requires
        forall|k: int| 0 <= k < path.len() - 1 ==> path[k].step_ok(#[trigger] path[k + 1]),
        0 <= i <= j < path.len(),
        path[i].is_terminal(),
    ensures
        path[j] == path[i],
    decreases j - i,
{
    if i < j {
        lemma_terminal_is_final(path[i], path[i + 1]);
        lemma_valid_path_sticks(path, i + 1, j);
    }
}

/// One download: where it comes from, where it goes, how far it is, and
/// the track it is for. `job` is the token of the submission that created
/// the record; the registry stamps it.
#[derive(Debug)]
pub struct Download {
    pub url: String,
    pub status: DlStatus,
    pub output: String,
    pub track: Track,
    pub job: u64,
}

impl Download {
    /// Marks the record finished, recording the final output path.
    pub fn ended(&mut self, out: String)
        requires
            old(self).status is Started,
        ensures
            final(self).status is Done,
            final(self).output == out,
            final(self).url == old(self).url,
            final(self).track == old(self).track,
            final(self).job == old(self).job,
    {
        self.status = DlStatus::Done;
        self.output = out;
    }
}

/// The next value of a change counter; wraps rather than overflows, and
/// always differs from its argument.
pub open spec fn spec_bump(v: u64) -> u64 {
    if v == u64::MAX {
        0
    } else {
        (v + 1) as u64
    }
}

/// What a worker must do right after taking a job, before any I/O.
#[derive(Debug)]
pub enum Pickup {
    /// Fetch `url`; the record is now `Started`, and its planned output
    /// path rides along for resolving the final one.
    Fetch { url: String, output: String },
    /// The download is gone, already taken, or cancelled: do nothing —
    /// no I/O, no filesystem write.
    Abort,
}

/// What the blocking part of a worker's job came back with.
#[derive(Debug)]
pub enum WorkerResult {
    /// The fetched bytes stand in a temporary artifact, destined for
    /// `output`.
    Saved { output: String },
    /// The fetch or the write failed; there is nothing to keep.
    Failed,
}

/// What to do with the temporary artifact after the final status check.
#[derive(Debug, PartialEq, Eq, Structural)]
pub enum Finalize {
    /// Move the artifact to the recorded output path.
    Commit,
    /// Remove the artifact; nothing may appear at the destination.
    Discard,
}

/// The registry: one record per track identity, plus the fresh-token
/// counter and a change counter for cheap re-render checks.
#[derive(Debug)]
pub struct DownloadRegistry {
    entries: Vec<Download>,
    next_job: u64,
    version: u64,
}

impl View for DownloadRegistry {
    type V = Map<i32, Download>;

    /// The registry as the map from track identity to its record.
    closed spec fn view(&self) -> Map<i32, Download> {
        Map::new(
            |id: i32| self.contains_id(id),
            |id: i32| self.entries@[self.idx_of(id)],
        )
    }
}

impl DownloadRegistry {
    /// Some record carries identity `id`.
    pub closed spec fn contains_id(self, id: i32) -> bool {
        exists|i: int|
            0 <= i < self.entries@.len() && self.entries@[i].track.id == id
    }

    /// The position of the record carrying `id` (meaningful under `wf`
    /// when the identity is present).
    closed spec fn idx_of(self, id: i32) -> int {
        choose|i: int|
            0 <= i < self.entries@.len() && self.entries@[i].track.id == id
    }

    /// How many records the registry holds.
    pub closed spec fn spec_len(self) -> nat {
        self.entries@.len()
    }

    /// The change counter.
    pub closed spec fn spec_version(self) -> u64 {
        self.version
    }

    /// The token the next submission will be stamped with.
    pub closed spec fn spec_next_job(self) -> u64 {
        self.next_job
    }

    /// Well-formedness: identities are unique — the mapping really is a
    /// mapping — and every stamped token is older than the counter, so a
    /// fresh token can never collide with a live record's.
    pub closed spec fn wf(self) -> bool {
        &&& forall|i: int, j: int|
            0 <= i < self.entries@.len() && 0 <= j < self.entries@.len()
                && self.entries@[i].track.id == self.entries@[j].track.id ==> i == j
        &&& forall|i: int|
            0 <= i < self.entries@.len() ==> #[trigger] self.entries@[i].job < self.next_job
    }

    /// Under `wf`, position `i`'s record is what the view maps its
    /// identity to.
    proof fn lemma_at(self, i: int)
        requires
            self.wf(),
            0 <= i < self.entries@.len(),
        ensures
            self.contains_id(self.entries@[i].track.id),
            self.idx_of(self.entries@[i].track.id) == i,
            self@.dom().contains(self.entries@[i].track.id),
            self@[self.entries@[i].track.id] == self.entries@[i],
    {
        let id = self.entries@[i].track.id;
        assert(self.contains_id(id));
        let k = self.idx_of(id);
        assert(0 <= k < self.entries@.len() && self.entries@[k].track.id == id);
    }

    /// Under `wf`, a present identity's record sits at `idx_of`.
    proof fn lemma_found(self, id: i32)
        requires
            self.wf(),
            self.contains_id(id),
        ensures
            0 <= self.idx_of(id) < self.entries@.len(),
            self.entries@[self.idx_of(id)].track.id == id,
            self@.dom().contains(id),
            self@[id] == self.entries@[self.idx_of(id)],
    {
        let k = self.idx_of(id);
        assert(0 <= k < self.entries@.len() && self.entries@[k].track.id == id);
    }

    /// Every live record's token is older than the counter: the token a
    /// new submission receives never matches a record already present, so
    /// a worker still quoting the replaced record's token is recognized
    /// as stale at its next step.
    pub proof fn lemma_live_jobs_are_older(self, id: i32)
        requires
            self.wf(),
            self@.dom().contains(id),
        ensures
            self@[id].job < self.spec_next_job(),
    {
        self.lemma_found(id);
    }

    /// An empty registry.
    pub fn new() -> (r: Self)
        ensures
            r.wf(),
            r@ == Map::<i32, Download>::empty(),
            r.spec_len() == 0,
            r.spec_version() == 0,
            r.spec_next_job() == 0,
    {
        let r = DownloadRegistry { entries: Vec::new(), next_job: 0, version: 0 };
        proof {
            assert(r@ =~= Map::<i32, Download>::empty());
        }
        r
    }

    /// How many records the registry holds.
    pub fn len(&self) -> (n: usize)
        ensures
            n == self.spec_len(),
    {
        self.entries.len()
    }

    /// The change counter: collaborators re-render when it moved.
    pub fn version(&self) -> (v: u64)
        ensures
            v == self.spec_version(),
    {
        self.version
    }

    /// How many job tokens have been issued; the next submission's token.
    pub fn jobs_issued(&self) -> (n: u64)
        ensures
            n == self.spec_next_job(),
    {
        self.next_job
    }

    /// The record for `id`, if the registry holds one.
    pub fn get(&self, id: i32) -> (r: Option<&Download>)
        requires
            self.wf(),
        ensures
            match r {
                Some(d) => self@.dom().contains(id) && *d == self@[id],
                None => !self@.dom().contains(id),
            },
    {
        let n = self.entries.len();
        let mut i: usize = 0;
        while i < n
            invariant
                0 <= i <= n,
                n == self.entries@.len(),
                self.wf(),
                forall|j: int| 0 <= j < i ==> self.entries@[j].track.id != id,
            decreases n - i,
        {
            if self.entries[i].track.id == id {
                proof {
                    self.lemma_at(i as int);
                }
                return Some(&self.entries[i]);
            }
            i = i + 1;
        }
        None
    }

    /// Records (or replaces) the download under its track identity and
    /// stamps it with a fresh job token, which is returned and quoted by
    /// the worker that will action this submission. The previous record
    /// under the same identity, if any, is gone, along with its claim on
    /// the registry: exactly one record per identity remains.
    pub fn insert(&mut self, dl: Download) -> (job: u64)
        requires
            old(self).wf(),
            old(self).spec_next_job() < u64::MAX,
        ensures
            final(self).wf(),
            job == old(self).spec_next_job(),
            final(self)@ == old(self)@.insert(
                dl.track.id,
                Download { job: job, ..dl },
            ),
            final(self).spec_len() == if old(self)@.dom().contains(dl.track.id) {
                old(self).spec_len()
            } else {
                old(self).spec_len() + 1
            },
            final(self).spec_next_job() == old(self).spec_next_job() + 1,
            final(self).spec_version() == spec_bump(old(self).spec_version()),
    {
        let ghost pre = *self;
        let id = dl.track.id;
        let job = self.next_job;
        let stamped = Download {
            url: dl.url,
            status: dl.status,
            output: dl.output,
            track: dl.track,
            job: job,
        };
        proof {
            assert(stamped == Download { job: job, ..dl });
        }
        let n = self.entries.len();
        let mut i: usize = 0;
        while i < n
            invariant
                0 <= i <= n,
                n == self.entries@.len(),
                *self == pre,
                pre == *old(self),
                pre.wf(),
                pre.next_job < u64::MAX,
                stamped.track.id == id,
                stamped.job == pre.next_job,
                job == pre.next_job,
                stamped == (Download { job: job, ..dl }),
                forall|j: int| 0 <= j < i ==> self.entries@[j].track.id != id,
            decreases n - i,
        {
            if self.entries[i].track.id == id {
                proof {
                    pre.lemma_at(i as int);
                }
                let _gone = self.entries.remove(i);
                self.entries.insert(i, stamped);
                self.next_job = self.next_job + 1;
                self.version = if self.version == u64::MAX {
                    0
                } else {
                    self.version + 1
                };
                proof {
                    assert(self.entries@ =~= pre.entries@.update(i as int, stamped));
                    self.lemma_update_view(pre, i as int, stamped);
                }
                return job;
            }
            i = i + 1;
        }
        self.entries.push(stamped);
        self.next_job = self.next_job + 1;
        self.version = if self.version == u64::MAX {
            0
        } else {
            self.version + 1
        };
        proof {
            assert(!pre.contains_id(id));
            self.lemma_push_view(pre, stamped);
        }
        job
    }

    /// After replacing position `i`'s record with one carrying the same
    /// identity, the view is the old view with that identity overwritten.
    proof fn lemma_update_view(self, pre: Self, i: int, stamped: Download)
        requires
            pre.wf(),
            0 <= i < pre.entries@.len(),
            stamped.job < self.next_job,
            pre.next_job <= self.next_job,
            self.entries@ == pre.entries@.update(i, stamped),
            stamped.track.id == pre.entries@[i].track.id,
        ensures
            self.wf(),
            self@ == pre@.insert(stamped.track.id, stamped),
            self.spec_len() == pre.spec_len(),
            pre@.dom().contains(stamped.track.id),
    {
        let id = stamped.track.id;
        pre.lemma_at(i);
        assert(forall|j: int|
            0 <= j < self.entries@.len() ==> self.entries@[j].track.id
                == pre.entries@[j].track.id);
        assert forall|j: int| 0 <= j < self.entries@.len()
            implies #[trigger] self.entries@[j].job < self.next_job by {
            if j != i {
                assert(self.entries@[j] == pre.entries@[j]);
            }
        }
        assert(self.wf());
        assert forall|k: i32| self.contains_id(k) == pre.contains_id(k) by {
            if self.contains_id(k) {
                let w = choose|w: int|
                    0 <= w < self.entries@.len() && self.entries@[w].track.id == k;
                assert(pre.entries@[w].track.id == k);
            }
            if pre.contains_id(k) {
                let w = choose|w: int|
                    0 <= w < pre.entries@.len() && pre.entries@[w].track.id == k;
                assert(self.entries@[w].track.id == k);
            }
        }
        assert forall|k: i32| #[trigger] self@.dom().contains(k) implies
            self@[k] == pre@.insert(id, stamped)[k] by {
            self.lemma_found(k);
            let w = self.idx_of(k);
            if k == id {
                assert(w == i) by {
                    assert(self.entries@[w].track.id == pre.entries@[w].track.id);
                }
                assert(self@[k] == stamped);
            } else {
                assert(w != i);
                assert(pre.entries@[w].track.id == k);
                pre.lemma_at(w);
                assert(self@[k] == pre@[k]);
            }
        }
        assert(self@ =~= pre@.insert(id, stamped));
    }

    /// After pushing a record with a fresh identity and a token equal to
    /// the old counter, the view is the old view extended by it.
    proof fn lemma_push_view(self, pre: Self, stamped: Download)
        requires
            pre.wf(),
            !pre.contains_id(stamped.track.id),
            stamped.job == pre.next_job,
            pre.next_job < u64::MAX,
            self.next_job == pre.next_job + 1,
            self.entries@ == pre.entries@.push(stamped),
        ensures
            self.wf(),
            self@ == pre@.insert(stamped.track.id, stamped),
            self.spec_len() == pre.spec_len() + 1,
            !pre@.dom().contains(stamped.track.id),
    {
        let id = stamped.track.id;
        let n = pre.entries@.len() as int;
        assert forall|i: int, j: int|
            0 <= i < self.entries@.len() && 0 <= j < self.entries@.len()
                && self.entries@[i].track.id == self.entries@[j].track.id
            implies i == j by {
            if i < n && j == n {
                assert(pre.entries@[i].track.id != id);
            }
            if j < n && i == n {
                assert(pre.entries@[j].track.id != id);
            }
        }
        assert(self.wf());
        assert forall|k: i32| #[trigger] self.contains_id(k)
            implies (k == id || pre.contains_id(k)) by {
            let w = choose|w: int|
                0 <= w < self.entries@.len() && self.entries@[w].track.id == k;
            if w < n {
                assert(pre.entries@[w].track.id == k);
            }
        }
        assert forall|k: i32| (k == id || pre.contains_id(k))
            implies #[trigger] self.contains_id(k) by {
            if k == id {
                assert(self.entries@[n].track.id == id);
            } else {
                let w = choose|w: int|
                    0 <= w < pre.entries@.len() && pre.entries@[w].track.id == k;
                assert(self.entries@[w].track.id == k);
            }
        }
        assert forall|k: i32| #[trigger] self@.dom().contains(k) implies
            self@[k] == pre@.insert(id, stamped)[k] by {
            self.lemma_found(k);
            let w = self.idx_of(k);
            if k == id {
                assert(w == n) by {
                    if w < n {
                        assert(pre.entries@[w].track.id == id);
                    }
                }
                assert(self@[k] == stamped);
            } else {
                assert(w < n);
                pre.lemma_at(w);
                assert(self@[k] == pre@[k]);
            }
        }
        assert(self@ =~= pre@.insert(id, stamped));
    }

    /// Cancels the download for `id`, when the registry holds a record
    /// for it that is not yet terminal. Returns whether it did.
    ///
    /// The control thread calls this; the worker observes it at its next
    /// status check and withholds all further I/O and the final write.
    pub fn cancel(&mut self, id: i32) -> (hit: bool)
        requires
            old(self).wf(),
        ensures
            final(self).wf(),
            hit == spec_cancel_hit(old(self)@, id),
            final(self)@ == spec_cancel(old(self)@, id),
            final(self).spec_len() == old(self).spec_len(),
            final(self).spec_next_job() == old(self).spec_next_job(),
            final(self).spec_version() == if hit {
                spec_bump(old(self).spec_version())
            } else {
                old(self).spec_version()
            },
            forall|k: i32| #[trigger] old(self)@.dom().contains(k)
                ==> final(self)@.dom().contains(k)
                    && old(self)@[k].status.step_ok(final(self)@[k].status),
    {
        let ghost pre = *self;
        let n = self.entries.len();
        let mut i: usize = 0;
        while i < n
            invariant
                0 <= i <= n,
                n == self.entries@.len(),
                *self == pre,
                pre == *old(self),
                pre.wf(),
                forall|j: int| 0 <= j < i ==> self.entries@[j].track.id != id,
            decreases n - i,
        {
            if self.entries[i].track.id == id {
                proof {
                    pre.lemma_at(i as int);
                }
                let eligible = self.entries[i].status == DlStatus::Planned
                    || self.entries[i].status == DlStatus::Started;
                if !eligible {
                    return false;
                }
                let mut e = self.entries.remove(i);
                e.status = DlStatus::Cancelled;
                self.entries.insert(i, e);
                self.version = if self.version == u64::MAX {
                    0
                } else {
                    self.version + 1
                };
                proof {
                    assert(self.entries@ =~= pre.entries@.update(
                        i as int,
                        Download { status: DlStatus::Cancelled, ..pre.entries@[i as int] },
                    ));
                    self.lemma_update_view(
                        pre,
                        i as int,
                        Download { status: DlStatus::Cancelled, ..pre.entries@[i as int] },
                    );
                }
                return true;
            }
            i = i + 1;
        }
        false
    }

    /// The decision a worker takes on picking its job up, before any I/O.
    ///
    /// When the registry still holds this submission's record — same
    /// identity, same job token — and it is still `Planned`, the record
    /// moves to `Started` and the worker is told to fetch the recorded
    /// URL. In every other case — record gone, overwritten by a newer
    /// submission, cancelled, or otherwise no longer `Planned` — the
    /// worker must abort: no network call, no filesystem write.
    pub fn pickup(&mut self, id: i32, job: u64) -> (p: Pickup)
        requires
            old(self).wf(),
        ensures
            final(self).wf(),
            p == spec_pickup_action(old(self)@, id, job),
            final(self)@ == spec_pickup_map(old(self)@, id, job),
            final(self).spec_len() == old(self).spec_len(),
            final(self).spec_next_job() == old(self).spec_next_job(),
            final(self).spec_version() == if spec_pickup_eligible(old(self)@, id, job) {
                spec_bump(old(self).spec_version())
            } else {
                old(self).spec_version()
            },
            forall|k: i32| #[trigger] old(self)@.dom().contains(k)
                ==> final(self)@.dom().contains(k)
                    && old(self)@[k].status.step_ok(final(self)@[k].status),
    {
        let ghost pre = *self;
        let n = self.entries.len();
        let mut i: usize = 0;
        while i < n
            invariant
                0 <= i <= n,
                n == self.entries@.len(),
                *self == pre,
                pre == *old(self),
                pre.wf(),
                forall|j: int| 0 <= j < i ==> self.entries@[j].track.id != id,
            decreases n - i,
        {
            if self.entries[i].track.id == id {
                proof {
                    pre.lemma_at(i as int);
                }
                if !(self.entries[i].job == job
                    && self.entries[i].status == DlStatus::Planned) {
                    return Pickup::Abort;
                }
                let mut e = self.entries.remove(i);
                e.status = DlStatus::Started;
                let url = e.url.clone();
                let output = e.output.clone();
                self.entries.insert(i, e);
                self.version = if self.version == u64::MAX {
                    0
                } else {
                    self.version + 1
                };
                proof {
                    assert(self.entries@ =~= pre.entries@.update(
                        i as int,
                        Download { status: DlStatus::Started, ..pre.entries@[i as int] },
                    ));
                    self.lemma_update_view(
                        pre,
                        i as int,
                        Download { status: DlStatus::Started, ..pre.entries@[i as int] },
                    );
                }
                return Pickup::Fetch { url, output };
            }
            i = i + 1;
        }
        Pickup::Abort
    }

    /// The decision a worker takes once its blocking work is over and the
    /// fetched bytes, if any, stand in a temporary artifact.
    ///
    /// Only when the registry still holds this submission's record — same
    /// identity, same job token — and it is still `Started` does the
    /// outcome count: success moves the record to `Done` with its final
    /// output path and commits the artifact; failure moves it to `Failed`.
    /// In every other case — record gone, overwritten by a newer
    /// submission, or cancelled meanwhile — the registry is untouched and
    /// the artifact is discarded: a stale or cancelled result never
    /// resurrects a record and never leaves a file at the destination.
    pub fn finalize(&mut self, id: i32, job: u64, outcome: WorkerResult) -> (d: Finalize)
        requires
            old(self).wf(),
        ensures
            final(self).wf(),
            d == spec_finalize_action(old(self)@, id, job, outcome),
            final(self)@ == spec_finalize_map(old(self)@, id, job, outcome),
            final(self).spec_len() == old(self).spec_len(),
            final(self).spec_next_job() == old(self).spec_next_job(),
            final(self).spec_version() == if spec_finalize_eligible(old(self)@, id, job) {
                spec_bump(old(self).spec_version())
            } else {
                old(self).spec_version()
            },
            forall|k: i32| #[trigger] old(self)@.dom().contains(k)
                ==> final(self)@.dom().contains(k)
                    && old(self)@[k].status.step_ok(final(self)@[k].status),
    {
        let ghost pre = *self;
        let n = self.entries.len();
        let mut i: usize = 0;
        while i < n
            invariant
                0 <= i <= n,
                n == self.entries@.len(),
                *self == pre,
                pre == *old(self),
                pre.wf(),
                forall|j: int| 0 <= j < i ==> self.entries@[j].track.id != id,
            decreases n - i,
        {
            if self.entries[i].track.id == id {
                proof {
                    pre.lemma_at(i as int);
                }
                if !(self.entries[i].job == job
                    && self.entries[i].status == DlStatus::Started) {
                    return Finalize::Discard;
                }
                let mut e = self.entries.remove(i);
                let d = match outcome {
                    WorkerResult::Saved { output } => {
                        e.ended(output);
                        Finalize::Commit
                    },
                    WorkerResult::Failed => {
                        e.status = DlStatus::Failed;
                        Finalize::Discard
                    },
                };
                self.entries.insert(i, e);
                self.version = if self.version == u64::MAX {
                    0
                } else {
                    self.version + 1
                };
                proof {
                    let done = spec_finalized_record(pre.entries@[i as int], outcome);
                    assert(self.entries@ =~= pre.entries@.update(i as int, done));
                    self.lemma_update_view(pre, i as int, done);
                }
                return d;
            }
            i = i + 1;
        }
        Finalize::Discard
    }
}

/// Whether `cancel` has a record to act on: one is present for `id` and
/// not yet terminal.
pub open spec fn spec_cancel_hit(m: Map<i32, Download>, id: i32) -> bool {
    m.dom().contains(id) && !m[id].status.is_terminal()
}

/// What the registry maps to after a cancellation request for `id`.
pub open spec fn spec_cancel(m: Map<i32, Download>, id: i32) -> Map<i32, Download> {
    if spec_cancel_hit(m, id) {
        m.insert(id, Download { status: DlStatus::Cancelled, ..m[id] })
    } else {
        m
    }
}

/// Whether a worker quoting `job` may act on `id` at pickup: the record
/// is present, is this very submission's, and is still `Planned`.
pub open spec fn spec_pickup_eligible(m: Map<i32, Download>, id: i32, job: u64) -> bool {
    m.dom().contains(id) && m[id].job == job && m[id].status is Planned
}

/// What the registry maps to after a worker's pickup step.
pub open spec fn spec_pickup_map(m: Map<i32, Download>, id: i32, job: u64) -> Map<
    i32,
    Download,
> {
    if spec_pickup_eligible(m, id, job) {
        m.insert(id, Download { status: DlStatus::Started, ..m[id] })
    } else {
        m
    }
}

/// What a worker is told at its pickup step.
pub open spec fn spec_pickup_action(m: Map<i32, Download>, id: i32, job: u64) -> Pickup {
    if spec_pickup_eligible(m, id, job) {
        Pickup::Fetch { url: m[id].url, output: m[id].output }
    } else {
        Pickup::Abort
    }
}

/// Whether a worker quoting `job` may finalize `id`: the record is
/// present, is this very submission's, and is still `Started`.
pub open spec fn spec_finalize_eligible(m: Map<i32, Download>, id: i32, job: u64) -> bool {
    m.dom().contains(id) && m[id].job == job && m[id].status is Started
}

/// The record an eligible finalization leaves behind.
pub open spec fn spec_finalized_record(e: Download, outcome: WorkerResult) -> Download {
    match outcome {
        WorkerResult::Saved { output } => Download {
            status: DlStatus::Done,
            output: output,
            ..e
        },
        WorkerResult::Failed => Download { status: DlStatus::Failed, ..e },
    }
}

/// What the registry maps to after a worker's finalize step.
pub open spec fn spec_finalize_map(
    m: Map<i32, Download>,
    id: i32,
    job: u64,
    outcome: WorkerResult,
) -> Map<i32, Download> {
    if spec_finalize_eligible(m, id, job) {
        m.insert(id, spec_finalized_record(m[id], outcome))
    } else {
        m
    }
}

/// What happens to the temporary artifact at a worker's finalize step.
pub open spec fn spec_finalize_action(
    m: Map<i32, Download>,
    id: i32,
    job: u64,
    outcome: WorkerResult,
) -> Finalize {
    if spec_finalize_eligible(m, id, job) && outcome is Saved {
        Finalize::Commit
    } else {
        Finalize::Discard
    }
}

/// The extension a download falls back to when the server advertises none.
pub open spec fn spec_default_ext() -> Seq<char> {
    seq!['m', 'p', '3']
}

/// The final output path of a download: the planned path with its
/// extension replaced by the one the server's content-disposition header
/// advertises — whatever follows the header value's last `.` — or by the
/// fallback extension when the response carries no such header.
pub open spec fn spec_resolved_output(
    base: Seq<char>,
    disposition: Option<Seq<char>>,
) -> Seq<char> {
    match disposition {
        Some(h) => spec_with_extension(base, spec_after_last_dot(h)),
        None => spec_with_extension(base, spec_default_ext()),
    }
}

/// Resolves the final output path of a download from its planned path and
/// the content-disposition header of the response, if one came.
pub fn resolve_output(base: &str, disposition: Option<&str>) -> (out: String)
    ensures
        out@ == spec_resolved_output(
            base@,
            match disposition {
                Some(h) => Some(h@),
                None => None,
            },
        ),
{
    match disposition {
        Some(h) => {
            let e = after_last_dot(h);
            with_extension(base, e)
        },
        None => {
            proof {
                reveal_strlit("mp3");
                assert("mp3"@ =~= spec_default_ext());
            }
            with_extension(base, "mp3")
        },
    }
}

/// Cancelling a download before its worker reached the pickup step makes
/// that step abort: the worker performs no network call and creates no
/// file — whatever the registry held for the identity beforehand, after a
/// cancellation its record is never `Planned`.
pub proof fn lemma_cancel_blocks_pickup(m: Map<i32, Download>, id: i32, job: u64)
    ensures
        spec_pickup_action(spec_cancel(m, id), id, job) is Abort,
        spec_pickup_map(spec_cancel(m, id), id, job) == spec_cancel(m, id),
{
}

/// Cancelling a download after its worker started but before it finished
/// makes the finalize step discard the temporary artifact and leave the
/// registry exactly as the cancellation left it: no file appears at the
/// final destination, and a record the cancellation moved to `Cancelled`
/// is still `Cancelled`.
pub proof fn lemma_cancel_blocks_finalize(
    m: Map<i32, Download>,
    id: i32,
    job: u64,
    outcome: WorkerResult,
)
    ensures
        spec_finalize_action(spec_cancel(m, id), id, job, outcome) is Discard,
        spec_finalize_map(spec_cancel(m, id), id, job, outcome) == spec_cancel(m, id),
{
}

/// Two submissions for one identity leave exactly one record: the map a
/// second submission produces is the map the first never touched.
pub proof fn lemma_resubmission_replaces(
    m: Map<i32, Download>,
    id: i32,
    d1: Download,
    d2: Download,
)
    ensures
        m.insert(id, d1).insert(id, d2) == m.insert(id, d2),
{
    assert(m.insert(id, d1).insert(id, d2) =~= m.insert(id, d2));
}

/// A worker whose job token no longer matches the record — because a
/// newer submission overwrote it — can neither start the download nor
/// finalize it: its late result is discarded silently, and the record's
/// terminal state reflects the later submission's outcome alone.
pub proof fn lemma_stale_job_ignored(
    m: Map<i32, Download>,
    id: i32,
    job: u64,
    outcome: WorkerResult,
)
    requires
        m.dom().contains(id) ==> m[id].job != job,
    ensures
        spec_pickup_action(m, id, job) is Abort,
        spec_pickup_map(m, id, job) == m,
        spec_finalize_action(m, id, job, outcome) is Discard,
        spec_finalize_map(m, id, job, outcome) == m,
{
}

} // verus!

