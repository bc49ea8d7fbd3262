//! The scheduler: a pending queue, one running slot, and the history of what
//! ran.
//!
//! `QueueManager` holds the state and decides every transition. A worker
//! drives it: it takes the next job with `start_next`, launches it, waits for
//! it to exit or for its cancellation token, and reports back with
//! `launch_failed` or `finish_job`.

use vstd::prelude::*;
use tokio_util::sync::CancellationToken;
use crate::history::{
    has_key, history_wf, inserted, lemma_inserted_wf, lemma_without_key, without_key, History,
    HistoryEntry, HistoryError,
};
use crate::job::{Job, JobType};
use crate::meta::{metadata_of, InspectMetadata};
use crate::yt_dlp::TrackInfo;

verus! {

#[verifier::external_type_specification]
#[verifier::external_body]
pub struct ExCancellationToken(CancellationToken);

/// What `cancel_by_id` did.
pub enum CancelOutcome {
    /// The job was pending and has been removed; it never starts.
    Dequeued,
    /// The job is the running one: its slot has been emptied and the caller
    /// signals this token to stop it.
    Stop(CancellationToken),
    /// No pending or running job has that id.
    NotFound,
}

impl CancelOutcome {
    /// Whether the job was found, pending or running.
    pub fn found(&self) -> (r: bool)
        ensures
            r == !(self is NotFound),
    {
        match self {
            CancelOutcome::NotFound => false,
            _ => true,
        }
    }
}

/// Why a scheduler operation did nothing.
#[derive(Clone, Copy, Debug, PartialEq, Eq)]
pub enum QueueError {
    /// The id is not a pending job.
    NotFound,
    /// A swap with nothing running, or with the running job itself.
    InvalidOperation,
    /// Every job id has been handed out.
    IdsExhausted,
}

/// The scheduler's state as the contracts see it.
pub struct QueueModel {
    /// Pending jobs, next to run first.
    pub queue: Seq<Job>,
    /// The job whose cancellation token is still held, if any.
    pub running: Option<Job>,
    /// The job the worker is playing, as reported to inspection.
    pub current: Option<Job>,
    /// Set by `clear`: the pending queue is dropped again when the current job ends.
    pub clear_requested: bool,
    /// The id the next submission gets.
    pub next_id: usize,
    pub history: Seq<HistoryEntry>,
}

pub open spec fn has_job(q: Seq<Job>, id: usize) -> bool {
    exists|i: int| 0 <= i < q.len() && (#[trigger] q[i]).id == id
}

/// The index of the pending job `id` (meaningful when there is one).
pub open spec fn job_index(q: Seq<Job>, id: usize) -> int {
    choose|i: int| 0 <= i < q.len() && q[i].id == id
}

pub open spec fn ids_unique(q: Seq<Job>) -> bool {
    forall|i: int, j: int|
        0 <= i < q.len() && 0 <= j < q.len() && i != j ==> (#[trigger] q[i]).id != (
        #[trigger] q[j]).id
}

proof fn lemma_remove(q: Seq<Job>, i: int)
    requires
        ids_unique(q),
        0 <= i < q.len(),
    ensures
        ids_unique(q.remove(i)),
        forall|id: usize| #[trigger]
            has_job(q.remove(i), id) <==> has_job(q, id) && id != q[i].id,
{
    let w = q.remove(i);
    assert forall|a: int, b: int|
        0 <= a < w.len() && 0 <= b < w.len() && a != b implies (#[trigger] w[a]).id != (
        #[trigger] w[b]).id by {
        let qa = if a < i { a } else { a + 1 };
        let qb = if b < i { b } else { b + 1 };
        assert(w[a] == q[qa] && w[b] == q[qb]);
    }
    assert forall|id: usize| #[trigger] has_job(w, id) <==> has_job(q, id) && id != q[i].id by {
        if has_job(w, id) {
            let a = choose|a: int| 0 <= a < w.len() && (#[trigger] w[a]).id == id;
            let qa = if a < i { a } else { a + 1 };
            assert(w[a] == q[qa]);
        }
        if has_job(q, id) && id != q[i].id {
            let b = choose|b: int| 0 <= b < q.len() && (#[trigger] q[b]).id == id;
            let wb = if b < i { b } else { b - 1 };
            assert(w[wb] == q[b]);
        }
    }
}

proof fn lemma_insert(q: Seq<Job>, i: int, job: Job)
    requires
        ids_unique(q),
        !has_job(q, job.id),
        0 <= i <= q.len(),
    ensures
        ids_unique(q.insert(i, job)),
        forall|id: usize| #[trigger]
            has_job(q.insert(i, job), id) <==> has_job(q, id) || id == job.id,
{
    let w = q.insert(i, job);
    assert forall|a: int, b: int|
        0 <= a < w.len() && 0 <= b < w.len() && a != b implies (#[trigger] w[a]).id != (
        #[trigger] w[b]).id by {
        if a != i && b != i {
            let qa = if a < i { a } else { a - 1 };
            let qb = if b < i { b } else { b - 1 };
            assert(w[a] == q[qa] && w[b] == q[qb]);
        } else if a != i {
            let qa = if a < i { a } else { a - 1 };
            assert(w[a] == q[qa]);
        } else {
            let qb = if b < i { b } else { b - 1 };
            assert(w[b] == q[qb]);
        }
    }
    assert forall|id: usize| #[trigger] has_job(w, id) <==> has_job(q, id) || id == job.id by {
        if has_job(w, id) {
            let a = choose|a: int| 0 <= a < w.len() && (#[trigger] w[a]).id == id;
            if a != i {
                let qa = if a < i { a } else { a - 1 };
                assert(w[a] == q[qa]);
            }
        }
        if has_job(q, id) {
            let b = choose|b: int| 0 <= b < q.len() && (#[trigger] q[b]).id == id;
            let wb = if b < i { b } else { b + 1 };
            assert(w[wb] == q[b]);
        }
        if id == job.id {
            assert(w[i] == job);
        }
    }
}

/// With distinct ids, the pending job `id` is the one at `job_index`.
pub proof fn lemma_job_index(q: Seq<Job>, id: usize, i: int)
    requires
        ids_unique(q),
        0 <= i < q.len(),
        q[i].id == id,
    ensures
        has_job(q, id),
        job_index(q, id) == i,
{
    assert(has_job(q, id));
}

/// The scheduler's invariant: pending ids are distinct and already handed out,
/// the running job is the current one and is not also pending, a pending clear
/// waits on a job in progress, and the history is well formed.
pub open spec fn queue_wf(m: QueueModel) -> bool {
    &&& ids_unique(m.queue)
    &&& forall|id: usize| #[trigger] has_job(m.queue, id) ==> id < m.next_id
    &&& m.running matches Some(r) ==> r.id < m.next_id && !has_job(m.queue, r.id) && m.current
        == Some(r)
    &&& m.current matches Some(c) ==> c.id < m.next_id
    &&& m.clear_requested ==> m.current is Some
    &&& history_wf(m.history)
}

/// The job that `submit` appends.
pub open spec fn submitted_job(m: QueueModel, job_type: JobType, metadata: TrackInfo) -> Job {
    Job { id: m.next_id, metadata, job_type }
}

pub open spec fn submitted(m: QueueModel, job_type: JobType, metadata: TrackInfo) -> QueueModel {
    QueueModel {
        queue: m.queue.push(submitted_job(m, job_type, metadata)),
        next_id: (m.next_id + 1) as usize,
        ..m
    }
}

/// `cancel_by_id`: a pending job is dropped; the running job's slot is emptied
/// and its token handed over to be signalled. It stays current until the
/// worker sees it exit.
pub open spec fn cancelled_by_id(m: QueueModel, id: usize) -> (QueueModel, bool) {
    if has_job(m.queue, id) {
        (QueueModel { queue: m.queue.remove(job_index(m.queue, id)), ..m }, true)
    } else if m.running matches Some(r) && r.id == id {
        (QueueModel { running: None, ..m }, true)
    } else {
        (m, false)
    }
}

/// `cancel`: the running job's slot is emptied and its token handed over to
/// be signalled.
pub open spec fn cancelled(m: QueueModel) -> (QueueModel, bool) {
    if m.running is Some {
        (QueueModel { running: None, ..m }, true)
    } else {
        (m, false)
    }
}

/// `clear`: the running job's slot is emptied (its token handed over to be
/// signalled) and the pending queue dropped. When a
/// job is in progress, the flag is raised that drops the queue again when that
/// job ends, so that jobs submitted meanwhile go too.
pub open spec fn cleared(m: QueueModel) -> QueueModel {
    QueueModel { queue: Seq::empty(), running: None, clear_requested: m.current is Some, ..m }
}

/// `q` with its job at `p` moved to `min(new_index, q.len() - 1)`, the others
/// keeping their order.
pub open spec fn reordered(q: Seq<Job>, p: int, new_index: int) -> Seq<Job> {
    let target = if new_index < q.len() - 1 {
        new_index
    } else {
        q.len() - 1
    };
    q.remove(p).insert(target, q[p])
}

pub open spec fn reorder_result(m: QueueModel, id: usize, new_index: usize) -> Result<
    QueueModel,
    QueueError,
> {
    if has_job(m.queue, id) {
        Ok(
            QueueModel {
                queue: reordered(m.queue, job_index(m.queue, id), new_index as int),
                ..m
            },
        )
    } else {
        Err(QueueError::NotFound)
    }
}

/// `swap_with_running`: the pending job `id` goes to the head, the running job
/// is queued right behind it to be played again, and the running job's slot
/// is emptied, its token handed over to be signalled; inspection still
/// reports it until it exits.
pub open spec fn swap_result(m: QueueModel, id: usize) -> Result<QueueModel, QueueError> {
    if m.running matches Some(r) && r.id == id {
        Err(QueueError::InvalidOperation)
    } else if !has_job(m.queue, id) {
        Err(QueueError::NotFound)
    } else if m.running is None {
        Err(QueueError::InvalidOperation)
    } else {
        let p = job_index(m.queue, id);
        Ok(
            QueueModel {
                queue: seq![m.queue[p], m.running->Some_0] + m.queue.remove(p),
                running: None,
                ..m
            },
        )
    }
}

/// `start_next`: the head of the queue becomes the running and current job;
/// nothing starts while a job is in progress or when nothing is pending.
pub open spec fn started(m: QueueModel) -> (QueueModel, Option<Job>) {
    if m.current is Some || m.queue.len() == 0 {
        (m, None)
    } else {
        (
            QueueModel {
                queue: m.queue.drop_first(),
                running: Some(m.queue[0]),
                current: Some(m.queue[0]),
                ..m
            },
            Some(m.queue[0]),
        )
    }
}

/// `launch_failed`: the job is dropped without a history entry. Its end also
/// ends the wait of a pending clear, which drops the queue.
pub open spec fn launch_failed(m: QueueModel) -> QueueModel {
    QueueModel {
        running: None,
        current: None,
        queue: if m.clear_requested {
            Seq::empty()
        } else {
            m.queue
        },
        clear_requested: false,
        ..m
    }
}

/// `finish_job`: the current job is recorded in the history, the slots are
/// emptied, and a pending clear drops the queue.
pub open spec fn finished(m: QueueModel, inserted_at: u64) -> QueueModel {
    QueueModel {
        history: match m.current {
            Some(c) => inserted(m.history, HistoryEntry { track_info: c.metadata, inserted_at }),
            None => m.history,
        },
        running: None,
        current: None,
        queue: if m.clear_requested {
            Seq::empty()
        } else {
            m.queue
        },
        clear_requested: false,
        ..m
    }
}

/// The inspection report: the current job, then the pending ones in order.
pub open spec fn inspected(m: QueueModel) -> (Option<InspectMetadata>, Seq<InspectMetadata>) {
    (
        match m.current {
            Some(c) => Some(metadata_of(c, true)),
            None => None,
        },
        m.queue.map_values(|j: Job| metadata_of(j, false)),
    )
}

/// The scheduler's state and the single execution slot.
pub struct QueueManager {
    queue: Vec<Job>,
    running: Option<(Job, CancellationToken)>,
    current: Option<Job>,
    clear_requested: bool,
    job_id: usize,
    history: History,
}

impl View for QueueManager {
    type V = QueueModel;

    closed spec fn view(&self) -> QueueModel {
        QueueModel {
            queue: self.queue@,
            running: match self.running {
                Some((j, _)) => Some(j),
                None => None,
            },
            current: self.current,
            clear_requested: self.clear_requested,
            next_id: self.job_id,
            history: self.history@,
        }
    }
}

impl QueueManager {
    /// The token of the running job, which stops it when signalled.
    pub closed spec fn running_token(&self) -> Option<CancellationToken> {
        match self.running {
            Some((_, t)) => Some(t),
            None => None,
        }
    }

    pub open spec fn wf(&self) -> bool {
        &&& queue_wf(self@)
        &&& (self.running_token() is Some <==> self@.running is Some)
    }

    /// An idle scheduler with nothing pending; ids start at 1.
    pub fn new(history: History) -> (r: QueueManager)
        requires
            history.wf(),
        ensures
            r.wf(),
            r@ == (QueueModel {
                queue: Seq::empty(),
                running: None,
                current: None,
                clear_requested: false,
                next_id: 1,
                history: history@,
            }),
    {
        QueueManager {
            queue: Vec::new(),
            running: None,
            current: None,
            clear_requested: false,
            job_id: 1,
            history,
        }
    }

    /// The index of the pending job `id`.
    fn position(&self, id: usize) -> (r: Option<usize>)
        requires
            self.wf(),
        ensures
            match r {
                Some(i) => i < self@.queue.len() && i as int == job_index(self@.queue, id)
                    && has_job(self@.queue, id),
                None => !has_job(self@.queue, id),
            },
    {
        let mut i: usize = 0;
        while i < self.queue.len()
            invariant
                self.wf(),
                i <= self@.queue.len(),
                forall|j: int| 0 <= j < i ==> (#[trigger] self@.queue[j]).id != id,
            decreases self@.queue.len() - i,
        {
            if self.queue[i].id == id {
                proof {
                    lemma_job_index(self@.queue, id, i as int);
                }
                return Some(i);
            }
            i += 1;
        }
        None
    }

    /// Appends a job to the pending queue under the next id and returns that id.
    pub fn submit(&mut self, args: JobType, metadata: TrackInfo) -> (r: Result<usize, QueueError>)
        requires
            old(self).wf(),
        ensures
            final(self).wf(),
            old(self)@.next_id == usize::MAX ==> r == Err::<usize, QueueError>(
                QueueError::IdsExhausted,
            ) && final(self)@ == old(self)@,
            old(self)@.next_id < usize::MAX ==> r == Ok::<usize, QueueError>(old(self)@.next_id)
                && final(self)@ == submitted(old(self)@, args, metadata),
            final(self).running_token() == old(self).running_token(),
    {
        if self.job_id == usize::MAX {
            return Err(QueueError::IdsExhausted);
        }
        let ghost q = self@.queue;
        let id = self.job_id;
        self.job_id = id + 1;
        let job = Job { id, metadata, job_type: args };
        proof {
            lemma_insert(q, q.len() as int, job);
            assert(q.insert(q.len() as int, job) =~= q.push(job));
        }
        self.queue.push(job);
        Ok(id)
    }

    /// Cancels job `id`. A pending one is removed and never starts, and no
    /// token is handed over. For the running one, its slot is emptied and its
    /// token returned, for the caller to signal.
    pub fn cancel_by_id(&mut self, job_id: usize) -> (r: CancelOutcome)
        requires
            old(self).wf(),
        ensures
            final(self).wf(),
            final(self)@ == cancelled_by_id(old(self)@, job_id).0,
            !(r is NotFound) == cancelled_by_id(old(self)@, job_id).1,
            has_job(old(self)@.queue, job_id) ==> r is Dequeued,
            r is Stop <==> !has_job(old(self)@.queue, job_id) && (old(self)@.running matches Some(
                j,
            ) && j.id == job_id),
            r is Stop ==> old(self).running_token() == Some(r->Stop_0),
            !(r is Stop) ==> final(self).running_token() == old(self).running_token(),
    {
        let ghost m = self@;
        match self.position(job_id) {
            Some(i) => {
                self.queue.remove(i);
                proof {
                    lemma_remove(m.queue, i as int);
                }
                CancelOutcome::Dequeued
            },
            None => {
                let running_id = match &self.running {
                    Some((job, _)) => Some(job.id),
                    None => None,
                };
                match running_id {
                    Some(id) => {
                        if id == job_id {
                            match self.running.take() {
                                Some((_job, token)) => CancelOutcome::Stop(token),
                                None => CancelOutcome::NotFound,
                            }
                        } else {
                            CancelOutcome::NotFound
                        }
                    },
                    None => CancelOutcome::NotFound,
                }
            },
        }
    }

    /// Empties the running job's slot and returns its token, for the caller
    /// to signal; `None` when nothing is running.
    pub fn cancel(&mut self) -> (r: Option<CancellationToken>)
        requires
            old(self).wf(),
        ensures
            final(self).wf(),
            r == old(self).running_token(),
            r is Some == cancelled(old(self)@).1,
            final(self)@ == cancelled(old(self)@).0,
    {
        match self.running.take() {
            Some((_job, token)) => Some(token),
            None => None,
        }
    }

    /// Drops every pending job, empties the running job's slot and returns its
    /// token, for the caller to signal. When a job is in progress, marks the
    /// queue to be dropped again when it ends, so that jobs submitted
    /// meanwhile go too.
    pub fn clear(&mut self) -> (r: Option<CancellationToken>)
        requires
            old(self).wf(),
        ensures
            final(self).wf(),
            r == old(self).running_token(),
            final(self)@ == cleared(old(self)@),
    {
        let token = match self.running.take() {
            Some((_job, token)) => Some(token),
            None => None,
        };
        self.queue.clear();
        self.clear_requested = self.current.is_some();
        token
    }

    /// The job in progress, if any, and the pending jobs in order.
    pub fn inspect(&self) -> (r: (Option<InspectMetadata>, Vec<InspectMetadata>))
        ensures
            (r.0, r.1@) == inspected(self@),
    {
        let current = match &self.current {
            Some(job) => Some(
                InspectMetadata { job_id: job.id, current: true, track_info: job.metadata.clone() },
            ),
            None => None,
        };
        let mut pending: Vec<InspectMetadata> = Vec::new();
        let mut i: usize = 0;
        while i < self.queue.len()
            invariant
                i <= self@.queue.len(),
                pending@ == self@.queue.subrange(0, i as int).map_values(
                    |j: Job| metadata_of(j, false),
                ),
            decreases self@.queue.len() - i,
        {
            let job = &self.queue[i];
            pending.push(
                InspectMetadata { job_id: job.id, current: false, track_info: job.metadata.clone() },
            );
            i += 1;
            assert(pending@ =~= self@.queue.subrange(0, i as int).map_values(
                |j: Job| metadata_of(j, false),
            ));
        }
        assert(self@.queue.subrange(0, i as int) =~= self@.queue);
        (current, pending)
    }
    /// Moves the pending job `job_id` to position `min(new_index, len - 1)`,
    /// the other pending jobs keeping their order. A running or unknown id is
    /// `NotFound`.
    pub fn reorder_job(&mut self, job_id: usize, new_index: usize) -> (r: Result<(), QueueError>)
        requires
            old(self).wf(),
        ensures
            final(self).wf(),
            match reorder_result(old(self)@, job_id, new_index) {
                Ok(m) => r is Ok && final(self)@ == m,
                Err(e) => r == Err::<(), QueueError>(e) && final(self)@ == old(self)@,
            },
            final(self).running_token() == old(self).running_token(),
    {
        let ghost q = self@.queue;
        let old_pos = match self.position(job_id) {
            Some(p) => p,
            None => return Err(QueueError::NotFound),
        };
        if old_pos == new_index {
            assert(q.remove(old_pos as int).insert(old_pos as int, q[old_pos as int]) =~= q);
            return Ok(());
        }
        let job = self.queue.remove(old_pos);
        let len = self.queue.len();
        let target = if new_index < len {
            new_index
        } else {
            len
        };
        proof {
            lemma_remove(q, old_pos as int);
            lemma_insert(q.remove(old_pos as int), target as int, job);
        }
        self.queue.insert(target, job);
        Ok(())
    }

    /// Puts the pending job `job_id` at the head of the queue, queues the
    /// running job right behind it to be played again, empties the running
    /// job's slot and returns its token, for the caller to signal once.
    /// Inspection keeps reporting the job until it exits. On an error nothing
    /// changes and the token stays in its slot.
    pub fn swap_with_running(&mut self, job_id: usize) -> (r: Result<CancellationToken, QueueError>)
        requires
            old(self).wf(),
        ensures
            final(self).wf(),
            match swap_result(old(self)@, job_id) {
                Ok(m) => r is Ok && final(self)@ == m && old(self).running_token() == Some(r->Ok_0),
                Err(e) => r == Err::<CancellationToken, QueueError>(e) && final(self)@ == old(self)@
                    && final(self).running_token() == old(self).running_token(),
            },
    {
        let ghost m = self@;
        match &self.running {
            Some((job, _)) => {
                if job.id == job_id {
                    return Err(QueueError::InvalidOperation);
                }
            },
            None => {},
        }
        let p = match self.position(job_id) {
            Some(p) => p,
            None => return Err(QueueError::NotFound),
        };
        match self.running.take() {
            None => Err(QueueError::InvalidOperation),
            Some((running_job, token)) => {
                let target = self.queue.remove(p);
                proof {
                    let q = m.queue;
                    let rest = q.remove(p as int);
                    lemma_remove(q, p as int);
                    lemma_insert(rest, 0, running_job);
                    lemma_insert(rest.insert(0, running_job), 0, target);
                    assert(rest.insert(0, running_job).insert(0, target) =~= seq![
                        target,
                        running_job,
                    ] + rest);
                }
                self.queue.insert(0, running_job);
                self.queue.insert(0, target);
                Ok(token)
            },
        }
    }

    /// The history, oldest entry first.
    pub fn get_history(&self) -> (r: Vec<HistoryEntry>)
        ensures
            r@ == self@.history,
    {
        self.history.get_history()
    }

    /// Removes the history entry for page `webpage_url`.
    pub fn remove_history_entry(&mut self, webpage_url: &str) -> (r: Result<(), HistoryError>)
        requires
            old(self).wf(),
        ensures
            final(self).wf(),
            final(self)@ == (QueueModel { history: final(self)@.history, ..old(self)@ }),
            r is Err <==> !has_key(old(self)@.history, webpage_url@),
            r is Err ==> final(self)@.history == old(self)@.history,
            r is Ok ==> final(self)@.history == without_key(old(self)@.history, webpage_url@),
            final(self).running_token() == old(self).running_token(),
    {
        self.history.remove(webpage_url)
    }

    /// Takes the next pending job and makes it the running and current job,
    /// cancellable through `token`. The worker launches what this returns.
    /// Nothing starts while a job is still in progress.
    pub fn start_next(&mut self, token: CancellationToken) -> (r: Option<Job>)
        requires
            old(self).wf(),
        ensures
            final(self).wf(),
            (final(self)@, r) == started(old(self)@),
            r is Some ==> final(self).running_token() == Some(token),
            r is None ==> final(self).running_token() == old(self).running_token(),
    {
        if self.current.is_some() || self.queue.len() == 0 {
            return None;
        }
        let ghost q = self@.queue;
        let job = self.queue.remove(0);
        proof {
            lemma_remove(q, 0);
            assert(q.remove(0) =~= q.drop_first());
            assert(has_job(q, job.id));
        }
        self.running = Some((job.clone(), token));
        self.current = Some(job.clone());
        Some(job)
    }

    /// The worker could not launch the job it took: it is dropped, with no
    /// history entry, and a pending `clear` drops the queue.
    pub fn launch_failed(&mut self)
        requires
            old(self).wf(),
        ensures
            final(self).wf(),
            final(self)@ == launch_failed(old(self)@),
    {
        self.running = None;
        self.current = None;
        if self.clear_requested {
            self.queue.clear();
            self.clear_requested = false;
        }
    }

    /// The current job's process has exited, by itself or cancelled: it is
    /// recorded in the history at `inserted_at` (seconds since the Unix epoch),
    /// the slots are emptied, and a pending `clear` drops the queue.
    pub fn finish_job(&mut self, inserted_at: u64)
        requires
            old(self).wf(),
        ensures
            final(self).wf(),
            final(self)@ == finished(old(self)@, inserted_at),
    {
        match self.current.take() {
            Some(job) => {
                self.history.insert(job.metadata, inserted_at);
            },
            None => {},
        }
        self.running = None;
        if self.clear_requested {
            self.queue.clear();
            self.clear_requested = false;
        }
    }
}

/// One operation on the scheduler, by a caller or by the worker.
pub enum QueueOp {
    Submit { job_type: JobType, metadata: TrackInfo },
    Cancel,
    CancelById(usize),
    Clear,
    Reorder { id: usize, new_index: usize },
    Swap(usize),
    StartNext,
    LaunchFailed,
    Finish(u64),
    RemoveHistoryEntry(String),
}

/// The state after `op`, as the contract of the method that performs it states.
pub open spec fn step(m: QueueModel, op: QueueOp) -> QueueModel {
    match op {
        QueueOp::Submit { job_type, metadata } => if m.next_id == usize::MAX {
            m
        } else {
            submitted(m, job_type, metadata)
        },
        QueueOp::Cancel => cancelled(m).0,
        QueueOp::CancelById(id) => cancelled_by_id(m, id).0,
        QueueOp::Clear => cleared(m),
        QueueOp::Reorder { id, new_index } => match reorder_result(m, id, new_index) {
            Ok(m2) => m2,
            Err(_) => m,
        },
        QueueOp::Swap(id) => match swap_result(m, id) {
            Ok(m2) => m2,
            Err(_) => m,
        },
        QueueOp::StartNext => started(m).0,
        QueueOp::LaunchFailed => launch_failed(m),
        QueueOp::Finish(t) => finished(m, t),
        QueueOp::RemoveHistoryEntry(url) => if has_key(m.history, url@) {
            QueueModel { history: without_key(m.history, url@), ..m }
        } else {
            m
        },
    }
}

/// The state after the operations of `ops`, in order.
pub open spec fn run(m: QueueModel, ops: Seq<QueueOp>) -> QueueModel
    decreases ops.len(),
{
    if ops.len() == 0 {
        m
    } else {
        step(run(m, ops.drop_last()), ops.last())
    }
}

/// A job that is pending, running or current.
pub open spec fn job_present(m: QueueModel, id: usize) -> bool {
    ||| has_job(m.queue, id)
    ||| (m.running matches Some(r) && r.id == id)
    ||| (m.current matches Some(c) && c.id == id)
}

/// Every operation keeps the scheduler's invariant, never lowers the next id,
/// and brings in no job but the one it submits, under the next id.
pub proof fn lemma_step_wf(m: QueueModel, op: QueueOp)
    requires
        queue_wf(m),
    ensures
        queue_wf(step(m, op)),
        step(m, op).next_id >= m.next_id,
        forall|id: usize| #[trigger]
            job_present(step(m, op), id) ==> job_present(m, id) || id == m.next_id,
{
    let q = m.queue;
    match op {
        QueueOp::Submit { job_type, metadata } => {
            if m.next_id < usize::MAX {
                let job = submitted_job(m, job_type, metadata);
                lemma_insert(q, q.len() as int, job);
                assert(q.insert(q.len() as int, job) =~= q.push(job));
            }
        },
        QueueOp::CancelById(id) => {
            if has_job(q, id) {
                lemma_remove(q, job_index(q, id));
            }
        },
        QueueOp::Reorder { id, new_index } => {
            if has_job(q, id) {
                let p = job_index(q, id);
                let target = if new_index < q.len() - 1 {
                    new_index as int
                } else {
                    q.len() - 1
                };
                lemma_remove(q, p);
                lemma_insert(q.remove(p), target, q[p]);
            }
        },
        QueueOp::Swap(id) => {
            if swap_result(m, id) is Ok {
                let p = job_index(q, id);
                let r = m.running->Some_0;
                let rest = q.remove(p);
                lemma_remove(q, p);
                lemma_insert(rest, 0, r);
                lemma_insert(rest.insert(0, r), 0, q[p]);
                assert(rest.insert(0, r).insert(0, q[p]) =~= seq![q[p], r] + rest);
            }
        },
        QueueOp::StartNext => {
            if started(m).1 is Some {
                lemma_remove(q, 0);
                assert(q.remove(0) =~= q.drop_first());
                assert(has_job(q, q[0].id));
            }
        },
        QueueOp::Finish(t) => {
            if let Some(c) = m.current {
                lemma_inserted_wf(m.history, HistoryEntry { track_info: c.metadata, inserted_at: t });
            }
        },
        QueueOp::RemoveHistoryEntry(url) => {
            lemma_without_key(m.history, url@);
        },
        _ => {},
    }
}

/// Across any sequence of submissions, cancellations, reorders, swaps, clears
/// and worker steps, at most one job is running: the running slot holds one job
/// or none, that job is the one reported as current, and it is never also
/// pending.
pub proof fn lemma_single_running(m: QueueModel, ops: Seq<QueueOp>)
    requires
        queue_wf(m),
    ensures
        queue_wf(run(m, ops)),
        run(m, ops).running matches Some(r) ==> !has_job(run(m, ops).queue, r.id) && run(
            m,
            ops,
        ).current == Some(r),
    decreases ops.len(),
{
    if ops.len() > 0 {
        lemma_single_running(m, ops.drop_last());
        lemma_step_wf(run(m, ops.drop_last()), ops.last());
    }
}

/// A job that is neither pending, running nor current.
pub open spec fn job_absent(m: QueueModel, id: usize) -> bool {
    !job_present(m, id)
}

proof fn lemma_absent_run(m: QueueModel, ops: Seq<QueueOp>, id: usize)
    requires
        queue_wf(m),
        job_absent(m, id),
        id < m.next_id,
    ensures
        job_absent(run(m, ops), id),
        id < run(m, ops).next_id,
        queue_wf(run(m, ops)),
    decreases ops.len(),
{
    if ops.len() > 0 {
        lemma_absent_run(m, ops.drop_last(), id);
        lemma_step_wf(run(m, ops.drop_last()), ops.last());
    }
}

/// Cancelling a pending job that has not started removes it and leaves the
/// history as it was; after it, whatever operations follow, the job is never
/// pending, running or current again, so no completion ever records it.
pub proof fn lemma_cancel_pending_never_recorded(m: QueueModel, id: usize, ops: Seq<QueueOp>)
    requires
        queue_wf(m),
        has_job(m.queue, id),
        !(m.current matches Some(c) && c.id == id),
    ensures
        cancelled_by_id(m, id).1,
        cancelled_by_id(m, id).0.history == m.history,
        job_absent(cancelled_by_id(m, id).0, id),
        job_absent(run(cancelled_by_id(m, id).0, ops), id),
{
    let q = m.queue;
    lemma_remove(q, job_index(q, id));
    let m1 = cancelled_by_id(m, id).0;
    lemma_step_wf(m, QueueOp::CancelById(id));
    lemma_absent_run(m1, ops, id);
}

/// An operation a caller makes, as opposed to a step of the worker.
pub open spec fn is_caller_op(op: QueueOp) -> bool {
    !(op is StartNext || op is LaunchFailed || op is Finish)
}

/// Clearing leaves nothing pending and nothing running. When a job dequeued
/// before the clear is still in progress, whatever callers do meanwhile
/// (submissions included), the end of that job, however it ends, puts nothing
/// back: the queue is empty afterwards and the clear is settled.
pub proof fn lemma_clear_then_finish(m: QueueModel, ops: Seq<QueueOp>, t: u64)
    requires
        queue_wf(m),
        forall|i: int| 0 <= i < ops.len() ==> is_caller_op(#[trigger] ops[i]),
    ensures
        cleared(m).queue.len() == 0,
        cleared(m).running is None,
        m.current is None ==> !cleared(m).clear_requested,
        m.current is Some ==> {
            let before_end = run(cleared(m), ops);
            &&& before_end.current == m.current
            &&& finished(before_end, t).queue.len() == 0
            &&& !finished(before_end, t).clear_requested
            &&& finished(before_end, t).current is None
            &&& launch_failed(before_end).queue.len() == 0
            &&& !launch_failed(before_end).clear_requested
        },
{
    if m.current is Some {
        lemma_clear_flag_kept(cleared(m), ops);
    }
}

proof fn lemma_clear_flag_kept(m: QueueModel, ops: Seq<QueueOp>)
    requires
        m.clear_requested,
        m.current is Some,
        forall|i: int| 0 <= i < ops.len() ==> is_caller_op(#[trigger] ops[i]),
    ensures
        run(m, ops).clear_requested,
        run(m, ops).current == m.current,
    decreases ops.len(),
{
    if ops.len() > 0 {
        let d = ops.drop_last();
        assert forall|i: int| 0 <= i < d.len() implies is_caller_op(#[trigger] d[i]) by {
            assert(d[i] == ops[i]);
        }
        lemma_clear_flag_kept(m, d);
        assert(is_caller_op(ops[ops.len() - 1]));
    }
}

/// Reordering a pending job puts it at `min(new_index, len - 1)` and keeps
/// the other pending jobs in their order; asking for its current position
/// changes nothing.
pub proof fn lemma_reorder_position(m: QueueModel, id: usize, new_index: usize)
    requires
        queue_wf(m),
        has_job(m.queue, id),
    ensures
        reorder_result(m, id, new_index) is Ok,
        ({
            let q = m.queue;
            let q2 = reorder_result(m, id, new_index)->Ok_0.queue;
            let p = job_index(q, id);
            let target = if new_index < q.len() - 1 {
                new_index as int
            } else {
                q.len() - 1
            };
            &&& q2.len() == q.len()
            &&& q2[target] == q[p]
            &&& q2[target].id == id
            &&& q2.remove(target) == q.remove(p)
            &&& new_index == p ==> q2 == q
        }),
{
    let q = m.queue;
    let p = job_index(q, id);
    let target = if new_index < q.len() - 1 {
        new_index as int
    } else {
        q.len() - 1
    };
    let q2 = reordered(q, p, new_index as int);
    assert(q2.remove(target) =~= q.remove(p));
    if new_index == p {
        assert(q2 =~= q);
    }
}

/// A swap puts the chosen job first and the running job second, ahead of the
/// other pending jobs in their order. The running job is still reported as
/// current, and its slot is emptied, so its cancellation cannot be signalled
/// a second time.
pub proof fn lemma_swap_with_running(m: QueueModel, id: usize)
    requires
        queue_wf(m),
        m.running is Some,
        m.running->Some_0.id != id,
        has_job(m.queue, id),
    ensures
        swap_result(m, id) is Ok,
        ({
            let m2 = swap_result(m, id)->Ok_0;
            let q = m.queue;
            &&& m2.current == m.current
            &&& m2.current == m.running
            &&& m2.running is None
            &&& m2.queue.len() == q.len() + 1
            &&& m2.queue[0].id == id
            &&& m2.queue[1] == m.running->Some_0
            &&& m2.queue.subrange(2, m2.queue.len() as int) == q.remove(job_index(q, id))
            &&& step(m2, QueueOp::Cancel) == m2
            &&& step(m2, QueueOp::Swap(id)) == m2
        }),
{
    let q = m.queue;
    let p = job_index(q, id);
    let m2 = swap_result(m, id)->Ok_0;
    assert(m2.queue.subrange(2, m2.queue.len() as int) =~= q.remove(p));
}

} // verus!
