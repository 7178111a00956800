//! Bounded folder and subtitle scans. Each queue retains one running job and
//! only the newest pending request, even when cancellation is stuck in I/O.
use vstd::prelude::*;

use crate::folder::{follow, following};

verus! {

/// Work for one worker.
#[derive(Debug, PartialEq, Eq)]
pub struct ScanJob<T> {
    pub request: T,
    /// Names the job when its cancellation is asked about.
    pub id: u64,
}

#[derive(Debug, Clone, Copy, PartialEq, Eq, Structural)]
pub struct ActiveScan {
    pub id: u64,
    pub cancelled: bool,
}

pub struct ScanQueue<T> {
    last: u64,
    active: Option<ActiveScan>,
    pending: Option<T>,
}

/// The state of a queue.
pub struct Scans<T> {
    /// The number of the job that was started last.
    pub last: u64,
    pub active: Option<ActiveScan>,
    pub pending: Option<T>,
}

impl<T> Scans<T> {
    /// The queue and the job once a request has been started.
    pub open spec fn started(self, request: T) -> (Scans<T>, ScanJob<T>) {
        let id = following(self.last);
        (
            Scans { last: id, active: Some(ActiveScan { id, cancelled: false }), pending: None },
            ScanJob { request, id },
        )
    }

    /// The running job, marked so that its result is not wanted.
    pub open spec fn unwanted(self) -> Option<ActiveScan> {
        match self.active {
            Some(active) => Some(ActiveScan { id: active.id, cancelled: true }),
            None => None,
        }
    }

    /// The queue after a new request, and the job to run at once.
    pub open spec fn requested(self, request: T) -> (Scans<T>, Option<ScanJob<T>>) {
        if self.active is Some {
            (Scans { active: self.unwanted(), pending: Some(request), ..self }, None)
        } else {
            let (queue, job) = self.started(request);
            (queue, Some(job))
        }
    }

    /// Whether the result of the running job is wanted.
    pub open spec fn is_current(self) -> bool {
        self.active matches Some(active) && !active.cancelled
    }

    /// The queue once the running job is over, and the job to run next.
    pub open spec fn finished(self) -> (Scans<T>, Option<ScanJob<T>>) {
        match self.pending {
            Some(request) => {
                let (queue, job) = self.started(request);
                (queue, Some(job))
            },
            None => (Scans { active: None, ..self }, None),
        }
    }

    pub open spec fn emptied(self) -> Scans<T> {
        Scans { active: self.unwanted(), pending: None, ..self }
    }

    /// Whether a job should stop: it is not the running one, or was cancelled.
    pub open spec fn has_cancelled(self, id: u64) -> bool {
        !(self.active == Some(ActiveScan { id, cancelled: false }))
    }

    /// A request waits only behind a running job.
    pub open spec fn wf(self) -> bool {
        self.pending is Some ==> self.active is Some
    }
}

impl<T> View for ScanQueue<T> {
    type V = Scans<T>;

    closed spec fn view(&self) -> Scans<T> {
        Scans { last: self.last, active: self.active, pending: self.pending }
    }
}

impl<T> Default for ScanQueue<T> {
    fn default() -> (result: Self)
        ensures
            result@ == (Scans::<T> { last: 0, active: None, pending: None }),
            result@.wf(),
    {
        ScanQueue { last: 0, active: None, pending: None }
    }
}

impl<T> ScanQueue<T> {
    /// Takes a request. It becomes a job at once where nothing runs; otherwise it
    /// replaces the request that waits, and the running job is cancelled.
    pub fn request(&mut self, request: T) -> (result: Option<ScanJob<T>>)
        requires
            old(self)@.wf(),
        ensures
            (final(self)@, result) == old(self)@.requested(request),
            final(self)@.wf(),
    {
        match self.active {
            Some(active) => {
                self.active = Some(ActiveScan { id: active.id, cancelled: true });
                self.pending = Some(request);
                None
            },
            None => Some(self.start(request)),
        }
    }

    fn start(&mut self, request: T) -> (result: ScanJob<T>)
        requires
            old(self)@.pending is None,
        ensures
            (final(self)@, result) == old(self)@.started(request),
    {
        let id: u64 = follow(self.last);
        self.last = id;
        self.active = Some(ActiveScan { id, cancelled: false });
        ScanJob { request, id }
    }

    /// Called only after the running worker finishes, including panic results. Says
    /// whether its result is wanted, and what to run next.
    pub fn finish(&mut self) -> (result: (bool, Option<ScanJob<T>>))
        requires
            old(self)@.wf(),
        ensures
            result.0 == old(self)@.is_current(),
            (final(self)@, result.1) == old(self)@.finished(),
            final(self)@.wf(),
    {
        let current = match self.active {
            Some(active) => !active.cancelled,
            None => false,
        };
        self.active = None;
        match self.pending.take() {
            Some(request) => (current, Some(self.start(request))),
            None => (current, None),
        }
    }

    /// Cancels the running job and drops the waiting request.
    pub fn cancel_all(&mut self)
        requires
            old(self)@.wf(),
        ensures
            final(self)@ == old(self)@.emptied(),
            final(self)@.wf(),
    {
        match self.active {
            Some(active) => {
                self.active = Some(ActiveScan { id: active.id, cancelled: true });
            },
            None => {},
        }
        self.pending = None;
    }

    /// Whether the worker of a job should stop.
    pub fn is_cancelled(&self, id: u64) -> (result: bool)
        ensures
            result == self@.has_cancelled(id),
    {
        match self.active {
            Some(active) => active.id != id || active.cancelled,
            None => true,
        }
    }
}

/// However many requests arrive while a job runs, one job runs and only the
/// newest request waits; the finished job's result is not delivered.
pub proof fn newest_request_wins<T>(queue: Scans<T>, older: T, newest: T)
    requires
        queue.wf(),
        queue.active is Some,
    ensures
        queue.requested(older).0.requested(newest) == queue.requested(newest),
        !queue.requested(newest).0.is_current(),
        queue.requested(newest).0.finished().1 matches Some(job) && job.request == newest,
{
}

/// Cancelling keeps the worker's slot: nothing starts before it is over, and then
/// nothing of what waited.
pub proof fn cancelling_keeps_the_slot<T>(queue: Scans<T>, request: T)
    requires
        queue.wf(),
        queue.active is Some,
    ensures
        queue.emptied().requested(request).1 is None,
        !queue.emptied().is_current(),
        queue.emptied().finished().1 is None,
{
}

/// A request runs at once where nothing runs, under a number of its own. Where
/// something runs, the request waits, and what runs is not wanted any more.
pub proof fn requests_run_or_wait<T>(queue: Scans<T>, request: T)
    ensures
        queue.active is None ==> {
            &&& queue.requested(request).1 is Some
            &&& (queue.requested(request).1->0).request == request
            &&& queue.last < u64::MAX ==> (queue.requested(request).1->0).id == queue.last + 1
            &&& queue.requested(request).0.is_current()
            &&& !queue.requested(request).0.has_cancelled((queue.requested(request).1->0).id)
            &&& queue.requested(request).0.pending is None
        },
        queue.active is Some ==> {
            &&& queue.requested(request).1 is None
            &&& queue.requested(request).0.pending == Some(request)
            &&& queue.requested(request).0.has_cancelled(queue.active->0.id)
            &&& queue.requested(request).0.active is Some
            &&& queue.requested(request).0.active->0.id == queue.active->0.id
        },
{
}

/// What waits runs when its turn comes, and is wanted; where nothing waits, nothing
/// runs.
pub proof fn waiting_requests_run_next<T>(queue: Scans<T>, request: T)
    ensures
        queue.pending == Some(request) ==> {
            &&& queue.finished().1 is Some
            &&& (queue.finished().1->0).request == request
            &&& queue.finished().0.is_current()
            &&& queue.finished().0.pending is None
            &&& !queue.finished().0.has_cancelled((queue.finished().1->0).id)
        },
        queue.pending is None ==> queue.finished().1 is None && queue.finished().0.active is None,
{
}

/// A job goes on exactly while it is the one that runs and is wanted.
pub proof fn jobs_stop_when_unwanted<T>(queue: Scans<T>, id: u64)
    ensures
        queue.active is None ==> queue.has_cancelled(id) && !queue.is_current(),
        queue.active matches Some(active) ==> queue.is_current() == !active.cancelled,
        queue.active matches Some(active) ==> queue.has_cancelled(id) == (active.id != id
            || active.cancelled),
        queue.emptied().pending is None,
        queue.emptied().has_cancelled(id),
{
}

}
