//! The stream frame handler and the analysis task it produces.
//!
//! For each inbound frame the handler emits exactly one "continue" reply and
//! never touches storage on that path. A request-header frame additionally
//! yields an `EnfireTask`, handed to the dispatcher without waiting; a
//! rejected enqueue drops the task and never fails the reply. Executing a
//! task appends one request event, classifies the traffic with the
//! sliding-window detector (failing open on storage errors), and appends one
//! audit event.

use vstd::prelude::*;
use crate::dispatcher::Dispatcher;
use crate::dispatcher::DispatcherModel;
use crate::dispatcher::spec_enqueue;
use crate::extract::extract_ip;
use crate::extract::extract_path;
use crate::extract::spec_extract_ip;
use crate::extract::spec_extract_path;
use crate::frame::Frame;
use crate::frame::HeaderEntry;
use crate::frame::Reply;
use crate::storage::EventModel;
use crate::storage::MemStorage;
use crate::storage::StorageError;
use crate::storage::StorageModel;
use crate::storage::spec_abusive;

verus! {

/// The immutable identity descriptor derived once from a header frame.
#[derive(Debug, Clone)]
pub struct EnfireTask {
    pub ip: String,
    pub path: String,
    pub key: Option<String>,
}

/// The mathematical value of a task.
pub ghost struct TaskModel {
    pub ip: Seq<char>,
    pub path: Seq<char>,
    pub key: Option<Seq<char>>,
}

impl DeepView for EnfireTask {
    type V = TaskModel;

    open spec fn deep_view(&self) -> TaskModel {
        TaskModel { ip: self.ip@, path: self.path@, key: self.key.deep_view() }
    }
}

/// The task a request-header frame with header list `hs` yields. The
/// optional key is a reserved extension point and stays unset.
pub open spec fn spec_task_of(hs: Seq<HeaderEntry>) -> TaskModel {
    TaskModel { ip: spec_extract_ip(hs), path: spec_extract_path(hs), key: None }
}

/// The request event that executing task `t` at time `now` appends.
pub open spec fn spec_task_event(t: TaskModel, now: int) -> EventModel {
    EventModel { ip: t.ip, path: t.path, key: t.key, ts: now }
}

/// The audit line written for one executed task.
pub open spec fn spec_audit_detail(t: TaskModel) -> Seq<char> {
    t.ip + " "@ + t.path
}

/// The storage state after executing task `t` at time `now`: one request
/// event and one audit event appended when the store is reachable, and no
/// change at all when it is not.
pub open spec fn spec_run_state(s: StorageModel, t: TaskModel, now: int) -> StorageModel {
    if s.available {
        StorageModel {
            requests: s.requests.push(spec_task_event(t, now)),
            events: s.events.push(spec_audit_detail(t)),
            ..s
        }
    } else {
        s
    }
}

/// The verdict executing task `t` at time `now` reports: the sliding-window
/// classification over the store including the event just recorded, and
/// `false` — never an error — when the store is unreachable.
pub open spec fn spec_run_verdict(s: StorageModel, t: TaskModel, now: int) -> bool {
    if s.available {
        spec_abusive(
            StorageModel { requests: s.requests.push(spec_task_event(t, now)), ..s },
            t.ip,
            t.path,
            t.key,
            now,
        )
    } else {
        false
    }
}

/// Maps the detector's outcome to the final classification: `true` only
/// for `Ok(true)`. A storage failure is swallowed and counts as not
/// abusive, so the inspector never degrades the proxy's availability.
pub fn fail_open(r: Result<bool, StorageError>) -> (abusive: bool)
    ensures
        abusive == (r == Ok::<bool, StorageError>(true)),
{
    match r {
        Ok(true) => true,
        _ => false,
    }
}

impl EnfireTask {
    /// Derives a task from an inbound frame: a request-header frame yields
    /// the extracted identity, every other frame kind yields none.
    pub fn from_request(frame: &Frame) -> (r: Option<EnfireTask>)
        ensures
            match *frame {
                Frame::RequestHeaders(hs) => r matches Some(t) && t.deep_view() == spec_task_of(
                    hs@,
                ),
                _ => r is None,
            },
    {
        match frame {
            Frame::RequestHeaders(headers) => Some(
                EnfireTask { ip: extract_ip(headers), path: extract_path(headers), key: None },
            ),
            _ => None,
        }
    }

    /// Builds the audit detail recorded when the task executes.
    pub fn audit_detail(&self) -> (d: String)
        ensures
            d@ == spec_audit_detail(self.deep_view()),
    {
        let mut d = self.ip.clone();
        d.append(" ");
        d.append(self.path.as_str());
        d
    }

    /// Executes the task against the storage engine at time `now`: records
    /// the request, classifies the traffic failing open, and writes the
    /// audit trail. Storage failures are swallowed; the verdict is the
    /// return value.
    pub fn run(self, storage: &mut MemStorage, now: i64) -> (abusive: bool)
        ensures
            final(storage)@ == spec_run_state(old(storage)@, self.deep_view(), now as int),
            abusive == spec_run_verdict(old(storage)@, self.deep_view(), now as int),
    {
        let key_ref = match &self.key {
            Some(k) => Some(k.as_str()),
            None => None,
        };
        proof {
            assert(key_ref.deep_view() == self.deep_view().key);
        }
        let _ = storage.record_request(self.ip.as_str(), self.path.as_str(), key_ref, now);
        let verdict = fail_open(
            storage.is_abusive(self.ip.as_str(), self.path.as_str(), key_ref, now),
        );
        let _ = storage.save_event(self.audit_detail());
        verdict
    }
}

/// The dispatcher state after handling one inbound frame: a request-header
/// frame attempts to enqueue its task (a full or closed queue drops it),
/// every other frame leaves the dispatcher alone.
pub open spec fn spec_step(d: DispatcherModel, frame: Frame) -> DispatcherModel {
    match frame {
        Frame::RequestHeaders(hs) => spec_enqueue(d, spec_task_of(hs@)).0,
        _ => d,
    }
}

/// The dispatcher state after handling a whole sequence of inbound frames
/// in order.
pub open spec fn spec_after_frames(d: DispatcherModel, frames: Seq<Frame>) -> DispatcherModel
    decreases frames.len(),
{
    if frames.len() == 0 {
        d
    } else {
        spec_after_frames(spec_step(d, frames[0]), frames.drop_first())
    }
}

proof fn lemma_after_frames_snoc(d: DispatcherModel, frames: Seq<Frame>, f: Frame)
    ensures
        spec_after_frames(d, frames.push(f)) == spec_step(spec_after_frames(d, frames), f),
    decreases frames.len(),
{
    if frames.len() == 0 {
        assert(frames.push(f)[0] == f);
        assert(frames.push(f).drop_first() =~= Seq::<Frame>::empty());
        assert(spec_after_frames(spec_step(d, f), frames.push(f).drop_first()) == spec_step(d, f));
        assert(spec_after_frames(d, frames) == d);
    } else {
        assert(frames.push(f)[0] == frames[0]);
        assert(frames.push(f).drop_first() =~= frames.drop_first().push(f));
        lemma_after_frames_snoc(spec_step(d, frames[0]), frames.drop_first(), f);
    }
}

/// One connection's handler and its collaborators: the dispatcher the
/// handler feeds, and the storage engine the consumer executes tasks
/// against.
pub struct EnfireService {
    pub dispatcher: Dispatcher,
    pub storage: MemStorage,
}

impl EnfireService {
    pub fn new(queue_capacity: usize, threshold: usize, window_secs: u64) -> (s: EnfireService)
        ensures
            s.dispatcher@.queue == Seq::<TaskModel>::empty(),
            s.dispatcher@.capacity == queue_capacity as int,
            !s.dispatcher@.closed,
            s.storage@.requests == Seq::<EventModel>::empty(),
            s.storage@.events == Seq::<Seq<char>>::empty(),
            s.storage@.threshold == threshold as int,
            s.storage@.window == window_secs as int,
            s.storage@.available,
    {
        EnfireService {
            dispatcher: Dispatcher::new(queue_capacity),
            storage: MemStorage::new(threshold, window_secs),
        }
    }

    /// Handles one inbound frame: exactly one "continue" reply, storage
    /// untouched, and the task of a request-header frame handed to the
    /// dispatcher — a rejected enqueue drops it and still replies.
    pub fn process_frame(&mut self, frame: &Frame) -> (reply: Reply)
        ensures
            reply == Reply::Continue,
            final(self).storage@ == old(self).storage@,
            final(self).dispatcher@ == spec_step(old(self).dispatcher@, *frame),
    {
        if let Some(task) = EnfireTask::from_request(frame) {
            let _ = self.dispatcher.try_enqueue(task);
        }
        Reply::Continue
    }

    /// Handles a connection's inbound frames in order: exactly one
    /// "continue" reply per frame, in the same order, with storage never
    /// touched on the reply path.
    pub fn process(&mut self, frames: &Vec<Frame>) -> (replies: Vec<Reply>)
        ensures
            replies@.len() == frames@.len(),
            forall|k: int| 0 <= k < replies@.len() ==> replies@[k] == Reply::Continue,
            final(self).storage@ == old(self).storage@,
            final(self).dispatcher@ == spec_after_frames(old(self).dispatcher@, frames@),
    {
        let mut replies: Vec<Reply> = Vec::new();
        let n = frames.len();
        let mut i: usize = 0;
        proof {
            assert(frames@.take(0) =~= Seq::<Frame>::empty());
        }
        while i < n
            invariant
                i <= n,
                n == frames@.len(),
                replies@.len() == i as int,
                forall|k: int| 0 <= k < replies@.len() ==> replies@[k] == Reply::Continue,
                self.storage@ == old(self).storage@,
                self.dispatcher@ == spec_after_frames(
                    old(self).dispatcher@,
                    frames@.take(i as int),
                ),
            decreases n - i,
        {
            let reply = self.process_frame(&frames[i]);
            replies.push(reply);
            proof {
                assert(frames@.take(i as int + 1) =~= frames@.take(i as int).push(
                    frames@[i as int],
                ));
                lemma_after_frames_snoc(
                    old(self).dispatcher@,
                    frames@.take(i as int),
                    frames@[i as int],
                );
            }
            i = i + 1;
        }
        proof {
            assert(frames@.take(n as int) =~= frames@);
        }
        replies
    }

    /// One consumer step: pulls the oldest pending task, if any, and
    /// executes it to completion at time `now`, returning its verdict.
    pub fn drain_one(&mut self, now: i64) -> (r: Option<bool>)
        ensures
            old(self).dispatcher@.queue.len() == 0 ==> r is None && final(self).dispatcher@ == old(
                self,
            ).dispatcher@ && final(self).storage@ == old(self).storage@,
            old(self).dispatcher@.queue.len() > 0 ==> {
                &&& r == Some(
                    spec_run_verdict(
                        old(self).storage@,
                        old(self).dispatcher@.queue[0],
                        now as int,
                    ),
                )
                &&& final(self).storage@ == spec_run_state(
                    old(self).storage@,
                    old(self).dispatcher@.queue[0],
                    now as int,
                )
                &&& final(self).dispatcher@ == (DispatcherModel {
                    queue: old(self).dispatcher@.queue.drop_first(),
                    ..old(self).dispatcher@
                })
            },
    {
        match self.dispatcher.dequeue() {
            Some(task) => Some(task.run(&mut self.storage, now)),
            None => None,
        }
    }
}

} // verus!
