//! The lifecycle controller's decision core: accepts the backend's
//! submission answer, tracks the highest progress seen so far across polls,
//! emits progress deltas and reset events to the caller's sink, honours
//! cooperative cancellation at poll boundaries, and maps terminal states to
//! outcomes. The caller performs the actual backend calls and feeds every
//! answer back in; the decisions here are verified for every answer.

use vstd::prelude::*;
use crate::error::Error;

verus! {

/// Progress fractions are carried in millionths: 0 is no progress and
/// `PROGRESS_SCALE` is a finished job.
pub const PROGRESS_SCALE: u64 = 1_000_000;

/// The status the backend reports for a polled job.
#[derive(Debug, Clone, Copy, PartialEq, Eq, Structural)]
pub enum JobStatus {
    Running,
    Restarted,
    Aborted,
    TimedOut,
    Finished,
}

/// One poll answer: a status and a progress fraction in
/// `[0, PROGRESS_SCALE]`.
#[derive(Debug, Clone, Copy, PartialEq, Eq, Structural)]
pub struct PollResponse {
    pub status: JobStatus,
    pub progress: u64,
}

/// What the controller reports to the progress sink after one poll: a
/// strictly positive gain, or an explicit reset after a backend restart.
#[derive(Debug, Clone, Copy, PartialEq, Eq, Structural)]
pub enum ProgressEvent {
    Delta(u64),
    Reset,
}

/// Where the lifecycle of the one in-flight job stands.
#[derive(Debug, Clone, Copy, PartialEq, Eq, Structural)]
pub enum Phase {
    Polling,
    Finished,
    Aborted,
    TimedOut,
    Cancelled,
}

/// The tracked progress after one poll answer: a restart resets it, a
/// terminal failure leaves it, and otherwise it is the maximum seen so far.
pub open spec fn next_best(best: nat, r: PollResponse) -> nat {
    match r.status {
        JobStatus::Restarted => 0,
        JobStatus::Aborted => best,
        JobStatus::TimedOut => best,
        _ => if r.progress > best {
            r.progress as nat
        } else {
            best
        },
    }
}

/// The event one poll answer emits: a reset on restart, a delta on strict
/// gain, nothing otherwise.
pub open spec fn event_of(best: nat, r: PollResponse) -> Option<ProgressEvent> {
    match r.status {
        JobStatus::Restarted => Some(ProgressEvent::Reset),
        JobStatus::Aborted => None,
        JobStatus::TimedOut => None,
        _ => if r.progress > best {
            Some(ProgressEvent::Delta((r.progress - best) as u64))
        } else {
            None
        },
    }
}

/// The phase after one poll answer.
pub open spec fn phase_after(r: PollResponse) -> Phase {
    match r.status {
        JobStatus::Finished => Phase::Finished,
        JobStatus::Aborted => Phase::Aborted,
        JobStatus::TimedOut => Phase::TimedOut,
        _ => Phase::Polling,
    }
}

/// The events a whole sequence of poll answers emits, starting from
/// tracked progress `best`.
pub open spec fn run_events(best: nat, rs: Seq<PollResponse>) -> Seq<ProgressEvent>
    decreases rs.len(),
{
    if rs.len() == 0 {
        Seq::empty()
    } else {
        (match event_of(best, rs[0]) {
            Some(e) => seq![e],
            None => Seq::empty(),
        }) + run_events(next_best(best, rs[0]), rs.drop_first())
    }
}

/// The tracked progress after a whole sequence of poll answers.
pub open spec fn run_best(best: nat, rs: Seq<PollResponse>) -> nat
    decreases rs.len(),
{
    if rs.len() == 0 {
        best
    } else {
        run_best(next_best(best, rs[0]), rs.drop_first())
    }
}

/// The sum of the deltas in an event sequence; resets contribute nothing.
pub open spec fn sum_deltas(es: Seq<ProgressEvent>) -> int
    decreases es.len(),
{
    if es.len() == 0 {
        0int
    } else {
        (match es[0] {
            ProgressEvent::Delta(d) => d as int,
            ProgressEvent::Reset => 0int,
        }) + sum_deltas(es.drop_first())
    }
}

/// How many resets an event sequence holds.
pub open spec fn count_resets(es: Seq<ProgressEvent>) -> nat
    decreases es.len(),
{
    if es.len() == 0 {
        0
    } else {
        (match es[0] {
            ProgressEvent::Reset => 1nat,
            ProgressEvent::Delta(_) => 0nat,
        }) + count_resets(es.drop_first())
    }
}

/// No answer in the sequence reports a restart.
pub open spec fn no_restart(rs: Seq<PollResponse>) -> bool {
    forall|k: int| 0 <= k < rs.len() ==> (#[trigger] rs[k]).status != JobStatus::Restarted
}

/// Every answer in the sequence reports ordinary progress: running or
/// finished.
pub open spec fn progress_reports(rs: Seq<PollResponse>) -> bool {
    forall|k: int|
        0 <= k < rs.len() ==> ((#[trigger] rs[k]).status == JobStatus::Running || rs[k].status
            == JobStatus::Finished)
}

/// The reported progress values never decrease along the sequence.
pub open spec fn nondecreasing(rs: Seq<PollResponse>) -> bool {
    forall|k1: int, k2: int|
        0 <= k1 <= k2 < rs.len() ==> (#[trigger] rs[k1]).progress <= (#[trigger] rs[k2]).progress
}

/// Law (restart-free accounting): over any restart-free answer sequence
/// the tracked progress never falls, the emitted deltas sum exactly to the
/// tracked gain, and no reset is emitted.
pub proof fn lemma_deltas_sum_to_gain(best: nat, rs: Seq<PollResponse>)
    requires
        no_restart(rs),
    ensures
        run_best(best, rs) >= best,
        sum_deltas(run_events(best, rs)) == run_best(best, rs) - best,
        count_resets(run_events(best, rs)) == 0,
    decreases rs.len(),
{
    if rs.len() == 0 {
    } else {
        let nb = next_best(best, rs[0]);
        assert(no_restart(rs.drop_first())) by {
            assert(forall|k: int|
                0 <= k < rs.drop_first().len() ==> (#[trigger] rs.drop_first()[k]) == rs[k + 1]);
        }
        lemma_deltas_sum_to_gain(nb, rs.drop_first());
        match event_of(best, rs[0]) {
            Some(e) => {
                assert(run_events(best, rs) == seq![e] + run_events(nb, rs.drop_first()));
                assert((seq![e] + run_events(nb, rs.drop_first()))[0] == e);
                assert((seq![e] + run_events(nb, rs.drop_first())).drop_first() =~= run_events(
                    nb,
                    rs.drop_first(),
                ));
            },
            None => {
                assert(run_events(best, rs) =~= run_events(nb, rs.drop_first()));
            },
        }
    }
}

/// Tracked progress over a run splits at any cut of the answer sequence,
/// and so does the emitted event sequence.
pub proof fn lemma_run_split(best: nat, a: Seq<PollResponse>, b: Seq<PollResponse>)
    ensures
        run_events(best, a + b) == run_events(best, a) + run_events(run_best(best, a), b),
        run_best(best, a + b) == run_best(run_best(best, a), b),
    decreases a.len(),
{
    if a.len() == 0 {
        assert(a + b =~= b);
        assert(run_events(best, a) + run_events(run_best(best, a), b) =~= run_events(best, b));
    } else {
        assert((a + b)[0] == a[0]);
        assert((a + b).len() > 0);
        assert((a + b).drop_first() =~= a.drop_first() + b);
        lemma_run_split(next_best(best, a[0]), a.drop_first(), b);
        assert(run_events(best, a + b) =~= run_events(best, a) + run_events(
            run_best(best, a),
            b,
        ));
    }
}

/// Under non-decreasing ordinary progress the tracked progress after the
/// run is the last reported value.
pub proof fn lemma_run_best_last(best: nat, rs: Seq<PollResponse>)
    requires
        progress_reports(rs),
        nondecreasing(rs),
        rs.len() > 0,
        best <= rs[0].progress,
    ensures
        run_best(best, rs) == rs.last().progress,
    decreases rs.len(),
{
    let nb = next_best(best, rs[0]);
    assert(rs[0].status == JobStatus::Running || rs[0].status == JobStatus::Finished);
    assert(nb == rs[0].progress);
    if rs.len() == 1 {
        assert(rs.last() == rs[0]);
        assert(rs.drop_first() =~= Seq::<PollResponse>::empty());
        assert(run_best(nb, rs.drop_first()) == nb);
    } else {
        assert(progress_reports(rs.drop_first()) && nondecreasing(rs.drop_first())) by {
            assert(forall|k: int|
                0 <= k < rs.drop_first().len() ==> (#[trigger] rs.drop_first()[k]) == rs[k + 1]);
        }
        assert(rs.drop_first()[0] == rs[1]);
        assert(rs[0].progress <= rs[1].progress);
        lemma_run_best_last(nb, rs.drop_first());
        assert(rs.drop_first().last() == rs.last());
    }
}

/// Resets in an event sequence count across concatenation.
proof fn lemma_count_resets_concat(a: Seq<ProgressEvent>, b: Seq<ProgressEvent>)
    ensures
        count_resets(a + b) == count_resets(a) + count_resets(b),
    decreases a.len(),
{
    if a.len() == 0 {
        assert(a + b =~= b);
    } else {
        assert((a + b)[0] == a[0]);
        assert((a + b).drop_first() =~= a.drop_first() + b);
        lemma_count_resets_concat(a.drop_first(), b);
    }
}

/// Law (progress accounting): for a poll history made of a restart-free
/// prefix, one restart, and a restart-free, non-decreasing tail of
/// ordinary reports, the emitted events are exactly the prefix's events,
/// one reset at that point, and the tail's events; the reset is the only
/// one; and the deltas after the reset sum exactly to the final reported
/// progress.
pub proof fn lemma_progress_accounting(
    pre: Seq<PollResponse>,
    restart: PollResponse,
    post: Seq<PollResponse>,
)
    requires
        no_restart(pre),
        restart.status == JobStatus::Restarted,
        progress_reports(post),
        nondecreasing(post),
        post.len() > 0,
    ensures
        run_events(0, pre + seq![restart] + post) == run_events(0, pre) + seq![
            ProgressEvent::Reset,
        ] + run_events(0, post),
        count_resets(run_events(0, pre + seq![restart] + post)) == 1,
        sum_deltas(run_events(0, post)) == post.last().progress,
{
    let mid = seq![restart] + post;
    assert((pre + seq![restart] + post) =~= pre + mid);
    lemma_run_split(0, pre, mid);
    let rb = run_best(0, pre);
    assert(mid[0] == restart);
    assert(mid.drop_first() =~= post);
    assert(event_of(rb, restart) == Some(ProgressEvent::Reset));
    assert(next_best(rb, restart) == 0);
    assert(run_events(rb, mid) == seq![ProgressEvent::Reset] + run_events(0, post));
    assert(run_events(0, pre + seq![restart] + post) =~= run_events(0, pre) + seq![
        ProgressEvent::Reset,
    ] + run_events(0, post));
    lemma_deltas_sum_to_gain(0, pre);
    assert(no_restart(post)) by {
        assert(forall|k: int|
            0 <= k < post.len() ==> ((#[trigger] post[k]).status == JobStatus::Running
                || post[k].status == JobStatus::Finished));
    }
    lemma_deltas_sum_to_gain(0, post);
    lemma_run_best_last(0, post);
    lemma_count_resets_concat(run_events(0, pre), seq![ProgressEvent::Reset] + run_events(0, post));
    lemma_count_resets_concat(seq![ProgressEvent::Reset], run_events(0, post));
    assert(count_resets(seq![ProgressEvent::Reset]) == 1) by {
        assert(seq![ProgressEvent::Reset][0] == ProgressEvent::Reset);
        assert(seq![ProgressEvent::Reset].drop_first() =~= Seq::<ProgressEvent>::empty());
        assert(count_resets(Seq::<ProgressEvent>::empty()) == 0);
    }
}

/// The opaque identifier the backend hands out for a submitted job; used
/// for every later poll and cancel call.
#[derive(Debug, Clone, PartialEq, Eq)]
pub struct JobHandle {
    pub id: String,
}

/// Turns the backend's submission answer into a job handle: an answer
/// without a job identifier is a protocol error.
pub fn accept_submission(job_id: Option<String>) -> (r: Result<JobHandle, Error>)
    ensures
        job_id matches Some(id) ==> r matches Ok(h) && h.id == id,
        job_id is None ==> (r matches Err(e) && (e matches Error::Protocol { detail } && detail@
            == "the backend response did not carry a job id"@)),
{
    match job_id {
        Some(id) => Ok(JobHandle { id }),
        None => Err(
            Error::Protocol {
                detail: String::from_str("the backend response did not carry a job id"),
            },
        ),
    }
}

/// The outcome of a run that reached a terminal phase: completion and
/// user-requested cancellation are both non-error outcomes, and they are
/// distinct.
#[derive(Debug, Clone, Copy, PartialEq, Eq, Structural)]
pub enum RunOutcome {
    Completed,
    CancelledByUser,
}

/// Tracks the one in-flight job of a run: the current phase and the
/// highest progress fraction observed since the last restart.
#[derive(Debug, Clone, Copy, PartialEq, Eq, Structural)]
pub struct Controller {
    pub phase: Phase,
    pub best: u64,
}

impl Controller {
    /// The tracked progress is a fraction.
    pub open spec fn wf(&self) -> bool {
        self.best <= PROGRESS_SCALE
    }

    /// A controller for a freshly submitted job: polling, nothing seen.
    pub fn new() -> (c: Controller)
        ensures
            c.phase == Phase::Polling,
            c.best == 0,
            c.wf(),
    {
        Controller { phase: Phase::Polling, best: 0 }
    }

    /// The cancellation check at a poll boundary: with a pending request
    /// the controller moves to `Cancelled` and tells the caller to issue
    /// the backend cancel call instead of polling further.
    pub fn check_cancel(&mut self, cancel_requested: bool) -> (do_cancel: bool)
        requires
            old(self).phase == Phase::Polling,
        ensures
            do_cancel == cancel_requested,
            cancel_requested ==> final(self).phase == Phase::Cancelled,
            !cancel_requested ==> final(self).phase == Phase::Polling,
            final(self).best == old(self).best,
    {
        if cancel_requested {
            self.phase = Phase::Cancelled;
        }
        cancel_requested
    }

    /// Feeds one poll answer to the controller: the tracked progress, the
    /// emitted event and the next phase are exactly the step functions the
    /// progress-accounting law is stated over.
    pub fn on_response(&mut self, resp: &PollResponse) -> (ev: Option<ProgressEvent>)
        requires
            old(self).phase == Phase::Polling,
            old(self).wf(),
            resp.progress <= PROGRESS_SCALE,
        ensures
            final(self).best == next_best(old(self).best as nat, *resp),
            ev == event_of(old(self).best as nat, *resp),
            final(self).phase == phase_after(*resp),
            final(self).wf(),
    {
        match resp.status {
            JobStatus::Restarted => {
                self.best = 0;
                Some(ProgressEvent::Reset)
            },
            JobStatus::Aborted => {
                self.phase = Phase::Aborted;
                None
            },
            JobStatus::TimedOut => {
                self.phase = Phase::TimedOut;
                None
            },
            JobStatus::Running => {
                if resp.progress > self.best {
                    let d: u64 = resp.progress - self.best;
                    self.best = resp.progress;
                    Some(ProgressEvent::Delta(d))
                } else {
                    None
                }
            },
            JobStatus::Finished => {
                self.phase = Phase::Finished;
                if resp.progress > self.best {
                    let d: u64 = resp.progress - self.best;
                    self.best = resp.progress;
                    Some(ProgressEvent::Delta(d))
                } else {
                    None
                }
            },
        }
    }

    /// Maps the terminal phase of a run to its outcome: finishing and
    /// user-requested cancellation succeed (distinctly), an aborted or
    /// timed-out job is a backend error, and there are no retries.
    pub fn conclude(&self) -> (r: Result<RunOutcome, Error>)
        requires
            self.phase != Phase::Polling,
        ensures
            self.phase == Phase::Finished ==> r == Ok::<RunOutcome, Error>(RunOutcome::Completed),
            self.phase == Phase::Cancelled ==> r == Ok::<RunOutcome, Error>(
                RunOutcome::CancelledByUser,
            ),
            self.phase == Phase::Aborted ==> (r matches Err(e) && e matches Error::Backend {
                detail,
            } && detail@ == "the job was aborted"@),
            self.phase == Phase::TimedOut ==> (r matches Err(e) && e matches Error::Backend {
                detail,
            } && detail@ == "the job timed out"@),
    {
        match self.phase {
            Phase::Finished => Ok(RunOutcome::Completed),
            Phase::Cancelled => Ok(RunOutcome::CancelledByUser),
            Phase::Aborted => Err(
                Error::Backend { detail: String::from_str("the job was aborted") },
            ),
            Phase::TimedOut => Err(
                Error::Backend { detail: String::from_str("the job timed out") },
            ),
            // The precondition rules a still-polling controller out.
            Phase::Polling => Err(
                Error::Backend { detail: String::from_str("the job was aborted") },
            ),
        }
    }
}

} // verus!
