//! The asynchronous task bridge.
//!
//! A [`Task`] exposes one in-flight host-side computation to a foreign
//! caller that can only poll synchronously. The foreign side stores a
//! continuation with each poll; the host side answers it exactly once per
//! poll, with [`PollCode::Wake`] ("poll again") or [`PollCode::Ready`]
//! ("call `complete`").
//!
//! The task itself is a state machine; everything it decides is in this
//! module and verified. What it cannot do itself — running the underlying
//! computation for one step, and calling the foreign continuation — is
//! returned to the caller as data: [`Task::begin_poll`] hands out the
//! computation for one drive attempt and [`Task::finish_poll`] takes the
//! attempt's outcome back; every operation returns the at most one
//! [`Invocation`] that the caller must forward to the foreign continuation.
//! Wake-ups arriving from other threads funnel into [`Task::wake`] under
//! the same lock that serializes all the operations here.
//!
//! Every transition is also available as a specification-level function
//! ([`begin_poll_transition`] and its siblings); the lemmas at the end of
//! the module state the protocol's laws over those transitions.

use vstd::prelude::*;
use vstd::pervasive::unreached;

use crate::status::outcome_encodable;
use crate::status::settle_call;
use crate::status::settled;
use crate::status::CallOutcome;
use crate::status::CallStatus;
use crate::status::CallStatusCode;

verus! {

/// The code passed to a stored continuation: `Wake` asks the foreign caller
/// to poll again; `Ready` says the result is ready to `complete`.
#[derive(Debug, Clone, Copy, PartialEq, Eq, Structural)]
pub enum PollCode {
    Wake,
    Ready,
}

/// One continuation invocation owed to the foreign side: call the
/// continuation registered under `context` with `code`.
#[derive(Debug, Clone, Copy, PartialEq, Eq, Structural)]
pub struct Invocation {
    pub context: u64,
    pub code: PollCode,
}

/// What one drive attempt of the underlying computation came to: not ready
/// yet (hand the computation back), or finished with an outcome.
pub enum DriveOutcome<C> {
    Pending(C),
    Ready(CallOutcome),
}

/// What a poll asks its caller to do: forward `invoke` to the continuation
/// if set, and drive `drive` for one attempt — then report back through
/// [`Task::finish_poll`] — if set.
pub struct PollStart<C> {
    pub invoke: Option<Invocation>,
    pub drive: Option<C>,
}

/// One in-flight asynchronous computation exposed to a foreign caller.
///
/// `C` is the underlying computation, owned by the task between polls and
/// dropped — releasing whatever it holds — as soon as the task is
/// cancelled, completed or freed, however many outside references to the
/// task itself remain.
pub struct Task<C> {
    /// The computation, until it finishes or is dropped; `None` while a
    /// drive attempt has it, and forever once the task is done with it.
    pub computation: Option<C>,
    /// A drive attempt is in progress: `begin_poll` has handed the
    /// computation out and `finish_poll` has not yet taken the outcome.
    pub driving: bool,
    /// The computation's outcome, once it finished, until `complete`.
    pub result: Option<CallOutcome>,
    /// `cancel` was called and `complete` has not yet reported it.
    pub cancelled: bool,
    /// `complete` or `free` was called: the terminal state.
    pub finished: bool,
    /// The stored continuation's context word, if one awaits invocation.
    pub continuation: Option<u64>,
    /// A wake-up arrived while no continuation was stored; the next poll
    /// is answered `Wake` immediately.
    pub pending_wake: bool,
}

impl<C> Task<C> {
    /// The state invariant: every operation preserves it.
    pub open spec fn wf(self) -> bool {
        &&& self.driving ==> self.computation is None && self.result is None && !self.finished
        &&& self.result is Some ==> self.computation is None && !self.driving && !self.cancelled
            && self.continuation is None && !self.pending_wake
        &&& self.finished ==> self.computation is None && self.continuation is None
            && !self.driving && !self.pending_wake
        &&& self.cancelled ==> self.computation is None && self.result is None
            && self.continuation is None && !self.pending_wake
        &&& (!self.driving && !self.finished && !self.cancelled && self.result is None)
            ==> self.computation is Some
        &&& self.result is Some ==> outcome_encodable(self.result.unwrap())
    }

    /// Waiting for a poll, with the computation neither finished nor
    /// dropped.
    pub open spec fn idle(self) -> bool {
        !self.driving && !self.finished && !self.cancelled && self.result is None
    }

    /// Wraps a computation into a task awaiting its first poll.
    pub fn new(computation: C) -> (t: Task<C>)
        ensures
            t == (Task {
                computation: Some(computation),
                driving: false,
                result: None::<CallOutcome>,
                cancelled: false,
                finished: false,
                continuation: None::<u64>,
                pending_wake: false,
            }),
            t.wf(),
            t.idle(),
    {
        Task {
            computation: Some(computation),
            driving: false,
            result: None,
            cancelled: false,
            finished: false,
            continuation: None,
            pending_wake: false,
        }
    }

    /// Stores the continuation for one poll and hands out what the caller
    /// must do. Behaves exactly like [`begin_poll_transition`].
    ///
    /// If a result is already there, or the task is cancelled, the
    /// continuation is answered `Ready` at once and nothing is driven. If a
    /// wake-up was already pending, the continuation is answered `Wake` at
    /// once — and the computation is still driven, so the answer to this
    /// poll never comes twice. Otherwise the continuation is stored, to be
    /// answered by the drive attempt's outcome or by a later wake-up.
    pub fn begin_poll(&mut self, context: u64) -> (r: PollStart<C>)
        requires
            old(self).wf(),
            !old(self).finished,
            !old(self).driving,
            old(self).continuation is None,
        ensures
            final(self).wf(),
            (*final(self), r) == begin_poll_transition(*old(self), context),
    {
        if self.result.is_some() || self.cancelled {
            return PollStart {
                invoke: Some(Invocation { context, code: PollCode::Ready }),
                drive: None,
            };
        }
        let computation = self.computation.take();
        self.driving = true;
        if self.pending_wake {
            self.pending_wake = false;
            PollStart {
                invoke: Some(Invocation { context, code: PollCode::Wake }),
                drive: computation,
            }
        } else {
            self.continuation = Some(context);
            PollStart { invoke: None, drive: computation }
        }
    }

    /// Takes back the outcome of the drive attempt that `begin_poll`
    /// handed out. Behaves exactly like [`finish_poll_transition`].
    ///
    /// A pending computation is stored again for the next poll. A finished
    /// one has its outcome recorded, and the stored continuation — unless
    /// a wake-up already consumed it during the attempt — is answered
    /// `Ready`. If the task was cancelled during the attempt, the outcome
    /// is discarded and the computation stays dropped.
    pub fn finish_poll(&mut self, outcome: DriveOutcome<C>) -> (r: Option<Invocation>)
        requires
            old(self).wf(),
            old(self).driving,
            outcome matches DriveOutcome::Ready(res) ==> outcome_encodable(res),
        ensures
            final(self).wf(),
            (*final(self), r) == finish_poll_transition(*old(self), outcome),
    {
        self.driving = false;
        if self.cancelled {
            return None;
        }
        match outcome {
            DriveOutcome::Pending(computation) => {
                self.computation = Some(computation);
                None
            },
            DriveOutcome::Ready(res) => {
                self.result = Some(res);
                self.pending_wake = false;
                match self.continuation.take() {
                    Some(context) => Some(Invocation { context, code: PollCode::Ready }),
                    None => None,
                }
            },
        }
    }

    /// Delivers a wake-up from the computation's side. Behaves exactly
    /// like [`wake_transition`].
    ///
    /// A stored continuation is answered `Wake` — once: the slot is
    /// emptied, so racing wake-ups answer one poll at most once. With no
    /// continuation stored, a live task remembers the wake-up for the next
    /// poll; a cancelled, completed or freed task ignores it.
    pub fn wake(&mut self) -> (r: Option<Invocation>)
        requires
            old(self).wf(),
        ensures
            final(self).wf(),
            (*final(self), r) == wake_transition(*old(self)),
    {
        match self.continuation.take() {
            Some(context) => Some(Invocation { context, code: PollCode::Wake }),
            None => {
                if !self.finished && !self.cancelled && self.result.is_none() {
                    self.pending_wake = true;
                }
                None
            },
        }
    }

    /// Cancels the task cooperatively: the computation is dropped — that
    /// is the whole cancellation mechanism — and a stored continuation is
    /// answered `Ready` at once, so `complete` can collect the
    /// [`CallStatusCode::Cancelled`] status. Behaves exactly like
    /// [`cancel_transition`].
    pub fn cancel(&mut self) -> (r: Option<Invocation>)
        requires
            old(self).wf(),
            !old(self).finished,
            old(self).result is None,
        ensures
            final(self).wf(),
            (*final(self), r) == cancel_transition(*old(self)),
    {
        self.cancelled = true;
        self.computation = None;
        self.pending_wake = false;
        match self.continuation.take() {
            Some(context) => Some(Invocation { context, code: PollCode::Ready }),
            None => None,
        }
    }

    /// Ends the task's life from any non-terminal state. The computation
    /// is dropped whatever outside references to the task remain, and a
    /// continuation still stored is answered `Ready` first, so no caller
    /// is left with a dangling expectation. Behaves exactly like
    /// [`free_transition`].
    pub fn free(&mut self) -> (r: Option<Invocation>)
        requires
            old(self).wf(),
            !old(self).finished,
            !old(self).driving,
        ensures
            final(self).wf(),
            (*final(self), r) == free_transition(*old(self)),
    {
        self.finished = true;
        self.computation = None;
        self.result = None;
        self.pending_wake = false;
        match self.continuation.take() {
            Some(context) => Some(Invocation { context, code: PollCode::Ready }),
            None => None,
        }
    }

    /// Extracts the final value, error or cancellation, reporting it
    /// through the call channel exactly as [`settled`] describes — a
    /// cancelled task reports [`CallStatusCode::Cancelled`] with empty
    /// buffers instead. Valid only once a result is ready or the task is
    /// cancelled; the task becomes terminal, as after [`Task::free`].
    pub fn complete(&mut self, status: &mut CallStatus) -> (r: Vec<u8>)
        requires
            old(self).wf(),
            !old(self).finished,
            !old(self).driving,
            old(self).result is Some || old(self).cancelled,
        ensures
            final(self).wf(),
            *final(self) == (Task { finished: true, result: None::<CallOutcome>, ..*old(self) }),
            old(self).cancelled ==> final(status).code == CallStatusCode::Cancelled,
            old(self).cancelled ==> final(status).error_buf@ == Seq::<u8>::empty(),
            old(self).cancelled ==> r@ == Seq::<u8>::empty(),
            !old(self).cancelled ==> settled(
                old(self).result.unwrap(),
                final(status).code,
                final(status).error_buf@,
                r@,
            ),
    {
        self.finished = true;
        if self.cancelled {
            status.code = CallStatusCode::Cancelled;
            status.error_buf = Vec::new();
            return Vec::new();
        }
        match self.result.take() {
            Some(outcome) => settle_call(outcome, status),
            None => unreached(),
        }
    }
}

/// The transition [`Task::begin_poll`] makes, as a function of the state.
pub open spec fn begin_poll_transition<C>(t: Task<C>, context: u64) -> (Task<C>, PollStart<C>) {
    if t.result is Some || t.cancelled {
        (t, PollStart { invoke: Some(Invocation { context, code: PollCode::Ready }), drive: None })
    } else if t.pending_wake {
        (
            Task { computation: None, driving: true, pending_wake: false, ..t },
            PollStart {
                invoke: Some(Invocation { context, code: PollCode::Wake }),
                drive: t.computation,
            },
        )
    } else {
        (
            Task { computation: None, driving: true, continuation: Some(context), ..t },
            PollStart { invoke: None, drive: t.computation },
        )
    }
}

/// The transition [`Task::finish_poll`] makes, as a function of the state.
pub open spec fn finish_poll_transition<C>(t: Task<C>, outcome: DriveOutcome<C>) -> (
    Task<C>,
    Option<Invocation>,
) {
    if t.cancelled {
        (Task { driving: false, ..t }, None)
    } else {
        match outcome {
            DriveOutcome::Pending(c) => (
                Task { driving: false, computation: Some(c), ..t },
                None,
            ),
            DriveOutcome::Ready(res) => (
                Task {
                    driving: false,
                    result: Some(res),
                    continuation: None,
                    pending_wake: false,
                    ..t
                },
                match t.continuation {
                    Some(context) => Some(Invocation { context, code: PollCode::Ready }),
                    None => None,
                },
            ),
        }
    }
}

/// The transition [`Task::wake`] makes, as a function of the state.
pub open spec fn wake_transition<C>(t: Task<C>) -> (Task<C>, Option<Invocation>) {
    match t.continuation {
        Some(context) => (
            Task { continuation: None, ..t },
            Some(Invocation { context, code: PollCode::Wake }),
        ),
        None => {
            if !t.finished && !t.cancelled && t.result is None {
                (Task { pending_wake: true, ..t }, None)
            } else {
                (t, None)
            }
        },
    }
}

/// The transition [`Task::cancel`] makes, as a function of the state.
pub open spec fn cancel_transition<C>(t: Task<C>) -> (Task<C>, Option<Invocation>) {
    (
        Task {
            cancelled: true,
            computation: None,
            result: None,
            continuation: None,
            pending_wake: false,
            ..t
        },
        match t.continuation {
            Some(context) => Some(Invocation { context, code: PollCode::Ready }),
            None => None,
        },
    )
}

/// The transition [`Task::free`] makes, as a function of the state.
pub open spec fn free_transition<C>(t: Task<C>) -> (Task<C>, Option<Invocation>) {
    (
        Task {
            finished: true,
            computation: None,
            result: None,
            continuation: None,
            pending_wake: false,
            ..t
        },
        match t.continuation {
            Some(context) => Some(Invocation { context, code: PollCode::Ready }),
            None => None,
        },
    )
}

/// A task polled before its computation is ready answers that poll's
/// continuation with `Wake` when the wake-up arrives — and only then: the
/// poll itself promises nothing, and a second wake-up does not invoke the
/// continuation again, so no continuation is ever invoked twice for the
/// same poll.
pub proof fn lemma_poll_then_wake_answers_once<C>(t: Task<C>, context: u64, c: C)
    requires
        t.wf(),
        t.idle(),
        !t.pending_wake,
    ensures
        ({
            let (t1, start) = begin_poll_transition(t, context);
            let (t2, r1) = finish_poll_transition(t1, DriveOutcome::Pending(c));
            let (t3, r2) = wake_transition(t2);
            let (t4, r3) = wake_transition(t3);
            &&& start.invoke is None
            &&& r1 is None
            &&& r2 == Some(Invocation { context, code: PollCode::Wake })
            &&& r3 is None
            &&& t4.wf()
        }),
{
}

/// A task polled after its computation already finished answers that very
/// poll's continuation with `Ready`, and drives nothing.
pub proof fn lemma_poll_after_ready_answers_ready<C>(t: Task<C>, context: u64)
    requires
        t.wf(),
        !t.finished,
        t.result is Some,
    ensures
        ({
            let (t1, start) = begin_poll_transition(t, context);
            &&& start.invoke == Some(Invocation { context, code: PollCode::Ready })
            &&& start.drive is None
            &&& t1 == t
        }),
{
}

/// Cancelling a task with a stored continuation answers it `Ready` at
/// once, drops the computation, and leaves the task cancelled — ready for
/// `complete` to report the Cancelled status.
pub proof fn lemma_cancel_answers_stored_continuation<C>(t: Task<C>, context: u64)
    requires
        t.wf(),
        !t.finished,
        t.result is None,
        t.continuation == Some(context),
    ensures
        ({
            let (t1, invoke) = cancel_transition(t);
            &&& invoke == Some(Invocation { context, code: PollCode::Ready })
            &&& t1.cancelled
            &&& t1.computation is None
            &&& t1.wf()
        }),
{
}

/// Freeing a task always drops the computation — however many outside
/// references to the task remain — and a continuation still stored is
/// answered `Ready`, exactly once: after the free, wake-ups answer
/// nothing.
pub proof fn lemma_free_drops_and_answers_once<C>(t: Task<C>)
    requires
        t.wf(),
        !t.finished,
        !t.driving,
    ensures
        ({
            let (t1, invoke) = free_transition(t);
            &&& t1.computation is None
            &&& t1.finished
            &&& (t.continuation matches Some(context) ==> invoke == Some(
                Invocation { context, code: PollCode::Ready },
            ))
            &&& t.continuation is None ==> invoke is None
            &&& wake_transition(t1).1 is None
            &&& t1.wf()
        }),
{
}

/// A computation that wakes itself during its first drive attempt gets
/// that poll answered `Wake` immediately; the following poll drives again
/// and, the computation now finishing, is answered `Ready` with the
/// outcome recorded for `complete`.
pub proof fn lemma_wake_during_poll_then_ready<C>(
    t: Task<C>,
    first_context: u64,
    second_context: u64,
    c: C,
    res: CallOutcome,
)
    requires
        t.wf(),
        t.idle(),
        !t.pending_wake,
        outcome_encodable(res),
    ensures
        ({
            let (t1, start1) = begin_poll_transition(t, first_context);
            let (t2, woke) = wake_transition(t1);
            let (t3, r1) = finish_poll_transition(t2, DriveOutcome::Pending(c));
            let (t4, start2) = begin_poll_transition(t3, second_context);
            let (t5, r2) = finish_poll_transition(t4, DriveOutcome::Ready(res));
            &&& start1.invoke is None
            &&& woke == Some(Invocation { context: first_context, code: PollCode::Wake })
            &&& r1 is None
            &&& start2.invoke is None
            &&& start2.drive is Some
            &&& r2 == Some(Invocation { context: second_context, code: PollCode::Ready })
            &&& t5.result == Some(res)
            &&& t5.wf()
        }),
{
}

} // verus!
