use vstd::prelude::*;

verus! {

/// Identifies an event source.
pub type Token = usize;

/// Bit of interest in write events.
pub const WRITABLE: u8 = 0b0000_0001;

/// Bit of interest in read events.
pub const READABLE: u8 = 0b0000_0010;

/// Interest in read events, write events, or both.
pub struct Interests(u8);

impl View for Interests {
    type V = u8;

    closed spec fn view(&self) -> u8 {
        self.0
    }
}

impl Interests {
    /// Interest in read events.
    pub fn readable() -> (i: Interests)
        ensures
            i@ == READABLE,
    {
        Interests(READABLE)
    }

    /// Interest in write events.
    pub fn writable() -> (i: Interests)
        ensures
            i@ == WRITABLE,
    {
        Interests(WRITABLE)
    }

    /// The interest covers read events.
    pub fn is_readable(&self) -> (r: bool)
        ensures
            r == (self@ & READABLE != 0),
    {
        self.0 & READABLE != 0
    }

    /// The interest covers write events.
    pub fn is_writable(&self) -> (r: bool)
        ensures
            r == (self@ & WRITABLE != 0),
    {
        self.0 & WRITABLE != 0
    }
}

/// Read interest is never write interest, and the other way round.
pub proof fn lemma_interests_disjoint()
    ensures
        READABLE & WRITABLE == 0,
        READABLE & READABLE != 0,
        WRITABLE & WRITABLE != 0,
{
    assert(READABLE & WRITABLE == 0) by (bit_vector);
    assert(READABLE & READABLE != 0) by (bit_vector);
    assert(WRITABLE & WRITABLE != 0) by (bit_vector);
}

/// What registering interest in a source does.
#[derive(PartialEq, Eq, Structural, Clone, Copy, Debug)]
pub enum Registration {
    /// The event loop is closed: the registration is refused.
    Closed,
    /// Register for read events where `read`, and for write events where `write`.
    Register { read: bool, write: bool },
}

/// The registration of the interest bits `interests`: refused once the loop is closed,
/// otherwise one registration per kind of event that the interest covers.
pub open spec fn registration_of(closed: bool, interests: u8) -> Registration {
    if closed {
        Registration::Closed
    } else {
        Registration::Register { read: interests & READABLE != 0, write: interests & WRITABLE != 0 }
    }
}

/// Decides a registration: refused once the loop is closed, otherwise one registration per kind
/// of event that the interest covers.
pub fn registration(closed: bool, interests: &Interests) -> (r: Registration)
    ensures
        r == registration_of(closed, interests@),
{
    if closed {
        return Registration::Closed;
    }
    Registration::Register { read: interests.is_readable(), write: interests.is_writable() }
}

/// How one wait for events ended.
#[derive(PartialEq, Eq, Structural, Clone, Copy, Debug)]
pub enum WaitOutcome {
    /// Events (possibly none) were delivered.
    Delivered,
    /// A signal interrupted the wait.
    Interrupted,
    /// The wait failed otherwise.
    Failed,
}

/// What polling does after one wait.
#[derive(PartialEq, Eq, Structural, Clone, Copy, Debug)]
pub enum PollStep {
    /// Wait again.
    Retry,
    /// Report the failure of the wait.
    Fail,
    /// Report that the loop was closed.
    Closed,
    /// Report this many events.
    Events(usize),
}

/// What polling does after a wait that ended with `outcome`: interrupted waits are retried,
/// failed ones reported, and delivered events are reported unless the loop was closed.
pub open spec fn poll_step_of(outcome: WaitOutcome, closed: bool, delivered: usize) -> PollStep {
    match outcome {
        WaitOutcome::Interrupted => PollStep::Retry,
        WaitOutcome::Failed => PollStep::Fail,
        WaitOutcome::Delivered => if closed {
            PollStep::Closed
        } else {
            PollStep::Events(delivered)
        },
    }
}

/// Decides what polling does after a wait that ended with `outcome`, given whether the loop was
/// closed meanwhile and how many events were delivered: interrupted waits are retried, failed
/// ones reported, and delivered events are reported unless the loop was closed.
pub fn poll_step(outcome: WaitOutcome, closed: bool, delivered: usize) -> (r: PollStep)
    ensures
        r == poll_step_of(outcome, closed, delivered),
{
    match outcome {
        WaitOutcome::Interrupted => PollStep::Retry,
        WaitOutcome::Failed => PollStep::Fail,
        WaitOutcome::Delivered => if closed {
            PollStep::Closed
        } else {
            PollStep::Events(delivered)
        },
    }
}

/// The timeout argument of a wait for events, in milliseconds: `-1`, waiting for ever, where no
/// timeout is given; otherwise the timeout's milliseconds truncated to an `i32`.
pub fn wait_timeout(timeout_ms: Option<u128>) -> (r: i32)
    ensures
        timeout_ms is None ==> r == -1,
        timeout_ms is Some ==> r == timeout_ms.unwrap() as i32,
{
    match timeout_ms {
        None => -1,
        Some(ms) => ms as i32,
    }
}

/// What closing the event loop does.
#[derive(PartialEq, Eq, Structural, Clone, Copy, Debug)]
pub enum Closing {
    /// The loop was closed before: the request is refused.
    AlreadyClosed,
    /// Mark the loop closed and wake the waiting poll.
    Close,
}

/// What closing does, given whether the loop was closed before.
pub open spec fn closing_of(closed: bool) -> Closing {
    if closed {
        Closing::AlreadyClosed
    } else {
        Closing::Close
    }
}

/// Decides a request to close the loop: the loop is closed afterwards in any case, and the
/// request is refused where it was closed before.
pub fn close_step(closed: bool) -> (r: (bool, Closing))
    ensures
        r.0,
        r.1 == closing_of(closed),
{
    if closed {
        (true, Closing::AlreadyClosed)
    } else {
        (true, Closing::Close)
    }
}

/// A request made to the event loop.
pub enum LoopEvent {
    /// Register interest, given by its bits.
    Register(u8),
    /// Close the loop.
    Close,
    /// A wait for events ended with this outcome and this many events.
    Wait(WaitOutcome, usize),
}

/// The answer of the event loop to a request.
pub enum LoopReply {
    Registered(Registration),
    Closing(Closing),
    Polled(PollStep),
}

/// The answer to `e` of a loop that is closed where `closed`.
pub open spec fn reply_of(closed: bool, e: LoopEvent) -> LoopReply {
    match e {
        LoopEvent::Register(interests) => LoopReply::Registered(registration_of(closed, interests)),
        LoopEvent::Close => LoopReply::Closing(closing_of(closed)),
        LoopEvent::Wait(outcome, delivered) => LoopReply::Polled(
            poll_step_of(outcome, closed, delivered),
        ),
    }
}

/// Whether the loop is closed after `e`: closing is the only request that changes it.
pub open spec fn closed_after(closed: bool, e: LoopEvent) -> bool {
    closed || e is Close
}

/// The answers to `events`, in order, of a loop that starts closed where `closed`.
pub open spec fn run_loop(closed: bool, events: Seq<LoopEvent>) -> Seq<LoopReply>
    decreases events.len(),
{
    if events.len() == 0 {
        Seq::empty()
    } else {
        seq![reply_of(closed, events[0])] + run_loop(
            closed_after(closed, events[0]),
            events.drop_first(),
        )
    }
}

proof fn lemma_run_loop_shape(closed: bool, events: Seq<LoopEvent>)
    ensures
        run_loop(closed, events).len() == events.len(),
        closed ==> forall|i: int|
            0 <= i < events.len() ==> #[trigger] run_loop(closed, events)[i] == reply_of(
                true,
                events[i],
            ),
    decreases events.len(),
{
    if events.len() > 0 {
        lemma_run_loop_shape(closed_after(closed, events[0]), events.drop_first());
        if closed {
            assert forall|i: int| 0 <= i < events.len() implies #[trigger] run_loop(
                closed,
                events,
            )[i] == reply_of(true, events[i]) by {
                if i > 0 {
                    assert(run_loop(closed, events)[i] == run_loop(true, events.drop_first())[i
                        - 1]);
                    assert(events.drop_first()[i - 1] == events[i]);
                }
            }
        }
    }
}

proof fn lemma_run_loop_after_close(closed: bool, events: Seq<LoopEvent>, k: int, i: int)
    requires
        0 <= k < i < events.len(),
        events[k] is Close,
    ensures
        run_loop(closed, events)[i] == reply_of(true, events[i]),
    decreases k,
{
    lemma_run_loop_shape(closed, events);
    let rest = events.drop_first();
    lemma_run_loop_shape(closed_after(closed, events[0]), rest);
    assert(run_loop(closed, events)[i] == run_loop(closed_after(closed, events[0]), rest)[i - 1]);
    assert(rest[i - 1] == events[i]);
    if k == 0 {
        assert(closed_after(closed, events[0]));
    } else {
        assert(rest[k - 1] == events[k]);
        lemma_run_loop_after_close(closed_after(closed, events[0]), rest, k - 1, i - 1);
    }
}

/// Once the loop is closed, it stays closed: from a closed start, or after any request to close,
/// every later registration is refused, every later request to close is refused, and every later
/// completed wait reports the loop closed (interrupted waits are still retried, failed ones still
/// reported).
pub proof fn lemma_closed_loop_refuses(closed: bool, events: Seq<LoopEvent>, i: int)
    requires
        0 <= i < events.len(),
        closed || exists|k: int| 0 <= k < i && #[trigger] events[k] is Close,
    ensures
        run_loop(closed, events).len() == events.len(),
        run_loop(closed, events)[i] == reply_of(true, events[i]),
        events[i] is Register ==> run_loop(closed, events)[i] == LoopReply::Registered(
            Registration::Closed,
        ),
        events[i] is Close ==> run_loop(closed, events)[i] == LoopReply::Closing(
            Closing::AlreadyClosed,
        ),
        events[i] matches LoopEvent::Wait(WaitOutcome::Delivered, _) ==> run_loop(closed, events)[i]
            == LoopReply::Polled(PollStep::Closed),
{
    lemma_run_loop_shape(closed, events);
    if !closed {
        let k = choose|k: int| 0 <= k < i && #[trigger] events[k] is Close;
        lemma_run_loop_after_close(closed, events, k, i);
    }
}

/// What a poll reports after one wait: only an interrupted wait is waited again; a wait that
/// delivered events on an open loop reports exactly how many were delivered, zero included (a
/// wait whose timeout expired with nothing to report returns at once with none); a failed wait
/// is reported as a failure, and a completed wait on a closed loop reports the loop closed.
pub proof fn lemma_poll_reports(outcome: WaitOutcome, closed: bool, delivered: usize)
    ensures
        poll_step_of(outcome, closed, delivered) == PollStep::Retry <==> outcome
            == WaitOutcome::Interrupted,
        outcome == WaitOutcome::Delivered && !closed ==> poll_step_of(outcome, closed, delivered)
            == PollStep::Events(delivered),
        poll_step_of(outcome, closed, delivered) is Events ==> outcome == WaitOutcome::Delivered
            && !closed && poll_step_of(outcome, closed, delivered)->Events_0 == delivered,
        poll_step_of(outcome, closed, delivered) == PollStep::Fail <==> outcome == WaitOutcome::Failed,
        poll_step_of(outcome, closed, delivered) == PollStep::Closed <==> (outcome
            == WaitOutcome::Delivered && closed),
{
}

/// On an open loop, interest in read events registers for read events only, and interest in
/// write events for write events only; on a closed loop every interest is refused.
pub proof fn lemma_registration_follows_interest(interests: u8)
    ensures
        registration_of(false, READABLE) == (Registration::Register { read: true, write: false }),
        registration_of(false, WRITABLE) == (Registration::Register { read: false, write: true }),
        registration_of(true, interests) == Registration::Closed,
        registration_of(false, interests) is Register,
{
    lemma_interests_disjoint();
    assert(WRITABLE & READABLE == 0) by (bit_vector);
}

} // verus!
