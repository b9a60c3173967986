use vstd::prelude::*;
use vstd::string::StringExecFns;
use crate::peculiar::{append_digits, decimal_text};

verus! {

/// The Fibonacci numbers, starting 1, 1.
pub open spec fn spec_fib(n: nat) -> nat
    decreases n,
{
    if n <= 2 {
        1
    } else {
        spec_fib((n - 1) as nat) + spec_fib((n - 2) as nat)
    }
}

proof fn lemma_fib_monotonic(i: nat, j: nat)
    requires
        i <= j,
    ensures
        spec_fib(i) <= spec_fib(j),
    decreases j - i,
{
    if i < j {
        lemma_fib_monotonic(i, (j - 1) as nat);
        if j > 2 {
            assert(spec_fib(j) == spec_fib((j - 1) as nat) + spec_fib((j - 2) as nat));
        }
    }
}

/// The `n`-th Fibonacci number, computed by plain recursion.
pub fn fib(n: u32) -> (r: u32)
    requires
        1 <= n,
        spec_fib(n as nat) <= u32::MAX,
    ensures
        r == spec_fib(n as nat),
    decreases n,
{
    if n == 1 || n == 2 {
        1
    } else {
        proof {
            lemma_fib_monotonic((n - 1) as nat, n as nat);
            lemma_fib_monotonic((n - 2) as nat, n as nat);
        }
        fib(n - 1) + fib(n - 2)
    }
}

/// The decimal text of `n`.
fn usize_to_string(n: usize) -> (s: String)
    ensures
        s@ == decimal_text(n as int),
{
    let mut out = String::new();
    append_digits(&mut out, n as u128);
    assert(out@ =~= decimal_text(n as int));
    out
}

/// The pair with the decimal text of `n`: ("key_n", "value_n").
pub open spec fn kv_pair(n: int) -> (Seq<char>, Seq<char>) {
    ("key_"@ + decimal_text(n), "value_"@ + decimal_text(n))
}

/// What the test iterator yields when its index is `index` and its maximum `max`: the pair of
/// the next index while that is at most the maximum, otherwise nothing.
pub open spec fn kv_item(index: nat, max: nat) -> Option<(Seq<char>, Seq<char>)> {
    if index + 1 <= max {
        Some(kv_pair(index + 1 as int))
    } else {
        None
    }
}

/// What `calls` successive calls of `next` yield, from the index `index` and the maximum `max`.
pub open spec fn kv_items(index: nat, max: nat, calls: nat) -> Seq<Option<(Seq<char>, Seq<char>)>>
    decreases calls,
{
    if calls == 0 {
        Seq::empty()
    } else {
        seq![kv_item(index, max)] + kv_items(index + 1, max, (calls - 1) as nat)
    }
}

/// From the start index `i` and the maximum `m`, the `j`-th call of `next` (counting from one)
/// yields the pair of `i + j` while that is at most `m`, and nothing after: exactly `m - i`
/// pairs where `i < m`, and none where `i >= m`.
pub proof fn lemma_kv_items(i: nat, m: nat, calls: nat)
    ensures
        kv_items(i, m, calls).len() == calls,
        forall|j: int|
            1 <= j <= calls ==> #[trigger] kv_items(i, m, calls)[j - 1] == if i + j <= m {
                Some(kv_pair(i + j))
            } else {
                None
            },
        forall|j: int| 1 <= j <= calls ==> (#[trigger] kv_items(i, m, calls)[j - 1] is Some <==> j <= m - i),
    decreases calls,
{
    if calls > 0 {
        lemma_kv_items(i + 1, m, (calls - 1) as nat);
        let items = kv_items(i, m, calls);
        let rest = kv_items(i + 1, m, (calls - 1) as nat);
        assert(items == seq![kv_item(i, m)] + rest);
        assert forall|j: int| 1 <= j <= calls implies #[trigger] items[j - 1] == if i + j <= m {
            Some(kv_pair(i + j))
        } else {
            None
        } by {
            if j > 1 {
                assert(items[j - 1] == rest[j - 2]);
                assert(i + 1 + (j - 1) == i + j);
            }
        }
    }
}

/// Yields the pairs ("key_i", "value_i") for i from one past a start index up to a maximum,
/// reusing its two buffers.
pub struct TestIterator {
    idx: usize,
    max: usize,
    key: String,
    value: String,
}

impl TestIterator {
    /// Pairs for the indices after `idx` up to `max`.
    pub fn new(idx: usize, max: usize) -> (it: Self)
        ensures
            it.index() == idx,
            it.max() == max,
    {
        Self { idx, max, key: String::new(), value: String::new() }
    }

    /// The index of the last pair yielded (or the start index).
    pub closed spec fn index(&self) -> nat {
        self.idx as nat
    }

    /// The last index for which a pair is yielded.
    pub closed spec fn max(&self) -> nat {
        self.max as nat
    }

    /// Whether `next` can be called: the index can still be incremented.
    pub fn can_advance(&self) -> (r: bool)
        ensures
            r == (self.index() < usize::MAX),
    {
        self.idx < usize::MAX
    }

    /// Moves to the next index and yields its pair, or `None` past the maximum.
    pub fn next(&mut self) -> (r: Option<(&str, &str)>)
        requires
            old(self).index() < usize::MAX,
        ensures
            final(self).index() == old(self).index() + 1,
            final(self).max() == old(self).max(),
            (match r {
                None => None,
                Some(p) => Some((p.0@, p.1@)),
            }) == kv_item(old(self).index(), old(self).max()),
            old(self).index() + 1 > old(self).max() ==> r is None,
            old(self).index() + 1 <= old(self).max() ==> r is Some && r.unwrap().0@ == "key_"@
                + decimal_text(final(self).index() as int) && r.unwrap().1@ == "value_"@
                + decimal_text(final(self).index() as int),
    {
        self.idx += 1;
        if self.idx > self.max {
            return None;
        }
        self.key = String::from_str("key_");
        let digits = usize_to_string(self.idx);
        self.key.append(digits.as_str());
        self.value = String::from_str("value_");
        self.value.append(digits.as_str());
        Some((self.key.as_str(), self.value.as_str()))
    }
}

/// The phases of a future that prints its data, waits on a delay, then yields 10.
#[derive(PartialEq, Eq, Structural, Clone, Copy, Debug)]
pub enum DelayFutureState {
    Init,
    Delay,
    Done,
}

/// What the driver of the future does next.
#[derive(PartialEq, Eq, Structural, Clone, Copy, Debug)]
pub enum DelayAction {
    /// Print the data, start the delay, and step again.
    StartDelay,
    /// Poll the delay, and step again with its outcome.
    PollDelay,
    /// Report that the future is pending.
    Pending,
    /// Report that the future is done with this output.
    Ready(u32),
}

/// The output of the delaying future.
pub const DELAY_OUTPUT: u32 = 10;

/// One decision of the delaying future, from its phase and, in the waiting phase, whether the
/// delay was found ready: printing and starting the delay leads to the waiting phase; polling
/// the delay when its outcome is unknown; then pending while it is not ready, and done with the
/// output once it is.
pub open spec fn future_step_of(state: DelayFutureState, delay_ready: Option<bool>) -> (
    DelayFutureState,
    DelayAction,
) {
    match state {
        DelayFutureState::Init => (DelayFutureState::Delay, DelayAction::StartDelay),
        DelayFutureState::Delay => match delay_ready {
            None => (DelayFutureState::Delay, DelayAction::PollDelay),
            Some(true) => (DelayFutureState::Done, DelayAction::Ready(DELAY_OUTPUT)),
            Some(false) => (DelayFutureState::Delay, DelayAction::Pending),
        },
        DelayFutureState::Done => (DelayFutureState::Done, DelayAction::Pending),
    }
}

/// One decision of the delaying future: from its phase, and, in the waiting phase, whether the
/// delay was found ready, to the next phase and what to do. A completed future is never stepped.
pub fn delay_future_step(state: DelayFutureState, delay_ready: Option<bool>) -> (r: (
    DelayFutureState,
    DelayAction,
))
    requires
        state != DelayFutureState::Done,
    ensures
        r == future_step_of(state, delay_ready),
{
    match state {
        DelayFutureState::Init => (DelayFutureState::Delay, DelayAction::StartDelay),
        DelayFutureState::Delay => match delay_ready {
            None => (DelayFutureState::Delay, DelayAction::PollDelay),
            Some(true) => (DelayFutureState::Done, DelayAction::Ready(DELAY_OUTPUT)),
            Some(false) => (DelayFutureState::Delay, DelayAction::Pending),
        },
        DelayFutureState::Done => (DelayFutureState::Done, DelayAction::Pending),
    }
}

/// One poll of the future, driven as its driver drives it (stepping with no outcome known,
/// after starting the delay stepping again, and after polling the delay stepping with what the
/// delay reported, `delay_ready`): the phase afterwards and the actions taken, in order.
pub open spec fn poll_once(state: DelayFutureState, delay_ready: bool) -> (
    DelayFutureState,
    Seq<DelayAction>,
) {
    let (s1, a1) = future_step_of(state, None);
    if a1 == DelayAction::StartDelay {
        let (s2, a2) = future_step_of(s1, None);
        let (s3, a3) = future_step_of(s2, Some(delay_ready));
        (s3, seq![a1, a2, a3])
    } else {
        let (s2, a2) = future_step_of(s1, Some(delay_ready));
        (s2, seq![a1, a2])
    }
}

/// Successive polls of the future, the delay reporting `reports[j]` at the `j`-th: the phase
/// afterwards and the actions of each poll.
pub open spec fn run_polls(state: DelayFutureState, reports: Seq<bool>) -> (
    DelayFutureState,
    Seq<Seq<DelayAction>>,
)
    decreases reports.len(),
{
    if reports.len() == 0 {
        (state, Seq::empty())
    } else {
        let (s, actions) = poll_once(state, reports[0]);
        let (last, polls) = run_polls(s, reports.drop_first());
        (last, seq![actions] + polls)
    }
}

proof fn lemma_polls_while_waiting(reports: Seq<bool>)
    requires
        reports.len() > 0,
        forall|j: int| 0 <= j < reports.len() - 1 ==> !#[trigger] reports[j],
        reports.last(),
    ensures
        run_polls(DelayFutureState::Delay, reports).0 == DelayFutureState::Done,
        run_polls(DelayFutureState::Delay, reports).1.len() == reports.len(),
        forall|j: int|
            0 <= j < reports.len() - 1 ==> #[trigger] run_polls(DelayFutureState::Delay, reports).1[j]
                == seq![DelayAction::PollDelay, DelayAction::Pending],
        run_polls(DelayFutureState::Delay, reports).1.last() == seq![
            DelayAction::PollDelay,
            DelayAction::Ready(DELAY_OUTPUT),
        ],
    decreases reports.len(),
{
    let rest = reports.drop_first();
    if reports.len() == 1 {
        assert(reports[0]);
        assert(run_polls(DelayFutureState::Done, rest).1 =~= Seq::<Seq<DelayAction>>::empty());
    } else {
        assert(!reports[0]);
        assert forall|j: int| 0 <= j < rest.len() - 1 implies !#[trigger] rest[j] by {
            assert(rest[j] == reports[j + 1]);
        }
        assert(rest.last() == reports.last());
        lemma_polls_while_waiting(rest);
        let polls = run_polls(DelayFutureState::Delay, reports).1;
        let later = run_polls(DelayFutureState::Delay, rest).1;
        assert(polls == seq![seq![DelayAction::PollDelay, DelayAction::Pending]] + later);
        assert forall|j: int| 0 <= j < reports.len() - 1 implies #[trigger] polls[j] == seq![
            DelayAction::PollDelay,
            DelayAction::Pending,
        ] by {
            if j > 0 {
                assert(polls[j] == later[j - 1]);
            }
        }
        assert(polls.last() == later.last());
    }
}

/// Polling the future from its start, while the delay reports not ready and then ready: the
/// first poll prints the data and starts the delay, and no later poll does; every poll before
/// the delay is ready is pending; the poll at which it is ready yields the output, 10, once, and
/// leaves the future done, which is never stepped again.
pub proof fn lemma_delay_future_polls(reports: Seq<bool>)
    requires
        reports.len() > 0,
        forall|j: int| 0 <= j < reports.len() - 1 ==> !#[trigger] reports[j],
        reports.last(),
    ensures
        run_polls(DelayFutureState::Init, reports).0 == DelayFutureState::Done,
        run_polls(DelayFutureState::Init, reports).1.len() == reports.len(),
        run_polls(DelayFutureState::Init, reports).1[0][0] == DelayAction::StartDelay,
        forall|j: int, k: int|
            0 < j < reports.len() && 0 <= k < run_polls(DelayFutureState::Init, reports).1[j].len()
                ==> #[trigger] run_polls(DelayFutureState::Init, reports).1[j][k]
                != DelayAction::StartDelay,
        forall|j: int|
            0 <= j < reports.len() - 1 ==> #[trigger] run_polls(
                DelayFutureState::Init,
                reports,
            ).1[j].last() == DelayAction::Pending,
        run_polls(DelayFutureState::Init, reports).1.last().last() == DelayAction::Ready(
            DELAY_OUTPUT,
        ),
{
    let rest = reports.drop_first();
    let polls = run_polls(DelayFutureState::Init, reports).1;
    if reports.len() == 1 {
        assert(reports[0]);
        assert(run_polls(DelayFutureState::Done, rest).1 =~= Seq::<Seq<DelayAction>>::empty());
        assert(polls =~= seq![
            seq![DelayAction::StartDelay, DelayAction::PollDelay, DelayAction::Ready(DELAY_OUTPUT)],
        ]);
    } else {
        assert(!reports[0]);
        assert forall|j: int| 0 <= j < rest.len() - 1 implies !#[trigger] rest[j] by {
            assert(rest[j] == reports[j + 1]);
        }
        assert(rest.last() == reports.last());
        lemma_polls_while_waiting(rest);
        let later = run_polls(DelayFutureState::Delay, rest).1;
        assert(polls == seq![
            seq![DelayAction::StartDelay, DelayAction::PollDelay, DelayAction::Pending],
        ] + later);
        assert forall|j: int, k: int|
            0 < j < reports.len() && 0 <= k < polls[j].len() implies #[trigger] polls[j][k]
                != DelayAction::StartDelay by {
            assert(polls[j] == later[j - 1]);
            if j - 1 < rest.len() - 1 {
                assert(later[j - 1] == seq![DelayAction::PollDelay, DelayAction::Pending]);
            }
        }
        assert forall|j: int| 0 <= j < reports.len() - 1 implies #[trigger] polls[j].last()
            == DelayAction::Pending by {
            if j > 0 {
                assert(polls[j] == later[j - 1]);
                assert(later[j - 1] == seq![DelayAction::PollDelay, DelayAction::Pending]);
            }
        }
        assert(polls.last() == later.last());
    }
}

/// What polling a delay does with the waker of the task that polls it.
#[derive(PartialEq, Eq, Structural, Clone, Copy, Debug)]
pub enum WakerStep {
    /// No waker is stored yet: store this one and start the timer that wakes it at the deadline.
    StartTimer,
    /// The stored waker belongs to another task: store the polling task's waker in its place.
    Replace,
    /// The stored waker wakes the polling task already: leave it.
    Keep,
}

/// What one poll of a delay does with the waker of the polling task, given whether a waker is
/// stored and whether the stored one wakes that task.
pub fn delay_waker_step(has_waker: bool, same_task: bool) -> (r: WakerStep)
    ensures
        !has_waker ==> r == WakerStep::StartTimer,
        has_waker && !same_task ==> r == WakerStep::Replace,
        has_waker && same_task ==> r == WakerStep::Keep,
{
    if !has_waker {
        WakerStep::StartTimer
    } else if same_task {
        WakerStep::Keep
    } else {
        WakerStep::Replace
    }
}

/// A delay is ready once the time elapsed since it started, in nanoseconds, has reached the
/// time that it waits.
pub fn delay_ready(elapsed_ns: u128, wait_ns: u128) -> (r: bool)
    ensures
        r == (elapsed_ns >= wait_ns),
{
    elapsed_ns >= wait_ns
}

} // verus!
