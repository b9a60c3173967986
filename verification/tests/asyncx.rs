use idioms::asyncx::{
    delay_future_step, delay_ready, delay_waker_step, fib, DelayAction, DelayFutureState, TestIterator, WakerStep,
};

#[test]
fn test_recursion() {
    let v = fib(10);
    assert_eq!(55, v)
}

#[test]
fn fib_first_values() {
    assert_eq!(1, fib(1));
    assert_eq!(1, fib(2));
    assert_eq!(2, fib(3));
    assert_eq!(2971215073, fib(47));
}

#[test]
fn test_iterator_yields_numbered_pairs() {
    let mut iter = TestIterator::new(0, 2);
    assert_eq!(Some(("key_1", "value_1")), iter.next());
    assert_eq!(Some(("key_2", "value_2")), iter.next());
    assert_eq!(None, iter.next());
}

#[test]
fn delay_future_steps() {
    let (s, a) = delay_future_step(DelayFutureState::Init, None);
    assert_eq!((DelayFutureState::Delay, DelayAction::StartDelay), (s, a));
    let (s, a) = delay_future_step(s, None);
    assert_eq!((DelayFutureState::Delay, DelayAction::PollDelay), (s, a));
    let (s, a) = delay_future_step(s, Some(false));
    assert_eq!((DelayFutureState::Delay, DelayAction::Pending), (s, a));
    let (s, a) = delay_future_step(s, Some(true));
    assert_eq!((DelayFutureState::Done, DelayAction::Ready(10)), (s, a));
}

#[test]
fn delay_waker_decisions() {
    assert_eq!(WakerStep::StartTimer, delay_waker_step(false, false));
    assert_eq!(WakerStep::StartTimer, delay_waker_step(false, true));
    assert_eq!(WakerStep::Replace, delay_waker_step(true, false));
    assert_eq!(WakerStep::Keep, delay_waker_step(true, true));
}

#[test]
fn delay_is_ready_once_the_wait_has_elapsed() {
    assert!(!delay_ready(0, 1_000_000_000));
    assert!(!delay_ready(999_999_999, 1_000_000_000));
    assert!(delay_ready(1_000_000_000, 1_000_000_000));
    assert!(delay_ready(5, 0));
}

#[test]
fn delay_future_is_pending_until_ready_then_done() {
    let mut state = DelayFutureState::Init;
    let mut outputs = Vec::new();
    let mut starts = 0;
    for report in [false, false, true] {
        let mut ready = None;
        loop {
            let (s, a) = delay_future_step(state, ready);
            state = s;
            match a {
                DelayAction::StartDelay => {
                    starts += 1;
                    ready = None;
                }
                DelayAction::PollDelay => ready = Some(report),
                other => {
                    outputs.push(other);
                    break;
                }
            }
        }
    }
    assert_eq!(1, starts);
    assert_eq!(
        vec![DelayAction::Pending, DelayAction::Pending, DelayAction::Ready(10)],
        outputs
    );
    assert_eq!(DelayFutureState::Done, state);
}

#[test]
fn test_iterator_yields_exactly_the_pairs_up_to_the_maximum() {
    let mut iter = TestIterator::new(7, 10);
    assert_eq!(Some(("key_8", "value_8")), iter.next());
    assert_eq!(Some(("key_9", "value_9")), iter.next());
    assert_eq!(Some(("key_10", "value_10")), iter.next());
    assert_eq!(None, iter.next());
    assert_eq!(None, iter.next());
    let mut none = TestIterator::new(5, 3);
    assert_eq!(None, none.next());
}
