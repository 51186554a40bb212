//! The flag and its two operations, and what holds of them over whole
//! schedules.
use completion::CompletionState;
use completion::WaitStep;
use completion::Wake;

/// One critical section of a schedule.
#[derive(Clone, Copy)]
enum Op {
    Wait,
    Signal,
}

/// Runs the schedule and gives back how many waits came through and how many
/// signals were made, checking after every step that no more waits have come
/// through than signals were made.
fn run(state: &mut CompletionState, schedule: &[Op]) -> (usize, usize) {
    let mut returns = 0;
    let mut signals = 0;
    for op in schedule {
        match op {
            Op::Wait => {
                if state.wait_for_completion() == WaitStep::Consumed {
                    returns += 1;
                }
            }
            Op::Signal => {
                assert_eq!(state.signal_completion(), Wake::All);
                signals += 1;
            }
        }
        assert!(returns <= signals);
        assert!(returns + usize::from(!state.is_armed()) <= signals);
    }
    (returns, signals)
}

#[test]
fn fresh_state_is_armed() {
    assert!(CompletionState::new().is_armed());
}

#[test]
fn default_state_is_armed() {
    assert!(CompletionState::default().is_armed());
}

#[test]
fn wait_on_an_armed_flag_parks_and_changes_nothing() {
    let mut state = CompletionState::new();
    assert_eq!(state.wait_for_completion(), WaitStep::Park);
    assert!(state.is_armed());
}

#[test]
fn wait_on_a_cleared_flag_consumes_and_arms_again() {
    let mut state = CompletionState::new();
    state.signal_completion();
    assert_eq!(state.wait_for_completion(), WaitStep::Consumed);
    assert!(state.is_armed());
}

#[test]
fn signal_clears_the_flag_and_wakes_all() {
    let mut state = CompletionState::new();
    assert_eq!(state.signal_completion(), Wake::All);
    assert!(!state.is_armed());
}

#[test]
fn the_flag_is_armed_or_cleared_after_every_operation() {
    let mut state = CompletionState::new();
    let mut seen = vec![state.is_armed()];
    state.wait_for_completion();
    seen.push(state.is_armed());
    state.signal_completion();
    seen.push(state.is_armed());
    state.signal_completion();
    seen.push(state.is_armed());
    state.wait_for_completion();
    seen.push(state.is_armed());
    state.wait_for_completion();
    seen.push(state.is_armed());
    assert_eq!(seen, vec![true, true, false, false, true, true]);
}

#[test]
fn no_reader_gets_through_before_the_first_signal() {
    let mut state = CompletionState::new();
    // Five readers, each woken spuriously a few times.
    for _pass in 0..4 {
        for _reader in 0..5 {
            assert_eq!(state.wait_for_completion(), WaitStep::Park);
        }
    }
    assert_eq!(run(&mut state, &[Op::Wait; 32]), (0, 0));
}

#[test]
fn returns_never_exceed_signals() {
    let (w, s) = (Op::Wait, Op::Signal);
    let mut state = CompletionState::new();
    let schedule = [w, w, s, w, w, s, s, w, w, s, w, s, s, s, w, w, w];
    assert_eq!(run(&mut state, &schedule), (4, 7));
    assert!(state.is_armed());
}

#[test]
fn every_signal_is_consumed_when_reads_and_writes_alternate() {
    let mut state = CompletionState::new();
    let mut schedule = Vec::new();
    for _ in 0..10 {
        schedule.push(Op::Signal);
        schedule.push(Op::Wait);
    }
    assert_eq!(run(&mut state, &schedule), (10, 10));
}

#[test]
fn a_signal_is_consumed_once() {
    let mut state = CompletionState::new();
    state.signal_completion();
    assert_eq!(state.wait_for_completion(), WaitStep::Consumed);
    assert_eq!(state.wait_for_completion(), WaitStep::Park);
    assert_eq!(state.wait_for_completion(), WaitStep::Park);
}

#[test]
fn signals_do_not_add_up() {
    let mut state = CompletionState::new();
    state.signal_completion();
    state.signal_completion();
    state.signal_completion();
    assert_eq!(state.wait_for_completion(), WaitStep::Consumed);
    assert_eq!(state.wait_for_completion(), WaitStep::Park);
}

#[test]
fn a_broadcast_releases_one_of_many() {
    for readers in 2..=6 {
        for winner in 0..readers {
            let mut state = CompletionState::new();
            for _ in 0..readers {
                assert_eq!(state.wait_for_completion(), WaitStep::Park);
            }
            assert_eq!(state.signal_completion(), Wake::All);
            // Every reader wakes and makes its pass; `winner` is the one that
            // gets the lock first.
            let mut order: Vec<usize> = (0..readers).collect();
            order.swap(0, winner);
            let mut released = Vec::new();
            let mut parked = Vec::new();
            for reader in order {
                match state.wait_for_completion() {
                    WaitStep::Consumed => released.push(reader),
                    WaitStep::Park => parked.push(reader),
                }
            }
            assert_eq!(released, vec![winner]);
            assert_eq!(parked.len(), readers - 1);
            assert!(state.is_armed());
        }
    }
}
