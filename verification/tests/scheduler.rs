use build_graph::scheduler::{run_to_completion, Scheduler, SchedulerStep};

#[test]
fn exactly_one_outcome_per_instance_with_bounded_fan_out() {
    let total: usize = 5;
    let bound: usize = 2;
    let mut s = Scheduler::new(total, bound);
    let mut dispatched: Vec<usize> = Vec::new();
    let mut outcomes: usize = 0;
    let mut max_in_flight: usize = 0;
    loop {
        match s.next_step() {
            SchedulerStep::Dispatch(i) => {
                dispatched.push(i);
                s.note_dispatched();
                let in_flight = s.started - s.completed;
                if in_flight > max_in_flight {
                    max_in_flight = in_flight;
                }
            }
            SchedulerStep::AwaitCompletion => {
                // a fetch finishes and delivers its outcome
                s.note_completed();
                outcomes += 1;
            }
            SchedulerStep::Finished => break,
        }
    }
    assert_eq!(outcomes, total);
    assert_eq!(dispatched, vec![0, 1, 2, 3, 4]);
    assert!(max_in_flight <= bound);
    assert!(s.is_finished());
}

#[test]
fn bound_larger_than_roster() {
    let mut s = Scheduler::new(3, 100);
    let mut dispatched: usize = 0;
    let mut outcomes: usize = 0;
    loop {
        match s.next_step() {
            SchedulerStep::Dispatch(_) => {
                dispatched += 1;
                s.note_dispatched();
            }
            SchedulerStep::AwaitCompletion => {
                s.note_completed();
                outcomes += 1;
            }
            SchedulerStep::Finished => break,
        }
    }
    // every instance dispatched at once, each answered exactly once
    assert_eq!(dispatched, 3);
    assert_eq!(outcomes, 3);
}

#[test]
fn empty_roster_finishes_immediately() {
    let s = Scheduler::new(0, 100);
    assert!(matches!(s.next_step(), SchedulerStep::Finished));
    assert!(s.is_finished());
}

#[test]
fn completions_free_dispatch_slots() {
    let mut s = Scheduler::new(3, 1);
    assert!(matches!(s.next_step(), SchedulerStep::Dispatch(0)));
    s.note_dispatched();
    // the single slot is taken: the only move is to wait
    assert!(matches!(s.next_step(), SchedulerStep::AwaitCompletion));
    s.note_completed();
    // the completion freed the slot
    assert!(matches!(s.next_step(), SchedulerStep::Dispatch(1)));
}

#[test]
fn run_to_completion_delivers_all() {
    assert_eq!(run_to_completion(10, 3), 10);
    assert_eq!(run_to_completion(0, 1), 0);
    assert_eq!(run_to_completion(7, 100), 7);
}
