use nagisa_core::supervisor::{on_run_event, Lifecycle, PrepareStep, RunDecision, RunEvent};

#[test]
fn supervisor_prepares_in_order_then_runs() {
    let mut l = Lifecycle::new(vec![2, 0, 1]);
    let mut seen = Vec::new();
    loop {
        match l.step() {
            PrepareStep::Prepare(i) => {
                seen.push(i);
                assert!(l.prepared(true).is_none());
            }
            PrepareStep::StartRun(all) => {
                assert_eq!(all, vec![2, 0, 1]);
                break;
            }
        }
    }
    assert_eq!(seen, vec![2, 0, 1]);
    assert_eq!(l.final_cleanup(), vec![1, 0, 2]);
}

#[test]
fn supervisor_failed_prepare_cleans_up_newest_first() {
    let mut l = Lifecycle::new(vec![3, 1, 4, 0]);
    assert!(matches!(l.step(), PrepareStep::Prepare(3)));
    assert!(l.prepared(true).is_none());
    assert!(matches!(l.step(), PrepareStep::Prepare(1)));
    assert!(l.prepared(true).is_none());
    assert!(matches!(l.step(), PrepareStep::Prepare(4)));
    assert_eq!(l.prepared(false), Some(vec![1, 3]));
    let mut first = Lifecycle::new(vec![7]);
    assert_eq!(first.prepared(false), Some(Vec::new()));
}

#[test]
fn supervisor_run_decisions() {
    assert_eq!(on_run_event(RunEvent::Shutdown), RunDecision::StopOk);
    assert_eq!(on_run_event(RunEvent::AllExited), RunDecision::StopOk);
    assert_eq!(on_run_event(RunEvent::Exited), RunDecision::Wait);
    assert_eq!(on_run_event(RunEvent::Failed), RunDecision::StopWithError);
    assert_eq!(on_run_event(RunEvent::Panicked), RunDecision::StopWithPanic);
}
