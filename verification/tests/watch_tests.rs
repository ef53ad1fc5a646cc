use zine::watch::{coalesce_count, step, BuildState, LoopAction, LoopEvent};
use zine::zine::{featured_indices, ZineEngine};

#[test]
fn test_start_runs_first_build() {
    assert_eq!(
        step(BuildState::Idle, LoopEvent::StartRequested),
        (BuildState::Building, LoopAction::StartBuild)
    );
}

#[test]
fn test_change_while_waiting_starts_build() {
    assert_eq!(
        step(BuildState::WaitingForChange, LoopEvent::FileChanged),
        (BuildState::Building, LoopAction::StartBuild)
    );
}

#[test]
fn test_change_while_building_is_deferred() {
    // single-flight: no second build starts while one runs
    assert_eq!(
        step(BuildState::Building, LoopEvent::FileChanged),
        (BuildState::Building, LoopAction::Wait)
    );
}

#[test]
fn test_build_success_returns_to_waiting() {
    assert_eq!(
        step(BuildState::Building, LoopEvent::BuildFinished { ok: true }),
        (BuildState::WaitingForChange, LoopAction::Wait)
    );
}

#[test]
fn test_build_failure_is_reported_and_loop_continues() {
    assert_eq!(
        step(BuildState::Building, LoopEvent::BuildFinished { ok: false }),
        (BuildState::WaitingForChange, LoopAction::ReportFailure)
    );
}

#[test]
fn test_interrupt_exports_cache_from_every_state() {
    for state in [
        BuildState::Idle,
        BuildState::Building,
        BuildState::WaitingForChange,
    ] {
        let (next, action) = step(state, LoopEvent::Interrupted);
        assert_eq!(next, state);
        assert_eq!(action, LoopAction::ExportCacheAndExit);
    }
}

#[test]
fn test_burst_within_window_triggers_once() {
    // five change events inside one debounce window: one rebuild
    let times: Vec<u64> = vec![100, 100, 101, 102, 104];
    assert_eq!(coalesce_count(&times, 5), 1);
}

#[test]
fn test_events_apart_trigger_separately() {
    let times: Vec<u64> = vec![100, 105, 107, 112];
    assert_eq!(coalesce_count(&times, 5), 3);
}

#[test]
fn test_no_events_no_trigger() {
    let times: Vec<u64> = vec![];
    assert_eq!(coalesce_count(&times, 5), 0);
}

#[test]
fn test_engine_keeps_directories() {
    let engine = ZineEngine::new("content".to_string(), "build".to_string());
    assert_eq!(engine.source, "content");
    assert_eq!(engine.dest, "build");
}

#[test]
fn test_featured_indices() {
    let flags = vec![true, false, true, false];
    assert_eq!(featured_indices(&flags), vec![0, 2]);
    let none: Vec<bool> = vec![];
    assert!(featured_indices(&none).is_empty());
    assert_eq!(featured_indices(&vec![false, false]), Vec::<usize>::new());
}
