use vstd::prelude::*;

verus! {

/// The states of the watch-and-rebuild loop.
#[derive(Debug, Clone, Copy, PartialEq, Eq, Structural)]
pub enum BuildState {
    Idle,
    Building,
    WaitingForChange,
}

/// What the loop can observe.
#[derive(Debug, Clone, Copy, PartialEq, Eq, Structural)]
pub enum LoopEvent {
    /// The loop is asked to run its first build.
    StartRequested,
    /// A coalesced burst of file changes under the watched roots.
    FileChanged,
    /// The running build came back, well or not.
    BuildFinished { ok: bool },
    /// An out-of-band shutdown request.
    Interrupted,
}

/// What the loop's driver must do next.
#[derive(Debug, Clone, Copy, PartialEq, Eq, Structural)]
pub enum LoopAction {
    /// Run one full parse and render cycle.
    StartBuild,
    /// Report the finished build's failure, then wait.
    ReportFailure,
    /// Wait for the next event.
    Wait,
    /// Flush the parse cache, then end the process.
    ExportCacheAndExit,
}

/// The transition table of the loop. A change during a build is deferred, not
/// acted on; a failed build is reported and the loop waits for the next
/// change; an interruption always exports the cache before the process ends.
pub open spec fn spec_step(state: BuildState, event: LoopEvent) -> (BuildState, LoopAction) {
    match (state, event) {
        (_, LoopEvent::Interrupted) => (state, LoopAction::ExportCacheAndExit),
        (BuildState::Idle, LoopEvent::StartRequested) => (
            BuildState::Building,
            LoopAction::StartBuild,
        ),
        (BuildState::Idle, _) => (BuildState::Idle, LoopAction::Wait),
        (BuildState::Building, LoopEvent::BuildFinished { ok }) => (
            BuildState::WaitingForChange,
            if ok {
                LoopAction::Wait
            } else {
                LoopAction::ReportFailure
            },
        ),
        (BuildState::Building, _) => (BuildState::Building, LoopAction::Wait),
        (BuildState::WaitingForChange, LoopEvent::FileChanged) => (
            BuildState::Building,
            LoopAction::StartBuild,
        ),
        (BuildState::WaitingForChange, _) => (BuildState::WaitingForChange, LoopAction::Wait),
    }
}

/// Advance the loop by one observed event.
pub fn step(state: BuildState, event: LoopEvent) -> (r: (BuildState, LoopAction))
    ensures
        r == spec_step(state, event),
{
    match (state, event) {
        (_, LoopEvent::Interrupted) => (state, LoopAction::ExportCacheAndExit),
        (BuildState::Idle, LoopEvent::StartRequested) => (
            BuildState::Building,
            LoopAction::StartBuild,
        ),
        (BuildState::Idle, _) => (BuildState::Idle, LoopAction::Wait),
        (BuildState::Building, LoopEvent::BuildFinished { ok }) => (
            BuildState::WaitingForChange,
            if ok {
                LoopAction::Wait
            } else {
                LoopAction::ReportFailure
            },
        ),
        (BuildState::Building, _) => (BuildState::Building, LoopAction::Wait),
        (BuildState::WaitingForChange, LoopEvent::FileChanged) => (
            BuildState::Building,
            LoopAction::StartBuild,
        ),
        (BuildState::WaitingForChange, _) => (BuildState::WaitingForChange, LoopAction::Wait),
    }
}

/// The loop is single-flight: a build is started only from a state where no
/// build runs, and while one runs every further event leaves the loop
/// building and starts nothing.
pub proof fn lemma_single_flight(state: BuildState, event: LoopEvent)
    ensures
        spec_step(state, event).1 == LoopAction::StartBuild ==> state != BuildState::Building,
        state == BuildState::Building && !(event is BuildFinished) && !(event is Interrupted)
            ==> spec_step(state, event) == (BuildState::Building, LoopAction::Wait),
{
}

/// An interruption always exports the cache before the process ends, from
/// every state.
pub proof fn lemma_interrupt_exports(state: BuildState)
    ensures
        spec_step(state, LoopEvent::Interrupted).1 == LoopAction::ExportCacheAndExit,
{
}

/// How many rebuilds a run of change events triggers, given the debounce
/// window: the first event triggers, and afterwards only an event at least a
/// window after the last trigger does.
pub open spec fn triggers_after(times: Seq<u64>, window: u64, last: u64) -> nat
    decreases times.len(),
{
    if times.len() == 0 {
        0
    } else if times[0] >= last + window {
        1 + triggers_after(times.subrange(1, times.len() as int), window, times[0])
    } else {
        triggers_after(times.subrange(1, times.len() as int), window, last)
    }
}

/// The number of rebuild triggers that a sequence of change-event times
/// produces under the given debounce window.
pub open spec fn trigger_count(times: Seq<u64>, window: u64) -> nat {
    if times.len() == 0 {
        0
    } else {
        1 + triggers_after(times.subrange(1, times.len() as int), window, times[0])
    }
}

proof fn lemma_no_trigger_within_window(times: Seq<u64>, window: u64, last: u64)
    requires
        forall|i: int| 0 <= i < times.len() ==> times[i] < last + window,
    ensures
        triggers_after(times, window, last) == 0,
    decreases times.len(),
{
    if times.len() > 0 {
        lemma_no_trigger_within_window(times.subrange(1, times.len() as int), window, last);
    }
}

/// A burst of events all within one debounce window of the first produces
/// exactly one rebuild trigger.
pub proof fn lemma_burst_single_trigger(times: Seq<u64>, window: u64)
    requires
        times.len() >= 1,
        forall|i: int| 0 <= i < times.len() ==> times[0] <= #[trigger] times[i] < times[0] + window,
    ensures
        trigger_count(times, window) == 1,
{
    assert forall|i: int|
        0 <= i < times.subrange(1, times.len() as int).len() implies times.subrange(
        1,
        times.len() as int,
    )[i] < times[0] + window by {
        assert(times.subrange(1, times.len() as int)[i] == times[i + 1]);
    }
    lemma_no_trigger_within_window(times.subrange(1, times.len() as int), window, times[0]);
}

/// Count the rebuild triggers of a run of change-event times under the given
/// debounce window.
pub fn coalesce_count(times: &Vec<u64>, window: u64) -> (n: usize)
    ensures
        n == trigger_count(times@, window),
{
    let n = count_from(times, window, 0, None);
    proof {
        assert(times@.skip(0) =~= times@);
    }
    n
}

fn count_from(times: &Vec<u64>, window: u64, i: usize, last: Option<u64>) -> (n: usize)
    requires
        i <= times.len(),
    ensures
        match last {
            Some(l) => n == triggers_after(times@.skip(i as int), window, l),
            None => n == trigger_count(times@.skip(i as int), window),
        },
        n <= times.len() - i,
    decreases times.len() - i,
{
    if i == times.len() {
        proof {
            assert(times@.skip(i as int) =~= Seq::<u64>::empty());
        }
        0
    } else {
        proof {
            assert(times@.skip(i as int).subrange(1, times@.skip(i as int).len() as int)
                =~= times@.skip(i as int + 1));
            assert(times@.skip(i as int)[0] == times@[i as int]);
        }
        match last {
            None => 1 + count_from(times, window, i + 1, Some(times[i])),
            Some(l) => {
                if (times[i] as u128) >= (l as u128) + (window as u128) {
                    1 + count_from(times, window, i + 1, Some(times[i]))
                } else {
                    count_from(times, window, i + 1, Some(l))
                }
            },
        }
    }
}

} // verus!
