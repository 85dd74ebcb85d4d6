//! The watcher's decisions: which file events count, and how a burst of them
//! becomes one recompilation.

use vstd::prelude::*;

verus! {

/// How long the watcher waits after the first event of a burst, in
/// milliseconds.
pub const DEBOUNCE_MS: u64 = 100;

/// What happened to a file.
#[derive(Debug, Clone, Copy, PartialEq, Eq, Structural)]
pub enum EventKind {
    Create,
    Modify,
    Remove,
    Access,
    Other,
}

/// Whether an event of this kind asks for a reload: a file was made, changed
/// or removed.
pub open spec fn asks_reload(kind: EventKind) -> bool {
    kind is Create || kind is Modify || kind is Remove
}

/// Whether an event of this kind asks for a reload.
pub fn triggers_reload(kind: EventKind) -> (r: bool)
    ensures
        r == asks_reload(kind),
{
    match kind {
        EventKind::Create | EventKind::Modify | EventKind::Remove => true,
        EventKind::Access | EventKind::Other => false,
    }
}

/// Where the watcher stands.
#[derive(Debug, Clone, Copy, PartialEq, Eq, Structural)]
pub enum WatcherState {
    /// Nothing is pending.
    Idle,
    /// A burst has begun and its window runs.
    Debouncing,
    /// The watcher has ended.
    Stopped,
}

/// What the watcher is told.
#[derive(Debug, Clone, Copy, PartialEq, Eq, Structural)]
pub enum WatcherEvent {
    /// Something happened to a file under the served directory.
    Changed(EventKind),
    /// The window of the present burst is over.
    WindowElapsed,
    /// The server shuts down.
    Shutdown,
}

/// What the watcher asks for in turn.
#[derive(Debug, Clone, Copy, PartialEq, Eq, Structural)]
pub enum WatcherAction {
    /// Nothing to do.
    Nothing,
    /// Begin a window of so many milliseconds and report when it is over.
    StartWindow(u64),
    /// Compile the served directory anew and reload the table.
    Recompile,
    /// Give up the watch on the directory.
    Stop,
}

/// One step of the watcher.
///
/// The first event of a burst opens a window; further events in the window
/// change nothing; the end of the window asks for one recompilation. Events
/// that ask for no reload are passed over. A shutdown ends the watcher from
/// any state, and nothing moves it after that.
pub open spec fn step_spec(state: WatcherState, event: WatcherEvent) -> (
    WatcherState,
    WatcherAction,
) {
    match state {
        WatcherState::Stopped => (WatcherState::Stopped, WatcherAction::Nothing),
        WatcherState::Idle => match event {
            WatcherEvent::Shutdown => (WatcherState::Stopped, WatcherAction::Stop),
            WatcherEvent::WindowElapsed => (WatcherState::Idle, WatcherAction::Nothing),
            WatcherEvent::Changed(kind) => if asks_reload(kind) {
                (WatcherState::Debouncing, WatcherAction::StartWindow(DEBOUNCE_MS))
            } else {
                (WatcherState::Idle, WatcherAction::Nothing)
            },
        },
        WatcherState::Debouncing => match event {
            WatcherEvent::Shutdown => (WatcherState::Stopped, WatcherAction::Stop),
            WatcherEvent::WindowElapsed => (WatcherState::Idle, WatcherAction::Recompile),
            WatcherEvent::Changed(_) => (WatcherState::Debouncing, WatcherAction::Nothing),
        },
    }
}

/// One step of the watcher: the state that follows, and what to do.
pub fn step(state: WatcherState, event: WatcherEvent) -> (r: (WatcherState, WatcherAction))
    ensures
        r == step_spec(state, event),
{
    match state {
        WatcherState::Stopped => (WatcherState::Stopped, WatcherAction::Nothing),
        WatcherState::Idle => match event {
            WatcherEvent::Shutdown => (WatcherState::Stopped, WatcherAction::Stop),
            WatcherEvent::WindowElapsed => (WatcherState::Idle, WatcherAction::Nothing),
            WatcherEvent::Changed(kind) => if triggers_reload(kind) {
                (WatcherState::Debouncing, WatcherAction::StartWindow(DEBOUNCE_MS))
            } else {
                (WatcherState::Idle, WatcherAction::Nothing)
            },
        },
        WatcherState::Debouncing => match event {
            WatcherEvent::Shutdown => (WatcherState::Stopped, WatcherAction::Stop),
            WatcherEvent::WindowElapsed => (WatcherState::Idle, WatcherAction::Recompile),
            WatcherEvent::Changed(_) => (WatcherState::Debouncing, WatcherAction::Nothing),
        },
    }
}

/// The state of the watcher after a series of events.
pub open spec fn state_after(state: WatcherState, events: Seq<WatcherEvent>) -> WatcherState
    decreases events.len(),
{
    if events.len() == 0 {
        state
    } else {
        step_spec(state_after(state, events.drop_last()), events.last()).0
    }
}

/// How many recompilations a series of events asks for.
pub open spec fn recompilations(state: WatcherState, events: Seq<WatcherEvent>) -> nat
    decreases events.len(),
{
    if events.len() == 0 {
        0
    } else {
        let before = recompilations(state, events.drop_last());
        if step_spec(state_after(state, events.drop_last()), events.last()).1 is Recompile {
            before + 1
        } else {
            before
        }
    }
}

/// Whether `events` is a burst: at least one event, each of them a file
/// event, the first of which asks for a reload.
pub open spec fn is_burst(events: Seq<WatcherEvent>) -> bool {
    &&& events.len() > 0
    &&& events[0] matches WatcherEvent::Changed(kind) && asks_reload(kind)
    &&& forall|i: int| 0 <= i < events.len() ==> #[trigger] events[i] is Changed
}

/// A burst leaves the watcher in its window and asks for no recompilation
/// yet.
pub proof fn lemma_burst_waits(events: Seq<WatcherEvent>)
    requires
        is_burst(events),
    ensures
        state_after(WatcherState::Idle, events) == WatcherState::Debouncing,
        recompilations(WatcherState::Idle, events) == 0,
    decreases events.len(),
{
    let front = events.drop_last();
    assert(events.last() == events[events.len() - 1]);
    if front.len() == 0 {
        assert(events.last() == events[0]);
        assert(state_after(WatcherState::Idle, front) == WatcherState::Idle);
        assert(recompilations(WatcherState::Idle, front) == 0);
    } else {
        assert(front[0] == events[0]);
        assert forall|i: int| 0 <= i < front.len() implies #[trigger] front[i] is Changed by {
            assert(front[i] == events[i]);
        }
        lemma_burst_waits(front);
    }
}

/// A burst of file events within one window asks for exactly one
/// recompilation, however many events it holds, and leaves the watcher idle.
pub proof fn lemma_burst_recompiles_once(events: Seq<WatcherEvent>)
    requires
        is_burst(events),
    ensures
        recompilations(WatcherState::Idle, events.push(WatcherEvent::WindowElapsed)) == 1,
        state_after(WatcherState::Idle, events.push(WatcherEvent::WindowElapsed))
            == WatcherState::Idle,
{
    lemma_burst_waits(events);
    let all = events.push(WatcherEvent::WindowElapsed);
    assert(all.drop_last() =~= events);
    assert(all.last() == WatcherEvent::WindowElapsed);
}

} // verus!
