//! When a change to the source tree starts a compile.
//!
//! The watcher is idle or compiling. A relevant change that finds it idle
//! starts a compile, unless it comes within the quiet period that follows
//! the change which started the last one. While a compile runs, changes are
//! dropped, so that no two compiles run at a time. An error of the watch
//! itself ends the watching.

use vstd::prelude::*;

verus! {

/// What happened to a node of the watched tree.
#[derive(Clone, Copy, Debug, PartialEq, Eq, Structural)]
pub enum ChangeKind {
    /// A file was opened, read or closed.
    Access,
    /// A file was created.
    CreateFile,
    /// A directory or something other than a file was created.
    CreateOther,
    /// Contents, name or metadata were changed.
    Modify,
    /// A node was removed.
    Remove,
    /// Anything else.
    Other,
}

/// Whether the watcher is free to compile.
#[derive(Clone, Copy, Debug, PartialEq, Eq, Structural)]
pub enum WatchState {
    Idle,
    Compiling,
}

/// What the watcher is told.
#[derive(Clone, Copy, Debug, PartialEq, Eq, Structural)]
pub enum WatchEvent {
    /// A change in the tree, seen `at_ms` milliseconds on the caller's clock.
    Change { kind: ChangeKind, at_ms: u64 },
    /// The compile that the watcher asked for has ended, well or badly.
    CompileFinished,
    /// The watch itself has failed.
    Failure,
}

/// What the caller is to do next.
#[derive(Clone, Copy, Debug, PartialEq, Eq, Structural)]
pub enum WatchAction {
    /// Nothing: wait for the next event.
    Wait,
    /// Compile the pack, then report `CompileFinished`.
    Compile,
    /// Give up watching and report the failure.
    Stop,
}

/// The quiet period that a watcher is given where none is chosen, in
/// milliseconds.
pub const DEFAULT_QUIET_MS: u64 = 500;

/// The state of a watcher in full.
pub struct WatcherView {
    pub state: WatchState,
    /// The time of the change that started the last compile, if there was one.
    pub last_trigger: Option<u64>,
    /// The length of the quiet period, in milliseconds.
    pub quiet_ms: u64,
}

/// Decides, event by event, when to compile.
pub struct Watcher {
    state: WatchState,
    last_trigger: Option<u64>,
    quiet_ms: u64,
}

impl View for Watcher {
    type V = WatcherView;

    closed spec fn view(&self) -> WatcherView {
        WatcherView {
            state: self.state,
            last_trigger: self.last_trigger,
            quiet_ms: self.quiet_ms,
        }
    }
}

/// A change of this kind is a reason to compile: a file was created,
/// modified, accessed or removed.
pub open spec fn is_relevant(kind: ChangeKind) -> bool {
    kind is Access || kind is CreateFile || kind is Modify || kind is Remove
}

/// A change at `at_ms` falls into the quiet period after the last trigger.
pub open spec fn is_quiet(last_trigger: Option<u64>, quiet_ms: u64, at_ms: u64) -> bool {
    last_trigger matches Some(t) && at_ms < t + quiet_ms
}

/// A watcher that has seen nothing yet.
pub open spec fn fresh(quiet_ms: u64) -> WatcherView {
    WatcherView { state: WatchState::Idle, last_trigger: None, quiet_ms }
}

/// The state after `event` and the action that it calls for.
pub open spec fn step(w: WatcherView, event: WatchEvent) -> (WatcherView, WatchAction) {
    match event {
        WatchEvent::Failure => (w, WatchAction::Stop),
        WatchEvent::CompileFinished => (
            WatcherView { state: WatchState::Idle, ..w },
            WatchAction::Wait,
        ),
        WatchEvent::Change { kind, at_ms } => if is_relevant(kind) && w.state is Idle && !is_quiet(
            w.last_trigger,
            w.quiet_ms,
            at_ms,
        ) {
            (
                WatcherView {
                    state: WatchState::Compiling,
                    last_trigger: Some(at_ms),
                    quiet_ms: w.quiet_ms,
                },
                WatchAction::Compile,
            )
        } else {
            (w, WatchAction::Wait)
        },
    }
}

/// The state after a run of events, and the number of compiles that the run
/// started.
pub open spec fn run(w: WatcherView, events: Seq<WatchEvent>) -> (WatcherView, nat)
    decreases events.len(),
{
    if events.len() == 0 {
        (w, 0)
    } else {
        let so_far = run(w, events.drop_last());
        let next = step(so_far.0, events.last());
        (
            next.0,
            if next.1 is Compile {
                so_far.1 + 1
            } else {
                so_far.1
            },
        )
    }
}

fn relevant(kind: ChangeKind) -> (b: bool)
    ensures
        b == is_relevant(kind),
{
    match kind {
        ChangeKind::Access | ChangeKind::CreateFile | ChangeKind::Modify | ChangeKind::Remove => {
            true
        },
        ChangeKind::CreateOther | ChangeKind::Other => false,
    }
}

impl Watcher {
    /// A watcher that has seen nothing yet, with a quiet period of
    /// `quiet_ms` milliseconds.
    pub fn new(quiet_ms: u64) -> (w: Self)
        ensures
            w@ == fresh(quiet_ms),
    {
        Watcher { state: WatchState::Idle, last_trigger: None, quiet_ms }
    }

    /// Whether a compile is running.
    pub fn state(&self) -> (s: WatchState)
        ensures
            s == self@.state,
    {
        self.state
    }

    fn quiet(&self, at_ms: u64) -> (b: bool)
        ensures
            b == is_quiet(self@.last_trigger, self@.quiet_ms, at_ms),
    {
        match self.last_trigger {
            Some(t) => at_ms < t || at_ms - t < self.quiet_ms,
            None => false,
        }
    }
}

/// Takes one event and says what to do: compile, wait, or stop.
pub fn watch(watcher: &mut Watcher, event: WatchEvent) -> (action: WatchAction)
    ensures
        (final(watcher)@, action) == step(old(watcher)@, event),
{
    match event {
        WatchEvent::Failure => WatchAction::Stop,
        WatchEvent::CompileFinished => {
            watcher.state = WatchState::Idle;
            WatchAction::Wait
        },
        WatchEvent::Change { kind, at_ms } => {
            let idle = match watcher.state {
                WatchState::Idle => true,
                WatchState::Compiling => false,
            };
            if relevant(kind) && idle && !watcher.quiet(at_ms) {
                watcher.state = WatchState::Compiling;
                watcher.last_trigger = Some(at_ms);
                WatchAction::Compile
            } else {
                WatchAction::Wait
            }
        },
    }
}

/// A compile starts only when none is running, and one is running from
/// then on until it is reported as finished.
pub proof fn lemma_one_compile_at_a_time(w: WatcherView, event: WatchEvent)
    ensures
        step(w, event).1 is Compile ==> w.state is Idle && step(w, event).0.state is Compiling,
        w.state is Compiling && !(event is CompileFinished) ==> step(w, event).0.state
            is Compiling && !(step(w, event).1 is Compile),
{
}

/// The first relevant change that a fresh watcher sees starts exactly one
/// compile.
pub proof fn lemma_first_change_compiles(quiet_ms: u64, kind: ChangeKind, at_ms: u64)
    requires
        is_relevant(kind),
    ensures
        run(fresh(quiet_ms), seq![WatchEvent::Change { kind, at_ms }]).1 == 1,
{
    let events = seq![WatchEvent::Change { kind, at_ms }];
    assert(run(fresh(quiet_ms), events.drop_last()).1 == 0);
}

/// What holds of a fresh watcher after a burst: a run of events whose
/// changes all lie within one quiet period that begins at `start_ms`.
spec fn burst_state(w: WatcherView, compiles: nat, quiet_ms: u64, start_ms: u64) -> bool {
    &&& w.quiet_ms == quiet_ms
    &&& compiles <= 1
    &&& compiles == 0 ==> w == fresh(quiet_ms)
    &&& compiles == 1 ==> (w.last_trigger matches Some(t) && start_ms <= t)
}

/// All changes among `events` come at or after `start_ms` and less than
/// `quiet_ms` after it.
pub open spec fn within_quiet_period(
    events: Seq<WatchEvent>,
    start_ms: u64,
    quiet_ms: u64,
) -> bool {
    forall|i: int|
        0 <= i < events.len() ==> (#[trigger] events[i] matches WatchEvent::Change { at_ms, .. }
            ==> start_ms <= at_ms < start_ms + quiet_ms)
}

/// Some event among `events` is a relevant change.
pub open spec fn has_relevant_change(events: Seq<WatchEvent>) -> bool {
    exists|i: int|
        0 <= i < events.len() && (#[trigger] events[i] matches WatchEvent::Change { kind, .. }
            && is_relevant(kind))
}

proof fn lemma_burst(quiet_ms: u64, start_ms: u64, events: Seq<WatchEvent>)
    requires
        within_quiet_period(events, start_ms, quiet_ms),
    ensures
        burst_state(
            run(fresh(quiet_ms), events).0,
            run(fresh(quiet_ms), events).1,
            quiet_ms,
            start_ms,
        ),
        run(fresh(quiet_ms), events).1 == 1 <==> has_relevant_change(events),
    decreases events.len(),
{
    if events.len() > 0 {
        let head = events.drop_last();
        assert(within_quiet_period(head, start_ms, quiet_ms));
        lemma_burst(quiet_ms, start_ms, head);
        if has_relevant_change(events) && !has_relevant_change(head) {
            let i = choose|i: int|
                0 <= i < events.len() && (#[trigger] events[i] matches WatchEvent::Change {
                    kind,
                    ..
                } && is_relevant(kind));
            if i < head.len() {
                assert(head[i] == events[i]);
            }
        }
    }
}

/// A burst of events, however many, whose changes all come within one quiet
/// period starts at most one compile; it starts one where any of its changes
/// is relevant.
pub proof fn lemma_burst_compiles_once(quiet_ms: u64, start_ms: u64, events: Seq<WatchEvent>)
    requires
        within_quiet_period(events, start_ms, quiet_ms),
    ensures
        run(fresh(quiet_ms), events).1 <= 1,
        run(fresh(quiet_ms), events).1 == 1 <==> has_relevant_change(events),
{
    lemma_burst(quiet_ms, start_ms, events);
}

} // verus!
