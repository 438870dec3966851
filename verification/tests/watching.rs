use rpd::watching::{
    watch, ChangeKind, WatchAction, WatchEvent, WatchState, Watcher, DEFAULT_QUIET_MS,
};

fn change(kind: ChangeKind, at_ms: u64) -> WatchEvent {
    WatchEvent::Change { kind, at_ms }
}

fn compiles(watcher: &mut Watcher, events: &[WatchEvent]) -> usize {
    let mut count = 0;
    for event in events {
        if watch(watcher, *event) == WatchAction::Compile {
            count += 1;
        }
    }
    count
}

#[test]
fn one_file_creation_starts_one_compile() {
    let mut watcher = Watcher::new(DEFAULT_QUIET_MS);
    assert_eq!(watcher.state(), WatchState::Idle);
    assert_eq!(watch(&mut watcher, change(ChangeKind::CreateFile, 1000)), WatchAction::Compile);
    assert_eq!(watcher.state(), WatchState::Compiling);
    assert_eq!(watch(&mut watcher, WatchEvent::CompileFinished), WatchAction::Wait);
    assert_eq!(watcher.state(), WatchState::Idle);
}

#[test]
fn five_rapid_events_start_one_compile() {
    let mut watcher = Watcher::new(500);
    let burst = [
        change(ChangeKind::Remove, 1000),
        change(ChangeKind::CreateFile, 1001),
        change(ChangeKind::Modify, 1002),
        change(ChangeKind::Access, 1003),
        change(ChangeKind::Modify, 1499),
    ];
    assert_eq!(compiles(&mut watcher, &burst), 1);
}

#[test]
fn five_rapid_events_around_a_fast_compile_start_one_compile() {
    let mut watcher = Watcher::new(500);
    let burst = [
        change(ChangeKind::Remove, 1000),
        WatchEvent::CompileFinished,
        change(ChangeKind::CreateFile, 1001),
        change(ChangeKind::Modify, 1002),
        change(ChangeKind::Access, 1003),
        change(ChangeKind::Modify, 1499),
    ];
    assert_eq!(compiles(&mut watcher, &burst), 1);
    assert_eq!(watcher.state(), WatchState::Idle);
}

#[test]
fn a_change_after_the_quiet_period_starts_the_next_compile() {
    let mut watcher = Watcher::new(500);
    assert_eq!(watch(&mut watcher, change(ChangeKind::Modify, 1000)), WatchAction::Compile);
    assert_eq!(watch(&mut watcher, WatchEvent::CompileFinished), WatchAction::Wait);
    assert_eq!(watch(&mut watcher, change(ChangeKind::Modify, 1499)), WatchAction::Wait);
    assert_eq!(watch(&mut watcher, change(ChangeKind::Modify, 1500)), WatchAction::Compile);
    assert_eq!(watch(&mut watcher, WatchEvent::CompileFinished), WatchAction::Wait);
    assert_eq!(watch(&mut watcher, change(ChangeKind::Modify, 1999)), WatchAction::Wait);
    assert_eq!(watch(&mut watcher, change(ChangeKind::Remove, 2000)), WatchAction::Compile);
}

#[test]
fn changes_during_a_compile_are_dropped() {
    let mut watcher = Watcher::new(10);
    assert_eq!(watch(&mut watcher, change(ChangeKind::Modify, 0)), WatchAction::Compile);
    assert_eq!(watch(&mut watcher, change(ChangeKind::Modify, 5000)), WatchAction::Wait);
    assert_eq!(watch(&mut watcher, change(ChangeKind::Remove, 9000)), WatchAction::Wait);
    assert_eq!(watcher.state(), WatchState::Compiling);
    assert_eq!(watch(&mut watcher, WatchEvent::CompileFinished), WatchAction::Wait);
    assert_eq!(watch(&mut watcher, change(ChangeKind::Modify, 9001)), WatchAction::Compile);
}

#[test]
fn every_relevant_kind_starts_a_compile() {
    for kind in [ChangeKind::Access, ChangeKind::CreateFile, ChangeKind::Modify, ChangeKind::Remove] {
        let mut watcher = Watcher::new(500);
        assert_eq!(watch(&mut watcher, change(kind, 7)), WatchAction::Compile);
    }
}

#[test]
fn other_kinds_start_nothing() {
    let mut watcher = Watcher::new(500);
    assert_eq!(watch(&mut watcher, change(ChangeKind::CreateOther, 7)), WatchAction::Wait);
    assert_eq!(watch(&mut watcher, change(ChangeKind::Other, 8)), WatchAction::Wait);
    assert_eq!(watcher.state(), WatchState::Idle);
    assert_eq!(watch(&mut watcher, change(ChangeKind::CreateFile, 9)), WatchAction::Compile);
}

#[test]
fn a_failure_of_the_watch_stops_it() {
    let mut watcher = Watcher::new(500);
    assert_eq!(watch(&mut watcher, WatchEvent::Failure), WatchAction::Stop);
    assert_eq!(watcher.state(), WatchState::Idle);
    assert_eq!(watch(&mut watcher, change(ChangeKind::Modify, 1)), WatchAction::Compile);
    assert_eq!(watch(&mut watcher, WatchEvent::Failure), WatchAction::Stop);
    assert_eq!(watcher.state(), WatchState::Compiling);
}

#[test]
fn without_a_quiet_period_every_idle_change_compiles() {
    let mut watcher = Watcher::new(0);
    assert_eq!(watch(&mut watcher, change(ChangeKind::Modify, 5)), WatchAction::Compile);
    assert_eq!(watch(&mut watcher, WatchEvent::CompileFinished), WatchAction::Wait);
    assert_eq!(watch(&mut watcher, change(ChangeKind::Modify, 5)), WatchAction::Compile);
}

#[test]
fn a_clock_that_steps_back_stays_quiet() {
    let mut watcher = Watcher::new(100);
    assert_eq!(watch(&mut watcher, change(ChangeKind::Modify, 1000)), WatchAction::Compile);
    assert_eq!(watch(&mut watcher, WatchEvent::CompileFinished), WatchAction::Wait);
    assert_eq!(watch(&mut watcher, change(ChangeKind::Modify, 900)), WatchAction::Wait);
    assert_eq!(watch(&mut watcher, change(ChangeKind::Modify, 1100)), WatchAction::Compile);
}

#[test]
fn the_latest_times_do_not_overflow() {
    let mut watcher = Watcher::new(u64::MAX);
    assert_eq!(watch(&mut watcher, change(ChangeKind::Modify, u64::MAX - 1)), WatchAction::Compile);
    assert_eq!(watch(&mut watcher, WatchEvent::CompileFinished), WatchAction::Wait);
    assert_eq!(watch(&mut watcher, change(ChangeKind::Modify, u64::MAX)), WatchAction::Wait);
    let mut watcher = Watcher::new(1);
    assert_eq!(watch(&mut watcher, change(ChangeKind::Modify, u64::MAX - 1)), WatchAction::Compile);
    assert_eq!(watch(&mut watcher, WatchEvent::CompileFinished), WatchAction::Wait);
    assert_eq!(watch(&mut watcher, change(ChangeKind::Modify, u64::MAX)), WatchAction::Compile);
}

#[test]
fn a_finished_compile_that_never_ran_changes_nothing() {
    let mut watcher = Watcher::new(500);
    assert_eq!(watch(&mut watcher, WatchEvent::CompileFinished), WatchAction::Wait);
    assert_eq!(watcher.state(), WatchState::Idle);
    assert_eq!(watch(&mut watcher, change(ChangeKind::Remove, 0)), WatchAction::Compile);
}
