use focus_space_wallpaper::daemon::{
    event_history_nanos, secs_to_nanos, MonitorDecision, MonitorExit, MonitorSupervisor,
};

#[test]
fn monitor_is_restarted_twice_then_given_up() {
    let mut s = MonitorSupervisor::new();
    assert_eq!(s.on_exit(MonitorExit::Failed), MonitorDecision::Restart { delay_secs: 5 });
    assert_eq!(s.on_exit(MonitorExit::Failed), MonitorDecision::Restart { delay_secs: 5 });
    assert_eq!(s.on_exit(MonitorExit::Failed), MonitorDecision::GiveUp);
    assert_eq!(s.failures(), 3);
}

#[test]
fn monitor_that_finishes_stops() {
    let mut s = MonitorSupervisor::new();
    assert_eq!(s.on_exit(MonitorExit::Failed), MonitorDecision::Restart { delay_secs: 5 });
    assert_eq!(s.on_exit(MonitorExit::Finished), MonitorDecision::Stop);
    assert_eq!(s.failures(), 1);
}

#[test]
fn durations_in_nanoseconds() {
    assert_eq!(secs_to_nanos(300), 300_000_000_000);
    assert_eq!(secs_to_nanos(u64::MAX), u64::MAX);
    assert_eq!(event_history_nanos(), 600_000_000_000);
}
