use cmux_herdr::pump::{resync_period_ms, watch_first_turn, watch_interval_ms, watch_step, WatchState, WatchStep, WatchTurn};

fn turn(now_ms: u64, got_event: bool, session_open: bool, session_alive: bool, live: bool) -> WatchTurn {
    WatchTurn { now_ms, got_event, session_open, session_alive, live }
}

#[test]
fn watch_interval_and_resync_period() {
    assert_eq!(watch_interval_ms(100), 500);
    assert_eq!(watch_interval_ms(2000), 2000);
    assert_eq!(resync_period_ms(500), 15000);
    assert_eq!(resync_period_ms(2000), 20000);
}

#[test]
fn dead_event_session_is_reopened_as_a_gap() {
    let s = watch_first_turn(&WatchState { initial: true, last_resync_ms: None }, 1000, true);
    assert_eq!(s, WatchState { initial: false, last_resync_ms: Some(1000) });
    let (s2, step) = watch_step(&s, &turn(2000, false, true, false, false), 15000);
    assert_eq!(step, WatchStep { reopen_session: true, event_gap: true });
    assert_eq!(s2.last_resync_ms, Some(2000));
    let (s3, step) = watch_step(&s2, &turn(3000, true, true, true, false), 15000);
    assert_eq!(step, WatchStep { reopen_session: false, event_gap: false });
    assert_eq!(s3, s2);
}

#[test]
fn live_watch_resyncs_after_the_period() {
    let s = WatchState { initial: false, last_resync_ms: Some(0) };
    let (_, early) = watch_step(&s, &turn(14_999, true, true, true, true), 15000);
    assert!(!early.event_gap);
    let (s2, due) = watch_step(&s, &turn(15_000, true, true, true, true), 15000);
    assert!(due.event_gap && !due.reopen_session);
    assert_eq!(s2.last_resync_ms, Some(15_000));
    let (_, not_live) = watch_step(&s, &turn(99_000, true, true, true, false), 15000);
    assert!(!not_live.event_gap);
    let failed = watch_first_turn(&WatchState { initial: true, last_resync_ms: None }, 5, false);
    assert_eq!(failed, WatchState { initial: false, last_resync_ms: None });
}
