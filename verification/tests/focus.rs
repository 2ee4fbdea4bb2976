use focus_space_wallpaper::config::FocusConfig;
use focus_space_wallpaper::focus::analyzer::{
    activity_bins, idle_gap_nanos, mouse_move_count, split_mouse_segments, typing_burst_nanos,
};
use focus_space_wallpaper::focus::monitor::{EventBuffer, InputEvent, InputKind};
use focus_space_wallpaper::focus::score::Score;
use focus_space_wallpaper::focus::state::{FocusAction, FocusState, FocusStateMachine};

const SEC: u64 = 1_000_000_000;

fn score(v: f32) -> Score {
    Score::from_bits(v.to_bits())
}

fn config(hysteresis_count: u32) -> FocusConfig {
    FocusConfig {
        check_interval_secs: 300,
        unfocused_threshold: score(0.4),
        focused_threshold: score(0.6),
        hysteresis_count,
        mouse_weight: score(0.3),
        typing_weight: score(0.3),
        idle_weight: score(0.2),
        entropy_weight: score(0.2),
        idle_gap_threshold_secs: 30,
        typing_burst_gap_secs: 2,
    }
}

type Event = InputEvent<f64, u8, char>;

fn key(t: u64) -> Event {
    InputEvent { timestamp: t, kind: InputKind::KeyPress { key: 'a' } }
}

fn release(t: u64) -> Event {
    InputEvent { timestamp: t, kind: InputKind::KeyRelease { key: 'a' } }
}

fn mouse(t: u64, x: f64, y: f64) -> Event {
    InputEvent { timestamp: t, kind: InputKind::MouseMove { x, y } }
}

fn click(t: u64) -> Event {
    InputEvent { timestamp: t, kind: InputKind::MouseClick { button: 1 } }
}

#[test]
fn score_comparisons_follow_ieee() {
    assert!(score(0.3).lt(score(0.4)));
    assert!(!score(0.4).lt(score(0.4)));
    assert!(score(0.4).ge(score(0.4)));
    assert!(score(-1.0).lt(score(-0.5)));
    assert!(score(-0.0).ge(score(0.0)));
    assert!(!score(-0.0).lt(score(0.0)));
    assert!(score(f32::NEG_INFINITY).lt(score(-1e30)));
    assert!(score(1e30).lt(score(f32::INFINITY)));
    assert!(!score(f32::NAN).lt(score(0.4)));
    assert!(!score(f32::NAN).ge(score(0.4)));
    assert!(!score(0.4).ge(score(f32::NAN)));
    assert!(score(f32::NAN).nan_check());
    assert!(!score(f32::INFINITY).nan_check());
}

#[test]
fn two_low_scores_trigger_a_transition() {
    let mut m = FocusStateMachine::new(&config(2));
    assert_eq!(m.state(), FocusState::Focused);
    assert_eq!(m.update(score(0.3)), None);
    assert_eq!(m.state(), FocusState::Drifting);
    assert_eq!(m.consecutive_low_count(), 1);
    assert_eq!(m.update(score(0.3)), Some(FocusAction::TriggerTransition));
    assert_eq!(m.state(), FocusState::Unfocused);
    assert_eq!(m.consecutive_low_count(), 2);
}

#[test]
fn unfocused_starts_the_transition() {
    let mut m = FocusStateMachine::new(&config(2));
    m.update(score(0.3));
    m.update(score(0.3));
    assert_eq!(m.state(), FocusState::Unfocused);
    assert_eq!(m.update(score(0.9)), Some(FocusAction::TriggerTransition));
    assert_eq!(m.state(), FocusState::Transitioning);
    assert_eq!(m.consecutive_low_count(), 2);
}

#[test]
fn recovery_while_drifting_returns_to_focused() {
    let mut m = FocusStateMachine::new(&config(2));
    assert_eq!(m.update(score(0.3)), None);
    assert_eq!(m.update(score(0.7)), None);
    assert_eq!(m.state(), FocusState::Focused);
    assert_eq!(m.consecutive_low_count(), 0);
}

#[test]
fn middling_scores_keep_drifting() {
    let mut m = FocusStateMachine::new(&config(2));
    assert_eq!(m.update(score(0.5)), None);
    assert_eq!(m.state(), FocusState::Drifting);
    assert_eq!(m.update(score(0.5)), None);
    assert_eq!(m.state(), FocusState::Drifting);
    assert_eq!(m.consecutive_low_count(), 1);
    assert_eq!(m.update(score(0.6)), None);
    assert_eq!(m.state(), FocusState::Focused);
}

#[test]
fn high_scores_keep_focus() {
    let mut m = FocusStateMachine::new(&config(2));
    assert_eq!(m.update(score(0.6)), None);
    assert_eq!(m.update(score(0.9)), None);
    assert_eq!(m.state(), FocusState::Focused);
}

#[test]
fn nan_scores_change_nothing() {
    let mut m = FocusStateMachine::new(&config(2));
    assert_eq!(m.update(score(f32::NAN)), None);
    assert_eq!(m.state(), FocusState::Focused);
    assert_eq!(m.update(score(0.3)), None);
    assert_eq!(m.update(score(f32::NAN)), None);
    assert_eq!(m.state(), FocusState::Drifting);
    assert_eq!(m.consecutive_low_count(), 1);
}

#[test]
fn hysteresis_count_sets_the_trigger_point() {
    let mut m = FocusStateMachine::new(&config(4));
    assert_eq!(m.update(score(0.1)), None);
    assert_eq!(m.update(score(0.1)), None);
    assert_eq!(m.update(score(0.1)), None);
    assert_eq!(m.consecutive_low_count(), 3);
    assert_eq!(m.update(score(0.1)), Some(FocusAction::TriggerTransition));
    assert_eq!(m.state(), FocusState::Unfocused);
    // A hysteresis count of one still needs two low scores.
    let mut m = FocusStateMachine::new(&config(1));
    assert_eq!(m.update(score(0.1)), None);
    assert_eq!(m.update(score(0.1)), Some(FocusAction::TriggerTransition));
}

#[test]
fn transition_ignores_scores_until_complete() {
    let mut m = FocusStateMachine::new(&config(2));
    m.update(score(0.1));
    m.update(score(0.1));
    m.update(score(0.1));
    assert_eq!(m.state(), FocusState::Transitioning);
    assert_eq!(m.update(score(0.1)), None);
    assert_eq!(m.update(score(0.9)), None);
    assert_eq!(m.state(), FocusState::Transitioning);
    m.transition_complete();
    assert_eq!(m.state(), FocusState::Focused);
    assert_eq!(m.consecutive_low_count(), 0);
}

#[test]
fn buffer_drops_old_events_on_push() {
    let mut b: EventBuffer<f64, u8, char> = EventBuffer::new(10 * SEC);
    assert_eq!(b.len(), 0);
    b.push(key(100 * SEC), 100 * SEC);
    b.push(key(105 * SEC), 105 * SEC);
    assert_eq!(b.len(), 2);
    b.push(key(112 * SEC), 112 * SEC);
    assert_eq!(b.len(), 2);
    b.push(key(200 * SEC), 200 * SEC);
    assert_eq!(b.len(), 1);
}

#[test]
fn buffer_keeps_everything_near_the_clock_origin() {
    // Ten seconds before second 3 is before the clock's origin: the cutoff
    // is "now", and only events older than now are dropped.
    let mut b: EventBuffer<f64, u8, char> = EventBuffer::new(10 * SEC);
    b.push(key(1 * SEC), 1 * SEC);
    b.push(key(3 * SEC), 3 * SEC);
    assert_eq!(b.len(), 1);
}

#[test]
fn window_returns_recent_events_in_order() {
    let mut b: EventBuffer<f64, u8, char> = EventBuffer::new(600 * SEC);
    for t in [10_010u64, 10_020, 10_030, 10_040] {
        b.push(key(t * SEC), t * SEC);
    }
    let w = b.window(15 * SEC, 10_040 * SEC);
    let times: Vec<u64> = w.iter().map(|e| e.timestamp).collect();
    assert_eq!(times, vec![10_030 * SEC, 10_040 * SEC]);
    assert_eq!(b.window(100 * SEC, 10_040 * SEC).len(), 4);
    assert_eq!(b.len(), 4);
}

#[test]
fn steady_typing_is_one_long_burst() {
    let events: Vec<Event> = (0..300).map(|s| key(1000 * SEC + s * SEC)).collect();
    assert_eq!(typing_burst_nanos(&events, 2), Some(299 * SEC));
}

#[test]
fn sporadic_typing_has_short_bursts() {
    let events = vec![
        key(0),
        key(SEC),
        key(10 * SEC),
        key(11 * SEC),
        key(13 * SEC + 1),
        release(14 * SEC),
    ];
    // Gaps: 1 s, 9 s (breaks), 1 s, 2 s + 1 ns (breaks).
    assert_eq!(typing_burst_nanos(&events, 2), Some(2 * SEC));
}

#[test]
fn typing_needs_three_presses() {
    let events = vec![key(0), release(1), key(2), mouse(3, 0.0, 0.0)];
    assert_eq!(typing_burst_nanos(&events, 2), None);
}

#[test]
fn typing_bursts_use_time_order() {
    let events = vec![key(5 * SEC), key(SEC), key(2 * SEC), key(6 * SEC)];
    // Sorted: 1, 2, 5, 6 s; gaps 1, 3 (breaks), 1.
    assert_eq!(typing_burst_nanos(&events, 2), Some(2 * SEC));
}

#[test]
fn idle_time_sums_long_gaps() {
    assert_eq!(idle_gap_nanos::<f64, u8, char>(&[], 30), None);
    let events = vec![key(0), click(40 * SEC), mouse(50 * SEC, 1.0, 1.0), key(120 * SEC)];
    assert_eq!(idle_gap_nanos(&events, 30), Some(110 * SEC));
    assert_eq!(idle_gap_nanos(&events, 100), Some(0));
}

#[test]
fn short_and_long_gaps_span_the_window() {
    let events = vec![key(0), key(SEC), key(40 * SEC), key(41 * SEC), key(45 * SEC)];
    let short = typing_burst_nanos(&events, 30).unwrap();
    let long = idle_gap_nanos(&events, 30).unwrap();
    assert_eq!(short + long, 45 * SEC);
}

#[test]
fn activity_bins_count_events_per_ten_seconds() {
    let now = 1_000 * SEC;
    let start = now - 300 * SEC;
    let events = vec![
        key(start - SEC),
        key(start),
        key(start + 9 * SEC),
        key(start + 10 * SEC),
        key(start + 299 * SEC),
        key(now),
    ];
    let bins = activity_bins(&events, 300, now).unwrap();
    assert_eq!(bins.len(), 30);
    assert_eq!(bins[0], 2);
    assert_eq!(bins[1], 1);
    assert_eq!(bins[29], 1);
    assert_eq!(bins.iter().sum::<u32>(), 4);
}

#[test]
fn activity_bins_need_whole_second_bins() {
    assert_eq!(activity_bins::<f64, u8, char>(&[], 29, 100 * SEC), None);
    let bins = activity_bins::<f64, u8, char>(&[], 30, 100 * SEC).unwrap();
    assert_eq!(bins, vec![0u32; 30]);
}

#[test]
fn mouse_moves_split_at_pauses() {
    let ms = 1_000_000u64;
    let events = vec![
        mouse(0, 0.0, 0.0),
        mouse(100 * ms, 1.0, 0.0),
        key(300 * ms),
        mouse(700 * ms, 2.0, 0.0),
        mouse(1300 * ms, 3.0, 0.0),
        click(1400 * ms),
    ];
    let segments = split_mouse_segments(&events, 500 * ms);
    // A pause of exactly the threshold does not split.
    let joined = split_mouse_segments(&[mouse(0, 0.0, 0.0), mouse(500 * ms, 1.0, 1.0)], 500 * ms);
    assert_eq!(joined, vec![vec![(0.0, 0.0), (1.0, 1.0)]]);
    assert_eq!(
        segments,
        vec![vec![(0.0, 0.0), (1.0, 0.0)], vec![(2.0, 0.0)], vec![(3.0, 0.0)]]
    );
    assert_eq!(mouse_move_count(&events), 4);
    let flat: Vec<(f64, f64)> = segments.concat();
    assert_eq!(flat.len(), 4);
    assert!(split_mouse_segments(&[key(0), click(1)], 500 * ms).is_empty());
}

#[test]
fn no_transition_before_the_hysteresis_count() {
    // Any mix of scores, fewer than the hysteresis count of them, asks for
    // nothing.
    let mut m = FocusStateMachine::new(&config(4));
    for s in [0.1, 0.5, 0.2] {
        assert_eq!(m.update(score(s)), None);
    }
    assert_eq!(m.state(), FocusState::Drifting);
    assert!(m.consecutive_low_count() <= 3);
}
