use game_utils::random_timer::{rerolls_after_tick, TimerMode};

#[test]
fn only_a_finished_repeating_timer_rerolls() {
    assert!(rerolls_after_tick(true, TimerMode::Repeating));
    assert!(!rerolls_after_tick(true, TimerMode::Once));
    assert!(!rerolls_after_tick(false, TimerMode::Repeating));
    assert!(!rerolls_after_tick(false, TimerMode::Once));
}
