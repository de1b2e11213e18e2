use nvim_gtk::cursor::{AnimPhase, BlinkCount, BlinkState, TimerAction};
use nvim_gtk::nvim::redraw_handler::RedrawMode;

fn focused() -> BlinkState {
    let mut s = BlinkState::new();
    let _ = s.set_toplevel_focus(true, None);
    let _ = s.set_widget_focus(true, None);
    s
}

#[test]
fn focus_needs_window_and_area() {
    let mut s = BlinkState::new();
    assert_eq!(s.set_toplevel_focus(true, Some(700)), (RedrawMode::Nothing, TimerAction::Keep));
    assert_eq!(s.set_widget_focus(true, Some(700)), (RedrawMode::Cursor, TimerAction::Restart(700)));
    assert!(s.focus());
    assert_eq!(s.set_widget_focus(false, None), (RedrawMode::Cursor, TimerAction::Stop));
    assert_eq!(s.anim_phase, AnimPhase::NoFocus);
    assert_eq!(s.set_widget_focus(false, None), (RedrawMode::Nothing, TimerAction::Keep));
}

#[test]
fn blink_wait_defaults_to_500() {
    let mut s = focused();
    assert_eq!(s.start(None), TimerAction::Restart(500));
    assert_eq!(s.start(Some(0)), TimerAction::Restart(500));
    assert_eq!(s.start(Some(250)), TimerAction::Restart(250));
}

#[test]
fn a_blink_fades_out_and_in() {
    let mut s = focused();
    assert_eq!(s.anim_step(false), Some(60));
    assert_eq!(s.anim_phase, AnimPhase::Hide);
    assert_eq!(s.anim_step(false), None);
    assert_eq!(s.anim_step(true), Some(300));
    assert_eq!(s.anim_phase, AnimPhase::Hidden);
    assert_eq!(s.anim_step(false), Some(60));
    assert_eq!(s.anim_phase, AnimPhase::Show);
    assert_eq!(s.anim_step(false), None);
    assert_eq!(s.anim_step(true), Some(500));
    assert_eq!(s.anim_phase, AnimPhase::Shown);
}

#[test]
fn blink_limit_stops_the_blinking() {
    let mut s = focused();
    s.set_cursor_blink(1);
    assert_eq!(s.counter, Some(BlinkCount { count: 0, max: 1 }));
    assert_eq!(s.anim_step(false), Some(60));
    assert_eq!(s.anim_step(true), Some(300));
    assert_eq!(s.anim_step(false), Some(60));
    assert_eq!(s.anim_step(true), Some(500));
    assert_eq!(s.anim_step(false), None);
    assert_eq!(s.anim_phase, AnimPhase::Shown);
    assert_eq!(s.counter, Some(BlinkCount { count: 1, max: 1 }));
    assert_eq!(s.reset_state(None), TimerAction::Restart(500));
    assert_eq!(s.counter, Some(BlinkCount { count: 0, max: 1 }));
    s.set_cursor_blink(-1);
    assert_eq!(s.counter, None);
}

#[test]
fn busy_cursor_ignores_focus_and_resets() {
    let mut s = focused();
    assert_eq!(s.busy_on(), TimerAction::Stop);
    assert_eq!(s.set_widget_focus(false, None), (RedrawMode::Cursor, TimerAction::Keep));
    assert_eq!(s.anim_phase, AnimPhase::Busy);
    assert_eq!(s.reset_state(None), TimerAction::Keep);
    assert_eq!(s.anim_step(true), None);
    assert_eq!(s.busy_off(Some(100)), TimerAction::Restart(100));
    assert_eq!(s.anim_phase, AnimPhase::Shown);
}
