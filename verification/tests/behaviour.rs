use openrgb_dark_controller::control::{
    is_screen_dark, parse_u64, resolve_timeout, run_mode, ControllerAction, RunMode,
    ScreenController, ScreenEvent, DEFAULT_TIMEOUT_SECS,
};
use openrgb_dark_controller::dpms::{
    registry_binding, DpmsTracker, KdeDpmsEvent, RegistryBinding, ScreenPowerState,
    WlrPowerEvent,
};

#[test]
fn run_mode_dark_wins() {
    assert_eq!(run_mode(true, true), RunMode::Darken);
    assert_eq!(run_mode(true, false), RunMode::Darken);
    assert_eq!(run_mode(false, true), RunMode::Lighten);
    assert_eq!(run_mode(false, false), RunMode::Monitor);
}

#[test]
fn parse_u64_accepts_decimal() {
    assert_eq!(parse_u64("30"), Some(30));
    assert_eq!(parse_u64("0"), Some(0));
    assert_eq!(parse_u64("+7"), Some(7));
    assert_eq!(parse_u64("007"), Some(7));
    assert_eq!(parse_u64("18446744073709551615"), Some(u64::MAX));
}

#[test]
fn parse_u64_rejects_like_std() {
    for s in ["", "+", "-1", "-", " 5", "5 ", "1a", "18446744073709551616", "99999999999999999999x", "++1", "٣"] {
        assert_eq!(parse_u64(s), s.parse::<u64>().ok(), "input {:?}", s);
        assert_eq!(parse_u64(s), None);
    }
}

#[test]
fn timeout_resolution() {
    assert_eq!(DEFAULT_TIMEOUT_SECS, 30);
    assert_eq!(resolve_timeout(Some(5), Some("60")), 5);
    assert_eq!(resolve_timeout(None, Some("60")), 60);
    assert_eq!(resolve_timeout(None, Some("sixty")), 30);
    assert_eq!(resolve_timeout(None, None), 30);
    assert_eq!(resolve_timeout(Some(0), None), 0);
}

#[test]
fn screen_events_map_to_darkness() {
    assert!(is_screen_dark(ScreenEvent::ScreenSaverActive { active: true }));
    assert!(!is_screen_dark(ScreenEvent::ScreenSaverActive { active: false }));
    assert!(is_screen_dark(ScreenEvent::Dpms { state: ScreenPowerState::Off }));
    assert!(!is_screen_dark(ScreenEvent::Dpms { state: ScreenPowerState::On }));
}

#[test]
fn controller_arms_and_aborts_one_timer() {
    let mut c = ScreenController::new();
    assert_eq!(c.on_screen(false), ControllerAction::Lighten { abort_timer: false });
    assert_eq!(c.on_screen(true), ControllerAction::ArmDarkTimer { abort_previous: false });
    assert!(c.timer_held);
    assert_eq!(c.on_screen(true), ControllerAction::ArmDarkTimer { abort_previous: true });
    assert_eq!(c.on_screen(false), ControllerAction::Lighten { abort_timer: true });
    assert!(!c.timer_held);
    assert_eq!(c.on_screen(false), ControllerAction::Lighten { abort_timer: false });
}

#[test]
fn dpms_silent_during_initial_report() {
    let mut t = DpmsTracker::new();
    assert_eq!(t.on_kde_event(KdeDpmsEvent::Mode { mode: 0 }), None);
    assert_eq!(t.last_state, Some(ScreenPowerState::On));
    assert_eq!(t.on_kde_event(KdeDpmsEvent::Supported { supported: 1 }), None);
    assert_eq!(t.on_kde_event(KdeDpmsEvent::Done), None);
    assert!(t.initial_done);
    assert_eq!(t.on_kde_event(KdeDpmsEvent::Mode { mode: 0 }), None);
    assert_eq!(t.on_kde_event(KdeDpmsEvent::Mode { mode: 3 }), Some(ScreenPowerState::Off));
    assert_eq!(t.on_kde_event(KdeDpmsEvent::Mode { mode: 1 }), None);
    assert_eq!(t.on_kde_event(KdeDpmsEvent::Mode { mode: 0 }), Some(ScreenPowerState::On));
}

#[test]
fn dpms_wlroots_reports_are_final() {
    let mut t = DpmsTracker::new();
    assert_eq!(t.on_wlr_event(WlrPowerEvent::Mode { on: true }), None);
    assert!(t.initial_done);
    assert_eq!(t.on_wlr_event(WlrPowerEvent::Failed), None);
    assert_eq!(t.on_wlr_event(WlrPowerEvent::Mode { on: false }), Some(ScreenPowerState::Off));
    assert_eq!(t.on_wlr_event(WlrPowerEvent::Mode { on: false }), None);
    assert_eq!(t.on_wlr_event(WlrPowerEvent::Mode { on: true }), Some(ScreenPowerState::On));
}

#[test]
fn dpms_first_report_after_done_without_state_is_announced() {
    let mut t = DpmsTracker::new();
    assert_eq!(t.on_kde_event(KdeDpmsEvent::Done), None);
    assert_eq!(t.handle_mode_change(true), Some(ScreenPowerState::On));
}

#[test]
fn registry_bindings() {
    assert_eq!(
        registry_binding("org_kde_kwin_dpms_manager", 3, false),
        RegistryBinding::KdeDpmsManager { version: 1 }
    );
    assert_eq!(registry_binding("org_kde_kwin_dpms_manager", 3, true), RegistryBinding::Ignore);
    assert_eq!(
        registry_binding("zwlr_output_power_manager_v1", 1, false),
        RegistryBinding::WlrPowerManager { version: 1 }
    );
    assert_eq!(registry_binding("zwlr_output_power_manager_v1", 2, true), RegistryBinding::Ignore);
    assert_eq!(registry_binding("wl_output", 2, true), RegistryBinding::Output { version: 2 });
    assert_eq!(registry_binding("wl_output", 6, false), RegistryBinding::Output { version: 4 });
    assert_eq!(registry_binding("wl_seat", 6, false), RegistryBinding::Ignore);
    assert_eq!(registry_binding("wl_outpu", 6, false), RegistryBinding::Ignore);
}

