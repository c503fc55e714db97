use core_engine::gateway::{
    get_auto_start, menu_action, menu_event, status_report, toggle_auto_start, AutoStart, MenuAction,
};

#[test]
fn auto_start_toggles() {
    let mut flag = AutoStart::new();
    assert!(!get_auto_start(&flag));
    assert!(toggle_auto_start(&mut flag));
    assert!(get_auto_start(&flag));
    assert!(!toggle_auto_start(&mut flag));
    assert!(!get_auto_start(&flag));
}

#[test]
fn status_reports() {
    let up = status_report(true, false);
    assert_eq!((up.status.as_str(), up.api_server.as_str(), up.auto_start), ("running", "ok", false));
    let down = status_report(false, true);
    assert_eq!((down.status.as_str(), down.api_server.as_str(), down.auto_start), ("stopped", "unavailable", true));
}

#[test]
fn tray_menu_entries() {
    assert_eq!(menu_action("quit"), Some(MenuAction::Quit));
    assert_eq!(menu_action("show"), Some(MenuAction::ShowWindow));
    assert_eq!(menu_action("start"), Some(MenuAction::StartEngine));
    assert_eq!(menu_action("stop"), Some(MenuAction::StopEngine));
    assert_eq!(menu_action("auto_start"), Some(MenuAction::ToggleAutoStart));
    assert_eq!(menu_action("Quit"), None);
    assert_eq!(menu_event(MenuAction::StartEngine), Some("tray:start-engine"));
    assert_eq!(menu_event(MenuAction::StopEngine), Some("tray:stop-engine"));
    assert_eq!(menu_event(MenuAction::ToggleAutoStart), Some("tray:toggle-auto-start"));
    assert_eq!(menu_event(MenuAction::Quit), None);
    assert_eq!(menu_event(MenuAction::ShowWindow), None);
}
