use core_engine::cdp::{CdpClient, CdpCommand};
use core_engine::server::{
    scroll_script, target_selector, ActRequest, ActionType, AppState, BrowserStartRequest,
    InspectorStateResponse,
};
use core_engine::EngineConfig;

fn act(action: &str, target_id: u32, value: &str) -> ActRequest {
    ActRequest { action: action.to_string(), target_id, value: value.to_string() }
}

#[test]
fn test_action_type_parsing() {
    assert!(ActionType::from_str("click").is_some());
    assert!(ActionType::from_str("type").is_some());
    assert!(ActionType::from_str("fill").is_some());
    assert!(ActionType::from_str("scroll").is_some());
    assert!(ActionType::from_str("wait").is_some());
    assert!(ActionType::from_str("hover").is_some());
    assert!(ActionType::from_str("select").is_some());
    assert!(ActionType::from_str("invalid").is_none());
}

#[test]
fn test_action_type_case_insensitive() {
    assert!(ActionType::from_str("CLICK").is_some());
    assert!(ActionType::from_str("Click").is_some());
    assert!(ActionType::from_str("TYPE").is_some());
}

#[test]
fn action_names_map_to_actions() {
    assert_eq!(ActionType::from_str("Fill"), Some(ActionType::Type));
    assert_eq!(ActionType::from_str("type"), Some(ActionType::Type));
    assert_eq!(ActionType::from_str("SCROLL"), Some(ActionType::Scroll));
    assert_eq!(ActionType::from_lowercase("hover"), Some(ActionType::Hover));
    assert_eq!(ActionType::from_lowercase("HOVER"), None);
    assert_eq!(ActionType::from_str(""), None);
}

#[test]
fn selectors_and_scripts() {
    assert_eq!(target_selector(0), "[data-id=\"0\"]");
    assert_eq!(target_selector(1234), "[data-id=\"1234\"]");
    assert_eq!(scroll_script("300"), "window.scrollBy(0, 300)");
}

#[test]
fn endpoints_refuse_without_browser() {
    let mut state = AppState::new(EngineConfig::default());
    let (code, msg) = state.sense().err().unwrap();
    assert_eq!(code, 503);
    assert_eq!(msg, "Browser not running. Start with POST /v1/browser/start");
    let (code, _) = state.navigate("https://example.com").err().unwrap();
    assert_eq!(code, 503);
    let (code, msg) = state.act(&act("click", 1, "")).err().unwrap();
    assert_eq!((code, msg.as_str()), (503, "Browser not running"));
    assert!(state.cdp_client.commands().is_empty());
    let (code, msg) = state.browser_stop().err().unwrap();
    assert_eq!((code, msg.as_str()), (409, "Browser not running"));
    let status = state.status();
    assert!(!status.browser_running);
    assert_eq!(status.inspector, InspectorStateResponse { active_requests: 0, is_ready: false });
    assert_eq!(status.url, None);
}

#[test]
fn start_act_sense_stop() {
    let mut state = AppState::new(EngineConfig::default());
    let started = state.browser_start(&BrowserStartRequest { headless: true, user_data_dir: None });
    assert_eq!(started.unwrap(), "Browser started");
    assert!(state.is_running);
    assert!(state.cdp_client.is_running());
    assert_eq!(state.cdp_client.get_url(), "about:blank");
    let again = state.browser_start(&BrowserStartRequest { headless: false, user_data_dir: None });
    assert_eq!(again.err().unwrap(), (409, "Browser already running".to_string()));

    let (code, msg) = state.act(&act("jump", 3, "")).err().unwrap();
    assert_eq!(code, 400);
    assert_eq!(msg, "Invalid action: jump. Valid: click, type, scroll, wait, hover");

    let resp = state.act(&act("Click", 3, "")).unwrap();
    assert!(resp.success);
    assert_eq!(resp.message, "Action 'Click' executed (placeholder)");
    assert_eq!(resp.new_state, Some(InspectorStateResponse { active_requests: 0, is_ready: true }));
    assert!(resp.error.is_none());
    assert!(state.inspector.get_state().last_mutation.is_some());

    assert_eq!(state.cdp_client.commands(), &vec![CdpCommand::Click("[data-id=\"3\"]".to_string())]);

    for a in ["type", "scroll", "wait", "hover", "select"] {
        assert!(state.act(&act(a, 1, "10")).is_ok());
    }
    assert_eq!(
        state.cdp_client.commands(),
        &vec![
            CdpCommand::Click("[data-id=\"3\"]".to_string()),
            CdpCommand::TypeText("[data-id=\"1\"]".to_string(), "10".to_string()),
            CdpCommand::Evaluate("window.scrollBy(0, 10)".to_string()),
        ]
    );

    let sense = state.sense().unwrap();
    assert_eq!(sense.status, "ready");
    assert_eq!(sense.url, "about:blank");
    assert_eq!(sense.page_title, "");
    assert!(sense.semantic_tree.is_empty());
    assert_eq!(state.inspector.get_state().url.as_deref(), Some("about:blank"));
    assert_eq!(state.status().url.as_deref(), Some("about:blank"));

    assert_eq!(state.browser_stop().unwrap(), "Browser stopped");
    assert!(!state.is_running);
    assert!(state.sense().is_err());
}

#[test]
fn cdp_client_state() {
    let mut cdp = CdpClient::new();
    assert!(!cdp.is_running());
    assert!(cdp.commands().is_empty());
    assert_eq!(cdp.get_url(), "");
    assert!(cdp.launch(true, true).is_ok());
    assert!(cdp.is_running());
    assert!(cdp.navigate("https://example.com").is_ok());
    assert_eq!(cdp.get_url(), "https://example.com");
    assert_eq!(cdp.get_title(), "Page");
    assert_eq!(cdp.content(), "");
    assert!(cdp.click("#a").is_ok());
    assert!(cdp.type_text("#a", "x").is_ok());
    assert!(cdp.scroll(-5).is_ok());
    assert!(cdp.evaluate("1+1").is_ok());
    assert_eq!(
        cdp.commands(),
        &vec![
            CdpCommand::Click("#a".to_string()),
            CdpCommand::TypeText("#a".to_string(), "x".to_string()),
            CdpCommand::Scroll(-5),
            CdpCommand::Evaluate("1+1".to_string()),
        ]
    );
    cdp.close();
    assert!(!cdp.is_running());
    assert_eq!(cdp.get_url(), "https://example.com");
    assert!(!CdpClient::default().is_running());
}

#[test]
fn unknown_action_is_a_bad_request_even_without_browser() {
    let mut state = AppState::new(EngineConfig::default());
    let (code, msg) = state.act(&act("invalid_action", 1, "")).err().unwrap();
    assert_eq!(code, 400);
    assert_eq!(msg, "Invalid action: invalid_action. Valid: click, type, scroll, wait, hover");
}

#[test]
fn browser_start_records_launch_options() {
    let mut state = AppState::new(EngineConfig::default());
    assert!(state.browser_start(&BrowserStartRequest { headless: true, user_data_dir: None }).is_ok());
    assert!(state.cdp_client.commands().is_empty());
    assert_eq!(state.cdp_client.launch_options(), Some((true, state.config.sandbox)));
}

#[test]
fn navigate_before_sense() {
    let mut state = AppState::new(EngineConfig::default());
    state.browser_start(&BrowserStartRequest { headless: false, user_data_dir: None }).unwrap();
    state.navigate("https://example.com").unwrap();
    assert_eq!(state.inspector.get_state().url.as_deref(), Some("https://example.com"));
    let sense = state.sense().unwrap();
    assert_eq!(sense.url, "https://example.com");
    assert_eq!(sense.page_title, "Page");
}

#[test]
fn lowercasing_an_action_name_again_names_the_same_action() {
    for name in ["ClIcK", "FILL", "Scroll", "jump", "Type"] {
        let once = name.to_lowercase();
        assert_eq!(ActionType::from_str(&once), ActionType::from_str(name));
        assert_eq!(ActionType::from_str(&once.to_lowercase()), ActionType::from_str(name));
    }
}
