//! Decisions of the desktop gateway: the auto-start flag, the status it
//! reports for the engine, and what each tray menu entry asks for.
use vstd::prelude::*;
use vstd::string::*;

use crate::text::str_eq;

verus! {

/// Whether the engine is started automatically with the gateway.
#[derive(Debug, Clone, Copy, PartialEq, Eq, Structural)]
pub struct AutoStart {
    pub enabled: bool,
}

impl AutoStart {
    /// Auto-start begins disabled.
    pub fn new() -> (r: Self)
        ensures
            !r.enabled,
    {
        AutoStart { enabled: false }
    }
}

/// The flag flipped.
pub open spec fn toggled(flag: AutoStart) -> AutoStart {
    AutoStart { enabled: !flag.enabled }
}

/// Whether auto-start is enabled.
pub fn get_auto_start(flag: &AutoStart) -> (r: bool)
    ensures
        r == flag.enabled,
{
    flag.enabled
}

/// Flip auto-start and return the new setting.
pub fn toggle_auto_start(flag: &mut AutoStart) -> (r: bool)
    ensures
        *final(flag) == toggled(*old(flag)),
        r == final(flag).enabled,
{
    let current = flag.enabled;
    let new = !current;
    flag.enabled = new;
    new
}

/// Toggling auto-start twice restores the setting; toggling once always
/// changes it.
pub proof fn lemma_toggle_twice(flag: AutoStart)
    ensures
        toggled(toggled(flag)) == flag,
        toggled(flag) != flag,
{
}

/// The gateway's report on the engine.
#[derive(Debug)]
pub struct GatewayStatus {
    /// `running` or `stopped`
    pub status: String,
    pub auto_start: bool,
    /// `ok` or `unavailable`
    pub api_server: String,
}

/// The report for an engine whose health check did or did not succeed.
pub fn status_report(healthy: bool, auto_start: bool) -> (r: GatewayStatus)
    ensures
        r.status@ == (if healthy {
            "running"@
        } else {
            "stopped"@
        }),
        r.auto_start == auto_start,
        r.api_server@ == (if healthy {
            "ok"@
        } else {
            "unavailable"@
        }),
{
    GatewayStatus {
        status: String::from_str(
            if healthy {
                "running"
            } else {
                "stopped"
            },
        ),
        auto_start,
        api_server: String::from_str(
            if healthy {
                "ok"
            } else {
                "unavailable"
            },
        ),
    }
}

/// What a tray menu entry asks for.
#[derive(Debug, Clone, Copy, PartialEq, Eq, Structural)]
pub enum MenuAction {
    /// Quit the application.
    Quit,
    /// Show and focus the main window.
    ShowWindow,
    /// Ask the engine to start.
    StartEngine,
    /// Ask the engine to stop.
    StopEngine,
    /// Ask for auto-start to be toggled.
    ToggleAutoStart,
}

/// The action of the tray menu entry with this id; other ids ask for nothing.
pub open spec fn menu_action_of(id: Seq<char>) -> Option<MenuAction> {
    if id == "quit"@ {
        Some(MenuAction::Quit)
    } else if id == "show"@ {
        Some(MenuAction::ShowWindow)
    } else if id == "start"@ {
        Some(MenuAction::StartEngine)
    } else if id == "stop"@ {
        Some(MenuAction::StopEngine)
    } else if id == "auto_start"@ {
        Some(MenuAction::ToggleAutoStart)
    } else {
        None
    }
}

/// The action of the tray menu entry with this id.
pub fn menu_action(id: &str) -> (r: Option<MenuAction>)
    ensures
        r == menu_action_of(id@),
{
    if str_eq(id, "quit") {
        Some(MenuAction::Quit)
    } else if str_eq(id, "show") {
        Some(MenuAction::ShowWindow)
    } else if str_eq(id, "start") {
        Some(MenuAction::StartEngine)
    } else if str_eq(id, "stop") {
        Some(MenuAction::StopEngine)
    } else if str_eq(id, "auto_start") {
        Some(MenuAction::ToggleAutoStart)
    } else {
        None
    }
}

/// The event the gateway emits for an engine action, if any: start, stop
/// and auto-start requests are forwarded as `tray:` events.
pub open spec fn menu_event_of(action: MenuAction) -> Option<Seq<char>> {
    match action {
        MenuAction::StartEngine => Some("tray:start-engine"@),
        MenuAction::StopEngine => Some("tray:stop-engine"@),
        MenuAction::ToggleAutoStart => Some("tray:toggle-auto-start"@),
        _ => None,
    }
}

/// The event the gateway emits for an engine action, if any.
pub fn menu_event(action: MenuAction) -> (r: Option<&'static str>)
    ensures
        match (r, menu_event_of(action)) {
            (Some(a), Some(b)) => a@ == b,
            (None, None) => true,
            _ => false,
        },
{
    match action {
        MenuAction::StartEngine => Some("tray:start-engine"),
        MenuAction::StopEngine => Some("tray:stop-engine"),
        MenuAction::ToggleAutoStart => Some("tray:toggle-auto-start"),
        _ => None,
    }
}

} // verus!
