//! The API's request and response types and the decision each endpoint
//! makes on the engine's state.
//!
//! Endpoints: `GET /v1/sense` (`AppState::sense`), `POST /v1/act`
//! (`AppState::act`), `POST /v1/browser/start` (`AppState::browser_start`),
//! `POST /v1/browser/stop` (`AppState::browser_stop`) and `GET /v1/status`
//! (`AppState::status`). Errors are an HTTP status code and a message.
use vstd::prelude::*;
use vstd::string::*;

use crate::cdp::{fresh_client, launched, navigated as page_navigated, sent, CdpClient, CdpView, CommandView};
use crate::inspector::{
    marked_ready, mutated, navigated, page_info_set, reset_state, InspectorView, TrafficInspector,
};
use crate::parser::SemanticParser;
use crate::parser::{html_count, html_nodes, nodes_view, SemanticNode};
use crate::text::{
    ascii_lower, ascii_lower_char, decimal, is_ascii_seq, lowercase, opt_view, str_eq, to_lowercase,
    u32_to_decimal,
};
use crate::EngineConfig;

verus! {

/// 400 Bad Request
pub const STATUS_BAD_REQUEST: u16 = 400;

/// 409 Conflict
pub const STATUS_CONFLICT: u16 = 409;

/// 500 Internal Server Error
pub const STATUS_INTERNAL_SERVER_ERROR: u16 = 500;

/// 503 Service Unavailable
pub const STATUS_SERVICE_UNAVAILABLE: u16 = 503;

/// Sense response.
#[derive(Debug)]
pub struct SenseResponse {
    pub status: String,
    pub url: String,
    pub page_title: String,
    pub semantic_tree: Vec<SemanticNode>,
}

/// Act request.
#[derive(Debug)]
pub struct ActRequest {
    pub action: String,
    pub target_id: u32,
    pub value: String,
}

/// Supported actions.
#[derive(Debug, Clone, Copy, PartialEq, Eq, Structural)]
pub enum ActionType {
    Click,
    Type,
    Scroll,
    Wait,
    Hover,
    Select,
}

/// The action a lowercase action name stands for (`fill` is a synonym of
/// `type`).
pub open spec fn action_named(name: Seq<char>) -> Option<ActionType> {
    if name == "click"@ {
        Some(ActionType::Click)
    } else if name == "type"@ || name == "fill"@ {
        Some(ActionType::Type)
    } else if name == "scroll"@ {
        Some(ActionType::Scroll)
    } else if name == "wait"@ {
        Some(ActionType::Wait)
    } else if name == "hover"@ {
        Some(ActionType::Hover)
    } else if name == "select"@ {
        Some(ActionType::Select)
    } else {
        None
    }
}

impl ActionType {
    /// The action named by an already lowercased name.
    pub fn from_lowercase(name: &str) -> (r: Option<ActionType>)
        ensures
            r == action_named(name@),
    {
        if str_eq(name, "click") {
            Some(ActionType::Click)
        } else if str_eq(name, "type") || str_eq(name, "fill") {
            Some(ActionType::Type)
        } else if str_eq(name, "scroll") {
            Some(ActionType::Scroll)
        } else if str_eq(name, "wait") {
            Some(ActionType::Wait)
        } else if str_eq(name, "hover") {
            Some(ActionType::Hover)
        } else if str_eq(name, "select") {
            Some(ActionType::Select)
        } else {
            None
        }
    }

    /// The action named by `s`, ignoring case.
    pub fn from_str(s: &str) -> (r: Option<ActionType>)
        ensures
            r == action_named(lowercase(s@)),
            is_ascii_seq(s@) ==> r == action_named(ascii_lower(s@)),
    {
        let lowered = to_lowercase(s);
        Self::from_lowercase(lowered.as_str())
    }
}

/// Inspector state as reported by the API.
#[derive(Debug, Clone, Copy, PartialEq, Eq, Structural)]
pub struct InspectorStateResponse {
    pub active_requests: u32,
    pub is_ready: bool,
}

/// Act response.
#[derive(Debug)]
pub struct ActResponse {
    pub success: bool,
    pub message: String,
    pub new_state: Option<InspectorStateResponse>,
    pub error: Option<String>,
}

/// Browser start request.
#[derive(Debug)]
pub struct BrowserStartRequest {
    pub headless: bool,
    pub user_data_dir: Option<String>,
}

/// Status response.
#[derive(Debug)]
pub struct StatusResponse {
    pub browser_running: bool,
    pub inspector: InspectorStateResponse,
    pub url: Option<String>,
}

/// The selector that addresses the element with interaction id `id`.
pub open spec fn target_selector_of(id: u32) -> Seq<char> {
    "[data-id=\""@ + decimal(id as nat) + "\"]"@
}

/// The script that scrolls the page down by `amount`.
pub open spec fn scroll_script_of(amount: Seq<char>) -> Seq<char> {
    "window.scrollBy(0, "@ + amount + ")"@
}

/// The message for an action name that is not understood.
pub open spec fn invalid_action_message(action: Seq<char>) -> Seq<char> {
    "Invalid action: "@ + action + ". Valid: click, type, scroll, wait, hover"@
}

/// The message for an executed action.
pub open spec fn executed_message(action: Seq<char>) -> Seq<char> {
    "Action '"@ + action + "' executed (placeholder)"@
}

/// The selector that addresses the element with interaction id `id`.
pub fn target_selector(id: u32) -> (r: String)
    ensures
        r@ == target_selector_of(id),
{
    let mut s = String::from_str("[data-id=\"");
    let digits = u32_to_decimal(id);
    s.append(digits.as_str());
    s.append("\"]");
    s
}

/// The script that scrolls the page down by `amount`.
pub fn scroll_script(amount: &str) -> (r: String)
    ensures
        r@ == scroll_script_of(amount@),
{
    let mut s = String::from_str("window.scrollBy(0, ");
    s.append(amount);
    s.append(")");
    s
}

/// An error answer: a status code and a message.
fn fail(code: u16, msg: &str) -> (r: (u16, String))
    ensures
        r.0 == code,
        r.1@ == msg@,
{
    (code, msg.to_owned())
}

/// The engine's shared state: configuration, parser, inspector, browser
/// client and whether the browser runs.
pub struct AppState {
    pub config: EngineConfig,
    pub parser: SemanticParser,
    pub inspector: TrafficInspector,
    pub cdp_client: CdpClient,
    pub is_running: bool,
}

/// What the endpoints observe of the engine: whether the browser counts as
/// running, the browser client and the inspector.
pub struct EngineView {
    pub running: bool,
    pub browser: CdpView,
    pub inspector: InspectorView,
}

/// The engine after a successful start at time `now`: a fresh client
/// launched with these options, the browser running, the inspector reset.
pub open spec fn started_engine(v: EngineView, now: u128, headless: bool, sandbox: bool) -> EngineView {
    EngineView {
        running: true,
        browser: launched(fresh_client(), headless, sandbox),
        inspector: reset_state(v.inspector, now),
    }
}

/// The page command an action sends: a click or typing on the element with
/// the target id, a scroll script for a scroll, none for the others.
pub open spec fn action_command(a: ActionType, target_id: u32, value: Seq<char>) -> Option<
    CommandView,
> {
    match a {
        ActionType::Click => Some(CommandView::Click(target_selector_of(target_id))),
        ActionType::Type => Some(CommandView::TypeText(target_selector_of(target_id), value)),
        ActionType::Scroll => Some(CommandView::Evaluate(scroll_script_of(value))),
        _ => None,
    }
}

/// The client after sending the command, if any.
pub open spec fn acted(c: CdpView, cmd: Option<CommandView>) -> CdpView {
    match cmd {
        Some(x) => sent(c, x),
        None => c,
    }
}

/// The engine after a stop: the browser no longer counts as running.
pub open spec fn stopped_engine(v: EngineView) -> EngineView {
    EngineView { running: false, ..v }
}

impl AppState {
    /// What the endpoints observe of this state.
    pub open spec fn engine(&self) -> EngineView {
        EngineView { running: self.is_running, browser: self.cdp_client@, inspector: self.inspector@ }
    }

    /// A fresh engine state: default parser and inspector, an idle browser
    /// client, the browser not running.
    pub fn new(config: EngineConfig) -> (r: Self)
        ensures
            r.config == config,
            !r.is_running,
            r.parser.next_id == 1,
            r.inspector@.active_count == 0,
            r.inspector@.state == crate::inspector::initial_state(),
            r.cdp_client@ == fresh_client(),
    {
        AppState {
            config,
            parser: SemanticParser::default_parser(),
            inspector: TrafficInspector::default_inspector(),
            cdp_client: CdpClient::new(),
            is_running: false,
        }
    }

    /// `GET /v1/sense`: when the browser runs, the page's URL and title are
    /// recorded in the inspector and the page content is parsed into the
    /// semantic tree; otherwise 503.
    pub fn sense(&mut self) -> (r: Result<SenseResponse, (u16, String)>)
        ensures
            !old(self).is_running ==> (r matches Err(e) && e.0 == STATUS_SERVICE_UNAVAILABLE && e.1@
                == "Browser not running. Start with POST /v1/browser/start"@),
            !old(self).is_running ==> final(self).inspector@ == old(self).inspector@,
            old(self).is_running && old(self).parser.next_id + html_count(old(self).cdp_client@.content)
                <= u32::MAX ==> (r matches Ok(resp) && resp.status@ == "ready"@ && resp.url@
                == old(self).cdp_client@.url && resp.page_title@ == old(self).cdp_client@.title
                && nodes_view(resp.semantic_tree@) == html_nodes(
                old(self).parser.config,
                old(self).cdp_client@.content,
                old(self).parser.next_id as int,
            ) && final(self).parser.next_id == old(self).parser.next_id + html_count(
                old(self).cdp_client@.content,
            )),
            old(self).is_running && old(self).parser.next_id + html_count(old(self).cdp_client@.content)
                > u32::MAX ==> (r matches Err(e) && e.0 == STATUS_INTERNAL_SERVER_ERROR && e.1@
                == "Interaction ids exhausted"@ && final(self).parser.next_id == old(
                self,
            ).parser.next_id),
            old(self).is_running ==> final(self).inspector@ == page_info_set(
                old(self).inspector@,
                Some(old(self).cdp_client@.url),
                Some(old(self).cdp_client@.title),
            ),
            final(self).is_running == old(self).is_running,
            final(self).cdp_client@ == old(self).cdp_client@,
            !old(self).is_running ==> final(self).parser.next_id == old(self).parser.next_id,
            final(self).parser.config == old(self).parser.config,
            final(self).config == old(self).config,
    {
        if !self.is_running {
            return Err(
                fail(STATUS_SERVICE_UNAVAILABLE, "Browser not running. Start with POST /v1/browser/start"),
            );
        }
        let url = self.cdp_client.get_url();
        let title = self.cdp_client.get_title();
        let content = self.cdp_client.content();
        self.inspector.set_page_info(Some(url.clone()), Some(title.clone()));
        let semantic_tree = match self.parser.parse_html_checked(content.as_str()) {
            Some(tree) => tree,
            None => {
                return Err(fail(STATUS_INTERNAL_SERVER_ERROR, "Interaction ids exhausted"));
            },
        };
        Ok(SenseResponse { status: String::from_str("ready"), url, page_title: title, semantic_tree })
    }

    /// `POST /v1/act`: an unknown action is refused with 400; otherwise,
    /// when the browser runs, the action's command is sent for the target
    /// element, the DOM counts as mutated now and the page as ready; when it
    /// does not run, 503.
    pub fn act(&mut self, req: &ActRequest) -> (r: Result<ActResponse, (u16, String)>)
        ensures
            action_named(lowercase(req.action@)) is None ==> (r matches Err(e) && e.0
                == STATUS_BAD_REQUEST && e.1@ == invalid_action_message(req.action@)),
            action_named(lowercase(req.action@)) is Some && !old(self).is_running ==> (r matches Err(
                e,
            ) && e.0 == STATUS_SERVICE_UNAVAILABLE && e.1@ == "Browser not running"@),
            r is Err ==> final(self).inspector@ == old(self).inspector@ && final(self).cdp_client@
                == old(self).cdp_client@,
            old(self).is_running ==> match action_named(lowercase(req.action@)) {
                Some(a) => (r matches Ok(resp) && resp.success && resp.message@ == executed_message(
                    req.action@,
                ) && resp.error is None && resp.new_state == Some(
                    InspectorStateResponse {
                        active_requests: old(self).inspector@.state.active_requests,
                        is_ready: true,
                    },
                )) && final(self).cdp_client@ == acted(
                    old(self).cdp_client@,
                    action_command(a, req.target_id, req.value@),
                ),
                None => true,
            },
            r is Ok ==> exists|now: u128|
                final(self).inspector@ == marked_ready(mutated(old(self).inspector@, now)),
            final(self).is_running == old(self).is_running,
            final(self).parser.next_id == old(self).parser.next_id,
            final(self).parser.config == old(self).parser.config,
            final(self).config == old(self).config,
    {
        let action_type = ActionType::from_str(req.action.as_str());
        let action = match action_type {
            Some(a) => a,
            None => {
                let mut m = String::from_str("Invalid action: ");
                m.append(req.action.as_str());
                m.append(". Valid: click, type, scroll, wait, hover");
                return Err((STATUS_BAD_REQUEST, m));
            },
        };
        if !self.is_running {
            return Err(fail(STATUS_SERVICE_UNAVAILABLE, "Browser not running"));
        }
        let outcome = match action {
            ActionType::Click => {
                let selector = target_selector(req.target_id);
                self.cdp_client.click(selector.as_str())
            },
            ActionType::Type => {
                let selector = target_selector(req.target_id);
                self.cdp_client.type_text(selector.as_str(), req.value.as_str())
            },
            ActionType::Scroll => {
                let script = scroll_script(req.value.as_str());
                self.cdp_client.evaluate(script.as_str())
            },
            ActionType::Wait | ActionType::Hover | ActionType::Select => Ok(()),
        };
        match outcome {
            Ok(()) => {},
            Err(e) => {
                return Err((STATUS_INTERNAL_SERVER_ERROR, e.to_string()));
            },
        }
        self.inspector.dom_mutated();
        self.inspector.mark_ready();
        let inspector_state = self.inspector.get_state();
        let mut message = String::from_str("Action '");
        message.append(req.action.as_str());
        message.append("' executed (placeholder)");
        Ok(
            ActResponse {
                success: true,
                message,
                new_state: Some(
                    InspectorStateResponse {
                        active_requests: inspector_state.active_requests,
                        is_ready: inspector_state.is_ready,
                    },
                ),
                error: None,
            },
        )
    }

    /// Load `url` in the running browser before the page is sensed: the
    /// client navigates there and the inspector records the navigation now;
    /// when the browser does not run, 503.
    pub fn navigate(&mut self, url: &str) -> (r: Result<(), (u16, String)>)
        ensures
            !old(self).is_running ==> (r matches Err(e) && e.0 == STATUS_SERVICE_UNAVAILABLE && e.1@
                == "Browser not running. Start with POST /v1/browser/start"@)
                && final(self).inspector@ == old(self).inspector@ && final(self).cdp_client@
                == old(self).cdp_client@,
            old(self).is_running ==> r is Ok && final(self).cdp_client@ == page_navigated(
                old(self).cdp_client@,
                url@,
            ) && exists|now: u128| final(self).inspector@ == navigated(old(self).inspector@, url@, now),
            final(self).is_running == old(self).is_running,
            final(self).parser.next_id == old(self).parser.next_id,
            final(self).parser.config == old(self).parser.config,
            final(self).config == old(self).config,
    {
        if !self.is_running {
            return Err(
                fail(STATUS_SERVICE_UNAVAILABLE, "Browser not running. Start with POST /v1/browser/start"),
            );
        }
        match self.cdp_client.navigate(url) {
            Ok(()) => {},
            Err(e) => {
                return Err((STATUS_INTERNAL_SERVER_ERROR, e.to_string()));
            },
        }
        self.inspector.on_navigate(url);
        Ok(())
    }

    /// `POST /v1/browser/start`: when the browser is not running yet, a new
    /// client is launched (headless as requested, sandboxed as configured),
    /// the browser counts as running and the inspector is reset now;
    /// otherwise 409.
    pub fn browser_start(&mut self, req: &BrowserStartRequest) -> (r: Result<String, (u16, String)>)
        ensures
            old(self).is_running ==> (r matches Err(e) && e.0 == STATUS_CONFLICT && e.1@
                == "Browser already running"@),
            old(self).is_running ==> final(self).inspector@ == old(self).inspector@
                && final(self).cdp_client@ == old(self).cdp_client@ && final(self).is_running,
            !old(self).is_running ==> (r matches Ok(m) && m@ == "Browser started"@),
            !old(self).is_running ==> exists|now: u128|
                final(self).engine() == started_engine(
                    old(self).engine(),
                    now,
                    req.headless,
                    old(self).config.sandbox,
                ),
            final(self).parser.next_id == old(self).parser.next_id,
            final(self).parser.config == old(self).parser.config,
            final(self).config == old(self).config,
    {
        if self.is_running {
            return Err(fail(STATUS_CONFLICT, "Browser already running"));
        }
        let ghost before = self.engine();
        let mut cdp = CdpClient::new();
        let launch_result = cdp.launch(req.headless, self.config.sandbox);
        match launch_result {
            Ok(()) => {
                self.cdp_client = cdp;
                self.is_running = true;
                self.inspector.reset();
                proof {
                    let now = choose|now: u128| self.inspector@ == reset_state(before.inspector, now);
                    assert(self.engine() == started_engine(
                        before,
                        now,
                        req.headless,
                        self.config.sandbox,
                    ));
                }
                Ok(String::from_str("Browser started"))
            },
            Err(e) => {
                let mut m = String::from_str("Failed to start browser: ");
                let detail = e.to_string();
                m.append(detail.as_str());
                Err((STATUS_INTERNAL_SERVER_ERROR, m))
            },
        }
    }

    /// `POST /v1/browser/stop`: when the browser runs, it no longer counts
    /// as running; otherwise 409.
    pub fn browser_stop(&mut self) -> (r: Result<String, (u16, String)>)
        ensures
            !old(self).is_running ==> (r matches Err(e) && e.0 == STATUS_CONFLICT && e.1@
                == "Browser not running"@),
            old(self).is_running ==> (r matches Ok(m) && m@ == "Browser stopped"@),
            final(self).engine() == stopped_engine(old(self).engine()),
            final(self).parser.next_id == old(self).parser.next_id,
            final(self).parser.config == old(self).parser.config,
            final(self).config == old(self).config,
    {
        if !self.is_running {
            return Err(fail(STATUS_CONFLICT, "Browser not running"));
        }
        self.is_running = false;
        Ok(String::from_str("Browser stopped"))
    }

    /// `GET /v1/status`: whether the browser runs, the inspector's counters
    /// and the current URL.
    pub fn status(&self) -> (r: StatusResponse)
        ensures
            r.browser_running == self.is_running,
            r.inspector == (InspectorStateResponse {
                active_requests: self.inspector@.state.active_requests,
                is_ready: self.inspector@.state.is_ready,
            }),
            opt_view(r.url) == self.inspector@.state.url,
    {
        let inspector_state = self.inspector.get_state();
        StatusResponse {
            browser_running: self.is_running,
            inspector: InspectorStateResponse {
                active_requests: inspector_state.active_requests,
                is_ready: inspector_state.is_ready,
            },
            url: inspector_state.url,
        }
    }
}

/// Starting the browser from a stopped engine makes it run with a fresh
/// client on `about:blank` and an inspector with nothing active and no page;
/// stopping it afterwards leaves it not running with that client and
/// inspector, so it can be started again.
pub proof fn lemma_start_stop_cycle(v: EngineView, now: u128, headless: bool, sandbox: bool)
    ensures
        started_engine(v, now, headless, sandbox).running,
        started_engine(v, now, headless, sandbox).browser.running,
        started_engine(v, now, headless, sandbox).browser.url == "about:blank"@,
        started_engine(v, now, headless, sandbox).browser.launch_options == Some((headless, sandbox)),
        started_engine(v, now, headless, sandbox).browser.commands.len() == 0,
        started_engine(v, now, headless, sandbox).inspector.active_count == 0,
        started_engine(v, now, headless, sandbox).inspector.state.url is None,
        !started_engine(v, now, headless, sandbox).inspector.state.is_ready,
        !stopped_engine(started_engine(v, now, headless, sandbox)).running,
        stopped_engine(started_engine(v, now, headless, sandbox)).inspector == started_engine(
            v,
            now,
            headless,
            sandbox,
        ).inspector,
        started_engine(stopped_engine(started_engine(v, now, headless, sandbox)), now, headless, sandbox).running,
{
}

/// For an ASCII action name, lowercasing it once more names the same
/// action: the name's lowercase form is ASCII again and is its own
/// lowercase form.
pub proof fn lemma_action_name_lowercase_stable(s: Seq<char>)
    requires
        is_ascii_seq(s),
    ensures
        is_ascii_seq(ascii_lower(s)),
        ascii_lower(ascii_lower(s)) == ascii_lower(s),
        action_named(ascii_lower(ascii_lower(s))) == action_named(ascii_lower(s)),
{
    let l = ascii_lower(s);
    assert forall|i: int| 0 <= i < l.len() implies (l[i] as u32) < 128 && ascii_lower_char(l[i])
        == l[i] by {
        let u = s[i] as u32;
        if 65 <= u <= 90 {
            assert((((u + 32) as char) as u32) == u + 32);
        }
    }
    assert(ascii_lower(l) =~= l);
}

} // verus!
