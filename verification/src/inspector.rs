//! Traffic inspector: follows network requests and DOM mutations to decide
//! when a page is ready.
//!
//! Times are nanoseconds on the inspector's own monotonic clock, counted
//! from its creation. Each event that needs the current time comes in two
//! forms: one that reads the clock, and one (`..._at`) that takes the time
//! as an argument and states exactly what it does with it.
use std::time::Instant;
use vstd::prelude::*;
use vstd::string::*;

use crate::clock::{elapsed_between, elapsed_ns, instant_now, millis_to_nanos, ms_to_ns, nanos_since};
use crate::text::{copy_opt, opt_view};
use crate::CoreError;

verus! {

/// Traffic inspector state.
#[derive(Debug, Clone)]
pub struct InspectorState {
    /// Currently active network requests
    pub active_requests: u32,
    /// Time of the last DOM mutation (nanoseconds on the inspector's clock)
    pub last_mutation: Option<u128>,
    /// Whether page is ready
    pub is_ready: bool,
    /// Current URL
    pub url: Option<String>,
    /// Page title
    pub title: Option<String>,
}

/// The content of an inspector state.
pub struct InspectorStateView {
    pub active_requests: u32,
    pub last_mutation: Option<u128>,
    pub is_ready: bool,
    pub url: Option<Seq<char>>,
    pub title: Option<Seq<char>>,
}

impl View for InspectorState {
    type V = InspectorStateView;

    open spec fn view(&self) -> InspectorStateView {
        InspectorStateView {
            active_requests: self.active_requests,
            last_mutation: self.last_mutation,
            is_ready: self.is_ready,
            url: opt_view(self.url),
            title: opt_view(self.title),
        }
    }
}

/// The initial state: nothing active, nothing mutated, not ready, no page.
pub open spec fn initial_state() -> InspectorStateView {
    InspectorStateView {
        active_requests: 0,
        last_mutation: None,
        is_ready: false,
        url: None,
        title: None,
    }
}

impl Default for InspectorState {
    fn default() -> (r: Self)
        ensures
            r@ == initial_state(),
    {
        InspectorState { active_requests: 0, last_mutation: None, is_ready: false, url: None, title: None }
    }
}

/// Traffic inspector configuration (all spans in milliseconds).
#[derive(Debug, Clone, Copy)]
pub struct InspectorConfig {
    /// Minimum idle time for DOM
    pub dom_idle_threshold_ms: u64,
    /// Minimum idle time for network
    pub network_idle_threshold_ms: u64,
    /// Maximum wait time
    pub max_wait_time_ms: u64,
    /// Polling interval for network check
    pub network_poll_interval_ms: u64,
}

impl Default for InspectorConfig {
    fn default() -> (r: Self)
        ensures
            r.dom_idle_threshold_ms == 500,
            r.network_idle_threshold_ms == 1000,
            r.max_wait_time_ms == 30_000,
            r.network_poll_interval_ms == 100,
    {
        InspectorConfig {
            dom_idle_threshold_ms: 500,
            network_idle_threshold_ms: 1000,
            max_wait_time_ms: 30_000,
            network_poll_interval_ms: 100,
        }
    }
}

/// Traffic inspector for monitoring page state.
pub struct TrafficInspector {
    state: InspectorState,
    config: InspectorConfig,
    active_count: u32,
    origin: Instant,
}

/// The content of an inspector: its state, its configuration and its count
/// of active requests (kept apart from the state's copy of it).
pub struct InspectorView {
    pub state: InspectorStateView,
    pub config: InspectorConfig,
    pub active_count: u32,
}

impl View for TrafficInspector {
    type V = InspectorView;

    closed spec fn view(&self) -> InspectorView {
        InspectorView { state: self.state@, config: self.config, active_count: self.active_count }
    }
}

/// At time `now` the DOM has been quiet for the configured threshold since
/// the mutation at `since`.
pub open spec fn dom_idle(cfg: InspectorConfig, now: u128, since: u128) -> bool {
    elapsed_ns(now, since) >= ms_to_ns(cfg.dom_idle_threshold_ms)
}

/// The page settles once nothing is active and the DOM is quiet (or never
/// mutated).
pub open spec fn settles(cfg: InspectorConfig, s: InspectorStateView, now: u128) -> bool {
    s.active_requests == 0 && match s.last_mutation {
        Some(t) => dom_idle(cfg, now, t),
        None => true,
    }
}

/// The state after a readiness check at time `now`.
pub open spec fn checked(cfg: InspectorConfig, s: InspectorStateView, now: u128) -> InspectorStateView {
    if settles(cfg, s, now) {
        InspectorStateView { is_ready: true, ..s }
    } else {
        s
    }
}

/// A request started.
pub open spec fn started(v: InspectorView) -> InspectorView {
    InspectorView {
        state: InspectorStateView {
            active_requests: (v.active_count + 1) as u32,
            is_ready: false,
            ..v.state
        },
        active_count: (v.active_count + 1) as u32,
        ..v
    }
}

/// A request finished (or failed) at time `now`. The counter and the state's
/// copy of it are decremented, stopping at zero (a finish with nothing
/// active leaves both at zero); readiness is checked.
pub open spec fn finished(v: InspectorView, now: u128) -> InspectorView {
    let s = InspectorStateView {
        active_requests: if v.active_count > 0 {
            (v.active_count - 1) as u32
        } else {
            0
        },
        ..v.state
    };
    InspectorView {
        state: checked(v.config, s, now),
        active_count: if v.active_count > 0 {
            (v.active_count - 1) as u32
        } else {
            0
        },
        ..v
    }
}

/// The DOM mutated at time `now`.
pub open spec fn mutated(v: InspectorView, now: u128) -> InspectorView {
    InspectorView {
        state: InspectorStateView { last_mutation: Some(now), is_ready: false, ..v.state },
        ..v
    }
}

/// A navigation to `url` at time `now`.
pub open spec fn navigated(v: InspectorView, url: Seq<char>, now: u128) -> InspectorView {
    InspectorView {
        state: InspectorStateView {
            url: Some(url),
            active_requests: 0,
            last_mutation: Some(now),
            is_ready: false,
            ..v.state
        },
        active_count: 0,
        ..v
    }
}

/// A reset at time `now`: no page, nothing active, freshly mutated.
pub open spec fn reset_state(v: InspectorView, now: u128) -> InspectorView {
    InspectorView {
        state: InspectorStateView {
            active_requests: 0,
            last_mutation: Some(now),
            is_ready: false,
            url: None,
            title: None,
        },
        active_count: 0,
        ..v
    }
}

/// The page's URL and title replaced by those given; `None` keeps the old one.
pub open spec fn page_info_set(
    v: InspectorView,
    url: Option<Seq<char>>,
    title: Option<Seq<char>>,
) -> InspectorView {
    InspectorView {
        state: InspectorStateView {
            url: match url {
                Some(u) => Some(u),
                None => v.state.url,
            },
            title: match title {
                Some(t) => Some(t),
                None => v.state.title,
            },
            ..v.state
        },
        ..v
    }
}

/// The page marked ready.
pub open spec fn marked_ready(v: InspectorView) -> InspectorView {
    InspectorView { state: InspectorStateView { is_ready: true, ..v.state }, ..v }
}

/// A wait for readiness can end now: nothing is active and the page is
/// ready, never mutated, or quiet for the threshold.
pub open spec fn wait_settles(v: InspectorView, now: u128) -> bool {
    v.active_count == 0 && (v.state.is_ready || match v.state.last_mutation {
        Some(t) => dom_idle(v.config, now, t),
        None => true,
    })
}

/// A wait begun at `started` has gone on longer than the configured maximum.
pub open spec fn wait_expired(v: InspectorView, now: u128, started: u128) -> bool {
    elapsed_ns(now, started) > ms_to_ns(v.config.max_wait_time_ms)
}

impl TrafficInspector {
    /// Create a new inspector; its clock starts now.
    pub fn new(config: InspectorConfig) -> (r: Self)
        ensures
            r@.state == initial_state(),
            r@.config == config,
            r@.active_count == 0,
    {
        TrafficInspector {
            state: InspectorState::default(),
            config,
            active_count: 0,
            origin: instant_now(),
        }
    }

    /// Create with the default configuration.
    pub fn default_inspector() -> (r: Self)
        ensures
            r@.state == initial_state(),
            r@.config.dom_idle_threshold_ms == 500,
            r@.config.network_idle_threshold_ms == 1000,
            r@.config.max_wait_time_ms == 30_000,
            r@.config.network_poll_interval_ms == 100,
            r@.active_count == 0,
    {
        Self::new(InspectorConfig::default())
    }

    /// The current time on the inspector's clock, in nanoseconds since it was
    /// created.
    pub fn now_ns(&self) -> u128 {
        nanos_since(&self.origin)
    }

    /// Record that a network request started.
    pub fn request_started(&mut self)
        requires
            old(self)@.active_count < u32::MAX,
        ensures
            final(self)@ == started(old(self)@),
    {
        let count = self.active_count;
        self.active_count = count + 1;
        self.state.active_requests = count + 1;
        self.state.is_ready = false;
    }

    /// Record that a network request finished at time `now`, then check
    /// readiness.
    pub fn request_finished_at(&mut self, now: u128)
        ensures
            final(self)@ == finished(old(self)@, now),
    {
        let count = self.active_count;
        if count > 0 {
            self.active_count = count - 1;
            self.state.active_requests = count - 1;
        } else {
            self.active_count = 0;
            self.state.active_requests = 0;
        }
        self.check_ready(now);
    }

    /// Record that a network request finished, then check readiness.
    pub fn request_finished(&mut self)
        ensures
            exists|now: u128| final(self)@ == finished(old(self)@, now),
    {
        let now = self.now_ns();
        self.request_finished_at(now);
    }

    /// Record that a network request failed at time `now` (as a finished one).
    pub fn request_failed_at(&mut self, now: u128)
        ensures
            final(self)@ == finished(old(self)@, now),
    {
        self.request_finished_at(now);
    }

    /// Record that a network request failed (as a finished one).
    pub fn request_failed(&mut self)
        ensures
            exists|now: u128| final(self)@ == finished(old(self)@, now),
    {
        self.request_finished();
    }

    /// Record a DOM mutation at time `now`.
    pub fn dom_mutated_at(&mut self, now: u128)
        ensures
            final(self)@ == mutated(old(self)@, now),
    {
        self.state.last_mutation = Some(now);
        self.state.is_ready = false;
    }

    /// Record a DOM mutation now.
    pub fn dom_mutated(&mut self)
        ensures
            exists|now: u128| final(self)@ == mutated(old(self)@, now),
    {
        let now = self.now_ns();
        self.dom_mutated_at(now);
    }

    /// Update the page's URL and title; a `None` leaves that part as it was.
    pub fn set_page_info(&mut self, url: Option<String>, title: Option<String>)
        ensures
            final(self)@ == page_info_set(
                old(self)@,
                match url {
                    Some(u) => Some(u@),
                    None => None,
                },
                match title {
                    Some(t) => Some(t@),
                    None => None,
                },
            ),
    {
        match url {
            Some(u) => {
                self.state.url = Some(u);
            },
            None => {},
        }
        match title {
            Some(t) => {
                self.state.title = Some(t);
            },
            None => {},
        }
    }

    /// Record a navigation to `url` at time `now` (a new page load).
    pub fn on_navigate_at(&mut self, url: &str, now: u128)
        ensures
            final(self)@ == navigated(old(self)@, url@, now),
    {
        self.state.url = Some(url.to_owned());
        self.state.active_requests = 0;
        self.state.last_mutation = Some(now);
        self.state.is_ready = false;
        self.active_count = 0;
    }

    /// Record a navigation to `url` now (a new page load).
    pub fn on_navigate(&mut self, url: &str)
        ensures
            exists|now: u128| final(self)@ == navigated(old(self)@, url@, now),
    {
        let now = self.now_ns();
        self.on_navigate_at(url, now);
    }

    /// Mark the page ready if, at time `now`, nothing is active and the DOM
    /// is quiet or never mutated.
    fn check_ready(&mut self, now: u128)
        ensures
            final(self)@ == (InspectorView {
                state: checked(old(self)@.config, old(self)@.state, now),
                ..old(self)@
            }),
    {
        if self.state.active_requests == 0 {
            match self.state.last_mutation {
                Some(last) => {
                    let idle = elapsed_between(now, last);
                    if idle >= millis_to_nanos(self.config.dom_idle_threshold_ms) {
                        self.state.is_ready = true;
                    }
                },
                None => {
                    self.state.is_ready = true;
                },
            }
        }
    }

    /// One step of waiting for the page to be ready, at time `now`, for a
    /// wait that began at `started`: the ready state when the wait can end
    /// (the page is then marked ready), a timeout error when it has gone on
    /// too long, and `None` when the caller should sleep for the poll
    /// interval and ask again.
    pub fn poll_ready_at(&mut self, now: u128, started: u128) -> (r: Option<
        Result<InspectorState, CoreError>,
    >)
        ensures
            wait_settles(old(self)@, now) ==> final(self)@ == marked_ready(old(self)@) && (r matches Some(
                Ok(s),
            ) && s@ == final(self)@.state),
            !wait_settles(old(self)@, now) ==> final(self)@ == old(self)@,
            !wait_settles(old(self)@, now) && wait_expired(old(self)@, now, started) ==> (r matches Some(
                Err(e),
            ) && e matches CoreError::Inspector(m) && m@ == "Timeout waiting for page ready"@),
            !wait_settles(old(self)@, now) && !wait_expired(old(self)@, now, started) ==> r is None,
    {
        if self.active_count == 0 {
            if self.state.is_ready {
                return Some(Ok(self.get_state()));
            }
            let settle = match self.state.last_mutation {
                Some(last) => elapsed_between(now, last) >= millis_to_nanos(
                    self.config.dom_idle_threshold_ms,
                ),
                None => true,
            };
            if settle {
                self.state.is_ready = true;
                return Some(Ok(self.get_state()));
            }
        }
        if elapsed_between(now, started) > millis_to_nanos(self.config.max_wait_time_ms) {
            return Some(
                Err(CoreError::Inspector(String::from_str("Timeout waiting for page ready"))),
            );
        }
        None
    }

    /// One step of waiting for the page to be ready, now, for a wait that
    /// began at `started` (see `poll_ready_at`).
    pub fn poll_ready(&mut self, started: u128) -> (r: Option<Result<InspectorState, CoreError>>)
        ensures
            exists|now: u128|
                {
                    &&& wait_settles(old(self)@, now) ==> final(self)@ == marked_ready(old(self)@) && (
                    r matches Some(Ok(s)) && s@ == final(self)@.state)
                    &&& !wait_settles(old(self)@, now) ==> final(self)@ == old(self)@
                    &&& !wait_settles(old(self)@, now) && wait_expired(old(self)@, now, started) ==> (
                    r matches Some(Err(e)) && e matches CoreError::Inspector(m) && m@
                        == "Timeout waiting for page ready"@)
                    &&& !wait_settles(old(self)@, now) && !wait_expired(old(self)@, now, started)
                        ==> r is None
                },
    {
        let now = self.now_ns();
        self.poll_ready_at(now, started)
    }

    /// The current state.
    pub fn get_state(&self) -> (r: InspectorState)
        ensures
            r@ == self@.state,
    {
        InspectorState {
            active_requests: self.state.active_requests,
            last_mutation: self.state.last_mutation,
            is_ready: self.state.is_ready,
            url: copy_opt(&self.state.url),
            title: copy_opt(&self.state.title),
        }
    }

    /// Reset the inspector at time `now`.
    pub fn reset_at(&mut self, now: u128)
        ensures
            final(self)@ == reset_state(old(self)@, now),
    {
        self.state.active_requests = 0;
        self.state.last_mutation = Some(now);
        self.state.is_ready = false;
        self.state.url = None;
        self.state.title = None;
        self.active_count = 0;
    }

    /// Reset the inspector now.
    pub fn reset(&mut self)
        ensures
            exists|now: u128| final(self)@ == reset_state(old(self)@, now),
    {
        let now = self.now_ns();
        self.reset_at(now);
    }

    /// Whether no network request is active.
    pub fn is_network_idle(&self) -> (r: bool)
        ensures
            r == (self@.active_count == 0),
    {
        self.active_count == 0
    }

    /// The number of active network requests.
    pub fn active_request_count(&self) -> (r: u32)
        ensures
            r == self@.active_count,
    {
        self.active_count
    }

    /// Mark the page ready (after navigation completes).
    pub fn mark_ready(&mut self)
        ensures
            final(self)@ == marked_ready(old(self)@),
    {
        self.state.is_ready = true;
    }

    /// The configuration the inspector runs with.
    pub fn config(&self) -> (r: InspectorConfig)
        ensures
            r == self@.config,
    {
        self.config
    }
}

/// A request that starts and then finishes leaves the count of active
/// requests, and the state's copy of it, as they were.
pub proof fn lemma_start_then_finish(v: InspectorView, now: u128)
    requires
        v.active_count < u32::MAX,
    ensures
        finished(started(v), now).active_count == v.active_count,
        finished(started(v), now).state.active_requests == v.active_count,
        finished(started(v), now).state.url == v.state.url,
        finished(started(v), now).state.title == v.state.title,
{
}

/// When the last active request finishes and the DOM never mutated (or has
/// been quiet for the threshold), the page becomes ready.
pub proof fn lemma_last_request_readies(v: InspectorView, now: u128)
    requires
        v.active_count == 1,
        match v.state.last_mutation {
            Some(t) => dom_idle(v.config, now, t),
            None => true,
        },
    ensures
        finished(v, now).active_count == 0,
        finished(v, now).state.is_ready,
{
}

/// While a request is still active, finishing another never makes the page
/// ready.
pub proof fn lemma_busy_not_ready(v: InspectorView, now: u128)
    requires
        v.active_count > 1,
        !v.state.is_ready,
    ensures
        !finished(v, now).state.is_ready,
{
}

/// A DOM mutation makes the page not ready and is remembered; once nothing
/// is active and the threshold has passed since it, a check makes the page
/// ready again.
pub proof fn lemma_mutation_then_quiet(v: InspectorView, now: u128, later: u128)
    requires
        v.state.active_requests == 0,
        elapsed_ns(later, now) >= ms_to_ns(v.config.dom_idle_threshold_ms),
    ensures
        !mutated(v, now).state.is_ready,
        mutated(v, now).state.last_mutation == Some(now),
        checked(v.config, mutated(v, now).state, later).is_ready,
{
}

/// A navigation forgets every active request, records the new URL and
/// makes the page not ready; a reset also forgets the page.
pub proof fn lemma_navigation_and_reset(v: InspectorView, url: Seq<char>, now: u128)
    ensures
        navigated(v, url, now).active_count == 0,
        navigated(v, url, now).state.active_requests == 0,
        navigated(v, url, now).state.url == Some(url),
        !navigated(v, url, now).state.is_ready,
        reset_state(v, now).active_count == 0,
        reset_state(v, now).state.url is None,
        reset_state(v, now).state.title is None,
        !reset_state(v, now).state.is_ready,
{
}

/// The count of active requests and the state's copy of it agree from the
/// start, and every event keeps them in agreement; a finish with nothing
/// active leaves both at zero, so the network counts as idle.
pub proof fn lemma_counts_agree(v: InspectorView, url: Seq<char>, now: u128)
    requires
        v.active_count == v.state.active_requests,
    ensures
        v.active_count < u32::MAX ==> started(v).active_count == started(v).state.active_requests,
        finished(v, now).active_count == finished(v, now).state.active_requests,
        mutated(v, now).active_count == mutated(v, now).state.active_requests,
        navigated(v, url, now).active_count == navigated(v, url, now).state.active_requests,
        reset_state(v, now).active_count == reset_state(v, now).state.active_requests,
        marked_ready(v).active_count == marked_ready(v).state.active_requests,
        v.active_count == 0 ==> finished(v, now).active_count == 0,
{
}

/// A wait times out by the time elapsed since it began alone: once more
/// than the maximum wait has passed since `started`, and not before,
/// whatever the absolute times; a wait polled before it began never times
/// out.
pub proof fn lemma_wait_expiry_is_relative(v: InspectorView, now: u128, started: u128)
    ensures
        started <= now ==> (wait_expired(v, now, started) <==> now - started
            > v.config.max_wait_time_ms * 1_000_000),
        now < started ==> !wait_expired(v, now, started),
{
}

/// While a request is active, a poll answers by the time elapsed since the
/// wait began: keep waiting (`None`) while at most the maximum wait has
/// passed, a timeout once more has.
pub proof fn lemma_busy_poll_waits_until_maximum(v: InspectorView, now: u128, started: u128)
    requires
        v.active_count > 0,
        started <= now,
    ensures
        !wait_settles(v, now),
        now - started <= v.config.max_wait_time_ms * 1_000_000 ==> !wait_expired(v, now, started),
        now - started > v.config.max_wait_time_ms * 1_000_000 ==> wait_expired(v, now, started),
{
}

/// A page marked ready with no active request ends any wait at once.
pub proof fn lemma_marked_ready_ends_wait(v: InspectorView, now: u128)
    requires
        v.active_count == 0,
    ensures
        wait_settles(marked_ready(v), now),
        marked_ready(marked_ready(v)) == marked_ready(v),
{
}

} // verus!
