//! Core engine of a CDP-driven browser automation service: semantic page
//! parsing, traffic inspection, request validation and the decisions behind
//! each API endpoint.
use vstd::prelude::*;
use vstd::string::*;

pub mod cdp;
pub mod clock;
pub mod error;
pub mod gateway;
pub mod inspector;
pub mod parser;
pub mod performance;
pub mod server;
pub mod text;

verus! {

/// Core engine error kinds, each carrying a message.
#[derive(Debug, Clone)]
pub enum CoreError {
    Browser(String),
    Cdp(String),
    Parser(String),
    Inspector(String),
    Server(String),
    Config(String),
}

impl CoreError {
    /// The text shown for the error: its kind's label and the message.
    pub open spec fn display(&self) -> Seq<char> {
        match self {
            CoreError::Browser(m) => "Browser error: "@ + m@,
            CoreError::Cdp(m) => "CDP error: "@ + m@,
            CoreError::Parser(m) => "Parser error: "@ + m@,
            CoreError::Inspector(m) => "Inspector error: "@ + m@,
            CoreError::Server(m) => "Server error: "@ + m@,
            CoreError::Config(m) => "Configuration error: "@ + m@,
        }
    }

    /// The text shown for the error (its `Display` form, which is also what
    /// it serializes to).
    pub fn to_string(&self) -> (r: String)
        ensures
            r@ == self.display(),
    {
        let (label, m) = match self {
            CoreError::Browser(m) => ("Browser error: ", m),
            CoreError::Cdp(m) => ("CDP error: ", m),
            CoreError::Parser(m) => ("Parser error: ", m),
            CoreError::Inspector(m) => ("Inspector error: ", m),
            CoreError::Server(m) => ("Server error: ", m),
            CoreError::Config(m) => ("Configuration error: ", m),
        };
        let mut s = String::from_str(label);
        s.append(m.as_str());
        s
    }
}

/// Engine configuration.
#[derive(Debug, Clone)]
pub struct EngineConfig {
    /// Browser launch options
    pub browser_path: Option<String>,
    pub user_data_dir: Option<String>,
    pub headless: bool,
    pub sandbox: bool,
    /// Server options
    pub host: String,
    pub port: u16,
    /// Inspector options
    pub dom_idle_threshold_ms: u64,
    pub network_idle_threshold_ms: u64,
}

impl Default for EngineConfig {
    fn default() -> (r: Self)
        ensures
            r.browser_path is None,
            r.user_data_dir is None,
            r.headless,
            r.sandbox,
            r.host@ == "127.0.0.1"@,
            r.port == 9222,
            r.dom_idle_threshold_ms == 500,
            r.network_idle_threshold_ms == 1000,
    {
        EngineConfig {
            browser_path: None,
            user_data_dir: None,
            headless: true,
            sandbox: true,
            host: String::from_str("127.0.0.1"),
            port: 9222,
            dom_idle_threshold_ms: 500,
            network_idle_threshold_ms: 1000,
        }
    }
}

} // verus!
