//! CDP (Chrome DevTools Protocol) client.
//!
//! The client keeps the browser's observable state (whether it runs, with
//! which launch options, the current URL, title and content); page commands
//! are recorded in the order they are sent and reported as done, without a
//! browser behind them yet.
use vstd::prelude::*;
use vstd::string::*;

use crate::CoreError;

verus! {

/// A page command sent through the client.
#[derive(Debug, PartialEq, Eq)]
pub enum CdpCommand {
    /// Click the element a selector addresses.
    Click(String),
    /// Type text (second) into the element a selector (first) addresses.
    TypeText(String, String),
    /// Scroll the page by a number of pixels.
    Scroll(i64),
    /// Evaluate a script in the page.
    Evaluate(String),
}

/// The content of a page command.
pub enum CommandView {
    Click(Seq<char>),
    TypeText(Seq<char>, Seq<char>),
    Scroll(i64),
    Evaluate(Seq<char>),
}

/// The content of a page command.
pub open spec fn command_view(c: CdpCommand) -> CommandView {
    match c {
        CdpCommand::Click(s) => CommandView::Click(s@),
        CdpCommand::TypeText(s, t) => CommandView::TypeText(s@, t@),
        CdpCommand::Scroll(p) => CommandView::Scroll(p),
        CdpCommand::Evaluate(js) => CommandView::Evaluate(js@),
    }
}

/// CDP client state.
pub struct CdpClient {
    browser_spawned: bool,
    current_url: String,
    current_title: String,
    current_content: String,
    launch_options: Option<(bool, bool)>,
    commands: Vec<CdpCommand>,
}

/// The content of a CDP client: whether the browser runs, the page, the
/// options of the last launch (headless, sandbox) and the page commands
/// sent, oldest first.
pub struct CdpView {
    pub running: bool,
    pub url: Seq<char>,
    pub title: Seq<char>,
    pub content: Seq<char>,
    pub launch_options: Option<(bool, bool)>,
    pub commands: Seq<CommandView>,
}

impl View for CdpClient {
    type V = CdpView;

    closed spec fn view(&self) -> CdpView {
        CdpView {
            running: self.browser_spawned,
            url: self.current_url@,
            title: self.current_title@,
            content: self.current_content@,
            launch_options: self.launch_options,
            commands: self.commands@.map_values(|c: CdpCommand| command_view(c)),
        }
    }
}

/// A client that has never been launched: no browser, an empty page, no
/// command sent.
pub open spec fn fresh_client() -> CdpView {
    CdpView {
        running: false,
        url: Seq::empty(),
        title: Seq::empty(),
        content: Seq::empty(),
        launch_options: None,
        commands: Seq::empty(),
    }
}

/// The client after navigating to `url`.
pub open spec fn navigated(v: CdpView, url: Seq<char>) -> CdpView {
    CdpView { url: url, title: "Page"@, ..v }
}

/// The client after launching the browser with these options.
pub open spec fn launched(v: CdpView, headless: bool, sandbox: bool) -> CdpView {
    CdpView { running: true, url: "about:blank"@, launch_options: Some((headless, sandbox)), ..v }
}

/// The client after closing the browser.
pub open spec fn closed(v: CdpView) -> CdpView {
    CdpView { running: false, ..v }
}

/// The client after sending a page command.
pub open spec fn sent(v: CdpView, c: CommandView) -> CdpView {
    CdpView { commands: v.commands.push(c), ..v }
}

impl CdpClient {
    /// A client with no browser, an empty page and no command sent.
    pub fn new() -> (r: Self)
        ensures
            r@ == fresh_client(),
    {
        let r = CdpClient {
            browser_spawned: false,
            current_url: String::new(),
            current_title: String::new(),
            current_content: String::new(),
            launch_options: None,
            commands: Vec::new(),
        };
        assert(r@.commands =~= Seq::<CommandView>::empty());
        r
    }

    /// Launch the browser with the given options: it runs, on `about:blank`.
    pub fn launch(&mut self, headless: bool, sandbox: bool) -> (r: Result<(), CoreError>)
        ensures
            r is Ok,
            final(self)@ == launched(old(self)@, headless, sandbox),
    {
        self.browser_spawned = true;
        self.current_url = String::from_str("about:blank");
        self.launch_options = Some((headless, sandbox));
        Ok(())
    }

    /// Navigate to `url`; the page's title becomes `Page`.
    pub fn navigate(&mut self, url: &str) -> (r: Result<(), CoreError>)
        ensures
            r is Ok,
            final(self)@ == navigated(old(self)@, url@),
    {
        self.current_url = url.to_owned();
        self.current_title = String::from_str("Page");
        Ok(())
    }

    /// The current URL.
    pub fn get_url(&self) -> (r: String)
        ensures
            r@ == self@.url,
    {
        self.current_url.clone()
    }

    /// The current page title.
    pub fn get_title(&self) -> (r: String)
        ensures
            r@ == self@.title,
    {
        self.current_title.clone()
    }

    /// The current page content.
    pub fn content(&self) -> (r: String)
        ensures
            r@ == self@.content,
    {
        self.current_content.clone()
    }

    /// The options of the last launch (headless, sandbox), if launched.
    pub fn launch_options(&self) -> (r: Option<(bool, bool)>)
        ensures
            r == self@.launch_options,
    {
        self.launch_options
    }

    /// The page commands sent so far, oldest first.
    pub fn commands(&self) -> (r: &Vec<CdpCommand>)
        ensures
            r@.map_values(|c: CdpCommand| command_view(c)) == self@.commands,
    {
        &self.commands
    }

    /// Record a page command as sent.
    fn send(&mut self, c: CdpCommand)
        ensures
            final(self)@ == sent(old(self)@, command_view(c)),
    {
        let ghost before = self.commands@;
        self.commands.push(c);
        assert(self.commands@.map_values(|c: CdpCommand| command_view(c)) =~= before.map_values(
            |c: CdpCommand| command_view(c),
        ).push(command_view(c)));
    }

    /// Click the element that `selector` addresses.
    pub fn click(&mut self, selector: &str) -> (r: Result<(), CoreError>)
        ensures
            r is Ok,
            final(self)@ == sent(old(self)@, CommandView::Click(selector@)),
    {
        self.send(CdpCommand::Click(selector.to_owned()));
        Ok(())
    }

    /// Type `text` into the element that `selector` addresses.
    pub fn type_text(&mut self, selector: &str, text: &str) -> (r: Result<(), CoreError>)
        ensures
            r is Ok,
            final(self)@ == sent(old(self)@, CommandView::TypeText(selector@, text@)),
    {
        self.send(CdpCommand::TypeText(selector.to_owned(), text.to_owned()));
        Ok(())
    }

    /// Scroll the page by `pixels`.
    pub fn scroll(&mut self, pixels: i64) -> (r: Result<(), CoreError>)
        ensures
            r is Ok,
            final(self)@ == sent(old(self)@, CommandView::Scroll(pixels)),
    {
        self.send(CdpCommand::Scroll(pixels));
        Ok(())
    }

    /// Evaluate a script in the page.
    pub fn evaluate(&mut self, js: &str) -> (r: Result<(), CoreError>)
        ensures
            r is Ok,
            final(self)@ == sent(old(self)@, CommandView::Evaluate(js@)),
    {
        self.send(CdpCommand::Evaluate(js.to_owned()));
        Ok(())
    }

    /// Close the browser; the page is kept.
    pub fn close(&mut self)
        ensures
            final(self)@ == closed(old(self)@),
    {
        self.browser_spawned = false;
    }

    /// Whether the browser runs.
    pub fn is_running(&self) -> (r: bool)
        ensures
            r == self@.running,
    {
        self.browser_spawned
    }
}

impl Default for CdpClient {
    fn default() -> (r: Self)
        ensures
            r@ == fresh_client(),
    {
        Self::new()
    }
}

/// The URL read back after a navigation is the URL navigated to, and the
/// browser's running state is not touched by it.
pub proof fn lemma_navigate_then_url(v: CdpView, url: Seq<char>)
    ensures
        navigated(v, url).url == url,
        navigated(v, url).running == v.running,
{
}

/// A launched browser runs until it is closed; closing keeps the page.
pub proof fn lemma_launch_close(v: CdpView, headless: bool, sandbox: bool)
    ensures
        launched(v, headless, sandbox).running,
        !closed(launched(v, headless, sandbox)).running,
        closed(launched(v, headless, sandbox)).url == "about:blank"@,
        closed(launched(v, headless, sandbox)).launch_options == Some((headless, sandbox)),
{
}

} // verus!
