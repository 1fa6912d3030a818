//! Hits, and the providers that produce them.
use vstd::prelude::*;
use crate::frontend::FrontendMessage;

verus! {

/// What happens when the user confirms a hit.
///
/// The engine hands confirmed hits back to its owner, which carries out the
/// action and then usually hides the front end.
#[derive(Debug, Clone, PartialEq, Eq)]
pub enum HitAction {
    /// Send this message to the front end.
    Message(FrontendMessage),
    /// Copy the hit's title to the clipboard.
    CopyTitle,
    /// Run the hit's title as a shell command.
    RunTitle,
    /// Open this URL in the default browser.
    OpenUrl(String),
    /// Kill the process with this id.
    KillProcess(i32),
    /// Launch the program that this desktop entry or link names.
    Launch(String),
    /// Carry out this system operation; on Linux, by running the command
    /// with the system shell.
    System(SystemCommand, String),
}

/// An operation on the user's session or the machine.
#[derive(Debug, Clone, Copy, PartialEq, Eq, Structural)]
pub enum SystemCommand {
    Lock,
    Logout,
    Restart,
    Shutdown,
    Sleep,
}

/// A hit holds what to display for a result, an optional pinned score,
/// and the action to take if the hit is selected.
///
/// A hit with a pinned score is not scored further and is ordered as-is.
#[derive(Debug, Clone)]
pub struct SimpleHit {
    title: String,
    subtitle: String,
    override_score: Option<u32>,
    action: HitAction,
}

/// The capability set of a hit.
pub trait Hit {
    spec fn title_view(&self) -> Seq<char>;

    spec fn pinned_score(&self) -> Option<u32>;

    fn get_title(&self) -> (r: &str)
        ensures
            r@ == self.title_view(),
    ;

    fn get_subtitle(&self) -> &str;

    fn get_override_score(&self) -> (r: Option<u32>)
        ensures
            r == self.pinned_score(),
    ;
}

impl SimpleHit {
    pub closed spec fn spec_title(&self) -> Seq<char> {
        self.title@
    }

    pub closed spec fn spec_subtitle(&self) -> Seq<char> {
        self.subtitle@
    }

    pub closed spec fn spec_score(&self) -> Option<u32> {
        self.override_score
    }

    pub closed spec fn spec_action(&self) -> HitAction {
        self.action
    }

    /// Creates a hit without a pinned score.
    pub fn new(title: String, subtitle: String, action: HitAction) -> (r: Self)
        ensures
            r.spec_title() == title@,
            r.spec_subtitle() == subtitle@,
            r.spec_score() is None,
            r.spec_action() == action,
    {
        SimpleHit { title, subtitle, override_score: None, action }
    }

    /// Pins the hit's score.
    pub fn with_score(self, score: u32) -> (r: Self)
        ensures
            r.spec_title() == self.spec_title(),
            r.spec_subtitle() == self.spec_subtitle(),
            r.spec_score() == Some(score),
            r.spec_action() == self.spec_action(),
    {
        SimpleHit { override_score: Some(score), ..self }
    }

    /// The action taken when the hit is confirmed.
    pub fn action(&self) -> (r: &HitAction)
        ensures
            *r == self.spec_action(),
    {
        &self.action
    }
}

impl Hit for SimpleHit {
    open spec fn title_view(&self) -> Seq<char> {
        self.spec_title()
    }

    open spec fn pinned_score(&self) -> Option<u32> {
        self.spec_score()
    }

    fn get_title(&self) -> (r: &str) {
        self.title.as_str()
    }

    fn get_subtitle(&self) -> (r: &str) {
        self.subtitle.as_str()
    }

    fn get_override_score(&self) -> (r: Option<u32>) {
        self.override_score
    }
}

/// The hits a provider returns for one query.
pub struct ProviderResult {
    pub hits: Vec<SimpleHit>,
}

impl ProviderResult {
    pub fn new(hits: Vec<SimpleHit>) -> (r: Self)
        ensures
            r.hits@ == hits@,
    {
        ProviderResult { hits }
    }

    pub fn empty() -> (r: Self)
        ensures
            r.hits@.len() == 0,
    {
        ProviderResult { hits: Vec::new() }
    }

    pub fn single(hit: SimpleHit) -> (r: Self)
        ensures
            r.hits@ == seq![hit],
    {
        let mut hits = Vec::new();
        hits.push(hit);
        ProviderResult { hits }
    }
}

/// A provider takes a query and provides some relevant hits.
///
/// It may return no hits; it has no error channel.
pub trait Provider {
    fn query(&self, query: &str) -> ProviderResult;
}

} // verus!
