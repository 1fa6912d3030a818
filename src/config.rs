//! The configuration's shape, and what its hotkey entries mean.
use vstd::prelude::*;
use crate::frontend::FrontendMessage;

verus! {

/// The whole configuration.
#[derive(Debug, Clone)]
pub struct RootConfig {
    pub single_instance: Option<String>,
    pub hotkeys: Vec<HotkeyConfig>,
    pub frontend: FrontendConfig,
    pub providers: Vec<ProviderConfig>,
}

/// A hotkey: an emacs-like binding and what it does.
#[derive(Debug, Clone)]
pub struct HotkeyConfig {
    pub binding: String,
    pub action: HotkeyAction,
}

/// What a hotkey does to the front end.
#[derive(Debug, Clone, PartialEq, Eq)]
pub enum HotkeyAction {
    ShowHide,
    Show,
    Hide,
    ShowWith(String),
}

/// Which front end to run, and under which name its settings stand.
#[derive(Debug, Clone)]
pub struct FrontendConfig {
    pub plugin: String,
    pub alias: Option<String>,
}

/// A provider to run, and the keyword that routes queries to it alone.
#[derive(Debug, Clone)]
pub struct ProviderConfig {
    pub plugin: String,
    pub keyword: Option<String>,
}

/// The message that a hotkey's action sends to the front end.
pub open spec fn control_message(action: HotkeyAction) -> FrontendMessage {
    match action {
        HotkeyAction::ShowHide => FrontendMessage::ShowOrHide,
        HotkeyAction::Show => FrontendMessage::Show,
        HotkeyAction::Hide => FrontendMessage::Hide,
        HotkeyAction::ShowWith(q) => FrontendMessage::ShowWithQuery(q),
    }
}

/// The message that the hotkey sends to the front end.
pub fn get_control_message(hotkey: &HotkeyConfig) -> (r: FrontendMessage)
    ensures
        r == control_message(hotkey.action),
{
    match &hotkey.action {
        HotkeyAction::ShowHide => FrontendMessage::ShowOrHide,
        HotkeyAction::Show => FrontendMessage::Show,
        HotkeyAction::Hide => FrontendMessage::Hide,
        HotkeyAction::ShowWith(query) => FrontendMessage::ShowWithQuery(query.clone()),
    }
}

} // verus!
