//! Messages exchanged between the core and the front end.
use vstd::prelude::*;

verus! {

/// Actions the front end should take.
///
/// These are received by the front end and must be handled.
#[derive(Debug, Clone, PartialEq, Eq)]
pub enum FrontendMessage {
    ShowOrHide,
    Show,
    Hide,
    ShowWithQuery(String),
    Restart,
    Exit,
}

/// How a front end's run ended.
#[derive(Debug, Clone, Copy, PartialEq, Eq)]
pub enum FrontendExitStatus {
    Exit,
    Restart,
}

/// Actions the window of the default front end carries out.
#[derive(Debug, Clone, PartialEq, Eq)]
pub enum Message {
    Query,
    Confirm,
    CursorUp,
    CursorDown,
    CursorPageUp,
    CursorPageDown,
    CursorTop,
    CursorBottom,
    ShowWindow,
    HideWindow,
    ShowOrHideWindow,
    ShowWithQuery(String),
    Cancel,
    Restart,
    Exit,
}

/// The window action that carries out a front-end message.
pub open spec fn message_for(m: FrontendMessage) -> Message {
    match m {
        FrontendMessage::ShowOrHide => Message::ShowOrHideWindow,
        FrontendMessage::Show => Message::ShowWindow,
        FrontendMessage::Hide => Message::HideWindow,
        FrontendMessage::ShowWithQuery(q) => Message::ShowWithQuery(q),
        FrontendMessage::Restart => Message::Restart,
        FrontendMessage::Exit => Message::Exit,
    }
}

impl From<FrontendMessage> for Message {
    fn from(message: FrontendMessage) -> (r: Message) {
        match message {
            FrontendMessage::ShowOrHide => Message::ShowOrHideWindow,
            FrontendMessage::Show => Message::ShowWindow,
            FrontendMessage::Hide => Message::HideWindow,
            FrontendMessage::ShowWithQuery(query) => Message::ShowWithQuery(query),
            FrontendMessage::Restart => Message::Restart,
            FrontendMessage::Exit => Message::Exit,
        }
    }
}

impl vstd::std_specs::convert::FromSpecImpl<FrontendMessage> for Message {
    open spec fn obeys_from_spec() -> bool {
        true
    }

    open spec fn from_spec(m: FrontendMessage) -> Message {
        message_for(m)
    }
}

} // verus!
