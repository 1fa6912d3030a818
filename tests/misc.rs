use gravel::cli::{parse_key_val, LogLevel, Verbosity};
use gravel::config::{get_control_message, HotkeyAction, HotkeyConfig};
use gravel::frontend::{FrontendMessage, Message};
use gravel::platform::{platform_from_os, Platform};
use gravel::plugin::plugin;
use gravel::provider::ProviderResult;
use gravel::text::{text_is_blank, trim};

#[test]
fn verbosity_selects_log_level() {
    let v = |verbose, quiet| Verbosity { verbose, quiet };
    assert_eq!(v(0, 0).verbosity(), 1);
    assert_eq!(v(0, 0).log_level(), LogLevel::Warn);
    assert_eq!(v(0, 1).log_level(), LogLevel::Error);
    assert_eq!(v(0, 2).log_level(), LogLevel::Off);
    assert_eq!(v(1, 0).log_level(), LogLevel::Info);
    assert_eq!(v(2, 0).log_level(), LogLevel::Debug);
    assert_eq!(v(3, 0).log_level(), LogLevel::Trace);
    assert_eq!(v(9, 0).log_level(), LogLevel::Trace);
    assert_eq!(v(127, 1).verbosity(), 127);
    assert_eq!(v(127, 1).log_level(), LogLevel::Trace);
    assert_eq!(v(255, 0).log_level(), LogLevel::Trace);
    assert_eq!(v(0, 255).log_level(), LogLevel::Off);
    assert_eq!(v(0, 129).verbosity(), -128);
}

#[test]
fn key_value_pairs_split_at_first_equals() {
    assert_eq!(parse_key_val("a.b=c=d"), Ok(("a.b".to_string(), "c=d".to_string())));
    assert_eq!(parse_key_val("=x"), Ok((String::new(), "x".to_string())));
    assert_eq!(parse_key_val("k="), Ok(("k".to_string(), String::new())));
    assert_eq!(parse_key_val("novalue"), Err("invalid KEY=value: no `=` found in `novalue`".to_string()));
}

#[test]
fn hotkey_actions_become_messages() {
    let h = |action| HotkeyConfig { binding: "A-<Space>".to_string(), action };
    assert_eq!(get_control_message(&h(HotkeyAction::ShowHide)), FrontendMessage::ShowOrHide);
    assert_eq!(get_control_message(&h(HotkeyAction::Show)), FrontendMessage::Show);
    assert_eq!(get_control_message(&h(HotkeyAction::Hide)), FrontendMessage::Hide);
    assert_eq!(
        get_control_message(&h(HotkeyAction::ShowWith("calc ".to_string()))),
        FrontendMessage::ShowWithQuery("calc ".to_string())
    );
}

#[test]
fn frontend_messages_become_window_messages() {
    assert_eq!(Message::from(FrontendMessage::ShowOrHide), Message::ShowOrHideWindow);
    assert_eq!(Message::from(FrontendMessage::Show), Message::ShowWindow);
    assert_eq!(Message::from(FrontendMessage::Hide), Message::HideWindow);
    assert_eq!(Message::from(FrontendMessage::ShowWithQuery("q".to_string())), Message::ShowWithQuery("q".to_string()));
    assert_eq!(Message::from(FrontendMessage::Exit), Message::Exit);
    assert_eq!(Message::from(FrontendMessage::Restart), Message::Restart);
}

#[test]
fn platforms() {
    assert_eq!(platform_from_os("linux"), Some(Platform::Linux));
    assert_eq!(platform_from_os("windows"), Some(Platform::Windows));
    assert_eq!(platform_from_os("macos"), None);
}

#[test]
fn plugin_metadata_and_results() {
    assert_eq!(plugin("calculator".to_string()).name, "calculator");
    assert!(ProviderResult::empty().hits.is_empty());
}

#[test]
fn blankness_and_trimming() {
    assert!(text_is_blank(""));
    assert!(text_is_blank(" \t\n\u{3000}"));
    assert!(!text_is_blank(" a "));
    assert_eq!(trim("  1 + 1 \t"), "1 + 1");
    assert_eq!(trim("   "), "");
    assert_eq!(trim("x"), "x");
}
