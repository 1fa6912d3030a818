use gravel::hotkeys::{named_key, parse_binding, Key, Listener, Modifier, Modifiers, ParseError, ParsedBinding};

fn mods(list: &[Modifier]) -> Modifiers {
    list.iter().fold(Modifiers::empty(), |m, x| m.with(*x))
}

#[test]
fn should_parse() {
    let cases = [
        ("q", ParsedBinding { modifiers: Modifiers::empty(), key: Key::Q }),
        ("C-a", ParsedBinding { modifiers: mods(&[Modifier::Control]), key: Key::A }),
        (
            "C-A-S-s",
            ParsedBinding { modifiers: mods(&[Modifier::Control, Modifier::Alt, Modifier::Shift]), key: Key::S },
        ),
        (
            "M-S-<PRINT_screen>",
            ParsedBinding { modifiers: mods(&[Modifier::Super, Modifier::Shift]), key: Key::PrintScreen },
        ),
    ];
    for (binding, expected) in cases {
        assert_eq!(parse_binding(binding), Ok(expected), "{binding}");
    }
}

#[test]
fn should_err() {
    let cases = [
        ("not- working", ParseError::InvalidKey(String::from(" working"))),
        ("Z", ParseError::InvalidKey(String::from("Z"))),
        ("c-d", ParseError::InvalidModifier(String::from("c"))),
        ("C-S", ParseError::ModifierUsedAsKey(String::from("S"))),
        ("", ParseError::Empty),
    ];
    for (binding, expected) in cases {
        assert_eq!(parse_binding(binding), Err(expected), "{binding}");
    }
}

#[test]
fn named_keys_need_lower_case() {
    assert_eq!(named_key("<space>"), Some(Key::Space));
    assert_eq!(named_key("<SPACE>"), None);
    assert_eq!(parse_binding("A-<Space>").unwrap().key, Key::Space);
}

#[test]
fn trailing_dash_gives_empty_key() {
    assert_eq!(parse_binding("C-"), Err(ParseError::InvalidKey(String::new())));
}

#[test]
fn modifier_set_membership() {
    let m = mods(&[Modifier::Alt]);
    assert!(m.contains(Modifier::Alt));
    assert!(!m.contains(Modifier::Super));
}

#[test]
fn listener_registers_valid_bindings_only() {
    let mut listener = Listener::new();
    assert!(listener.register_emacs("A-<Space>", 1u8).is_ok());
    assert_eq!(listener.register_emacs("x-y", 2u8), Err(ParseError::InvalidModifier("x".to_string())));
    listener.register(Modifiers::empty(), Key::F, 3u8);
    let hotkeys = listener.hotkeys();
    assert_eq!(hotkeys.len(), 2);
    assert_eq!(hotkeys[0].key, Key::Space);
    assert!(hotkeys[0].modifiers.alt);
    assert_eq!(hotkeys[0].value, 1);
    assert_eq!(hotkeys[1].key, Key::F);
}
