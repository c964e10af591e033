use odilia_common::{KeyBinding, KeyFromStrError, Modifiers, ScreenReaderMode};

#[test]
fn parse_key_binding() {
    // simple
    let kb: KeyBinding = "Odilia+h".parse().unwrap();
    assert_eq!(kb.key, 'h');
    assert_eq!(kb.mods.bits, Modifiers::ODILIA);
    assert_eq!(kb.repeat, 1);
    // Complex
    let kb: KeyBinding = "Control+Shift+Alt+Meta+Applications+Odilia+s:3"
        .parse()
        .unwrap();
    assert_eq!(kb.key, 's');
    assert_eq!(kb.mods, Modifiers::all());
    assert_eq!(kb.repeat, 3);
    // Left only
    let kb: KeyBinding = "LeftControl+LeftShift+LeftAlt+LeftMeta+.:2"
        .parse()
        .unwrap();
    assert_eq!(kb.key, '.');
    assert_eq!(
        kb.mods.bits,
        Modifiers::CONTROL_L | Modifiers::ALT_L | Modifiers::SHIFT_L | Modifiers::META_L
    );
    assert_eq!(kb.repeat, 2);
    let kb: KeyBinding = "RightControl+RightShift+RightAlt+RightMeta+.:2"
        .parse()
        .unwrap();
    assert_eq!(kb.key, '.');
    assert_eq!(
        kb.mods.bits,
        Modifiers::CONTROL_R | Modifiers::ALT_R | Modifiers::SHIFT_R | Modifiers::META_R
    );
    assert_eq!(kb.repeat, 2);
}

#[test]
fn empty_string_is_rejected() {
    assert_eq!(KeyBinding::parse(""), Err(KeyFromStrError::EmptyString));
}

#[test]
fn empty_key_spec_is_no_key() {
    assert_eq!(KeyBinding::parse("+"), Err(KeyFromStrError::NoKey));
    assert_eq!(KeyBinding::parse("Control+"), Err(KeyFromStrError::NoKey));
    assert_eq!(KeyBinding::parse(":3"), Err(KeyFromStrError::NoKey));
    assert_eq!(KeyBinding::parse("Odilia+   "), Err(KeyFromStrError::NoKey));
}

#[test]
fn unknown_modifier_is_rejected() {
    assert_eq!(KeyBinding::parse("Xyz+a"), Err(KeyFromStrError::InvalidModifier));
    assert_eq!(KeyBinding::parse("Control+Xyz+a"), Err(KeyFromStrError::InvalidModifier));
    assert_eq!(KeyBinding::parse("+a"), Err(KeyFromStrError::InvalidModifier));
}

#[test]
fn bad_repeat_is_rejected() {
    assert_eq!(KeyBinding::parse("a:notanumber"), Err(KeyFromStrError::InvalidRepeat));
    assert_eq!(KeyBinding::parse("a:"), Err(KeyFromStrError::InvalidRepeat));
    assert_eq!(KeyBinding::parse("a:256"), Err(KeyFromStrError::InvalidRepeat));
    assert_eq!(KeyBinding::parse("a:0"), Err(KeyFromStrError::InvalidRepeat));
    assert_eq!(KeyBinding::parse("a:2:3"), Err(KeyFromStrError::InvalidRepeat));
    assert_eq!(KeyBinding::parse("a:-1"), Err(KeyFromStrError::InvalidRepeat));
}

#[test]
fn repeat_limits() {
    assert_eq!(KeyBinding::parse("a:255").unwrap().repeat, 255);
    assert_eq!(KeyBinding::parse("a:1").unwrap().repeat, 1);
    assert_eq!(KeyBinding::parse("a:007").unwrap().repeat, 7);
    assert_eq!(KeyBinding::parse("a:00000000000000000042").unwrap().repeat, 42);
}

#[test]
fn two_character_key_is_rejected() {
    assert_eq!(KeyBinding::parse("ab"), Err(KeyFromStrError::InvalidKey));
    assert_eq!(KeyBinding::parse(" h"), Err(KeyFromStrError::InvalidKey));
}

#[test]
fn key_errors_come_before_repeat_and_modifier_errors() {
    assert_eq!(KeyBinding::parse("Xyz+ab:x"), Err(KeyFromStrError::InvalidKey));
    assert_eq!(KeyBinding::parse("Xyz+a:x"), Err(KeyFromStrError::InvalidRepeat));
    assert_eq!(KeyBinding::parse("Xyz+:3"), Err(KeyFromStrError::NoKey));
}

#[test]
fn odilia_h_binding() {
    let kb = KeyBinding::parse("Odilia+h").unwrap();
    assert_eq!(kb.key, 'h');
    assert_eq!(kb.mods, Modifiers::from_bits_retain(Modifiers::ODILIA));
    assert_eq!(kb.repeat, 1);
    assert_eq!(kb.mode, ScreenReaderMode::CommandMode);
}

#[test]
fn all_modifiers_binding() {
    let kb = KeyBinding::parse("Control+Shift+Alt+Meta+Applications+Odilia+s:3").unwrap();
    assert_eq!(kb.key, 's');
    assert_eq!(kb.mods.bits, 0x3ff);
    assert_eq!(kb.repeat, 3);
    assert_eq!(kb.mode, ScreenReaderMode::CommandMode);
}

#[test]
fn left_only_binding() {
    let kb = KeyBinding::parse("LeftControl+LeftShift+LeftAlt+LeftMeta+.:2").unwrap();
    assert_eq!(
        kb.mods.bits,
        Modifiers::CONTROL_L | Modifiers::ALT_L | Modifiers::SHIFT_L | Modifiers::META_L
    );
    assert!(kb.mods.left());
    assert!(!kb.mods.right());
    assert_eq!(kb.repeat, 2);
}

#[test]
fn right_only_binding() {
    let kb = KeyBinding::parse("RightControl+RightShift+RightAlt+RightMeta+.:2").unwrap();
    assert!(kb.mods.right());
    assert!(!kb.mods.left());
}

#[test]
fn modifier_names_ignore_case() {
    let lower = KeyBinding::parse("odilia+h").unwrap();
    let upper = KeyBinding::parse("ODILIA+H").unwrap();
    assert_eq!(lower.mods, upper.mods);
    assert_eq!(lower.mods.bits, Modifiers::ODILIA);
    assert_eq!(lower.key, 'h');
    assert_eq!(upper.key, 'H');
    assert_ne!(lower, upper);
    let mixed = KeyBinding::parse("lEfTcOnTrOl+rightALT+x").unwrap();
    assert_eq!(mixed.mods.bits, Modifiers::CONTROL_L | Modifiers::ALT_R);
}

#[test]
fn parsing_is_deterministic() {
    for s in ["Odilia+h", "Xyz+a", "", "a:notanumber", "Shift+Meta+z:9"] {
        assert_eq!(KeyBinding::parse(s), KeyBinding::parse(s));
    }
}

#[test]
fn trailing_whitespace_is_trimmed() {
    let kb = KeyBinding::parse("Shift+k:4 \t").unwrap();
    assert_eq!(kb.key, 'k');
    assert_eq!(kb.repeat, 4);
    assert_eq!(kb.mods.bits, Modifiers::SHIFT);
    let kb = KeyBinding::parse("Alt+x\u{3000}\u{a0}").unwrap();
    assert_eq!(kb.key, 'x');
    assert_eq!(kb.mods.bits, Modifiers::ALT);
    assert_eq!(KeyBinding::parse("Alt+ \u{3000}"), Err(KeyFromStrError::NoKey));
}

#[test]
fn non_ascii_key_and_repeated_modifier() {
    let kb = KeyBinding::parse("Control+Control+é").unwrap();
    assert_eq!(kb.key, 'é');
    assert_eq!(kb.mods.bits, Modifiers::CONTROL);
    assert!(kb.mods.control());
}

#[test]
fn from_str_matches_parse() {
    for s in ["", "+", "Xyz+a", "a:notanumber", "ab", "Odilia+h", "Meta+q:12"] {
        assert_eq!(s.parse::<KeyBinding>(), KeyBinding::parse(s));
    }
}
