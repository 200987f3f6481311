use innerput::win32::keyboard::code_unit;
use innerput::win32::keyboard::get_keycode;
use innerput::win32::keyboard::keycode_from_char;
use innerput::win32::keyboard::keycode_from_scan;
use innerput::win32::keyboard::make_input;
use innerput::win32::keyboard::Error;
use innerput::win32::keyboard::InputEvent;
use innerput::win32::keyboard::KeyboardLayout;
use innerput::win32::keyboard::Phase;
use innerput::win32::keyboard::NO_TRANSLATION;
use innerput::win32::make_batch;
use innerput::Key;

/// The answers of a US keyboard for the characters the tests use: the code in
/// the low byte, and 1 in the high byte where the key needs shift.
fn us_layout() -> KeyboardLayout {
    let mut layout = KeyboardLayout::new();
    layout.record('s' as u16, 0x0053);
    layout.record('S' as u16, 0x0153);
    layout.record('1' as u16, 0x0031);
    layout.record('!' as u16, 0x0131);
    layout.record('c' as u16, 0x0043);
    layout.record('a' as u16, 0x0041);
    layout.record('\u{e9}' as u16, NO_TRANSLATION);
    layout
}

#[test]
fn char_to_keycode() {
    let layout = us_layout();
    assert_eq!(get_keycode(&Key::Char('s'), &layout).unwrap(), 0x53);
    assert_eq!(get_keycode(&Key::Char('1'), &layout).unwrap(), 0x31);
}

#[test]
fn named_keys_have_their_fixed_codes() {
    let layout = KeyboardLayout::new();
    let table: Vec<(Key, u16)> = vec![
        (Key::Alt, 0x12),
        (Key::Backspace, 0x08),
        (Key::CapsLock, 0x14),
        (Key::Control, 0x11),
        (Key::Delete, 0x2E),
        (Key::Down, 0x28),
        (Key::End, 0x23),
        (Key::Esc, 0x1B),
        (Key::Home, 0x24),
        (Key::Left, 0x25),
        (Key::Enter, 0x0D),
        (Key::Right, 0x27),
        (Key::Shift, 0x10),
        (Key::Space, 0x20),
        (Key::Tab, 0x09),
        (Key::Up, 0x26),
        (Key::Super, 0x5B),
        (Key::F1, 0x70),
        (Key::F2, 0x71),
        (Key::F3, 0x72),
        (Key::F4, 0x73),
        (Key::F5, 0x74),
        (Key::F6, 0x75),
        (Key::F7, 0x76),
        (Key::F8, 0x77),
        (Key::F9, 0x78),
        (Key::F10, 0x79),
        (Key::F11, 0x7A),
        (Key::F12, 0x7B),
    ];
    for (key, code) in table {
        assert_eq!(get_keycode(&key, &layout), Ok(code));
    }
}

#[test]
fn named_keys_do_not_depend_on_the_layout() {
    let empty = KeyboardLayout::new();
    let us = us_layout();
    for key in [Key::Enter, Key::Tab, Key::Space, Key::Backspace, Key::Esc] {
        assert_eq!(get_keycode(&key, &empty), get_keycode(&key, &us));
        assert_eq!(get_keycode(&key, &us), get_keycode(&key, &us));
    }
    assert_eq!(get_keycode(&Key::Enter, &us), Ok(0x0D));
    assert_eq!(get_keycode(&Key::Tab, &us), Ok(0x09));
    assert_eq!(get_keycode(&Key::Space, &us), Ok(0x20));
    assert_eq!(get_keycode(&Key::Backspace, &us), Ok(0x08));
    assert_eq!(get_keycode(&Key::Esc, &us), Ok(0x1B));
}

#[test]
fn character_outside_the_basic_plane_is_unmappable() {
    let layout = us_layout();
    let emoji = '\u{1F600}';
    assert_eq!(code_unit(emoji), None);
    assert_eq!(keycode_from_char(emoji, &layout), Err(Error::UnmappableCharacter(emoji)));
    assert_eq!(get_keycode(&Key::Char(emoji), &layout), Err(Error::UnmappableCharacter(emoji)));
}

#[test]
fn character_without_a_key_is_unmappable() {
    let layout = us_layout();
    assert_eq!(
        get_keycode(&Key::Char('\u{e9}'), &layout),
        Err(Error::UnmappableCharacter('\u{e9}'))
    );
}

#[test]
fn character_the_layout_was_not_asked_about_is_unmappable() {
    let layout = KeyboardLayout::new();
    assert_eq!(get_keycode(&Key::Char('s'), &layout), Err(Error::UnmappableCharacter('s')));
}

#[test]
fn code_unit_of_basic_plane_characters() {
    assert_eq!(code_unit('s'), Some(0x73));
    assert_eq!(code_unit('\u{0}'), Some(0));
    assert_eq!(code_unit('\u{ffff}'), Some(0xFFFF));
    assert_eq!(code_unit('\u{d7ff}'), Some(0xD7FF));
    assert_eq!(code_unit('\u{e000}'), Some(0xE000));
    assert_eq!(code_unit('\u{10000}'), None);
    assert_eq!(code_unit('\u{10ffff}'), None);
}

#[test]
fn code_unit_agrees_with_the_utf16_encoding() {
    for character in ['a', 'Z', '0', '\u{e9}', '\u{20ac}', '\u{ffff}', '\u{10000}', '\u{1F600}'] {
        let mut buffer = [0u16; 2];
        let encoded = character.encode_utf16(&mut buffer);
        if encoded.len() == 1 {
            assert_eq!(code_unit(character), Some(encoded[0]));
        } else {
            assert_eq!(code_unit(character), None);
        }
    }
}

#[test]
fn scan_yields_its_low_byte() {
    assert_eq!(keycode_from_scan(0x0053), Some(0x53));
    assert_eq!(keycode_from_scan(0x0153), Some(0x53));
    assert_eq!(keycode_from_scan(0x0631), Some(0x31));
    assert_eq!(keycode_from_scan(0), Some(0));
    assert_eq!(keycode_from_scan(0x00FF), Some(0xFF));
    assert_eq!(keycode_from_scan(i16::MAX), Some(0xFF));
}

#[test]
fn scan_of_no_translation_yields_nothing() {
    assert_eq!(NO_TRANSLATION, -1);
    assert_eq!(keycode_from_scan(NO_TRANSLATION), None);
}

#[test]
fn negative_scan_yields_its_low_byte() {
    assert_eq!(keycode_from_scan(-2), Some(0xFE));
    assert_eq!(keycode_from_scan(i16::MIN), Some(0x00));
    assert_eq!(keycode_from_scan(0x8041u16 as i16), Some(0x41));
    for scan in [-2i16, -255, -256, -257, i16::MIN, i16::MIN + 1, 0x8041u16 as i16] {
        assert_eq!(keycode_from_scan(scan), Some(scan.to_le_bytes()[0] as u16));
    }
}

#[test]
fn shift_state_is_dropped() {
    let layout = us_layout();
    assert_eq!(get_keycode(&Key::Char('S'), &layout), Ok(0x53));
    assert_eq!(get_keycode(&Key::Char('!'), &layout), Ok(0x31));
}

#[test]
fn layout_returns_what_was_recorded() {
    let mut layout = KeyboardLayout::new();
    assert_eq!(layout.scan(0x73), None);
    layout.record(0x73, 0x0053);
    assert_eq!(layout.scan(0x73), Some(0x0053));
    assert_eq!(layout.scan(0x74), None);
    layout.record(0x73, 0x0153);
    assert_eq!(layout.scan(0x73), Some(0x0153));
}

#[test]
fn empty_chord_builds_no_events() {
    let layout = KeyboardLayout::new();
    assert_eq!(make_input(&[], Phase::Press, &layout), Ok(vec![]));
    assert_eq!(make_input(&[], Phase::Release, &layout), Ok(vec![]));
    assert_eq!(make_batch(&[], &layout), Ok(vec![]));
}

#[test]
fn chord_builds_one_event_per_key_in_order() {
    let layout = us_layout();
    let keys = [Key::Control, Key::Shift, Key::Char('s')];
    assert_eq!(
        make_input(&keys, Phase::Press, &layout),
        Ok(vec![
            InputEvent { code: 0x11, phase: Phase::Press },
            InputEvent { code: 0x10, phase: Phase::Press },
            InputEvent { code: 0x53, phase: Phase::Press },
        ])
    );
    assert_eq!(
        make_input(&keys, Phase::Release, &layout),
        Ok(vec![
            InputEvent { code: 0x11, phase: Phase::Release },
            InputEvent { code: 0x10, phase: Phase::Release },
            InputEvent { code: 0x53, phase: Phase::Release },
        ])
    );
}

#[test]
fn duplicate_keys_are_built_twice() {
    let layout = us_layout();
    let keys = [Key::Char('a'), Key::Char('a')];
    assert_eq!(
        make_input(&keys, Phase::Press, &layout),
        Ok(vec![
            InputEvent { code: 0x41, phase: Phase::Press },
            InputEvent { code: 0x41, phase: Phase::Press },
        ])
    );
}

#[test]
fn one_unmappable_character_fails_the_whole_chord() {
    let layout = us_layout();
    let keys = [Key::Control, Key::Char('\u{1F600}'), Key::Char('c')];
    assert_eq!(
        make_input(&keys, Phase::Press, &layout),
        Err(Error::UnmappableCharacter('\u{1F600}'))
    );
    assert_eq!(
        make_input(&keys, Phase::Release, &layout),
        Err(Error::UnmappableCharacter('\u{1F600}'))
    );
    assert_eq!(make_batch(&keys, &layout), Err(Error::UnmappableCharacter('\u{1F600}')));
}

#[test]
fn first_unmappable_character_is_the_one_reported() {
    let layout = us_layout();
    let keys = [Key::Char('a'), Key::Char('\u{e9}'), Key::Char('\u{1F600}')];
    assert_eq!(make_input(&keys, Phase::Press, &layout), Err(Error::UnmappableCharacter('\u{e9}')));
}

#[test]
fn batch_is_presses_then_releases() {
    let layout = us_layout();
    let keys = [Key::Control, Key::Char('c')];
    assert_eq!(
        make_batch(&keys, &layout),
        Ok(vec![
            InputEvent { code: 0x11, phase: Phase::Press },
            InputEvent { code: 0x43, phase: Phase::Press },
            InputEvent { code: 0x11, phase: Phase::Release },
            InputEvent { code: 0x43, phase: Phase::Release },
        ])
    );
}
