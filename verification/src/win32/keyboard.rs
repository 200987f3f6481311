//! From keys to virtual-key codes, and from codes to input events.

use crate::Key;
use std::collections::HashMap;
use vstd::prelude::*;

verus! {

broadcast use vstd::std_specs::hash::group_hash_axioms;

/// Why a chord could not be turned into input events.
#[derive(Clone, Copy, Debug, PartialEq, Eq, Structural)]
pub enum Error {
    /// The character has no virtual-key code: it does not fit one UTF-16 code
    /// unit, or the keyboard layout has no key for it.
    UnmappableCharacter(char),
}

/// The Enter key.
pub const VK_RETURN: u16 = 0x0D;

/// The Tab key.
pub const VK_TAB: u16 = 0x09;

/// The space bar.
pub const VK_SPACE: u16 = 0x20;

/// The Backspace key.
pub const VK_BACK: u16 = 0x08;

/// The Esc key.
pub const VK_ESCAPE: u16 = 0x1b;

/// The left Windows key.
pub const VK_LWIN: u16 = 0x5b;

/// The Shift key.
pub const VK_SHIFT: u16 = 0x10;

/// The Caps Lock key.
pub const VK_CAPITAL: u16 = 0x14;

/// The Alt key.
pub const VK_MENU: u16 = 0x12;

/// The Ctrl key.
pub const VK_CONTROL: u16 = 0x11;

/// The Home key.
pub const VK_HOME: u16 = 0x24;

/// The End key.
pub const VK_END: u16 = 0x23;

/// The left arrow key.
pub const VK_LEFT: u16 = 0x25;

/// The right arrow key.
pub const VK_RIGHT: u16 = 0x27;

/// The up arrow key.
pub const VK_UP: u16 = 0x26;

/// The down arrow key.
pub const VK_DOWN: u16 = 0x28;

/// The Del key.
pub const VK_DELETE: u16 = 0x2E;

/// The F1 key.
pub const VK_F1: u16 = 0x70;

/// The F2 key.
pub const VK_F2: u16 = 0x71;

/// The F3 key.
pub const VK_F3: u16 = 0x72;

/// The F4 key.
pub const VK_F4: u16 = 0x73;

/// The F5 key.
pub const VK_F5: u16 = 0x74;

/// The F6 key.
pub const VK_F6: u16 = 0x75;

/// The F7 key.
pub const VK_F7: u16 = 0x76;

/// The F8 key.
pub const VK_F8: u16 = 0x77;

/// The F9 key.
pub const VK_F9: u16 = 0x78;

/// The F10 key.
pub const VK_F10: u16 = 0x79;

/// The F11 key.
pub const VK_F11: u16 = 0x7A;

/// The F12 key.
pub const VK_F12: u16 = 0x7B;

/// What the layout answers when it has no key for a code unit.
pub const NO_TRANSLATION: i16 = -1;

/// The virtual-key code of a named key; `None` for a character.
pub open spec fn named_keycode(key: Key) -> Option<u16> {
    match key {
        Key::Alt => Some(VK_MENU),
        Key::Backspace => Some(VK_BACK),
        Key::CapsLock => Some(VK_CAPITAL),
        Key::Char(_) => None,
        Key::Control => Some(VK_CONTROL),
        Key::Delete => Some(VK_DELETE),
        Key::Down => Some(VK_DOWN),
        Key::End => Some(VK_END),
        Key::Esc => Some(VK_ESCAPE),
        Key::Home => Some(VK_HOME),
        Key::Left => Some(VK_LEFT),
        Key::Enter => Some(VK_RETURN),
        Key::Right => Some(VK_RIGHT),
        Key::Shift => Some(VK_SHIFT),
        Key::Space => Some(VK_SPACE),
        Key::Super => Some(VK_LWIN),
        Key::Tab => Some(VK_TAB),
        Key::Up => Some(VK_UP),
        Key::F1 => Some(VK_F1),
        Key::F2 => Some(VK_F2),
        Key::F3 => Some(VK_F3),
        Key::F4 => Some(VK_F4),
        Key::F5 => Some(VK_F5),
        Key::F6 => Some(VK_F6),
        Key::F7 => Some(VK_F7),
        Key::F8 => Some(VK_F8),
        Key::F9 => Some(VK_F9),
        Key::F10 => Some(VK_F10),
        Key::F11 => Some(VK_F11),
        Key::F12 => Some(VK_F12),
    }
}

/// The one UTF-16 code unit that encodes `character`, if one unit is enough:
/// the characters of the basic plane are their own code unit, all others take
/// a surrogate pair.
pub open spec fn utf16_unit(character: char) -> Option<u16> {
    if character as u32 <= 0xFFFF {
        Some(character as u32 as u16)
    } else {
        None
    }
}

/// The virtual-key code in a layout's answer: its low-order byte. The
/// high-order byte, the shift state, is dropped. The answer
/// [`NO_TRANSLATION`] holds no code.
pub open spec fn scan_keycode(scan: i16) -> Option<u16> {
    if scan == NO_TRANSLATION {
        None
    } else {
        Some((scan as int % 256) as u16)
    }
}

/// The virtual-key code of a character under the answers `layout` holds.
pub open spec fn char_keycode(character: char, layout: Map<u16, i16>) -> Result<u16, Error> {
    match utf16_unit(character) {
        None => Err(Error::UnmappableCharacter(character)),
        Some(unit) => if layout.dom().contains(unit) {
            match scan_keycode(layout[unit]) {
                Some(code) => Ok(code),
                None => Err(Error::UnmappableCharacter(character)),
            }
        } else {
            Err(Error::UnmappableCharacter(character))
        },
    }
}

/// The virtual-key code of any key under the answers `layout` holds.
pub open spec fn keycode(key: Key, layout: Map<u16, i16>) -> Result<u16, Error> {
    match key {
        Key::Char(character) => char_keycode(character, layout),
        _ => Ok(named_keycode(key).unwrap()),
    }
}

/// The answers of the active keyboard layout, as far as they were asked for:
/// for a UTF-16 code unit, the layout's packed answer (virtual-key code in the
/// low-order byte, shift state in the high-order byte, or [`NO_TRANSLATION`]).
#[derive(Clone, Debug)]
pub struct KeyboardLayout {
    scans: HashMap<u16, i16>,
}

impl View for KeyboardLayout {
    type V = Map<u16, i16>;

    closed spec fn view(&self) -> Map<u16, i16> {
        self.scans@
    }
}

impl KeyboardLayout {
    /// A layout of which nothing is known yet.
    pub fn new() -> (layout: Self)
        ensures
            layout@ == Map::<u16, i16>::empty(),
    {
        KeyboardLayout { scans: HashMap::new() }
    }

    /// Notes the layout's answer for one code unit; a later answer for the
    /// same unit replaces the earlier one.
    pub fn record(&mut self, unit: u16, scan: i16)
        ensures
            final(self)@ == old(self)@.insert(unit, scan),
    {
        self.scans.insert(unit, scan);
    }

    /// The layout's answer for `unit`, if it was recorded.
    pub fn scan(&self, unit: u16) -> (answer: Option<i16>)
        ensures
            answer == if self@.dom().contains(unit) {
                Some(self@[unit])
            } else {
                None
            },
    {
        match self.scans.get(&unit) {
            Some(scan) => Some(*scan),
            None => None,
        }
    }
}

/// The single UTF-16 code unit of `character`, or `None` where it takes two.
pub fn code_unit(character: char) -> (unit: Option<u16>)
    ensures
        unit == utf16_unit(character),
{
    let point: u32 = character as u32;
    if point <= 0xFFFF {
        Some(point as u16)
    } else {
        None
    }
}

/// Takes the virtual-key code out of a layout's answer.
pub fn keycode_from_scan(scan: i16) -> (code: Option<u16>)
    ensures
        code == scan_keycode(scan),
        code matches Some(c) ==> c <= 0xFF,
{
    if scan == NO_TRANSLATION {
        None
    } else {
        let wide: i32 = scan as i32;
        let unsigned: i32 = if wide < 0 {
            wide + 0x10000
        } else {
            wide
        };
        assert(unsigned % 256 == (scan as int) % 256) by {
            vstd::arithmetic::div_mod::lemma_mod_multiples_vanish(256, scan as int, 256);
        }
        Some((unsigned % 256) as u16)
    }
}

/// The virtual-key code of a character: its one UTF-16 code unit, looked up
/// in the layout.
pub fn keycode_from_char(character: char, layout: &KeyboardLayout) -> (code: Result<u16, Error>)
    ensures
        code == char_keycode(character, layout@),
        utf16_unit(character) is None ==> code == Err::<u16, Error>(
            Error::UnmappableCharacter(character),
        ),
{
    let unit = match code_unit(character) {
        Some(unit) => unit,
        None => { return Err(Error::UnmappableCharacter(character)); },
    };
    let scan = match layout.scan(unit) {
        Some(scan) => scan,
        None => { return Err(Error::UnmappableCharacter(character)); },
    };
    match keycode_from_scan(scan) {
        Some(code) => Ok(code),
        None => Err(Error::UnmappableCharacter(character)),
    }
}

/// The virtual-key code of a key. A named key has a fixed code, whatever the
/// layout; a character is looked up in the layout.
pub fn get_keycode(key: &Key, layout: &KeyboardLayout) -> (code: Result<u16, Error>)
    ensures
        code == keycode(*key, layout@),
        !(*key is Char) ==> code == Ok::<u16, Error>(named_keycode(*key).unwrap()),
{
    Ok(
        match key {
            Key::Alt => VK_MENU,
            Key::Backspace => VK_BACK,
            Key::CapsLock => VK_CAPITAL,
            Key::Char(character) => keycode_from_char(*character, layout)?,
            Key::Control => VK_CONTROL,
            Key::Delete => VK_DELETE,
            Key::Down => VK_DOWN,
            Key::End => VK_END,
            Key::Esc => VK_ESCAPE,
            Key::Home => VK_HOME,
            Key::Left => VK_LEFT,
            Key::Enter => VK_RETURN,
            Key::Right => VK_RIGHT,
            Key::Shift => VK_SHIFT,
            Key::Space => VK_SPACE,
            Key::Super => VK_LWIN,
            Key::Tab => VK_TAB,
            Key::Up => VK_UP,
            Key::F1 => VK_F1,
            Key::F2 => VK_F2,
            Key::F3 => VK_F3,
            Key::F4 => VK_F4,
            Key::F5 => VK_F5,
            Key::F6 => VK_F6,
            Key::F7 => VK_F7,
            Key::F8 => VK_F8,
            Key::F9 => VK_F9,
            Key::F10 => VK_F10,
            Key::F11 => VK_F11,
            Key::F12 => VK_F12,
        },
    )
}

/// Whether the keys of a chord go down or come up.
#[derive(Clone, Copy, Debug, PartialEq, Eq, Structural)]
pub enum Phase {
    Press,
    Release,
}

/// One low-level keyboard event: a virtual-key code and the direction of the
/// stroke.
#[derive(Clone, Copy, Debug, PartialEq, Eq, Structural)]
pub struct InputEvent {
    pub code: u16,
    pub phase: Phase,
}

/// Whether the key at `index` of the chord has no virtual-key code.
pub open spec fn unmappable_at(keys: Seq<Key>, layout: Map<u16, i16>, index: int) -> bool {
    0 <= index < keys.len() && keycode(keys[index], layout) is Err
}

/// Whether `index` is the place of the first key without a virtual-key code.
pub open spec fn first_unmappable_at(keys: Seq<Key>, layout: Map<u16, i16>, index: int) -> bool {
    &&& unmappable_at(keys, layout, index)
    &&& forall|earlier: int| 0 <= earlier < index ==> !unmappable_at(keys, layout, earlier)
}

/// The place of the first key without a virtual-key code.
pub open spec fn first_unmappable(keys: Seq<Key>, layout: Map<u16, i16>) -> int {
    choose|index: int| first_unmappable_at(keys, layout, index)
}

/// The input events of a chord in one phase: one event per key, in chord
/// order, if every key has a virtual-key code; else the error of the first key
/// that has none.
pub open spec fn input_events(keys: Seq<Key>, phase: Phase, layout: Map<u16, i16>) -> Result<
    Seq<InputEvent>,
    Error,
> {
    if exists|index: int| unmappable_at(keys, layout, index) {
        Err(keycode(keys[first_unmappable(keys, layout)], layout)->Err_0)
    } else {
        Ok(
            Seq::new(
                keys.len(),
                |index: int| InputEvent { code: keycode(keys[index], layout)->Ok_0, phase },
            ),
        )
    }
}

/// There is one first key without a virtual-key code, if there is any.
pub proof fn lemma_first_unmappable_unique(
    keys: Seq<Key>,
    layout: Map<u16, i16>,
    index: int,
    other: int,
)
    requires
        first_unmappable_at(keys, layout, index),
        first_unmappable_at(keys, layout, other),
    ensures
        index == other,
{
    if index < other {
        assert(!unmappable_at(keys, layout, index));
    } else if other < index {
        assert(!unmappable_at(keys, layout, other));
    }
}

/// Builds the input events of a chord for one phase. Every key is mapped to
/// its virtual-key code; the first key that has none fails the whole chord,
/// and then no event is built at all.
pub fn make_input(keys: &[Key], phase: Phase, layout: &KeyboardLayout) -> (events: Result<
    Vec<InputEvent>,
    Error,
>)
    ensures
        match events {
            Ok(built) => input_events(keys@, phase, layout@) == Ok::<Seq<InputEvent>, Error>(
                built@,
            ),
            Err(error) => input_events(keys@, phase, layout@) == Err::<Seq<InputEvent>, Error>(
                error,
            ),
        },
        keys@.len() == 0 ==> (events matches Ok(built) && built@.len() == 0),
        events matches Ok(built) ==> built@.len() == keys@.len(),
        (exists|index: int| unmappable_at(keys@, layout@, index)) <==> events is Err,
{
    let mut built: Vec<InputEvent> = Vec::new();
    let mut index: usize = 0;
    while index < keys.len()
        invariant
            index <= keys@.len(),
            built@.len() == index,
            forall|done: int|
                0 <= done < index ==> keycode(#[trigger] keys@[done], layout@) == Ok::<u16, Error>(
                    built@[done].code,
                ) && built@[done].phase == phase,
        decreases keys@.len() - index,
    {
        let code = match get_keycode(&keys[index], layout) {
            Ok(code) => code,
            Err(error) => {
                proof {
                    let at = index as int;
                    assert(first_unmappable_at(keys@, layout@, at));
                    lemma_first_unmappable_unique(
                        keys@,
                        layout@,
                        at,
                        first_unmappable(keys@, layout@),
                    );
                }
                return Err(error);
            },
        };
        built.push(InputEvent { code, phase });
        index += 1;
    }
    proof {
        assert forall|i: int| !unmappable_at(keys@, layout@, i) by {
            if 0 <= i < keys@.len() {
                assert(keycode(keys@[i], layout@) is Ok);
            }
        }
        assert(built@ =~= Seq::new(
            keys@.len(),
            |i: int| InputEvent { code: keycode(keys@[i], layout@)->Ok_0, phase },
        ));
    }
    Ok(built)
}

/// Where a key has no virtual-key code, there is a first such key.
pub proof fn lemma_first_unmappable_exists(keys: Seq<Key>, layout: Map<u16, i16>, index: int)
    requires
        unmappable_at(keys, layout, index),
    ensures
        exists|first: int| first_unmappable_at(keys, layout, first),
    decreases index,
{
    if exists|earlier: int| 0 <= earlier < index && unmappable_at(keys, layout, earlier) {
        let earlier = choose|earlier: int|
            0 <= earlier < index && unmappable_at(keys, layout, earlier);
        lemma_first_unmappable_exists(keys, layout, earlier);
    } else {
        assert(first_unmappable_at(keys, layout, index));
    }
}

/// A chord without keys builds an empty sequence of events, and never an
/// error.
pub proof fn law_empty_chord_builds_nothing(phase: Phase, layout: Map<u16, i16>)
    ensures
        input_events(Seq::<Key>::empty(), phase, layout) == Ok::<Seq<InputEvent>, Error>(
            Seq::empty(),
        ),
{
    let keys = Seq::<Key>::empty();
    assert(!exists|index: int| unmappable_at(keys, layout, index));
    assert(input_events(keys, phase, layout)->Ok_0 =~= Seq::<InputEvent>::empty());
}

/// A chord that holds a key without a virtual-key code builds no events at
/// all: it fails, in either phase, with the error of the first such key.
pub proof fn law_unmappable_key_fails_whole_chord(
    keys: Seq<Key>,
    phase: Phase,
    layout: Map<u16, i16>,
    index: int,
)
    requires
        unmappable_at(keys, layout, index),
    ensures
        first_unmappable_at(keys, layout, first_unmappable(keys, layout)),
        input_events(keys, phase, layout) == Err::<Seq<InputEvent>, Error>(
            keycode(keys[first_unmappable(keys, layout)], layout)->Err_0,
        ),
{
    lemma_first_unmappable_exists(keys, layout, index);
}

/// A chord of which every key has a virtual-key code builds one event for
/// every key, in the order of the chord, each with the code of its key and
/// with the phase asked for.
pub proof fn law_chord_builds_one_event_per_key(
    keys: Seq<Key>,
    phase: Phase,
    layout: Map<u16, i16>,
)
    requires
        forall|index: int|
            0 <= index < keys.len() ==> (#[trigger] keycode(keys[index], layout)) is Ok,
    ensures
        input_events(keys, phase, layout) matches Ok(events) && events.len() == keys.len()
            && forall|index: int|
            0 <= index < keys.len() ==> #[trigger] events[index] == (InputEvent {
                code: keycode(keys[index], layout)->Ok_0,
                phase,
            }),
{
    if exists|index: int| unmappable_at(keys, layout, index) {
        let bad = choose|index: int| unmappable_at(keys, layout, index);
        assert(keycode(keys[bad], layout) is Ok);
    }
}

/// A named key has its code whatever the layout answers: the code of a key
/// that is no character is the same under any two layouts.
pub proof fn law_named_keys_have_fixed_codes(key: Key, layout: Map<u16, i16>, other: Map<u16, i16>)
    requires
        !(key is Char),
    ensures
        keycode(key, layout) is Ok,
        keycode(key, layout) == keycode(key, other),
{
}

/// A character that takes more than one UTF-16 code unit has no virtual-key
/// code, whatever the layout answers.
pub proof fn law_wide_character_is_unmappable(character: char, layout: Map<u16, i16>)
    requires
        character as u32 > 0xFFFF,
    ensures
        keycode(Key::Char(character), layout) == Err::<u16, Error>(
            Error::UnmappableCharacter(character),
        ),
{
}

} // verus!
