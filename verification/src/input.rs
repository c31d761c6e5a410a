//! What the host does with the remote input events it receives: the mouse
//! or keyboard command that an [`InputEvent`] asks for. Performing the
//! command on the local machine is left to the caller.

use vstd::prelude::*;
use vstd::string::*;

use crate::text::{text_equals, utf8_len_is};
use crate::InputEvent;

verus! {

// ---------------------------------------------------------------------------
// JSON fields of an event's payload
// ---------------------------------------------------------------------------

/// What `serde_json` finds in the JSON text `json` under `field` when it is a
/// JSON string: that string; `None` when the text is not JSON, is not an
/// object, lacks the field, or the field holds another kind of value.
pub uninterp spec fn json_field_text(json: Seq<char>, field: Seq<char>) -> Option<Seq<char>>;

/// What `serde_json` finds in `json` under `field` when it is an integer
/// that fits an `i64`; `None` otherwise.
pub uninterp spec fn json_field_i64(json: Seq<char>, field: Seq<char>) -> Option<i64>;

/// Whether `serde_json` finds a number in `json` under `field`.
pub uninterp spec fn json_field_is_number(json: Seq<char>, field: Seq<char>) -> bool;

/// Parses `json` with `serde_json::from_str::<serde_json::Value>` and reads
/// `field` with `Value::get` and `Value::as_str`. The contract claims only
/// that the result is `json_field_text` of the two texts: the parse is a
/// function of its input.
#[verifier::external_body]
fn read_json_text_field(json: &str, field: &str) -> (r: Option<String>)
    ensures
        match json_field_text(json@, field@) {
            Some(t) => r matches Some(s) && s@ == t,
            None => r is None,
        },
{
    match serde_json::from_str::<serde_json::Value>(json) {
        Ok(v) => match v.get(field) {
            Some(f) => match f.as_str() {
                Some(s) => Some(s.to_string()),
                None => None,
            },
            None => None,
        },
        Err(_) => None,
    }
}

/// Parses `json` with `serde_json::from_str::<serde_json::Value>` and reads
/// `field` with `Value::get` and `Value::as_i64`. The contract claims only
/// that the result is `json_field_i64` of the two texts.
#[verifier::external_body]
fn read_json_i64_field(json: &str, field: &str) -> (r: Option<i64>)
    ensures
        r == json_field_i64(json@, field@),
{
    match serde_json::from_str::<serde_json::Value>(json) {
        Ok(v) => match v.get(field) {
            Some(f) => f.as_i64(),
            None => None,
        },
        Err(_) => None,
    }
}

/// Parses `json` with `serde_json::from_str::<serde_json::Value>` and tells
/// with `Value::get` and `Value::is_number` whether `field` holds a number
/// (the values for which `Value::as_f64` gives a float). The contract claims
/// only that the result is `json_field_is_number` of the two texts.
#[verifier::external_body]
fn read_json_number_field(json: &str, field: &str) -> (r: bool)
    ensures
        r == json_field_is_number(json@, field@),
{
    match serde_json::from_str::<serde_json::Value>(json) {
        Ok(v) => match v.get(field) {
            Some(f) => f.is_number(),
            None => false,
        },
        Err(_) => false,
    }
}

// ---------------------------------------------------------------------------
// Mouse
// ---------------------------------------------------------------------------

/// A mouse button.
#[derive(Debug, Clone, Copy, PartialEq, Eq, Structural)]
pub enum MouseButtonKind {
    Left,
    Middle,
    Right,
}

/// A command for the local mouse.
#[derive(Debug, Clone, Copy, PartialEq, Eq, Structural)]
pub enum MouseCommand {
    /// Move the pointer to the fractions `x` and `y` of the display, both
    /// numbers in the payload.
    Move,
    Press(MouseButtonKind),
    Release(MouseButtonKind),
    Ignore,
}

/// The button that a button number names: 1 the middle one, 2 the right
/// one, anything else (0 among them, or no number) the left one.
pub open spec fn button_for_code(code: Option<i64>) -> MouseButtonKind {
    match code {
        Some(c) => if c == 1 {
            MouseButtonKind::Middle
        } else if c == 2 {
            MouseButtonKind::Right
        } else {
            MouseButtonKind::Left
        },
        None => MouseButtonKind::Left,
    }
}

/// The mouse command for an event of type `event_type` whose payload holds
/// the button number `button` and numbers under `x` and `y` or not.
pub open spec fn mouse_command_spec(
    event_type: Seq<char>,
    button: Option<i64>,
    x_is_number: bool,
    y_is_number: bool,
) -> MouseCommand {
    if event_type == "mouse_move"@ {
        if x_is_number && y_is_number {
            MouseCommand::Move
        } else {
            MouseCommand::Ignore
        }
    } else if event_type == "mouse_down"@ {
        MouseCommand::Press(button_for_code(button))
    } else if event_type == "mouse_up"@ {
        MouseCommand::Release(button_for_code(button))
    } else {
        MouseCommand::Ignore
    }
}

/// Button 1 is the middle one, 2 the right one, any other number or none
/// the left one.
pub open spec fn button_named(code: Option<i64>) -> MouseButtonKind {
    if code == Some(1i64) {
        MouseButtonKind::Middle
    } else if code == Some(2i64) {
        MouseButtonKind::Right
    } else {
        MouseButtonKind::Left
    }
}

/// Law: a `mouse_up` event releases the very button that a `mouse_down`
/// event with the same button number presses: the middle one for 1, the
/// right one for 2, the left one otherwise; a `mouse_move` moves exactly when
/// both coordinates are numbers.
pub proof fn lemma_release_matches_press(button: Option<i64>, x_is_number: bool, y_is_number: bool)
    ensures
        mouse_command_spec("mouse_down"@, button, x_is_number, y_is_number)
            == MouseCommand::Press(button_named(button)),
        mouse_command_spec("mouse_up"@, button, x_is_number, y_is_number)
            == MouseCommand::Release(button_named(button)),
        mouse_command_spec("mouse_move"@, button, x_is_number, y_is_number) == (if x_is_number
            && y_is_number {
            MouseCommand::Move
        } else {
            MouseCommand::Ignore
        }),
{
    reveal_strlit("mouse_down");
    reveal_strlit("mouse_up");
    reveal_strlit("mouse_move");
    assert("mouse_down"@ != "mouse_move"@) by {
        assert("mouse_down"@[6] != "mouse_move"@[6]);
    }
    assert("mouse_up"@ != "mouse_move"@) by {
        assert("mouse_up"@.len() != "mouse_move"@.len());
    }
    assert("mouse_up"@ != "mouse_down"@) by {
        assert("mouse_up"@.len() != "mouse_down"@.len());
    }
}

/// The button that a button number names.
pub fn mouse_button(code: Option<i64>) -> (b: MouseButtonKind)
    ensures
        b == button_for_code(code),
{
    match code {
        Some(1) => MouseButtonKind::Middle,
        Some(2) => MouseButtonKind::Right,
        _ => MouseButtonKind::Left,
    }
}

/// The mouse command for an event of type `event_type` whose payload holds
/// the button number `button` and numbers under `x` and `y` or not.
pub fn mouse_command_for(
    event_type: &str,
    button: Option<i64>,
    x_is_number: bool,
    y_is_number: bool,
) -> (c: MouseCommand)
    ensures
        c == mouse_command_spec(event_type@, button, x_is_number, y_is_number),
        event_type@ == "mouse_down"@ ==> c == MouseCommand::Press(button_named(button)),
        event_type@ == "mouse_up"@ ==> c == MouseCommand::Release(button_named(button)),
{
    proof {
        lemma_release_matches_press(button, x_is_number, y_is_number);
    }
    if text_equals(event_type, "mouse_move") {
        if x_is_number && y_is_number {
            MouseCommand::Move
        } else {
            MouseCommand::Ignore
        }
    } else if text_equals(event_type, "mouse_down") {
        MouseCommand::Press(mouse_button(button))
    } else if text_equals(event_type, "mouse_up") {
        MouseCommand::Release(mouse_button(button))
    } else {
        MouseCommand::Ignore
    }
}

/// The mouse command that a remote mouse event asks for; its payload is
/// read as JSON.
pub fn mouse_command(event: &InputEvent) -> (c: MouseCommand)
    ensures
        c == mouse_command_spec(
            event.event_type@,
            json_field_i64(event.payload@, "button"@),
            json_field_is_number(event.payload@, "x"@),
            json_field_is_number(event.payload@, "y"@),
        ),
{
    let payload = event.payload.as_str();
    let button = read_json_i64_field(payload, "button");
    let x = read_json_number_field(payload, "x");
    let y = read_json_number_field(payload, "y");
    mouse_command_for(event.event_type.as_str(), button, x, y)
}

// ---------------------------------------------------------------------------
// Keyboard
// ---------------------------------------------------------------------------

/// A key of the local keyboard.
#[derive(Debug, Clone, Copy, PartialEq, Eq, Structural)]
pub enum KeyCode {
    Return,
    Backspace,
    Escape,
    Control,
    Shift,
    Alt,
    Meta,
    /// The key that types this character.
    Layout(char),
}

/// A command for the local keyboard.
#[derive(Debug, Clone, Copy, PartialEq, Eq, Structural)]
pub enum KeyCommand {
    Press(KeyCode),
    Release(KeyCode),
    Ignore,
}

/// The key that a key name stands for: one of the seven named keys, or the
/// key of the character when the name is one byte long in UTF-8 (one ASCII
/// character); no key otherwise.
pub open spec fn key_code_spec(name: Seq<char>) -> Option<KeyCode> {
    if name == "Enter"@ {
        Some(KeyCode::Return)
    } else if name == "Backspace"@ {
        Some(KeyCode::Backspace)
    } else if name == "Escape"@ {
        Some(KeyCode::Escape)
    } else if name == "Control"@ {
        Some(KeyCode::Control)
    } else if name == "Shift"@ {
        Some(KeyCode::Shift)
    } else if name == "Alt"@ {
        Some(KeyCode::Alt)
    } else if name == "Meta"@ {
        Some(KeyCode::Meta)
    } else if vstd::utf8::encode_utf8(name).len() == 1 {
        Some(KeyCode::Layout(name[0]))
    } else {
        None
    }
}

/// Law: every key name of one ASCII character (one byte in UTF-8) types
/// that character.
pub proof fn lemma_single_ascii_key(c: char)
    requires
        (c as u32) < 0x80,
    ensures
        key_code_spec(seq![c]) == Some(KeyCode::Layout(c)),
        key_command_spec("key_down"@, Some(seq![c])) == KeyCommand::Press(KeyCode::Layout(c)),
{
    reveal_strlit("Enter");
    reveal_strlit("Backspace");
    reveal_strlit("Escape");
    reveal_strlit("Control");
    reveal_strlit("Shift");
    reveal_strlit("Alt");
    reveal_strlit("Meta");
    let s = seq![c];
    assert(s.drop_first() =~= Seq::<char>::empty());
    assert(vstd::utf8::encode_utf8(s.drop_first()) =~= Seq::<u8>::empty());
    assert(vstd::utf8::encode_utf8(s) =~= vstd::utf8::encode_scalar(c as u32));
    assert(vstd::utf8::encode_utf8(s).len() == 1);
}

/// Law: a key goes down for a `key_down` event and up for a `key_up` event,
/// the same key for the same name.
pub proof fn lemma_key_up_matches_key_down(name: Seq<char>)
    ensures
        key_code_spec(name) matches Some(k) ==> key_command_spec("key_down"@, Some(name))
            == KeyCommand::Press(k) && key_command_spec("key_up"@, Some(name))
            == KeyCommand::Release(k),
        key_code_spec(name) is None ==> key_command_spec("key_down"@, Some(name))
            == KeyCommand::Ignore && key_command_spec("key_up"@, Some(name)) == KeyCommand::Ignore,
{
    reveal_strlit("key_down");
    reveal_strlit("key_up");
    assert("key_up"@ != "key_down"@) by {
        assert("key_up"@.len() != "key_down"@.len());
    }
}

/// The keyboard command for an event of type `event_type` whose payload
/// holds the key name `key` (a JSON string) or not: the key goes down for
/// `key_down` and up for any other type.
pub open spec fn key_command_spec(event_type: Seq<char>, key: Option<Seq<char>>) -> KeyCommand {
    match key {
        None => KeyCommand::Ignore,
        Some(k) => match key_code_spec(k) {
            None => KeyCommand::Ignore,
            Some(code) => if event_type == "key_down"@ {
                KeyCommand::Press(code)
            } else {
                KeyCommand::Release(code)
            },
        },
    }
}

/// The key that a key name stands for.
pub fn key_code(name: &str) -> (k: Option<KeyCode>)
    ensures
        k == key_code_spec(name@),
        name@.len() == 1 && (name@[0] as u32) < 0x80 ==> k == Some(KeyCode::Layout(name@[0])),
{
    proof {
        if name@.len() == 1 && (name@[0] as u32) < 0x80 {
            lemma_single_ascii_key(name@[0]);
            assert(name@ =~= seq![name@[0]]);
        }
    }
    if text_equals(name, "Enter") {
        Some(KeyCode::Return)
    } else if text_equals(name, "Backspace") {
        Some(KeyCode::Backspace)
    } else if text_equals(name, "Escape") {
        Some(KeyCode::Escape)
    } else if text_equals(name, "Control") {
        Some(KeyCode::Control)
    } else if text_equals(name, "Shift") {
        Some(KeyCode::Shift)
    } else if text_equals(name, "Alt") {
        Some(KeyCode::Alt)
    } else if text_equals(name, "Meta") {
        Some(KeyCode::Meta)
    } else if utf8_len_is(name, 1) {
        proof {
            if name@.len() == 0 {
                assert(vstd::utf8::encode_utf8(name@) =~= Seq::<u8>::empty());
            }
        }
        Some(KeyCode::Layout(name.get_char(0)))
    } else {
        None
    }
}

/// The keyboard command for an event of type `event_type` whose payload
/// holds the key name `key` or not.
pub fn key_command_for(event_type: &str, key: Option<&str>) -> (c: KeyCommand)
    ensures
        c == key_command_spec(
            event_type@,
            match key {
                Some(k) => Some(k@),
                None => None,
            },
        ),
{
    match key {
        None => KeyCommand::Ignore,
        Some(k) => match key_code(k) {
            None => KeyCommand::Ignore,
            Some(code) => if text_equals(event_type, "key_down") {
                KeyCommand::Press(code)
            } else {
                KeyCommand::Release(code)
            },
        },
    }
}

/// The keyboard command that a remote key event asks for; its payload is
/// read as JSON.
pub fn key_command(event: &InputEvent) -> (c: KeyCommand)
    ensures
        c == key_command_spec(event.event_type@, json_field_text(event.payload@, "key"@)),
{
    let key = read_json_text_field(event.payload.as_str(), "key");
    match key {
        Some(k) => key_command_for(event.event_type.as_str(), Some(k.as_str())),
        None => key_command_for(event.event_type.as_str(), None),
    }
}

} // verus!

verus! {

/// Law: the seven named keys, each to its own key; any longer name that is
/// none of them, and any name of one non-ASCII character, to no key.
pub proof fn lemma_named_keys(name: Seq<char>)
    ensures
        key_code_spec("Enter"@) == Some(KeyCode::Return),
        key_code_spec("Backspace"@) == Some(KeyCode::Backspace),
        key_code_spec("Escape"@) == Some(KeyCode::Escape),
        key_code_spec("Control"@) == Some(KeyCode::Control),
        key_code_spec("Shift"@) == Some(KeyCode::Shift),
        key_code_spec("Alt"@) == Some(KeyCode::Alt),
        key_code_spec("Meta"@) == Some(KeyCode::Meta),
        name.len() == 1 && (name[0] as u32) >= 0x80 ==> key_code_spec(name) is None,
        name.len() == 0 ==> key_code_spec(name) is None,
{
    reveal_strlit("Enter");
    reveal_strlit("Backspace");
    reveal_strlit("Escape");
    reveal_strlit("Control");
    reveal_strlit("Shift");
    reveal_strlit("Alt");
    reveal_strlit("Meta");
    assert("Backspace"@ != "Enter"@) by { assert("Backspace"@.len() != "Enter"@.len()); }
    assert("Escape"@ != "Enter"@) by { assert("Escape"@.len() != "Enter"@.len()); }
    assert("Escape"@ != "Backspace"@) by { assert("Escape"@.len() != "Backspace"@.len()); }
    assert("Control"@ != "Enter"@) by { assert("Control"@.len() != "Enter"@.len()); }
    assert("Control"@ != "Backspace"@) by { assert("Control"@.len() != "Backspace"@.len()); }
    assert("Control"@ != "Escape"@) by { assert("Control"@.len() != "Escape"@.len()); }
    assert("Shift"@ != "Enter"@) by { assert("Shift"@[0] != "Enter"@[0]); }
    assert("Shift"@ != "Backspace"@) by { assert("Shift"@.len() != "Backspace"@.len()); }
    assert("Shift"@ != "Escape"@) by { assert("Shift"@.len() != "Escape"@.len()); }
    assert("Shift"@ != "Control"@) by { assert("Shift"@.len() != "Control"@.len()); }
    assert("Alt"@ != "Enter"@) by { assert("Alt"@.len() != "Enter"@.len()); }
    assert("Alt"@ != "Backspace"@) by { assert("Alt"@.len() != "Backspace"@.len()); }
    assert("Alt"@ != "Escape"@) by { assert("Alt"@.len() != "Escape"@.len()); }
    assert("Alt"@ != "Control"@) by { assert("Alt"@.len() != "Control"@.len()); }
    assert("Alt"@ != "Shift"@) by { assert("Alt"@.len() != "Shift"@.len()); }
    assert("Meta"@ != "Enter"@) by { assert("Meta"@.len() != "Enter"@.len()); }
    assert("Meta"@ != "Backspace"@) by { assert("Meta"@.len() != "Backspace"@.len()); }
    assert("Meta"@ != "Escape"@) by { assert("Meta"@.len() != "Escape"@.len()); }
    assert("Meta"@ != "Control"@) by { assert("Meta"@.len() != "Control"@.len()); }
    assert("Meta"@ != "Shift"@) by { assert("Meta"@.len() != "Shift"@.len()); }
    assert("Meta"@ != "Alt"@) by { assert("Meta"@.len() != "Alt"@.len()); }
    if name.len() == 1 && (name[0] as u32) >= 0x80 {
        vstd::utf8::char_is_scalar(name[0]);
        assert(name.drop_first() =~= Seq::<char>::empty());
        assert(vstd::utf8::encode_utf8(name.drop_first()) =~= Seq::<u8>::empty());
        assert(vstd::utf8::encode_utf8(name) =~= vstd::utf8::encode_scalar(name[0] as u32));
    }
    if name.len() == 0 {
        assert(vstd::utf8::encode_utf8(name) =~= Seq::<u8>::empty());
    }
}

} // verus!
