use vstd::prelude::*;
use crate::chars::{ascii_lower, ascii_lower_chars, split, split_chars, trim, trim_chars};
use crate::json::{as_str, get, json_as_str, json_get, JsonValue};
use crate::numbers::{parse_u64_digits, u64_digits};
use crate::text::{chars_of, str_eq, string_from_chars};

verus! {

/// The extension whose key the global hotkey presses.
pub const SAFE_INPUT_KEY_ID: &'static str = "safe-input-key";

/// The action the hotkey triggers.
pub const SAFE_INPUT_ACTION_ID: &'static str = "type-text";

/// The configuration member that names the hotkey.
pub const HOTKEY_CONFIG_KEY: &'static str = "triggerKey";

/// Modifier flags of a hotkey registration.
pub const MOD_ALT: u32 = 1;
pub const MOD_CONTROL: u32 = 2;
pub const MOD_SHIFT: u32 = 4;
pub const MOD_WIN: u32 = 8;

/// The configured hotkey: the `triggerKey` text of the extension's
/// configuration (`scroll_lock` when absent), trimmed and lower-cased.
pub open spec fn configured_hotkey_spec(config: JsonValue) -> Seq<char> {
    let raw = match as_str(get(config, HOTKEY_CONFIG_KEY@)) {
        Some(s) => s,
        None => "scroll_lock"@,
    };
    ascii_lower(trim(raw))
}

pub fn configured_hotkey(config: &JsonValue) -> (r: String)
    ensures
        r@ == configured_hotkey_spec(*config),
{
    let raw = match json_as_str(json_get(config, HOTKEY_CONFIG_KEY)) {
        Some(s) => chars_of(s.as_str()),
        None => chars_of("scroll_lock"),
    };
    let trimmed = trim_chars(raw.as_slice());
    let lowered = ascii_lower_chars(trimmed.as_slice());
    string_from_chars(lowered.as_slice())
}

/// The code of a character in upper case, for ASCII letters.
pub open spec fn upper_code(c: char) -> u32 {
    if 'a' <= c && c <= 'z' {
        ((c as u32) - 32) as u32
    } else {
        c as u32
    }
}

/// The virtual-key code of a function key `f1` to `f24`, from the text
/// after the `f` (an optional `+` then decimal digits).
pub open spec fn function_key(rest: Seq<char>) -> Option<u32> {
    let digits = if rest.len() > 0 && rest[0] == '+' {
        rest.drop_first()
    } else {
        rest
    };
    match u64_digits(digits) {
        Some(n) => if 1 <= n <= 24 {
            Some((0x70 + n - 1) as u32)
        } else {
            None
        },
        None => None,
    }
}

/// The virtual-key code of a key name: the named keys, any single ASCII
/// character (its upper case), and `f1` to `f24`.
pub open spec fn key_code(key: Seq<char>) -> Option<u32> {
    if key == "scroll_lock"@ {
        Some(0x91u32)
    } else if key == "caps_lock"@ {
        Some(0x14u32)
    } else if key == "num_lock"@ {
        Some(0x90u32)
    } else if key == "space"@ {
        Some(0x20u32)
    } else if key == "enter"@ {
        Some(0x0Du32)
    } else if key == "tab"@ {
        Some(0x09u32)
    } else if key == "esc"@ || key == "escape"@ {
        Some(0x1Bu32)
    } else if key == "backspace"@ {
        Some(0x08u32)
    } else if key == "delete"@ {
        Some(0x2Eu32)
    } else if key == "insert"@ {
        Some(0x2Du32)
    } else if key == "home"@ {
        Some(0x24u32)
    } else if key == "end"@ {
        Some(0x23u32)
    } else if key == "page_up"@ {
        Some(0x21u32)
    } else if key == "page_down"@ {
        Some(0x22u32)
    } else if key == "arrow_left"@ {
        Some(0x25u32)
    } else if key == "arrow_up"@ {
        Some(0x26u32)
    } else if key == "arrow_right"@ {
        Some(0x27u32)
    } else if key == "arrow_down"@ {
        Some(0x28u32)
    } else if key.len() == 1 && (key[0] as u32) < 128 {
        Some(upper_code(key[0]))
    } else if key.len() > 0 && key[0] == 'f' {
        function_key(key.drop_first())
    } else {
        None
    }
}

fn function_key_code(rest: &[char]) -> (r: Option<u32>)
    ensures
        r == function_key(rest@),
{
    let digits: &[char] = if rest.len() > 0 && rest[0] == '+' {
        vstd::slice::slice_subrange(rest, 1, rest.len())
    } else {
        rest
    };
    proof {
        if rest@.len() > 0 && rest@[0] == '+' {
            assert(digits@ =~= rest@.drop_first());
        }
    }
    match parse_u64_digits(digits) {
        Some(n) => if 1 <= n && n <= 24 {
            Some((0x70 + n - 1) as u32)
        } else {
            None
        },
        None => None,
    }
}

/// The virtual-key code of a key name, if it names a key.
pub fn key_to_vk(key: &str) -> (r: Option<u32>)
    ensures
        r == key_code(key@),
{
    if str_eq(key, "scroll_lock") {
        return Some(0x91);
    }
    if str_eq(key, "caps_lock") {
        return Some(0x14);
    }
    if str_eq(key, "num_lock") {
        return Some(0x90);
    }
    if str_eq(key, "space") {
        return Some(0x20);
    }
    if str_eq(key, "enter") {
        return Some(0x0D);
    }
    if str_eq(key, "tab") {
        return Some(0x09);
    }
    if str_eq(key, "esc") || str_eq(key, "escape") {
        return Some(0x1B);
    }
    if str_eq(key, "backspace") {
        return Some(0x08);
    }
    if str_eq(key, "delete") {
        return Some(0x2E);
    }
    if str_eq(key, "insert") {
        return Some(0x2D);
    }
    if str_eq(key, "home") {
        return Some(0x24);
    }
    if str_eq(key, "end") {
        return Some(0x23);
    }
    if str_eq(key, "page_up") {
        return Some(0x21);
    }
    if str_eq(key, "page_down") {
        return Some(0x22);
    }
    if str_eq(key, "arrow_left") {
        return Some(0x25);
    }
    if str_eq(key, "arrow_up") {
        return Some(0x26);
    }
    if str_eq(key, "arrow_right") {
        return Some(0x27);
    }
    if str_eq(key, "arrow_down") {
        return Some(0x28);
    }
    let cs = chars_of(key);
    if cs.len() == 1 && (cs[0] as u32) < 128 {
        let c = cs[0];
        let code: u32 = if 'a' <= c && c <= 'z' {
            (c as u32) - 32
        } else {
            c as u32
        };
        return Some(code);
    }
    if cs.len() > 0 && cs[0] == 'f' {
        let rest = vstd::slice::slice_subrange(cs.as_slice(), 1, cs.len());
        assert(rest@ =~= key@.drop_first());
        return function_key_code(rest);
    }
    None
}

/// What a hotkey text has said after some of its `+`-separated parts:
/// which modifiers were named, and the key of the last other part.
pub open spec fn hotkey_fold(parts: Seq<Seq<char>>) -> (bool, bool, bool, bool, Option<u32>)
    decreases parts.len(),
{
    if parts.len() == 0 {
        (false, false, false, false, None)
    } else {
        let acc = hotkey_fold(parts.drop_last());
        let p = trim(parts.last());
        if p.len() == 0 {
            acc
        } else if p == "ctrl"@ || p == "control"@ {
            (true, acc.1, acc.2, acc.3, acc.4)
        } else if p == "alt"@ {
            (acc.0, true, acc.2, acc.3, acc.4)
        } else if p == "shift"@ {
            (acc.0, acc.1, true, acc.3, acc.4)
        } else if p == "meta"@ || p == "cmd"@ || p == "win"@ {
            (acc.0, acc.1, acc.2, true, acc.4)
        } else {
            (acc.0, acc.1, acc.2, acc.3, key_code(p))
        }
    }
}

/// The modifier flags of the named modifiers.
pub open spec fn modifier_flags(ctrl: bool, alt: bool, shift: bool, win: bool) -> u32 {
    ((if ctrl { MOD_CONTROL } else { 0u32 }) + (if alt { MOD_ALT } else { 0u32 }) + (if shift {
        MOD_SHIFT
    } else {
        0u32
    }) + (if win { MOD_WIN } else { 0u32 })) as u32
}

/// A hotkey text such as `ctrl+alt+f12`: its modifier flags and key code,
/// when its last part that is not a modifier names a key.
pub open spec fn hotkey_spec(combo: Seq<char>) -> Option<(u32, u32)> {
    let acc = hotkey_fold(split(combo, '+'));
    match acc.4 {
        Some(vk) => Some((modifier_flags(acc.0, acc.1, acc.2, acc.3), vk)),
        None => None,
    }
}

pub fn parse_hotkey(combo: &str) -> (r: Option<(u32, u32)>)
    ensures
        r == hotkey_spec(combo@),
{
    let cs = chars_of(combo);
    let parts = split_chars(cs.as_slice(), '+');
    let ghost ps = split(combo@, '+');
    assert(parts@.len() == ps.len());
    let mut ctrl = false;
    let mut alt = false;
    let mut shift = false;
    let mut win = false;
    let mut key: Option<u32> = None;
    let mut i: usize = 0;
    while i < parts.len()
        invariant
            i <= parts@.len(),
            parts@.len() == ps.len(),
            ps == split(combo@, '+'),
            forall|j: int| 0 <= j < parts@.len() ==> #[trigger] parts@[j]@ == ps[j],
            hotkey_fold(ps.take(i as int)) == (ctrl, alt, shift, win, key),
        decreases parts@.len() - i,
    {
        assert(ps.take(i + 1).drop_last() =~= ps.take(i as int));
        assert(ps.take(i + 1).last() == ps[i as int]);
        let trimmed = trim_chars(parts[i].as_slice());
        if trimmed.len() > 0 {
            let p = string_from_chars(trimmed.as_slice());
            if str_eq(p.as_str(), "ctrl") || str_eq(p.as_str(), "control") {
                ctrl = true;
            } else if str_eq(p.as_str(), "alt") {
                alt = true;
            } else if str_eq(p.as_str(), "shift") {
                shift = true;
            } else if str_eq(p.as_str(), "meta") || str_eq(p.as_str(), "cmd") || str_eq(p.as_str(), "win") {
                win = true;
            } else {
                key = key_to_vk(p.as_str());
            }
        }
        i = i + 1;
    }
    assert(ps.take(i as int) =~= ps);
    match key {
        Some(vk) => {
            let flags: u32 = (if ctrl { MOD_CONTROL } else { 0 }) + (if alt { MOD_ALT } else { 0 }) + (if shift {
                MOD_SHIFT
            } else {
                0
            }) + (if win { MOD_WIN } else { 0 });
            Some((flags, vk))
        },
        None => None,
    }
}

/// What the hotkey thread does when the configured text may have changed.
#[derive(Debug, Clone, Copy, PartialEq, Eq)]
pub enum HotkeyChange {
    /// The text is the one already handled: nothing to do.
    Keep,
    /// Drop the current registration (if `unregister`), remember the new
    /// text, and register the parsed hotkey if there is one.
    Replace { unregister: bool, register: Option<(u32, u32)> },
}

/// Decides how a newly read hotkey text changes the registration: an
/// unchanged text keeps it; otherwise a held registration is released and
/// the new text, when non-empty and valid, is registered.
pub fn hotkey_change(current: &str, registered: bool, combo: &str) -> (r: HotkeyChange)
    ensures
        combo@ == current@ ==> r == HotkeyChange::Keep,
        combo@ != current@ ==> r == (HotkeyChange::Replace {
            unregister: registered,
            register: (if combo@.len() == 0 {
                None
            } else {
                hotkey_spec(combo@)
            }),
        }),
{
    if str_eq(combo, current) {
        return HotkeyChange::Keep;
    }
    let cs = chars_of(combo);
    let register = if cs.len() == 0 {
        None
    } else {
        parse_hotkey(combo)
    };
    HotkeyChange::Replace { unregister: registered, register }
}

/// A single ASCII character is its own key: its code is that of its upper case.
proof fn lemma_single_character_code(key: Seq<char>)
    requires
        key.len() == 1,
        (key[0] as u32) < 128,
    ensures
        key_code(key) == Some(upper_code(key[0])),
{
    reveal_strlit("scroll_lock");
    assert("scroll_lock"@.len() == 11);
    reveal_strlit("caps_lock");
    assert("caps_lock"@.len() == 9);
    reveal_strlit("num_lock");
    assert("num_lock"@.len() == 8);
    reveal_strlit("space");
    assert("space"@.len() == 5);
    reveal_strlit("enter");
    assert("enter"@.len() == 5);
    reveal_strlit("tab");
    assert("tab"@.len() == 3);
    reveal_strlit("esc");
    assert("esc"@.len() == 3);
    reveal_strlit("escape");
    assert("escape"@.len() == 6);
    reveal_strlit("backspace");
    assert("backspace"@.len() == 9);
    reveal_strlit("delete");
    assert("delete"@.len() == 6);
    reveal_strlit("insert");
    assert("insert"@.len() == 6);
    reveal_strlit("home");
    assert("home"@.len() == 4);
    reveal_strlit("end");
    assert("end"@.len() == 3);
    reveal_strlit("page_up");
    assert("page_up"@.len() == 7);
    reveal_strlit("page_down");
    assert("page_down"@.len() == 9);
    reveal_strlit("arrow_left");
    assert("arrow_left"@.len() == 10);
    reveal_strlit("arrow_up");
    assert("arrow_up"@.len() == 8);
    reveal_strlit("arrow_right");
    assert("arrow_right"@.len() == 11);
    reveal_strlit("arrow_down");
    assert("arrow_down"@.len() == 10);
}

/// A named key: one of the names that `key_code` knows besides single
/// characters and function keys.
pub open spec fn is_named_key(key: Seq<char>) -> bool {
    key.len() >= 2 && key[0] != 'f' && key_code(key) is Some
}

/// The virtual-key codes of the named keys follow the Windows layout: the
/// keys that have an ASCII control character share its code (space, enter,
/// tab, backspace, escape under both its names); page up, page down, end,
/// home and the arrows left, up, right, down are consecutive codes in that
/// order, as are insert and delete, and num lock and scroll lock; and two
/// named keys have the same code only when they are the same key.
pub proof fn law_named_keys_follow_the_virtual_key_layout(a: Seq<char>, b: Seq<char>)
    ensures
        key_code("space"@) == key_code(" "@),
        key_code("enter"@) == key_code("\r"@),
        key_code("tab"@) == key_code("\t"@),
        key_code("backspace"@) == key_code("\u{8}"@),
        key_code("esc"@) == key_code("\u{1b}"@),
        key_code("escape"@) == key_code("esc"@),
        key_code("page_up"@) is Some,
        key_code("page_down"@)->0 == key_code("page_up"@)->0 + 1,
        key_code("end"@)->0 == key_code("page_down"@)->0 + 1,
        key_code("home"@)->0 == key_code("end"@)->0 + 1,
        key_code("arrow_left"@)->0 == key_code("home"@)->0 + 1,
        key_code("arrow_up"@)->0 == key_code("arrow_left"@)->0 + 1,
        key_code("arrow_right"@)->0 == key_code("arrow_up"@)->0 + 1,
        key_code("arrow_down"@)->0 == key_code("arrow_right"@)->0 + 1,
        key_code("delete"@)->0 == key_code("insert"@)->0 + 1,
        key_code("scroll_lock"@)->0 == key_code("num_lock"@)->0 + 1,
        is_named_key(a) && is_named_key(b) && key_code(a) == key_code(b) ==> a == b || (key_code(a) == key_code(
            "esc"@,
        ) && (a == "esc"@ || a == "escape"@) && (b == "esc"@ || b == "escape"@)),
{
    reveal_strlit(" ");
    reveal_strlit("\r");
    reveal_strlit("\t");
    reveal_strlit("\u{8}");
    reveal_strlit("\u{1b}");
    assert(" "@.len() == 1 && " "@[0] == ' ');
    lemma_single_character_code(" "@);
    assert("\r"@.len() == 1 && "\r"@[0] == '\r');
    lemma_single_character_code("\r"@);
    assert("\t"@.len() == 1 && "\t"@[0] == '\t');
    lemma_single_character_code("\t"@);
    assert("\u{8}"@.len() == 1 && "\u{8}"@[0] == '\u{8}');
    lemma_single_character_code("\u{8}"@);
    assert("\u{1b}"@.len() == 1 && "\u{1b}"@[0] == '\u{1b}');
    lemma_single_character_code("\u{1b}"@);
    assert(key_code("scroll_lock"@) == Some(0x91u32)) by {
        reveal_strlit("scroll_lock");
    }
    assert(key_code("caps_lock"@) == Some(0x14u32)) by {
        reveal_strlit("caps_lock");
        reveal_strlit("scroll_lock");
    }
    assert(key_code("num_lock"@) == Some(0x90u32)) by {
        reveal_strlit("num_lock");
        reveal_strlit("scroll_lock");
        reveal_strlit("caps_lock");
    }
    assert(key_code("space"@) == Some(0x20u32)) by {
        reveal_strlit("space");
        reveal_strlit("scroll_lock");
        reveal_strlit("caps_lock");
        reveal_strlit("num_lock");
    }
    assert(key_code("enter"@) == Some(0xdu32)) by {
        reveal_strlit("enter");
        reveal_strlit("scroll_lock");
        reveal_strlit("caps_lock");
        reveal_strlit("num_lock");
        reveal_strlit("space");
        assert("enter"@[0] != "space"@[0]);
    }
    assert(key_code("tab"@) == Some(0x9u32)) by {
        reveal_strlit("tab");
        reveal_strlit("scroll_lock");
        reveal_strlit("caps_lock");
        reveal_strlit("num_lock");
        reveal_strlit("space");
        reveal_strlit("enter");
    }
    assert(key_code("esc"@) == Some(0x1bu32)) by {
        reveal_strlit("esc");
        reveal_strlit("scroll_lock");
        reveal_strlit("caps_lock");
        reveal_strlit("num_lock");
        reveal_strlit("space");
        reveal_strlit("enter");
        reveal_strlit("tab");
        assert("esc"@[0] != "tab"@[0]);
    }
    assert(key_code("escape"@) == Some(0x1bu32)) by {
        reveal_strlit("escape");
        reveal_strlit("scroll_lock");
        reveal_strlit("caps_lock");
        reveal_strlit("num_lock");
        reveal_strlit("space");
        reveal_strlit("enter");
        reveal_strlit("tab");
        reveal_strlit("esc");
    }
    assert(key_code("backspace"@) == Some(0x8u32)) by {
        reveal_strlit("backspace");
        reveal_strlit("scroll_lock");
        reveal_strlit("caps_lock");
        assert("backspace"@[0] != "caps_lock"@[0]);
        reveal_strlit("num_lock");
        reveal_strlit("space");
        reveal_strlit("enter");
        reveal_strlit("tab");
        reveal_strlit("esc");
        reveal_strlit("escape");
    }
    assert(key_code("delete"@) == Some(0x2eu32)) by {
        reveal_strlit("delete");
        reveal_strlit("scroll_lock");
        reveal_strlit("caps_lock");
        reveal_strlit("num_lock");
        reveal_strlit("space");
        reveal_strlit("enter");
        reveal_strlit("tab");
        reveal_strlit("esc");
        reveal_strlit("escape");
        assert("delete"@[0] != "escape"@[0]);
        reveal_strlit("backspace");
    }
    assert(key_code("insert"@) == Some(0x2du32)) by {
        reveal_strlit("insert");
        reveal_strlit("scroll_lock");
        reveal_strlit("caps_lock");
        reveal_strlit("num_lock");
        reveal_strlit("space");
        reveal_strlit("enter");
        reveal_strlit("tab");
        reveal_strlit("esc");
        reveal_strlit("escape");
        assert("insert"@[0] != "escape"@[0]);
        reveal_strlit("backspace");
        reveal_strlit("delete");
        assert("insert"@[0] != "delete"@[0]);
    }
    assert(key_code("home"@) == Some(0x24u32)) by {
        reveal_strlit("home");
        reveal_strlit("scroll_lock");
        reveal_strlit("caps_lock");
        reveal_strlit("num_lock");
        reveal_strlit("space");
        reveal_strlit("enter");
        reveal_strlit("tab");
        reveal_strlit("esc");
        reveal_strlit("escape");
        reveal_strlit("backspace");
        reveal_strlit("delete");
        reveal_strlit("insert");
    }
    assert(key_code("end"@) == Some(0x23u32)) by {
        reveal_strlit("end");
        reveal_strlit("scroll_lock");
        reveal_strlit("caps_lock");
        reveal_strlit("num_lock");
        reveal_strlit("space");
        reveal_strlit("enter");
        reveal_strlit("tab");
        assert("end"@[0] != "tab"@[0]);
        reveal_strlit("esc");
        assert("end"@[1] != "esc"@[1]);
        reveal_strlit("escape");
        reveal_strlit("backspace");
        reveal_strlit("delete");
        reveal_strlit("insert");
        reveal_strlit("home");
    }
    assert(key_code("page_up"@) == Some(0x21u32)) by {
        reveal_strlit("page_up");
        reveal_strlit("scroll_lock");
        reveal_strlit("caps_lock");
        reveal_strlit("num_lock");
        reveal_strlit("space");
        reveal_strlit("enter");
        reveal_strlit("tab");
        reveal_strlit("esc");
        reveal_strlit("escape");
        reveal_strlit("backspace");
        reveal_strlit("delete");
        reveal_strlit("insert");
        reveal_strlit("home");
        reveal_strlit("end");
    }
    assert(key_code("page_down"@) == Some(0x22u32)) by {
        reveal_strlit("page_down");
        reveal_strlit("scroll_lock");
        reveal_strlit("caps_lock");
        assert("page_down"@[0] != "caps_lock"@[0]);
        reveal_strlit("num_lock");
        reveal_strlit("space");
        reveal_strlit("enter");
        reveal_strlit("tab");
        reveal_strlit("esc");
        reveal_strlit("escape");
        reveal_strlit("backspace");
        assert("page_down"@[0] != "backspace"@[0]);
        reveal_strlit("delete");
        reveal_strlit("insert");
        reveal_strlit("home");
        reveal_strlit("end");
        reveal_strlit("page_up");
    }
    assert(key_code("arrow_left"@) == Some(0x25u32)) by {
        reveal_strlit("arrow_left");
        reveal_strlit("scroll_lock");
        reveal_strlit("caps_lock");
        reveal_strlit("num_lock");
        reveal_strlit("space");
        reveal_strlit("enter");
        reveal_strlit("tab");
        reveal_strlit("esc");
        reveal_strlit("escape");
        reveal_strlit("backspace");
        reveal_strlit("delete");
        reveal_strlit("insert");
        reveal_strlit("home");
        reveal_strlit("end");
        reveal_strlit("page_up");
        reveal_strlit("page_down");
    }
    assert(key_code("arrow_up"@) == Some(0x26u32)) by {
        reveal_strlit("arrow_up");
        reveal_strlit("scroll_lock");
        reveal_strlit("caps_lock");
        reveal_strlit("num_lock");
        assert("arrow_up"@[0] != "num_lock"@[0]);
        reveal_strlit("space");
        reveal_strlit("enter");
        reveal_strlit("tab");
        reveal_strlit("esc");
        reveal_strlit("escape");
        reveal_strlit("backspace");
        reveal_strlit("delete");
        reveal_strlit("insert");
        reveal_strlit("home");
        reveal_strlit("end");
        reveal_strlit("page_up");
        reveal_strlit("page_down");
        reveal_strlit("arrow_left");
    }
    assert(key_code("arrow_right"@) == Some(0x27u32)) by {
        reveal_strlit("arrow_right");
        reveal_strlit("scroll_lock");
        assert("arrow_right"@[0] != "scroll_lock"@[0]);
        reveal_strlit("caps_lock");
        reveal_strlit("num_lock");
        reveal_strlit("space");
        reveal_strlit("enter");
        reveal_strlit("tab");
        reveal_strlit("esc");
        reveal_strlit("escape");
        reveal_strlit("backspace");
        reveal_strlit("delete");
        reveal_strlit("insert");
        reveal_strlit("home");
        reveal_strlit("end");
        reveal_strlit("page_up");
        reveal_strlit("page_down");
        reveal_strlit("arrow_left");
        reveal_strlit("arrow_up");
    }
    assert(key_code("arrow_down"@) == Some(0x28u32)) by {
        reveal_strlit("arrow_down");
        reveal_strlit("scroll_lock");
        reveal_strlit("caps_lock");
        reveal_strlit("num_lock");
        reveal_strlit("space");
        reveal_strlit("enter");
        reveal_strlit("tab");
        reveal_strlit("esc");
        reveal_strlit("escape");
        reveal_strlit("backspace");
        reveal_strlit("delete");
        reveal_strlit("insert");
        reveal_strlit("home");
        reveal_strlit("end");
        reveal_strlit("page_up");
        reveal_strlit("page_down");
        reveal_strlit("arrow_left");
        assert("arrow_down"@[6] != "arrow_left"@[6]);
        reveal_strlit("arrow_up");
        reveal_strlit("arrow_right");
    }
}

} // verus!
