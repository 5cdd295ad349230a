//! Key names used by the global hotkeys.
//!
//! The keyboard hook itself lives with the application; here are the names it
//! matches against.
use vstd::prelude::*;
use crate::text::{decimal, lowercase, push_char, push_decimal, push_str, str_eq, string_of, to_lowercase, trim, trim_str};

verus! {

/// What a global hotkey triggers.
#[derive(Clone, Copy, Debug, PartialEq, Eq)]
pub enum HotkeyAction {
    /// Execute the stratagem of the given slot.
    Slot(usize),
    /// Switch listening on / off.
    ToggleListening,
}

/// Names of the keys with a fixed name (function keys, numpad, navigation,
/// punctuation as the unshifted base symbol).
pub open spec fn fixed_key_name(vk: u32) -> Option<Seq<char>> {
    match vk {
        0x70 => Some("f1"@),
        0x71 => Some("f2"@),
        0x72 => Some("f3"@),
        0x73 => Some("f4"@),
        0x74 => Some("f5"@),
        0x75 => Some("f6"@),
        0x76 => Some("f7"@),
        0x77 => Some("f8"@),
        0x78 => Some("f9"@),
        0x79 => Some("f10"@),
        0x7A => Some("f11"@),
        0x7B => Some("f12"@),
        0x7C => Some("f13"@),
        0x7D => Some("f14"@),
        0x7E => Some("f15"@),
        0x7F => Some("f16"@),
        0x80 => Some("f17"@),
        0x81 => Some("f18"@),
        0x82 => Some("f19"@),
        0x83 => Some("f20"@),
        0x84 => Some("f21"@),
        0x85 => Some("f22"@),
        0x86 => Some("f23"@),
        0x87 => Some("f24"@),
        0x60 => Some("numpad0"@),
        0x61 => Some("numpad1"@),
        0x62 => Some("numpad2"@),
        0x63 => Some("numpad3"@),
        0x64 => Some("numpad4"@),
        0x65 => Some("numpad5"@),
        0x66 => Some("numpad6"@),
        0x67 => Some("numpad7"@),
        0x68 => Some("numpad8"@),
        0x69 => Some("numpad9"@),
        0x21 => Some("pageup"@),
        0x22 => Some("pagedown"@),
        0x23 => Some("end"@),
        0x24 => Some("home"@),
        0x25 => Some("left"@),
        0x26 => Some("up"@),
        0x27 => Some("right"@),
        0x28 => Some("down"@),
        0x2D => Some("insert"@),
        0x2E => Some("delete"@),
        0x6B => Some("+"@),
        0x6D => Some("-"@),
        0x6E => Some("."@),
        0x6F => Some("/"@),
        0x20 => Some("space"@),
        0x0D => Some("enter"@),
        0x09 => Some("tab"@),
        0x1B => Some("esc"@),
        0x08 => Some("backspace"@),
        0xBA => Some(";"@),
        0xBB => Some("="@),
        0xBC => Some(","@),
        0xBD => Some("-"@),
        0xBE => Some("."@),
        0xBF => Some("/"@),
        0xC0 => Some("`"@),
        0xDB => Some("["@),
        0xDC => Some("\\"@),
        0xDD => Some("]"@),
        0xDE => Some("'"@),
        _ => None,
    }
}

/// The configuration name of virtual key `vk`.
pub open spec fn vk_name(vk: u32) -> Seq<char> {
    if 0x30 <= vk <= 0x39 {
        decimal((vk - 0x30) as nat)
    } else if 0x41 <= vk <= 0x5A {
        seq![((vk - 0x41 + 97) as u8) as char]
    } else {
        match fixed_key_name(vk) {
            Some(n) => n,
            None => "vk("@ + decimal(vk as nat) + ")"@,
        }
    }
}

fn fixed_key_name_str(vk: u32) -> (r: Option<&'static str>)
    ensures
        r is Some == fixed_key_name(vk) is Some,
        r is Some ==> r->0@ == fixed_key_name(vk)->0,
{
    match vk {
        0x70 => Some("f1"),
        0x71 => Some("f2"),
        0x72 => Some("f3"),
        0x73 => Some("f4"),
        0x74 => Some("f5"),
        0x75 => Some("f6"),
        0x76 => Some("f7"),
        0x77 => Some("f8"),
        0x78 => Some("f9"),
        0x79 => Some("f10"),
        0x7A => Some("f11"),
        0x7B => Some("f12"),
        0x7C => Some("f13"),
        0x7D => Some("f14"),
        0x7E => Some("f15"),
        0x7F => Some("f16"),
        0x80 => Some("f17"),
        0x81 => Some("f18"),
        0x82 => Some("f19"),
        0x83 => Some("f20"),
        0x84 => Some("f21"),
        0x85 => Some("f22"),
        0x86 => Some("f23"),
        0x87 => Some("f24"),
        0x60 => Some("numpad0"),
        0x61 => Some("numpad1"),
        0x62 => Some("numpad2"),
        0x63 => Some("numpad3"),
        0x64 => Some("numpad4"),
        0x65 => Some("numpad5"),
        0x66 => Some("numpad6"),
        0x67 => Some("numpad7"),
        0x68 => Some("numpad8"),
        0x69 => Some("numpad9"),
        0x21 => Some("pageup"),
        0x22 => Some("pagedown"),
        0x23 => Some("end"),
        0x24 => Some("home"),
        0x25 => Some("left"),
        0x26 => Some("up"),
        0x27 => Some("right"),
        0x28 => Some("down"),
        0x2D => Some("insert"),
        0x2E => Some("delete"),
        0x6B => Some("+"),
        0x6D => Some("-"),
        0x6E => Some("."),
        0x6F => Some("/"),
        0x20 => Some("space"),
        0x0D => Some("enter"),
        0x09 => Some("tab"),
        0x1B => Some("esc"),
        0x08 => Some("backspace"),
        0xBA => Some(";"),
        0xBB => Some("="),
        0xBC => Some(","),
        0xBD => Some("-"),
        0xBE => Some("."),
        0xBF => Some("/"),
        0xC0 => Some("`"),
        0xDB => Some("["),
        0xDC => Some("\\"),
        0xDD => Some("]"),
        0xDE => Some("'"),
        _ => None,
    }
}

/// Windows virtual key → the key name used in the configuration. Punctuation
/// keys are named by their unshifted symbol, as the keyboard hook sees them.
pub fn vk_to_name(vk: u32) -> (r: String)
    ensures
        r@ == vk_name(vk),
{
    if 0x30 <= vk && vk <= 0x39 {
        let mut s = String::new();
        push_decimal(&mut s, (vk - 0x30) as u64);
        return s;
    }
    if 0x41 <= vk && vk <= 0x5A {
        let mut s = String::new();
        let b: u8 = ((vk - 0x41) as u8) + 97u8;
        push_char(&mut s, b as char);
        assert(s@ =~= vk_name(vk));
        return s;
    }
    match fixed_key_name_str(vk) {
        Some(n) => string_of(n),
        None => {
            let mut s = String::new();
            push_str(&mut s, "vk(");
            push_decimal(&mut s, vk as u64);
            push_str(&mut s, ")");
            s
        },
    }
}

/// Spelled-out names users type for punctuation keys, mapped to the symbols
/// `vk_to_name` uses.
pub open spec fn key_alias(k: Seq<char>) -> Option<Seq<char>> {
    if k == "comma"@ {
        Some(","@)
    } else
    if k == "period"@ {
        Some("."@)
    } else
    if k == "dot"@ {
        Some("."@)
    } else
    if k == "slash"@ {
        Some("/"@)
    } else
    if k == "divide"@ {
        Some("/"@)
    } else
    if k == "semicolon"@ {
        Some(";"@)
    } else
    if k == "colon"@ {
        Some(";"@)
    } else
    if k == "minus"@ {
        Some("-"@)
    } else
    if k == "dash"@ {
        Some("-"@)
    } else
    if k == "plus"@ {
        Some("="@)
    } else
    if k == "equals"@ {
        Some("="@)
    } else
    if k == "equal"@ {
        Some("="@)
    } else
    if k == "openbracket"@ {
        Some("["@)
    } else
    if k == "leftbracket"@ {
        Some("["@)
    } else
    if k == "closebracket"@ {
        Some("]"@)
    } else
    if k == "rightbracket"@ {
        Some("]"@)
    } else
    if k == "backslash"@ {
        Some("\\"@)
    } else
    if k == "backtick"@ {
        Some("`"@)
    } else
    if k == "grave"@ {
        Some("`"@)
    } else
    if k == "quote"@ {
        Some("'"@)
    } else
    if k == "apostrophe"@ {
        Some("'"@)
    } else {
        None
    }
}

fn key_alias_str(k: &str) -> (r: Option<&'static str>)
    ensures
        r is Some == key_alias(k@) is Some,
        r is Some ==> r->0@ == key_alias(k@)->0,
{
    if str_eq(k, "comma") {
        return Some(",");
    }
    if str_eq(k, "period") {
        return Some(".");
    }
    if str_eq(k, "dot") {
        return Some(".");
    }
    if str_eq(k, "slash") {
        return Some("/");
    }
    if str_eq(k, "divide") {
        return Some("/");
    }
    if str_eq(k, "semicolon") {
        return Some(";");
    }
    if str_eq(k, "colon") {
        return Some(";");
    }
    if str_eq(k, "minus") {
        return Some("-");
    }
    if str_eq(k, "dash") {
        return Some("-");
    }
    if str_eq(k, "plus") {
        return Some("=");
    }
    if str_eq(k, "equals") {
        return Some("=");
    }
    if str_eq(k, "equal") {
        return Some("=");
    }
    if str_eq(k, "openbracket") {
        return Some("[");
    }
    if str_eq(k, "leftbracket") {
        return Some("[");
    }
    if str_eq(k, "closebracket") {
        return Some("]");
    }
    if str_eq(k, "rightbracket") {
        return Some("]");
    }
    if str_eq(k, "backslash") {
        return Some("\\");
    }
    if str_eq(k, "backtick") {
        return Some("`");
    }
    if str_eq(k, "grave") {
        return Some("`");
    }
    if str_eq(k, "quote") {
        return Some("'");
    }
    if str_eq(k, "apostrophe") {
        return Some("'");
    }
    None
}

/// What `normalize_key_name` makes of a typed key name.
pub open spec fn normalized_key(raw: Seq<char>) -> Seq<char> {
    aliased_key(lowercase(trim(raw)))
}

/// A lower-cased key name with its punctuation word turned into the symbol.
pub open spec fn aliased_key(k: Seq<char>) -> Seq<char> {
    match key_alias(k) {
        Some(t) => t,
        None => k,
    }
}

/// What follows the lower-casing in `normalize_key_name`: a trimmed,
/// lower-cased key name with its punctuation word turned into the symbol.
pub fn normalize_lowered_key(k: String) -> (r: String)
    ensures
        r@ == aliased_key(k@),
{
    match key_alias_str(k.as_str()) {
        Some(t) => string_of(t),
        None => k,
    }
}

/// Normalises a typed key name (trimmed, lower case, punctuation words such as
/// `Comma` / `Period` / `Slash` turned into their symbol).
pub fn normalize_key_name(raw: &str) -> (r: String)
    ensures
        r@ == normalized_key(raw@),
{
    let key = to_lowercase(trim_str(raw));
    normalize_lowered_key(key)
}

} // verus!
