//! Stratagem input: the scan codes of key names and the key sequence that
//! calls in a stratagem.
//!
//! Sending the keys (with the configured delays) is done by the application.
use vstd::prelude::*;
use crate::text::{lowercase, push_str, str_eq, string_of, string_views, to_lowercase};

verus! {

/// The scan code table: key name, scan code, extended flag.
pub open spec fn scancode_table_spec() -> Seq<(Seq<char>, u16, bool)> {
    seq![
        ("↑"@, 0x48u16, true),
        ("↓"@, 0x50u16, true),
        ("←"@, 0x4Bu16, true),
        ("→"@, 0x4Du16, true),
        ("ctrl"@, 0x1Du16, false),
        ("left ctrl"@, 0x1Du16, false),
        ("lctrl"@, 0x1Du16, false),
        ("right ctrl"@, 0x1Du16, true),
        ("rctrl"@, 0x1Du16, true),
        ("alt"@, 0x38u16, false),
        ("left alt"@, 0x38u16, false),
        ("lalt"@, 0x38u16, false),
        ("right alt"@, 0x38u16, true),
        ("ralt"@, 0x38u16, true),
        ("shift"@, 0x2Au16, false),
        ("left shift"@, 0x2Au16, false),
        ("lshift"@, 0x2Au16, false),
        ("right shift"@, 0x36u16, false),
        ("rshift"@, 0x36u16, false),
        ("esc"@, 0x01u16, false),
        ("escape"@, 0x01u16, false),
        ("up"@, 0x48u16, true),
        ("down"@, 0x50u16, true),
        ("left"@, 0x4Bu16, true),
        ("right"@, 0x4Du16, true),
        ("f1"@, 0x3Bu16, false),
        ("f2"@, 0x3Cu16, false),
        ("f3"@, 0x3Du16, false),
        ("f4"@, 0x3Eu16, false),
        ("f5"@, 0x3Fu16, false),
        ("f6"@, 0x40u16, false),
        ("f7"@, 0x41u16, false),
        ("f8"@, 0x42u16, false),
        ("f9"@, 0x43u16, false),
        ("f10"@, 0x44u16, false),
        ("f11"@, 0x57u16, false),
        ("f12"@, 0x58u16, false),
        ("space"@, 0x39u16, false),
        ("enter"@, 0x1Cu16, false),
        ("tab"@, 0x0Fu16, false),
        ("backspace"@, 0x0Eu16, false),
        ("insert"@, 0x52u16, true),
        ("delete"@, 0x53u16, true),
        ("home"@, 0x47u16, true),
        ("end"@, 0x4Fu16, true),
        ("pageup"@, 0x49u16, true),
        ("pagedown"@, 0x51u16, true),
        ("capslock"@, 0x3Au16, false),
        ("1"@, 0x02u16, false),
        ("2"@, 0x03u16, false),
        ("3"@, 0x04u16, false),
        ("4"@, 0x05u16, false),
        ("5"@, 0x06u16, false),
        ("6"@, 0x07u16, false),
        ("7"@, 0x08u16, false),
        ("8"@, 0x09u16, false),
        ("9"@, 0x0Au16, false),
        ("0"@, 0x0Bu16, false),
        ("q"@, 0x10u16, false),
        ("w"@, 0x11u16, false),
        ("e"@, 0x12u16, false),
        ("r"@, 0x13u16, false),
        ("t"@, 0x14u16, false),
        ("y"@, 0x15u16, false),
        ("u"@, 0x16u16, false),
        ("i"@, 0x17u16, false),
        ("o"@, 0x18u16, false),
        ("p"@, 0x19u16, false),
        ("a"@, 0x1Eu16, false),
        ("s"@, 0x1Fu16, false),
        ("d"@, 0x20u16, false),
        ("f"@, 0x21u16, false),
        ("g"@, 0x22u16, false),
        ("h"@, 0x23u16, false),
        ("j"@, 0x24u16, false),
        ("k"@, 0x25u16, false),
        ("l"@, 0x26u16, false),
        ("z"@, 0x2Cu16, false),
        ("x"@, 0x2Du16, false),
        ("c"@, 0x2Eu16, false),
        ("v"@, 0x2Fu16, false),
        ("b"@, 0x30u16, false),
        ("n"@, 0x31u16, false),
        ("m"@, 0x32u16, false),
    ]
}

/// Scan data of the first table entry named `name`.
pub open spec fn table_lookup(table: Seq<(Seq<char>, u16, bool)>, name: Seq<char>) -> Option<
    (u16, bool),
>
    decreases table.len(),
{
    if table.len() == 0 {
        None
    } else if table[0].0 == name {
        Some((table[0].1, table[0].2))
    } else {
        table_lookup(table.drop_first(), name)
    }
}

/// Views of the exec scan code table.
pub open spec fn table_views(v: Seq<(&str, u16, bool)>) -> Seq<(Seq<char>, u16, bool)> {
    v.map_values(|e: (&str, u16, bool)| (e.0@, e.1, e.2))
}

/// The scan code table.
pub fn scancode_table() -> (r: Vec<(&'static str, u16, bool)>)
    ensures
        table_views(r@) == scancode_table_spec(),
{
    let r = vec![
        ("↑", 0x48u16, true),
        ("↓", 0x50u16, true),
        ("←", 0x4Bu16, true),
        ("→", 0x4Du16, true),
        ("ctrl", 0x1Du16, false),
        ("left ctrl", 0x1Du16, false),
        ("lctrl", 0x1Du16, false),
        ("right ctrl", 0x1Du16, true),
        ("rctrl", 0x1Du16, true),
        ("alt", 0x38u16, false),
        ("left alt", 0x38u16, false),
        ("lalt", 0x38u16, false),
        ("right alt", 0x38u16, true),
        ("ralt", 0x38u16, true),
        ("shift", 0x2Au16, false),
        ("left shift", 0x2Au16, false),
        ("lshift", 0x2Au16, false),
        ("right shift", 0x36u16, false),
        ("rshift", 0x36u16, false),
        ("esc", 0x01u16, false),
        ("escape", 0x01u16, false),
        ("up", 0x48u16, true),
        ("down", 0x50u16, true),
        ("left", 0x4Bu16, true),
        ("right", 0x4Du16, true),
        ("f1", 0x3Bu16, false),
        ("f2", 0x3Cu16, false),
        ("f3", 0x3Du16, false),
        ("f4", 0x3Eu16, false),
        ("f5", 0x3Fu16, false),
        ("f6", 0x40u16, false),
        ("f7", 0x41u16, false),
        ("f8", 0x42u16, false),
        ("f9", 0x43u16, false),
        ("f10", 0x44u16, false),
        ("f11", 0x57u16, false),
        ("f12", 0x58u16, false),
        ("space", 0x39u16, false),
        ("enter", 0x1Cu16, false),
        ("tab", 0x0Fu16, false),
        ("backspace", 0x0Eu16, false),
        ("insert", 0x52u16, true),
        ("delete", 0x53u16, true),
        ("home", 0x47u16, true),
        ("end", 0x4Fu16, true),
        ("pageup", 0x49u16, true),
        ("pagedown", 0x51u16, true),
        ("capslock", 0x3Au16, false),
        ("1", 0x02u16, false),
        ("2", 0x03u16, false),
        ("3", 0x04u16, false),
        ("4", 0x05u16, false),
        ("5", 0x06u16, false),
        ("6", 0x07u16, false),
        ("7", 0x08u16, false),
        ("8", 0x09u16, false),
        ("9", 0x0Au16, false),
        ("0", 0x0Bu16, false),
        ("q", 0x10u16, false),
        ("w", 0x11u16, false),
        ("e", 0x12u16, false),
        ("r", 0x13u16, false),
        ("t", 0x14u16, false),
        ("y", 0x15u16, false),
        ("u", 0x16u16, false),
        ("i", 0x17u16, false),
        ("o", 0x18u16, false),
        ("p", 0x19u16, false),
        ("a", 0x1Eu16, false),
        ("s", 0x1Fu16, false),
        ("d", 0x20u16, false),
        ("f", 0x21u16, false),
        ("g", 0x22u16, false),
        ("h", 0x23u16, false),
        ("j", 0x24u16, false),
        ("k", 0x25u16, false),
        ("l", 0x26u16, false),
        ("z", 0x2Cu16, false),
        ("x", 0x2Du16, false),
        ("c", 0x2Eu16, false),
        ("v", 0x2Fu16, false),
        ("b", 0x30u16, false),
        ("n", 0x31u16, false),
        ("m", 0x32u16, false),
    ];
    assert(table_views(r@) =~= scancode_table_spec());
    r
}

/// Scan data of a key name as written in the table (no case folding).
fn table_scancode(name: &str) -> (r: Option<(u16, bool)>)
    ensures
        r == table_lookup(scancode_table_spec(), name@),
{
    let table = scancode_table();
    let ghost tv = table_views(table@);
    assert(tv.skip(0) =~= tv);
    let mut i: usize = 0;
    while i < table.len()
        invariant
            i <= table@.len(),
            tv == table_views(table@),
            tv == scancode_table_spec(),
            table_lookup(scancode_table_spec(), name@) == table_lookup(tv.skip(i as int), name@),
        decreases table@.len() - i,
    {
        let (key, code, extended) = table[i];
        proof {
            assert(tv.skip(i as int)[0] == (key@, code, extended));
            assert(tv.skip(i as int).drop_first() =~= tv.skip(i + 1));
        }
        if str_eq(key, name) {
            return Some((code, extended));
        }
        i = i + 1;
    }
    None
}

/// Scan data of an already lower-cased key name: looked up in the table;
/// `escape`, `control` and `return` are also understood.
pub open spec fn scancode_of_lowered_spec(low: Seq<char>) -> Option<(u16, bool)> {
    match table_lookup(scancode_table_spec(), low) {
        Some(d) => Some(d),
        None => if low == "escape"@ {
            table_lookup(scancode_table_spec(), "esc"@)
        } else if low == "control"@ {
            table_lookup(scancode_table_spec(), "ctrl"@)
        } else if low == "return"@ {
            table_lookup(scancode_table_spec(), "enter"@)
        } else {
            None
        },
    }
}

/// Scan data of a key name: looked up in lower case.
pub open spec fn scancode_spec(key: Seq<char>) -> Option<(u16, bool)> {
    scancode_of_lowered_spec(lowercase(key))
}

/// Scan data of a key name already in lower case (what follows the
/// lower-casing in `lookup_scancode`).
pub fn scancode_of_lowered(low: &str) -> (r: Option<(u16, bool)>)
    ensures
        r == scancode_of_lowered_spec(low@),
{
    match table_scancode(low) {
        Some(d) => return Some(d),
        None => {},
    }
    if str_eq(low, "escape") {
        table_scancode("esc")
    } else if str_eq(low, "control") {
        table_scancode("ctrl")
    } else if str_eq(low, "return") {
        table_scancode("enter")
    } else {
        None
    }
}

/// The scan code and extended flag of a key name, or the error text
/// `未知按键: {key}`.
pub fn lookup_scancode(key: &str) -> (r: Result<(u16, bool), String>)
    ensures
        match scancode_spec(key@) {
            Some(d) => r == Ok::<(u16, bool), String>(d),
            None => r matches Err(e) && e@ == "未知按键: "@ + key@,
        },
{
    let low = to_lowercase(key);
    match scancode_of_lowered(low.as_str()) {
        Some(d) => Ok(d),
        None => {
            let mut e = String::new();
            push_str(&mut e, "未知按键: ");
            push_str(&mut e, key);
            Err(e)
        },
    }
}

/// One key transition of a stratagem call.
#[derive(Debug, Clone, PartialEq)]
pub enum KeyAction {
    Press(String),
    Release(String),
}

/// The view of a key transition.
pub enum KeyActionView {
    Press(Seq<char>),
    Release(Seq<char>),
}

/// Views of key transitions.
pub open spec fn action_views(v: Seq<KeyAction>) -> Seq<KeyActionView> {
    v.map_values(
        |a: KeyAction|
            match a {
                KeyAction::Press(k) => KeyActionView::Press(k@),
                KeyAction::Release(k) => KeyActionView::Release(k@),
            },
    )
}

/// The key a direction is sent as: its binding if it has one, else itself.
pub open spec fn bound_key(bindings: Seq<(Seq<char>, Seq<char>)>, dir: Seq<char>) -> Seq<char>
    decreases bindings.len(),
{
    if bindings.len() == 0 {
        dir
    } else if bindings[0].0 == dir {
        bindings[0].1
    } else {
        bound_key(bindings.drop_first(), dir)
    }
}

/// Press and release of each direction of `command`, in order.
pub open spec fn direction_actions(
    bindings: Seq<(Seq<char>, Seq<char>)>,
    command: Seq<Seq<char>>,
) -> Seq<KeyActionView>
    decreases command.len(),
{
    if command.len() == 0 {
        Seq::empty()
    } else {
        let k = bound_key(bindings, command.last());
        direction_actions(bindings, command.drop_last()).push(KeyActionView::Press(k)).push(
            KeyActionView::Release(k),
        )
    }
}

/// A stratagem call: hold the activation key, tap each direction (through
/// its binding), release the activation key.
pub open spec fn stratagem_actions_spec(
    activation: Seq<char>,
    bindings: Seq<(Seq<char>, Seq<char>)>,
    command: Seq<Seq<char>>,
) -> Seq<KeyActionView> {
    seq![KeyActionView::Press(activation)] + direction_actions(bindings, command) + seq![
        KeyActionView::Release(activation),
    ]
}

/// Views of binding pairs.
pub open spec fn binding_views(v: Seq<(String, String)>) -> Seq<(Seq<char>, Seq<char>)> {
    v.map_values(|p: (String, String)| (p.0@, p.1@))
}

/// The key a direction is sent as.
fn bound_key_of(bindings: &[(String, String)], dir: &str) -> (r: String)
    ensures
        r@ == bound_key(binding_views(bindings@), dir@),
{
    let ghost bv = binding_views(bindings@);
    assert(bv.skip(0) =~= bv);
    let mut i: usize = 0;
    while i < bindings.len()
        invariant
            i <= bindings@.len(),
            bv == binding_views(bindings@),
            bound_key(bv, dir@) == bound_key(bv.skip(i as int), dir@),
        decreases bindings@.len() - i,
    {
        proof {
            assert(bv.skip(i as int)[0] == (bindings@[i as int].0@, bindings@[i as int].1@));
            assert(bv.skip(i as int).drop_first() =~= bv.skip(i + 1));
        }
        if str_eq(bindings[i].0.as_str(), dir) {
            return bindings[i].1.clone();
        }
        i = i + 1;
    }
    string_of(dir)
}

/// The key transitions that call in a stratagem with `command`.
pub fn stratagem_key_actions(activation: &str, bindings: &[(String, String)], command: &[String]) -> (r: Vec<KeyAction>)
    ensures
        action_views(r@) == stratagem_actions_spec(
            activation@,
            binding_views(bindings@),
            string_views(command@),
        ),
{
    let ghost bv = binding_views(bindings@);
    let ghost cv = string_views(command@);
    let mut out: Vec<KeyAction> = Vec::new();
    out.push(KeyAction::Press(string_of(activation)));
    let mut i: usize = 0;
    while i < command.len()
        invariant
            i <= command@.len(),
            bv == binding_views(bindings@),
            cv == string_views(command@),
            action_views(out@) == seq![KeyActionView::Press(activation@)] + direction_actions(
                bv,
                cv.take(i as int),
            ),
        decreases command@.len() - i,
    {
        let k = bound_key_of(bindings, command[i].as_str());
        let ghost before = out@;
        out.push(KeyAction::Press(k.clone()));
        out.push(KeyAction::Release(k));
        proof {
            assert(cv.take(i + 1).drop_last() =~= cv.take(i as int));
            assert(cv.take(i + 1).last() == command@[i as int]@);
            assert(action_views(out@) =~= action_views(before).push(KeyActionView::Press(k@)).push(
                KeyActionView::Release(k@),
            ));
        }
        i = i + 1;
    }
    let ghost before = out@;
    out.push(KeyAction::Release(string_of(activation)));
    assert(cv.take(cv.len() as int) =~= cv);
    assert(action_views(out@) =~= action_views(before).push(KeyActionView::Release(activation@)));
    out
}

/// The default direction bindings: arrows to WASD.
pub open spec fn default_bindings_spec() -> Seq<(Seq<char>, Seq<char>)> {
    seq![("↑"@, "w"@), ("↓"@, "s"@), ("←"@, "a"@), ("→"@, "d"@)]
}

/// The default direction bindings (arrows to WASD).
pub fn default_key_bindings() -> (r: Vec<(String, String)>)
    ensures
        binding_views(r@) == default_bindings_spec(),
{
    let r = vec![
        (string_of("↑"), string_of("w")),
        (string_of("↓"), string_of("s")),
        (string_of("←"), string_of("a")),
        (string_of("→"), string_of("d")),
    ];
    assert(binding_views(r@) =~= default_bindings_spec());
    r
}

/// The modifiers released for a moment after a call if the user holds them.
pub fn released_modifiers() -> (r: Vec<&'static str>)
    ensures
        r@.len() == 4,
        r@[0]@ == "left shift"@,
        r@[1]@ == "right shift"@,
        r@[2]@ == "left alt"@,
        r@[3]@ == "right alt"@,
{
    vec!["left shift", "right shift", "left alt", "right alt"]
}


/// The Set-1 make code of a lower-case letter key: along the keyboard rows,
/// `q`..`p` from 0x10, `a`..`l` from 0x1E and `z`..`m` from 0x2C.
pub open spec fn set1_letter_code(c: char) -> Option<u16> {
    match c {
        'q' => Some(0x10u16),
        'w' => Some(0x11u16),
        'e' => Some(0x12u16),
        'r' => Some(0x13u16),
        't' => Some(0x14u16),
        'y' => Some(0x15u16),
        'u' => Some(0x16u16),
        'i' => Some(0x17u16),
        'o' => Some(0x18u16),
        'p' => Some(0x19u16),
        'a' => Some(0x1Eu16),
        's' => Some(0x1Fu16),
        'd' => Some(0x20u16),
        'f' => Some(0x21u16),
        'g' => Some(0x22u16),
        'h' => Some(0x23u16),
        'j' => Some(0x24u16),
        'k' => Some(0x25u16),
        'l' => Some(0x26u16),
        'z' => Some(0x2Cu16),
        'x' => Some(0x2Du16),
        'c' => Some(0x2Eu16),
        'v' => Some(0x2Fu16),
        'b' => Some(0x30u16),
        'n' => Some(0x31u16),
        'm' => Some(0x32u16),
        _ => None,
    }
}

/// Where the table holds entry `name`, the lookup finds an entry of that
/// name; and it finds one whenever there is one.
proof fn lemma_lookup_finds(t: Seq<(Seq<char>, u16, bool)>, name: Seq<char>)
    ensures
        table_lookup(t, name) matches Some(d) ==> exists|j: int|
            0 <= j < t.len() && (#[trigger] t[j]).0 == name && d == (t[j].1, t[j].2),
        (exists|j: int| 0 <= j < t.len() && (#[trigger] t[j]).0 == name) ==> table_lookup(t, name) is Some,
    decreases t.len(),
{
    if t.len() > 0 {
        let u = t.drop_first();
        lemma_lookup_finds(u, name);
        if t[0].0 != name {
            if table_lookup(t, name) is Some {
                let j = choose|j: int| 0 <= j < u.len() && (#[trigger] u[j]).0 == name && table_lookup(u, name)->0 == (u[j].1, u[j].2);
                assert(t[j + 1] == u[j]);
            }
            if exists|j: int| 0 <= j < t.len() && (#[trigger] t[j]).0 == name {
                let j = choose|j: int| 0 <= j < t.len() && (#[trigger] t[j]).0 == name;
                assert(j != 0);
                assert(u[j - 1] == t[j]);
            }
        } else {
            assert(t[0].0 == name);
        }
    }
}

proof fn lemma_letter_entries_low()
    ensures
        forall|j: int|
            0 <= j < 42 && (#[trigger] scancode_table_spec()[j]).0.len() == 1 && set1_letter_code(
                scancode_table_spec()[j].0[0],
            ) is Some ==> scancode_table_spec()[j].1 == set1_letter_code(scancode_table_spec()[j].0[0])->0
                && !scancode_table_spec()[j].2,
{
    reveal_strlit("↑");
    reveal_strlit("↓");
    reveal_strlit("←");
    reveal_strlit("→");
    reveal_strlit("ctrl");
    reveal_strlit("left ctrl");
    reveal_strlit("lctrl");
    reveal_strlit("right ctrl");
    reveal_strlit("rctrl");
    reveal_strlit("alt");
    reveal_strlit("left alt");
    reveal_strlit("lalt");
    reveal_strlit("right alt");
    reveal_strlit("ralt");
    reveal_strlit("shift");
    reveal_strlit("left shift");
    reveal_strlit("lshift");
    reveal_strlit("right shift");
    reveal_strlit("rshift");
    reveal_strlit("esc");
    reveal_strlit("escape");
    reveal_strlit("up");
    reveal_strlit("down");
    reveal_strlit("left");
    reveal_strlit("right");
    reveal_strlit("f1");
    reveal_strlit("f2");
    reveal_strlit("f3");
    reveal_strlit("f4");
    reveal_strlit("f5");
    reveal_strlit("f6");
    reveal_strlit("f7");
    reveal_strlit("f8");
    reveal_strlit("f9");
    reveal_strlit("f10");
    reveal_strlit("f11");
    reveal_strlit("f12");
    reveal_strlit("space");
    reveal_strlit("enter");
    reveal_strlit("tab");
    reveal_strlit("backspace");
    reveal_strlit("insert");
    reveal_strlit("delete");
    reveal_strlit("home");
    reveal_strlit("end");
    reveal_strlit("pageup");
    reveal_strlit("pagedown");
    reveal_strlit("capslock");
    reveal_strlit("1");
    reveal_strlit("2");
    reveal_strlit("3");
    reveal_strlit("4");
    reveal_strlit("5");
    reveal_strlit("6");
    reveal_strlit("7");
    reveal_strlit("8");
    reveal_strlit("9");
    reveal_strlit("0");
    reveal_strlit("q");
    reveal_strlit("w");
    reveal_strlit("e");
    reveal_strlit("r");
    reveal_strlit("t");
    reveal_strlit("y");
    reveal_strlit("u");
    reveal_strlit("i");
    reveal_strlit("o");
    reveal_strlit("p");
    reveal_strlit("a");
    reveal_strlit("s");
    reveal_strlit("d");
    reveal_strlit("f");
    reveal_strlit("g");
    reveal_strlit("h");
    reveal_strlit("j");
    reveal_strlit("k");
    reveal_strlit("l");
    reveal_strlit("z");
    reveal_strlit("x");
    reveal_strlit("c");
    reveal_strlit("v");
    reveal_strlit("b");
    reveal_strlit("n");
    reveal_strlit("m");
    let t = scancode_table_spec();
    assert forall|j: int|
        0 <= j < 42 && (#[trigger] t[j]).0.len() == 1 && set1_letter_code(t[j].0[0]) is Some implies t[j].1
            == set1_letter_code(t[j].0[0])->0 && !t[j].2 by {
        if j == 0 {
        } else if j == 1 {
        } else if j == 2 {
        } else if j == 3 {
        } else if j == 4 {
        } else if j == 5 {
        } else if j == 6 {
        } else if j == 7 {
        } else if j == 8 {
        } else if j == 9 {
        } else if j == 10 {
        } else if j == 11 {
        } else if j == 12 {
        } else if j == 13 {
        } else if j == 14 {
        } else if j == 15 {
        } else if j == 16 {
        } else if j == 17 {
        } else if j == 18 {
        } else if j == 19 {
        } else if j == 20 {
        } else if j == 21 {
        } else if j == 22 {
        } else if j == 23 {
        } else if j == 24 {
        } else if j == 25 {
        } else if j == 26 {
        } else if j == 27 {
        } else if j == 28 {
        } else if j == 29 {
        } else if j == 30 {
        } else if j == 31 {
        } else if j == 32 {
        } else if j == 33 {
        } else if j == 34 {
        } else if j == 35 {
        } else if j == 36 {
        } else if j == 37 {
        } else if j == 38 {
        } else if j == 39 {
        } else if j == 40 {
        } else if j == 41 {
        }
    }
}


proof fn lemma_letter_entries_high()
    ensures
        forall|j: int|
            42 <= j < 84 && (#[trigger] scancode_table_spec()[j]).0.len() == 1 && set1_letter_code(
                scancode_table_spec()[j].0[0],
            ) is Some ==> scancode_table_spec()[j].1 == set1_letter_code(scancode_table_spec()[j].0[0])->0
                && !scancode_table_spec()[j].2,
{
    reveal_strlit("↑");
    reveal_strlit("↓");
    reveal_strlit("←");
    reveal_strlit("→");
    reveal_strlit("ctrl");
    reveal_strlit("left ctrl");
    reveal_strlit("lctrl");
    reveal_strlit("right ctrl");
    reveal_strlit("rctrl");
    reveal_strlit("alt");
    reveal_strlit("left alt");
    reveal_strlit("lalt");
    reveal_strlit("right alt");
    reveal_strlit("ralt");
    reveal_strlit("shift");
    reveal_strlit("left shift");
    reveal_strlit("lshift");
    reveal_strlit("right shift");
    reveal_strlit("rshift");
    reveal_strlit("esc");
    reveal_strlit("escape");
    reveal_strlit("up");
    reveal_strlit("down");
    reveal_strlit("left");
    reveal_strlit("right");
    reveal_strlit("f1");
    reveal_strlit("f2");
    reveal_strlit("f3");
    reveal_strlit("f4");
    reveal_strlit("f5");
    reveal_strlit("f6");
    reveal_strlit("f7");
    reveal_strlit("f8");
    reveal_strlit("f9");
    reveal_strlit("f10");
    reveal_strlit("f11");
    reveal_strlit("f12");
    reveal_strlit("space");
    reveal_strlit("enter");
    reveal_strlit("tab");
    reveal_strlit("backspace");
    reveal_strlit("insert");
    reveal_strlit("delete");
    reveal_strlit("home");
    reveal_strlit("end");
    reveal_strlit("pageup");
    reveal_strlit("pagedown");
    reveal_strlit("capslock");
    reveal_strlit("1");
    reveal_strlit("2");
    reveal_strlit("3");
    reveal_strlit("4");
    reveal_strlit("5");
    reveal_strlit("6");
    reveal_strlit("7");
    reveal_strlit("8");
    reveal_strlit("9");
    reveal_strlit("0");
    reveal_strlit("q");
    reveal_strlit("w");
    reveal_strlit("e");
    reveal_strlit("r");
    reveal_strlit("t");
    reveal_strlit("y");
    reveal_strlit("u");
    reveal_strlit("i");
    reveal_strlit("o");
    reveal_strlit("p");
    reveal_strlit("a");
    reveal_strlit("s");
    reveal_strlit("d");
    reveal_strlit("f");
    reveal_strlit("g");
    reveal_strlit("h");
    reveal_strlit("j");
    reveal_strlit("k");
    reveal_strlit("l");
    reveal_strlit("z");
    reveal_strlit("x");
    reveal_strlit("c");
    reveal_strlit("v");
    reveal_strlit("b");
    reveal_strlit("n");
    reveal_strlit("m");
    let t = scancode_table_spec();
    assert forall|j: int|
        42 <= j < 84 && (#[trigger] t[j]).0.len() == 1 && set1_letter_code(t[j].0[0]) is Some implies t[j].1
            == set1_letter_code(t[j].0[0])->0 && !t[j].2 by {
        if j == 42 {
        } else if j == 43 {
        } else if j == 44 {
        } else if j == 45 {
        } else if j == 46 {
        } else if j == 47 {
        } else if j == 48 {
        } else if j == 49 {
        } else if j == 50 {
        } else if j == 51 {
        } else if j == 52 {
        } else if j == 53 {
        } else if j == 54 {
        } else if j == 55 {
        } else if j == 56 {
        } else if j == 57 {
        } else if j == 58 {
        } else if j == 59 {
        } else if j == 60 {
        } else if j == 61 {
        } else if j == 62 {
        } else if j == 63 {
        } else if j == 64 {
        } else if j == 65 {
        } else if j == 66 {
        } else if j == 67 {
        } else if j == 68 {
        } else if j == 69 {
        } else if j == 70 {
        } else if j == 71 {
        } else if j == 72 {
        } else if j == 73 {
        } else if j == 74 {
        } else if j == 75 {
        } else if j == 76 {
        } else if j == 77 {
        } else if j == 78 {
        } else if j == 79 {
        } else if j == 80 {
        } else if j == 81 {
        } else if j == 82 {
        } else if j == 83 {
        }
    }
}

proof fn lemma_letter_present(c: char)
    requires
        set1_letter_code(c) is Some,
    ensures
        exists|j: int| 0 <= j < scancode_table_spec().len() && (#[trigger] scancode_table_spec()[j]).0 == seq![c],
{
    reveal_strlit("↑");
    reveal_strlit("↓");
    reveal_strlit("←");
    reveal_strlit("→");
    reveal_strlit("ctrl");
    reveal_strlit("left ctrl");
    reveal_strlit("lctrl");
    reveal_strlit("right ctrl");
    reveal_strlit("rctrl");
    reveal_strlit("alt");
    reveal_strlit("left alt");
    reveal_strlit("lalt");
    reveal_strlit("right alt");
    reveal_strlit("ralt");
    reveal_strlit("shift");
    reveal_strlit("left shift");
    reveal_strlit("lshift");
    reveal_strlit("right shift");
    reveal_strlit("rshift");
    reveal_strlit("esc");
    reveal_strlit("escape");
    reveal_strlit("up");
    reveal_strlit("down");
    reveal_strlit("left");
    reveal_strlit("right");
    reveal_strlit("f1");
    reveal_strlit("f2");
    reveal_strlit("f3");
    reveal_strlit("f4");
    reveal_strlit("f5");
    reveal_strlit("f6");
    reveal_strlit("f7");
    reveal_strlit("f8");
    reveal_strlit("f9");
    reveal_strlit("f10");
    reveal_strlit("f11");
    reveal_strlit("f12");
    reveal_strlit("space");
    reveal_strlit("enter");
    reveal_strlit("tab");
    reveal_strlit("backspace");
    reveal_strlit("insert");
    reveal_strlit("delete");
    reveal_strlit("home");
    reveal_strlit("end");
    reveal_strlit("pageup");
    reveal_strlit("pagedown");
    reveal_strlit("capslock");
    reveal_strlit("1");
    reveal_strlit("2");
    reveal_strlit("3");
    reveal_strlit("4");
    reveal_strlit("5");
    reveal_strlit("6");
    reveal_strlit("7");
    reveal_strlit("8");
    reveal_strlit("9");
    reveal_strlit("0");
    reveal_strlit("q");
    reveal_strlit("w");
    reveal_strlit("e");
    reveal_strlit("r");
    reveal_strlit("t");
    reveal_strlit("y");
    reveal_strlit("u");
    reveal_strlit("i");
    reveal_strlit("o");
    reveal_strlit("p");
    reveal_strlit("a");
    reveal_strlit("s");
    reveal_strlit("d");
    reveal_strlit("f");
    reveal_strlit("g");
    reveal_strlit("h");
    reveal_strlit("j");
    reveal_strlit("k");
    reveal_strlit("l");
    reveal_strlit("z");
    reveal_strlit("x");
    reveal_strlit("c");
    reveal_strlit("v");
    reveal_strlit("b");
    reveal_strlit("n");
    reveal_strlit("m");
    let t = scancode_table_spec();
    if c == 'q' {
        assert(t[58].0 =~= seq!['q']);
    } else if c == 'w' {
        assert(t[59].0 =~= seq!['w']);
    } else if c == 'e' {
        assert(t[60].0 =~= seq!['e']);
    } else if c == 'r' {
        assert(t[61].0 =~= seq!['r']);
    } else if c == 't' {
        assert(t[62].0 =~= seq!['t']);
    } else if c == 'y' {
        assert(t[63].0 =~= seq!['y']);
    } else if c == 'u' {
        assert(t[64].0 =~= seq!['u']);
    } else if c == 'i' {
        assert(t[65].0 =~= seq!['i']);
    } else if c == 'o' {
        assert(t[66].0 =~= seq!['o']);
    } else if c == 'p' {
        assert(t[67].0 =~= seq!['p']);
    } else if c == 'a' {
        assert(t[68].0 =~= seq!['a']);
    } else if c == 's' {
        assert(t[69].0 =~= seq!['s']);
    } else if c == 'd' {
        assert(t[70].0 =~= seq!['d']);
    } else if c == 'f' {
        assert(t[71].0 =~= seq!['f']);
    } else if c == 'g' {
        assert(t[72].0 =~= seq!['g']);
    } else if c == 'h' {
        assert(t[73].0 =~= seq!['h']);
    } else if c == 'j' {
        assert(t[74].0 =~= seq!['j']);
    } else if c == 'k' {
        assert(t[75].0 =~= seq!['k']);
    } else if c == 'l' {
        assert(t[76].0 =~= seq!['l']);
    } else if c == 'z' {
        assert(t[77].0 =~= seq!['z']);
    } else if c == 'x' {
        assert(t[78].0 =~= seq!['x']);
    } else if c == 'c' {
        assert(t[79].0 =~= seq!['c']);
    } else if c == 'v' {
        assert(t[80].0 =~= seq!['v']);
    } else if c == 'b' {
        assert(t[81].0 =~= seq!['b']);
    } else if c == 'n' {
        assert(t[82].0 =~= seq!['n']);
    } else if c == 'm' {
        assert(t[83].0 =~= seq!['m']);
    }
}

/// Law: the scan code of every letter key is its Set-1 make code, not
/// extended; so the letters run along the keyboard rows and no two letters
/// share a code.
pub proof fn lemma_letter_scancodes(c: char)
    ensures
        set1_letter_code(c) matches Some(code) ==> scancode_of_lowered_spec(seq![c]) == Some((code, false)),
{
    if set1_letter_code(c) is Some {
        let t = scancode_table_spec();
        let name = seq![c];
        lemma_letter_present(c);
        lemma_lookup_finds(t, name);
        lemma_letter_entries_low();
        lemma_letter_entries_high();
        let d = table_lookup(t, name)->0;
        let j = choose|j: int| 0 <= j < t.len() && (#[trigger] t[j]).0 == name && d == (t[j].1, t[j].2);
        assert(t[j].0.len() == 1 && t[j].0[0] == c);
    }
}

/// Law: two different letter keys never get the same scan code.
pub proof fn lemma_letter_scancodes_distinct(a: char, b: char)
    requires
        set1_letter_code(a) is Some,
        set1_letter_code(b) is Some,
        a != b,
    ensures
        scancode_of_lowered_spec(seq![a]) != scancode_of_lowered_spec(seq![b]),
{
    lemma_letter_scancodes(a);
    lemma_letter_scancodes(b);
}

} // verus!
