use h2ac_rs::hotkey::{normalize_key_name, normalize_lowered_key, vk_to_name};

#[test]
fn vk_names_digits_letters_and_fkeys() {
    assert_eq!(vk_to_name(0x30), "0");
    assert_eq!(vk_to_name(0x39), "9");
    assert_eq!(vk_to_name(0x41), "a");
    assert_eq!(vk_to_name(0x5A), "z");
    assert_eq!(vk_to_name(0x70), "f1");
    assert_eq!(vk_to_name(0x7B), "f12");
    assert_eq!(vk_to_name(0x7C), "f13");
    assert_eq!(vk_to_name(0x87), "f24");
    assert_eq!(vk_to_name(0x20), "space");
    assert_eq!(vk_to_name(0x1B), "esc");
    assert_eq!(vk_to_name(0x60), "numpad0");
    assert_eq!(vk_to_name(0x25), "left");
    assert_eq!(vk_to_name(0x26), "up");
    assert_eq!(vk_to_name(0x27), "right");
    assert_eq!(vk_to_name(0x28), "down");
    assert_eq!(vk_to_name(0x2D), "insert");
    assert_eq!(vk_to_name(0x2E), "delete");
    assert_eq!(vk_to_name(0x21), "pageup");
    assert_eq!(vk_to_name(0x22), "pagedown");
}

#[test]
fn vk_names_punctuation_base_symbols() {
    assert_eq!(vk_to_name(0xBC), ",");
    assert_eq!(vk_to_name(0xBE), ".");
    assert_eq!(vk_to_name(0xBF), "/");
    assert_eq!(vk_to_name(0xBA), ";");
    assert_eq!(vk_to_name(0xBB), "=");
    assert_eq!(vk_to_name(0xBD), "-");
    assert_eq!(vk_to_name(0xC0), "`");
    assert_eq!(vk_to_name(0xDB), "[");
    assert_eq!(vk_to_name(0xDC), "\\");
    assert_eq!(vk_to_name(0xDD), "]");
    assert_eq!(vk_to_name(0xDE), "'");
    assert_eq!(vk_to_name(0x6F), "/");
}

#[test]
fn normalize_key_name_aliases() {
    assert_eq!(normalize_key_name("Comma"), ",");
    assert_eq!(normalize_key_name("Period"), ".");
    assert_eq!(normalize_key_name("slash"), "/");
    assert_eq!(normalize_key_name("semicolon"), ";");
    assert_eq!(normalize_key_name("F8"), "f8");
}

#[test]
fn vk_names_unknown_falls_back() {
    assert_eq!(vk_to_name(0x1234), "vk(4660)");
}

#[test]
fn normalize_trims_and_lowercases() {
    assert_eq!(normalize_key_name("  Ctrl+Shift+F9 "), "ctrl+shift+f9");
    assert_eq!(normalize_key_name(""), "");
}

#[test]
fn lowered_key_names_turn_punctuation_words_into_symbols() {
    assert_eq!(normalize_lowered_key("comma".to_string()), ",");
    assert_eq!(normalize_lowered_key("slash".to_string()), "/");
    assert_eq!(normalize_lowered_key("f5".to_string()), "f5");
    assert_eq!(normalize_lowered_key("Comma".to_string()), "Comma");
    assert_eq!(normalize_key_name("  Comma "), ",");
}
