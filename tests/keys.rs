use avatar_plugin::keys::{contains_text, key_code_for_name, parse_decimal_u32, same_text};

#[test]
fn key_table_matches_linux_codes() {
    let table: [(&str, u32); 51] = [
        ("escape", 1), ("1", 2), ("2", 3), ("3", 4), ("4", 5), ("5", 6), ("6", 7), ("7", 8),
        ("8", 9), ("9", 10), ("0", 11), ("backspace", 14), ("tab", 15), ("q", 16), ("w", 17),
        ("e", 18), ("r", 19), ("t", 20), ("y", 21), ("u", 22), ("i", 23), ("o", 24), ("p", 25),
        ("enter", 28), ("lctrl", 29), ("a", 30), ("s", 31), ("d", 32), ("f", 33), ("g", 34),
        ("h", 35), ("j", 36), ("k", 37), ("l", 38), ("lshift", 42), ("z", 44), ("x", 45),
        ("c", 46), ("v", 47), ("b", 48), ("n", 49), ("m", 50), ("rshift", 54), ("lalt", 56),
        ("space", 57), ("rctrl", 97), ("ralt", 100), ("up", 103), ("left", 105), ("right", 106),
        ("down", 108),
    ];
    for (name, code) in table.iter() {
        assert_eq!(key_code_for_name(name), Some(*code), "{}", name);
    }
}

#[test]
fn numeric_names_are_codes() {
    assert_eq!(key_code_for_name("30"), Some(30));
    assert_eq!(key_code_for_name("+7"), Some(7));
    assert_eq!(key_code_for_name("4294967295"), Some(u32::MAX));
    assert_eq!(key_code_for_name("4294967296"), None);
    assert_eq!(key_code_for_name("A"), None);
    assert_eq!(key_code_for_name("f1"), None);
    assert_eq!(key_code_for_name(""), None);
}

#[test]
fn decimal_parsing_follows_std() {
    for s in ["0", "007", "+12", "+", "-1", "1a", "", "99999999999", "4294967295", " 1"] {
        assert_eq!(parse_decimal_u32(s), s.parse::<u32>().ok(), "{:?}", s);
    }
}

#[test]
fn text_helpers() {
    assert!(same_text("abc", "abc"));
    assert!(!same_text("abc", "abd"));
    assert!(!same_text("ab", "abc"));
    assert!(contains_text("x/righthand/y", "righthand"));
    assert!(!contains_text("right", "righthand"));
    assert!(contains_text("", ""));
    assert!(contains_text("é-lefthand", "lefthand"));
}
