use nova_wayland::keymap::{keycode, keysym};

const KEYS: &[(&str, u16)] = &[
    ("escape", 1), ("1", 2), ("2", 3), ("3", 4), ("4", 5), ("5", 6), ("6", 7), ("7", 8), ("8", 9),
    ("9", 10), ("0", 11), ("minus", 12), ("equal", 13), ("backspace", 14), ("tab", 15), ("q", 16),
    ("w", 17), ("e", 18), ("r", 19), ("t", 20), ("y", 21), ("u", 22), ("i", 23), ("o", 24),
    ("p", 25), ("bracketleft", 26), ("bracketright", 27), ("return", 28), ("ctrl", 29), ("a", 30),
    ("s", 31), ("d", 32), ("f", 33), ("g", 34), ("h", 35), ("j", 36), ("k", 37), ("l", 38),
    ("semicolon", 39), ("apostrophe", 40), ("grave", 41), ("shift", 42), ("backslash", 43),
    ("z", 44), ("x", 45), ("c", 46), ("v", 47), ("b", 48), ("n", 49), ("m", 50), ("comma", 51),
    ("period", 52), ("slash", 53), ("alt", 56), ("space", 57), ("capslock", 58), ("f1", 59),
    ("f2", 60), ("f3", 61), ("f4", 62), ("f5", 63), ("f6", 64), ("f7", 65), ("f8", 66), ("f9", 67),
    ("f10", 68), ("f11", 87), ("f12", 88), ("home", 102), ("up", 103), ("prior", 104),
    ("left", 105), ("right", 106), ("end", 107), ("down", 108), ("next", 109), ("insert", 110),
    ("delete", 111), ("super", 125), ("Escape", 0), ("", 0), ("ctrl ", 0), ("f13", 0),
];

#[test]
fn keys_have_their_codes() {
    for (name, code) in KEYS {
        let wanted = if *code == 0 { None } else { Some(*code) };
        assert_eq!(keycode(name), wanted, "{name}");
    }
}

#[test]
fn codes_are_distinct() {
    let mut codes: Vec<u16> = KEYS.iter().filter_map(|(name, _)| keycode(name)).collect();
    let all = codes.len();
    codes.sort();
    codes.dedup();
    assert_eq!(codes.len(), all);
    assert_eq!(all, 79);
}

#[test]
fn keys_have_their_keysyms() {
    for (name, symbol) in [
        ("return", "Return"), ("escape", "Escape"), ("tab", "Tab"), ("space", "space"),
        ("backspace", "BackSpace"), ("delete", "Delete"), ("insert", "Insert"), ("home", "Home"),
        ("end", "End"), ("prior", "Prior"), ("next", "Next"), ("up", "Up"), ("down", "Down"),
        ("left", "Left"), ("right", "Right"), ("a", "a"), ("f1", "f1"), ("", ""), ("é", "é"),
    ] {
        assert_eq!(keysym(name), symbol);
    }
}

#[test]
fn named_keysyms_belong_to_keys_with_codes() {
    for (name, _) in KEYS {
        if keysym(name) != *name {
            assert!(keycode(name).is_some());
        }
    }
}
