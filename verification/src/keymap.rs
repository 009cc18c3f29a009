//! Key names, and what the input tools call the keys.
use crate::text::same_text;
use vstd::prelude::*;

verus! {

/// The Linux input-event code of a key (`linux/input-event-codes.h`).
pub open spec fn code_of(name: Seq<char>) -> Option<u16> {
    if name == "escape"@ {
        Some(1u16)
    } else if name == "1"@ {
        Some(2u16)
    } else if name == "2"@ {
        Some(3u16)
    } else if name == "3"@ {
        Some(4u16)
    } else if name == "4"@ {
        Some(5u16)
    } else if name == "5"@ {
        Some(6u16)
    } else if name == "6"@ {
        Some(7u16)
    } else if name == "7"@ {
        Some(8u16)
    } else if name == "8"@ {
        Some(9u16)
    } else if name == "9"@ {
        Some(10u16)
    } else if name == "0"@ {
        Some(11u16)
    } else if name == "minus"@ {
        Some(12u16)
    } else if name == "equal"@ {
        Some(13u16)
    } else if name == "backspace"@ {
        Some(14u16)
    } else if name == "tab"@ {
        Some(15u16)
    } else if name == "q"@ {
        Some(16u16)
    } else if name == "w"@ {
        Some(17u16)
    } else if name == "e"@ {
        Some(18u16)
    } else if name == "r"@ {
        Some(19u16)
    } else if name == "t"@ {
        Some(20u16)
    } else if name == "y"@ {
        Some(21u16)
    } else if name == "u"@ {
        Some(22u16)
    } else if name == "i"@ {
        Some(23u16)
    } else if name == "o"@ {
        Some(24u16)
    } else if name == "p"@ {
        Some(25u16)
    } else if name == "bracketleft"@ {
        Some(26u16)
    } else if name == "bracketright"@ {
        Some(27u16)
    } else if name == "return"@ {
        Some(28u16)
    } else if name == "ctrl"@ {
        Some(29u16)
    } else if name == "a"@ {
        Some(30u16)
    } else if name == "s"@ {
        Some(31u16)
    } else if name == "d"@ {
        Some(32u16)
    } else if name == "f"@ {
        Some(33u16)
    } else if name == "g"@ {
        Some(34u16)
    } else if name == "h"@ {
        Some(35u16)
    } else if name == "j"@ {
        Some(36u16)
    } else if name == "k"@ {
        Some(37u16)
    } else if name == "l"@ {
        Some(38u16)
    } else if name == "semicolon"@ {
        Some(39u16)
    } else if name == "apostrophe"@ {
        Some(40u16)
    } else if name == "grave"@ {
        Some(41u16)
    } else if name == "shift"@ {
        Some(42u16)
    } else if name == "backslash"@ {
        Some(43u16)
    } else if name == "z"@ {
        Some(44u16)
    } else if name == "x"@ {
        Some(45u16)
    } else if name == "c"@ {
        Some(46u16)
    } else if name == "v"@ {
        Some(47u16)
    } else if name == "b"@ {
        Some(48u16)
    } else if name == "n"@ {
        Some(49u16)
    } else if name == "m"@ {
        Some(50u16)
    } else if name == "comma"@ {
        Some(51u16)
    } else if name == "period"@ {
        Some(52u16)
    } else if name == "slash"@ {
        Some(53u16)
    } else if name == "alt"@ {
        Some(56u16)
    } else if name == "space"@ {
        Some(57u16)
    } else if name == "capslock"@ {
        Some(58u16)
    } else if name == "f1"@ {
        Some(59u16)
    } else if name == "f2"@ {
        Some(60u16)
    } else if name == "f3"@ {
        Some(61u16)
    } else if name == "f4"@ {
        Some(62u16)
    } else if name == "f5"@ {
        Some(63u16)
    } else if name == "f6"@ {
        Some(64u16)
    } else if name == "f7"@ {
        Some(65u16)
    } else if name == "f8"@ {
        Some(66u16)
    } else if name == "f9"@ {
        Some(67u16)
    } else if name == "f10"@ {
        Some(68u16)
    } else if name == "f11"@ {
        Some(87u16)
    } else if name == "f12"@ {
        Some(88u16)
    } else if name == "home"@ {
        Some(102u16)
    } else if name == "up"@ {
        Some(103u16)
    } else if name == "prior"@ {
        Some(104u16)
    } else if name == "left"@ {
        Some(105u16)
    } else if name == "right"@ {
        Some(106u16)
    } else if name == "end"@ {
        Some(107u16)
    } else if name == "down"@ {
        Some(108u16)
    } else if name == "next"@ {
        Some(109u16)
    } else if name == "insert"@ {
        Some(110u16)
    } else if name == "delete"@ {
        Some(111u16)
    } else if name == "super"@ {
        Some(125u16)
    } else {
        None
    }
}

/// The name of the key that has a Linux input-event code.
pub open spec fn name_of(code: u16) -> Option<Seq<char>> {
    if code == 1 {
        Some("escape"@)
    } else if code == 2 {
        Some("1"@)
    } else if code == 3 {
        Some("2"@)
    } else if code == 4 {
        Some("3"@)
    } else if code == 5 {
        Some("4"@)
    } else if code == 6 {
        Some("5"@)
    } else if code == 7 {
        Some("6"@)
    } else if code == 8 {
        Some("7"@)
    } else if code == 9 {
        Some("8"@)
    } else if code == 10 {
        Some("9"@)
    } else if code == 11 {
        Some("0"@)
    } else if code == 12 {
        Some("minus"@)
    } else if code == 13 {
        Some("equal"@)
    } else if code == 14 {
        Some("backspace"@)
    } else if code == 15 {
        Some("tab"@)
    } else if code == 16 {
        Some("q"@)
    } else if code == 17 {
        Some("w"@)
    } else if code == 18 {
        Some("e"@)
    } else if code == 19 {
        Some("r"@)
    } else if code == 20 {
        Some("t"@)
    } else if code == 21 {
        Some("y"@)
    } else if code == 22 {
        Some("u"@)
    } else if code == 23 {
        Some("i"@)
    } else if code == 24 {
        Some("o"@)
    } else if code == 25 {
        Some("p"@)
    } else if code == 26 {
        Some("bracketleft"@)
    } else if code == 27 {
        Some("bracketright"@)
    } else if code == 28 {
        Some("return"@)
    } else if code == 29 {
        Some("ctrl"@)
    } else if code == 30 {
        Some("a"@)
    } else if code == 31 {
        Some("s"@)
    } else if code == 32 {
        Some("d"@)
    } else if code == 33 {
        Some("f"@)
    } else if code == 34 {
        Some("g"@)
    } else if code == 35 {
        Some("h"@)
    } else if code == 36 {
        Some("j"@)
    } else if code == 37 {
        Some("k"@)
    } else if code == 38 {
        Some("l"@)
    } else if code == 39 {
        Some("semicolon"@)
    } else if code == 40 {
        Some("apostrophe"@)
    } else if code == 41 {
        Some("grave"@)
    } else if code == 42 {
        Some("shift"@)
    } else if code == 43 {
        Some("backslash"@)
    } else if code == 44 {
        Some("z"@)
    } else if code == 45 {
        Some("x"@)
    } else if code == 46 {
        Some("c"@)
    } else if code == 47 {
        Some("v"@)
    } else if code == 48 {
        Some("b"@)
    } else if code == 49 {
        Some("n"@)
    } else if code == 50 {
        Some("m"@)
    } else if code == 51 {
        Some("comma"@)
    } else if code == 52 {
        Some("period"@)
    } else if code == 53 {
        Some("slash"@)
    } else if code == 56 {
        Some("alt"@)
    } else if code == 57 {
        Some("space"@)
    } else if code == 58 {
        Some("capslock"@)
    } else if code == 59 {
        Some("f1"@)
    } else if code == 60 {
        Some("f2"@)
    } else if code == 61 {
        Some("f3"@)
    } else if code == 62 {
        Some("f4"@)
    } else if code == 63 {
        Some("f5"@)
    } else if code == 64 {
        Some("f6"@)
    } else if code == 65 {
        Some("f7"@)
    } else if code == 66 {
        Some("f8"@)
    } else if code == 67 {
        Some("f9"@)
    } else if code == 68 {
        Some("f10"@)
    } else if code == 87 {
        Some("f11"@)
    } else if code == 88 {
        Some("f12"@)
    } else if code == 102 {
        Some("home"@)
    } else if code == 103 {
        Some("up"@)
    } else if code == 104 {
        Some("prior"@)
    } else if code == 105 {
        Some("left"@)
    } else if code == 106 {
        Some("right"@)
    } else if code == 107 {
        Some("end"@)
    } else if code == 108 {
        Some("down"@)
    } else if code == 109 {
        Some("next"@)
    } else if code == 110 {
        Some("insert"@)
    } else if code == 111 {
        Some("delete"@)
    } else if code == 125 {
        Some("super"@)
    } else {
        None
    }
}

/// The xkb keysym of a key. A key that is not listed has its own name as its keysym.
pub open spec fn keysym_of(name: Seq<char>) -> Seq<char> {
    if name == "return"@ {
        "Return"@
    } else if name == "escape"@ {
        "Escape"@
    } else if name == "tab"@ {
        "Tab"@
    } else if name == "space"@ {
        "space"@
    } else if name == "backspace"@ {
        "BackSpace"@
    } else if name == "delete"@ {
        "Delete"@
    } else if name == "insert"@ {
        "Insert"@
    } else if name == "home"@ {
        "Home"@
    } else if name == "end"@ {
        "End"@
    } else if name == "prior"@ {
        "Prior"@
    } else if name == "next"@ {
        "Next"@
    } else if name == "up"@ {
        "Up"@
    } else if name == "down"@ {
        "Down"@
    } else if name == "left"@ {
        "Left"@
    } else if name == "right"@ {
        "Right"@
    } else {
        name
    }
}

/// Linux input-event codes (`linux/input-event-codes.h`), which is what ydotool wants.
pub fn keycode(name: &str) -> (code: Option<u16>)
    ensures
        code == code_of(name@),
{
    if same_text(name, "escape") {
        Some(1)
    } else if same_text(name, "1") {
        Some(2)
    } else if same_text(name, "2") {
        Some(3)
    } else if same_text(name, "3") {
        Some(4)
    } else if same_text(name, "4") {
        Some(5)
    } else if same_text(name, "5") {
        Some(6)
    } else if same_text(name, "6") {
        Some(7)
    } else if same_text(name, "7") {
        Some(8)
    } else if same_text(name, "8") {
        Some(9)
    } else if same_text(name, "9") {
        Some(10)
    } else if same_text(name, "0") {
        Some(11)
    } else if same_text(name, "minus") {
        Some(12)
    } else if same_text(name, "equal") {
        Some(13)
    } else if same_text(name, "backspace") {
        Some(14)
    } else if same_text(name, "tab") {
        Some(15)
    } else if same_text(name, "q") {
        Some(16)
    } else if same_text(name, "w") {
        Some(17)
    } else if same_text(name, "e") {
        Some(18)
    } else if same_text(name, "r") {
        Some(19)
    } else if same_text(name, "t") {
        Some(20)
    } else if same_text(name, "y") {
        Some(21)
    } else if same_text(name, "u") {
        Some(22)
    } else if same_text(name, "i") {
        Some(23)
    } else if same_text(name, "o") {
        Some(24)
    } else if same_text(name, "p") {
        Some(25)
    } else if same_text(name, "bracketleft") {
        Some(26)
    } else if same_text(name, "bracketright") {
        Some(27)
    } else if same_text(name, "return") {
        Some(28)
    } else if same_text(name, "ctrl") {
        Some(29)
    } else if same_text(name, "a") {
        Some(30)
    } else if same_text(name, "s") {
        Some(31)
    } else if same_text(name, "d") {
        Some(32)
    } else if same_text(name, "f") {
        Some(33)
    } else if same_text(name, "g") {
        Some(34)
    } else if same_text(name, "h") {
        Some(35)
    } else if same_text(name, "j") {
        Some(36)
    } else if same_text(name, "k") {
        Some(37)
    } else if same_text(name, "l") {
        Some(38)
    } else if same_text(name, "semicolon") {
        Some(39)
    } else if same_text(name, "apostrophe") {
        Some(40)
    } else if same_text(name, "grave") {
        Some(41)
    } else if same_text(name, "shift") {
        Some(42)
    } else if same_text(name, "backslash") {
        Some(43)
    } else if same_text(name, "z") {
        Some(44)
    } else if same_text(name, "x") {
        Some(45)
    } else if same_text(name, "c") {
        Some(46)
    } else if same_text(name, "v") {
        Some(47)
    } else if same_text(name, "b") {
        Some(48)
    } else if same_text(name, "n") {
        Some(49)
    } else if same_text(name, "m") {
        Some(50)
    } else if same_text(name, "comma") {
        Some(51)
    } else if same_text(name, "period") {
        Some(52)
    } else if same_text(name, "slash") {
        Some(53)
    } else if same_text(name, "alt") {
        Some(56)
    } else if same_text(name, "space") {
        Some(57)
    } else if same_text(name, "capslock") {
        Some(58)
    } else if same_text(name, "f1") {
        Some(59)
    } else if same_text(name, "f2") {
        Some(60)
    } else if same_text(name, "f3") {
        Some(61)
    } else if same_text(name, "f4") {
        Some(62)
    } else if same_text(name, "f5") {
        Some(63)
    } else if same_text(name, "f6") {
        Some(64)
    } else if same_text(name, "f7") {
        Some(65)
    } else if same_text(name, "f8") {
        Some(66)
    } else if same_text(name, "f9") {
        Some(67)
    } else if same_text(name, "f10") {
        Some(68)
    } else if same_text(name, "f11") {
        Some(87)
    } else if same_text(name, "f12") {
        Some(88)
    } else if same_text(name, "home") {
        Some(102)
    } else if same_text(name, "up") {
        Some(103)
    } else if same_text(name, "prior") {
        Some(104)
    } else if same_text(name, "left") {
        Some(105)
    } else if same_text(name, "right") {
        Some(106)
    } else if same_text(name, "end") {
        Some(107)
    } else if same_text(name, "down") {
        Some(108)
    } else if same_text(name, "next") {
        Some(109)
    } else if same_text(name, "insert") {
        Some(110)
    } else if same_text(name, "delete") {
        Some(111)
    } else if same_text(name, "super") {
        Some(125)
    } else {
        None
    }
}

/// xkb keysym names, which is what wtype wants.
pub fn keysym<'a>(name: &'a str) -> (symbol: &'a str)
    ensures
        symbol@ == keysym_of(name@),
{
    if same_text(name, "return") {
        "Return"
    } else if same_text(name, "escape") {
        "Escape"
    } else if same_text(name, "tab") {
        "Tab"
    } else if same_text(name, "space") {
        "space"
    } else if same_text(name, "backspace") {
        "BackSpace"
    } else if same_text(name, "delete") {
        "Delete"
    } else if same_text(name, "insert") {
        "Insert"
    } else if same_text(name, "home") {
        "Home"
    } else if same_text(name, "end") {
        "End"
    } else if same_text(name, "prior") {
        "Prior"
    } else if same_text(name, "next") {
        "Next"
    } else if same_text(name, "up") {
        "Up"
    } else if same_text(name, "down") {
        "Down"
    } else if same_text(name, "left") {
        "Left"
    } else if same_text(name, "right") {
        "Right"
    } else {
        name
    }
}

/// A key code belongs to one key: the name can be told from the code.
pub proof fn lemma_code_names_key(name: Seq<char>)
    requires
        code_of(name) is Some,
    ensures
        name_of(code_of(name)->0) == Some(name),
{
}

/// No two keys share a code.
pub proof fn lemma_codes_distinct(a: Seq<char>, b: Seq<char>)
    requires
        code_of(a) is Some,
        code_of(a) == code_of(b),
    ensures
        a == b,
{
    lemma_code_names_key(a);
    lemma_code_names_key(b);
}

/// Every key that has a keysym of its own has a code too, so that a key which wtype can press
/// under another name can be pressed with ydotool.
pub proof fn lemma_keysym_has_code(name: Seq<char>)
    requires
        keysym_of(name) != name,
    ensures
        code_of(name) is Some,
{
}

/// The length of a name, its first and its last character, which tell the keys apart.
spec fn ends(name: Seq<char>) -> (int, char, char) {
    (name.len() as int, name[0], name[name.len() - 1])
}

/// Every code that names a key is the code of that key: no key is left out.
#[verifier::rlimit(100)]
pub proof fn lemma_named_key_has_code(code: u16)
    requires
        name_of(code) is Some,
    ensures
        code_of(name_of(code)->0) == Some(code),
{
    reveal_strlit("escape");
    assert(ends("escape"@) == (6int, 'e', 'e'));
    reveal_strlit("1");
    assert(ends("1"@) == (1int, '1', '1'));
    reveal_strlit("2");
    assert(ends("2"@) == (1int, '2', '2'));
    reveal_strlit("3");
    assert(ends("3"@) == (1int, '3', '3'));
    reveal_strlit("4");
    assert(ends("4"@) == (1int, '4', '4'));
    reveal_strlit("5");
    assert(ends("5"@) == (1int, '5', '5'));
    reveal_strlit("6");
    assert(ends("6"@) == (1int, '6', '6'));
    reveal_strlit("7");
    assert(ends("7"@) == (1int, '7', '7'));
    reveal_strlit("8");
    assert(ends("8"@) == (1int, '8', '8'));
    reveal_strlit("9");
    assert(ends("9"@) == (1int, '9', '9'));
    reveal_strlit("0");
    assert(ends("0"@) == (1int, '0', '0'));
    reveal_strlit("minus");
    assert(ends("minus"@) == (5int, 'm', 's'));
    reveal_strlit("equal");
    assert(ends("equal"@) == (5int, 'e', 'l'));
    reveal_strlit("backspace");
    assert(ends("backspace"@) == (9int, 'b', 'e'));
    reveal_strlit("tab");
    assert(ends("tab"@) == (3int, 't', 'b'));
    reveal_strlit("q");
    assert(ends("q"@) == (1int, 'q', 'q'));
    reveal_strlit("w");
    assert(ends("w"@) == (1int, 'w', 'w'));
    reveal_strlit("e");
    assert(ends("e"@) == (1int, 'e', 'e'));
    reveal_strlit("r");
    assert(ends("r"@) == (1int, 'r', 'r'));
    reveal_strlit("t");
    assert(ends("t"@) == (1int, 't', 't'));
    reveal_strlit("y");
    assert(ends("y"@) == (1int, 'y', 'y'));
    reveal_strlit("u");
    assert(ends("u"@) == (1int, 'u', 'u'));
    reveal_strlit("i");
    assert(ends("i"@) == (1int, 'i', 'i'));
    reveal_strlit("o");
    assert(ends("o"@) == (1int, 'o', 'o'));
    reveal_strlit("p");
    assert(ends("p"@) == (1int, 'p', 'p'));
    reveal_strlit("bracketleft");
    assert(ends("bracketleft"@) == (11int, 'b', 't'));
    reveal_strlit("bracketright");
    assert(ends("bracketright"@) == (12int, 'b', 't'));
    reveal_strlit("return");
    assert(ends("return"@) == (6int, 'r', 'n'));
    reveal_strlit("ctrl");
    assert(ends("ctrl"@) == (4int, 'c', 'l'));
    reveal_strlit("a");
    assert(ends("a"@) == (1int, 'a', 'a'));
    reveal_strlit("s");
    assert(ends("s"@) == (1int, 's', 's'));
    reveal_strlit("d");
    assert(ends("d"@) == (1int, 'd', 'd'));
    reveal_strlit("f");
    assert(ends("f"@) == (1int, 'f', 'f'));
    reveal_strlit("g");
    assert(ends("g"@) == (1int, 'g', 'g'));
    reveal_strlit("h");
    assert(ends("h"@) == (1int, 'h', 'h'));
    reveal_strlit("j");
    assert(ends("j"@) == (1int, 'j', 'j'));
    reveal_strlit("k");
    assert(ends("k"@) == (1int, 'k', 'k'));
    reveal_strlit("l");
    assert(ends("l"@) == (1int, 'l', 'l'));
    reveal_strlit("semicolon");
    assert(ends("semicolon"@) == (9int, 's', 'n'));
    reveal_strlit("apostrophe");
    assert(ends("apostrophe"@) == (10int, 'a', 'e'));
    reveal_strlit("grave");
    assert(ends("grave"@) == (5int, 'g', 'e'));
    reveal_strlit("shift");
    assert(ends("shift"@) == (5int, 's', 't'));
    reveal_strlit("backslash");
    assert(ends("backslash"@) == (9int, 'b', 'h'));
    reveal_strlit("z");
    assert(ends("z"@) == (1int, 'z', 'z'));
    reveal_strlit("x");
    assert(ends("x"@) == (1int, 'x', 'x'));
    reveal_strlit("c");
    assert(ends("c"@) == (1int, 'c', 'c'));
    reveal_strlit("v");
    assert(ends("v"@) == (1int, 'v', 'v'));
    reveal_strlit("b");
    assert(ends("b"@) == (1int, 'b', 'b'));
    reveal_strlit("n");
    assert(ends("n"@) == (1int, 'n', 'n'));
    reveal_strlit("m");
    assert(ends("m"@) == (1int, 'm', 'm'));
    reveal_strlit("comma");
    assert(ends("comma"@) == (5int, 'c', 'a'));
    reveal_strlit("period");
    assert(ends("period"@) == (6int, 'p', 'd'));
    reveal_strlit("slash");
    assert(ends("slash"@) == (5int, 's', 'h'));
    reveal_strlit("alt");
    assert(ends("alt"@) == (3int, 'a', 't'));
    reveal_strlit("space");
    assert(ends("space"@) == (5int, 's', 'e'));
    reveal_strlit("capslock");
    assert(ends("capslock"@) == (8int, 'c', 'k'));
    reveal_strlit("f1");
    assert(ends("f1"@) == (2int, 'f', '1'));
    reveal_strlit("f2");
    assert(ends("f2"@) == (2int, 'f', '2'));
    reveal_strlit("f3");
    assert(ends("f3"@) == (2int, 'f', '3'));
    reveal_strlit("f4");
    assert(ends("f4"@) == (2int, 'f', '4'));
    reveal_strlit("f5");
    assert(ends("f5"@) == (2int, 'f', '5'));
    reveal_strlit("f6");
    assert(ends("f6"@) == (2int, 'f', '6'));
    reveal_strlit("f7");
    assert(ends("f7"@) == (2int, 'f', '7'));
    reveal_strlit("f8");
    assert(ends("f8"@) == (2int, 'f', '8'));
    reveal_strlit("f9");
    assert(ends("f9"@) == (2int, 'f', '9'));
    reveal_strlit("f10");
    assert(ends("f10"@) == (3int, 'f', '0'));
    reveal_strlit("f11");
    assert(ends("f11"@) == (3int, 'f', '1'));
    reveal_strlit("f12");
    assert(ends("f12"@) == (3int, 'f', '2'));
    reveal_strlit("home");
    assert(ends("home"@) == (4int, 'h', 'e'));
    reveal_strlit("up");
    assert(ends("up"@) == (2int, 'u', 'p'));
    reveal_strlit("prior");
    assert(ends("prior"@) == (5int, 'p', 'r'));
    reveal_strlit("left");
    assert(ends("left"@) == (4int, 'l', 't'));
    reveal_strlit("right");
    assert(ends("right"@) == (5int, 'r', 't'));
    reveal_strlit("end");
    assert(ends("end"@) == (3int, 'e', 'd'));
    reveal_strlit("down");
    assert(ends("down"@) == (4int, 'd', 'n'));
    reveal_strlit("next");
    assert(ends("next"@) == (4int, 'n', 't'));
    reveal_strlit("insert");
    assert(ends("insert"@) == (6int, 'i', 't'));
    reveal_strlit("delete");
    assert(ends("delete"@) == (6int, 'd', 'e'));
    reveal_strlit("super");
    assert(ends("super"@) == (5int, 's', 'r'));
}

/// No key has an empty name.
pub proof fn lemma_names_are_not_empty(code: u16)
    requires
        name_of(code) is Some,
    ensures
        name_of(code)->0.len() > 0,
{
    reveal_strlit("escape");
    reveal_strlit("1");
    reveal_strlit("2");
    reveal_strlit("3");
    reveal_strlit("4");
    reveal_strlit("5");
    reveal_strlit("6");
    reveal_strlit("7");
    reveal_strlit("8");
    reveal_strlit("9");
    reveal_strlit("0");
    reveal_strlit("minus");
    reveal_strlit("equal");
    reveal_strlit("backspace");
    reveal_strlit("tab");
    reveal_strlit("q");
    reveal_strlit("w");
    reveal_strlit("e");
    reveal_strlit("r");
    reveal_strlit("t");
    reveal_strlit("y");
    reveal_strlit("u");
    reveal_strlit("i");
    reveal_strlit("o");
    reveal_strlit("p");
    reveal_strlit("bracketleft");
    reveal_strlit("bracketright");
    reveal_strlit("return");
    reveal_strlit("ctrl");
    reveal_strlit("a");
    reveal_strlit("s");
    reveal_strlit("d");
    reveal_strlit("f");
    reveal_strlit("g");
    reveal_strlit("h");
    reveal_strlit("j");
    reveal_strlit("k");
    reveal_strlit("l");
    reveal_strlit("semicolon");
    reveal_strlit("apostrophe");
    reveal_strlit("grave");
    reveal_strlit("shift");
    reveal_strlit("backslash");
    reveal_strlit("z");
    reveal_strlit("x");
    reveal_strlit("c");
    reveal_strlit("v");
    reveal_strlit("b");
    reveal_strlit("n");
    reveal_strlit("m");
    reveal_strlit("comma");
    reveal_strlit("period");
    reveal_strlit("slash");
    reveal_strlit("alt");
    reveal_strlit("space");
    reveal_strlit("capslock");
    reveal_strlit("f1");
    reveal_strlit("f2");
    reveal_strlit("f3");
    reveal_strlit("f4");
    reveal_strlit("f5");
    reveal_strlit("f6");
    reveal_strlit("f7");
    reveal_strlit("f8");
    reveal_strlit("f9");
    reveal_strlit("f10");
    reveal_strlit("f11");
    reveal_strlit("f12");
    reveal_strlit("home");
    reveal_strlit("up");
    reveal_strlit("prior");
    reveal_strlit("left");
    reveal_strlit("right");
    reveal_strlit("end");
    reveal_strlit("down");
    reveal_strlit("next");
    reveal_strlit("insert");
    reveal_strlit("delete");
    reveal_strlit("super");
}

/// A letter in lower case.
pub open spec fn lowered(c: char) -> char {
    if 'A' <= c <= 'Z' {
        (c as nat + 32) as char
    } else {
        c
    }
}

/// A text in lower case.
pub open spec fn lower(text: Seq<char>) -> Seq<char> {
    text.map_values(|c: char| lowered(c))
}

/// A keysym is the name of its key, but for the case of its letters.
pub proof fn lemma_keysym_is_the_name(name: Seq<char>)
    ensures
        lower(keysym_of(name)) == lower(name),
{
    reveal_strlit("return");
    assert("return"@ =~= seq!['r', 'e', 't', 'u', 'r', 'n']);
    reveal_strlit("escape");
    assert("escape"@ =~= seq!['e', 's', 'c', 'a', 'p', 'e']);
    reveal_strlit("tab");
    assert("tab"@ =~= seq!['t', 'a', 'b']);
    reveal_strlit("space");
    assert("space"@ =~= seq!['s', 'p', 'a', 'c', 'e']);
    reveal_strlit("backspace");
    assert("backspace"@ =~= seq!['b', 'a', 'c', 'k', 's', 'p', 'a', 'c', 'e']);
    reveal_strlit("delete");
    assert("delete"@ =~= seq!['d', 'e', 'l', 'e', 't', 'e']);
    reveal_strlit("insert");
    assert("insert"@ =~= seq!['i', 'n', 's', 'e', 'r', 't']);
    reveal_strlit("home");
    assert("home"@ =~= seq!['h', 'o', 'm', 'e']);
    reveal_strlit("end");
    assert("end"@ =~= seq!['e', 'n', 'd']);
    reveal_strlit("prior");
    assert("prior"@ =~= seq!['p', 'r', 'i', 'o', 'r']);
    reveal_strlit("next");
    assert("next"@ =~= seq!['n', 'e', 'x', 't']);
    reveal_strlit("up");
    assert("up"@ =~= seq!['u', 'p']);
    reveal_strlit("down");
    assert("down"@ =~= seq!['d', 'o', 'w', 'n']);
    reveal_strlit("left");
    assert("left"@ =~= seq!['l', 'e', 'f', 't']);
    reveal_strlit("right");
    assert("right"@ =~= seq!['r', 'i', 'g', 'h', 't']);
    reveal_strlit("Return");
    assert("Return"@ =~= seq!['R', 'e', 't', 'u', 'r', 'n']);
    reveal_strlit("Escape");
    assert("Escape"@ =~= seq!['E', 's', 'c', 'a', 'p', 'e']);
    reveal_strlit("Tab");
    assert("Tab"@ =~= seq!['T', 'a', 'b']);
    reveal_strlit("BackSpace");
    assert("BackSpace"@ =~= seq!['B', 'a', 'c', 'k', 'S', 'p', 'a', 'c', 'e']);
    reveal_strlit("Delete");
    assert("Delete"@ =~= seq!['D', 'e', 'l', 'e', 't', 'e']);
    reveal_strlit("Insert");
    assert("Insert"@ =~= seq!['I', 'n', 's', 'e', 'r', 't']);
    reveal_strlit("Home");
    assert("Home"@ =~= seq!['H', 'o', 'm', 'e']);
    reveal_strlit("End");
    assert("End"@ =~= seq!['E', 'n', 'd']);
    reveal_strlit("Prior");
    assert("Prior"@ =~= seq!['P', 'r', 'i', 'o', 'r']);
    reveal_strlit("Next");
    assert("Next"@ =~= seq!['N', 'e', 'x', 't']);
    reveal_strlit("Up");
    assert("Up"@ =~= seq!['U', 'p']);
    reveal_strlit("Down");
    assert("Down"@ =~= seq!['D', 'o', 'w', 'n']);
    reveal_strlit("Left");
    assert("Left"@ =~= seq!['L', 'e', 'f', 't']);
    reveal_strlit("Right");
    assert("Right"@ =~= seq!['R', 'i', 'g', 'h', 't']);
    assert(lower(keysym_of(name)) =~= lower(name));
}

/// The keys that sit on the keyboard under a word rather than a letter and can be tapped alone:
/// escape, backspace, tab, return, and the codes from home to delete.
pub open spec fn is_editing_code(code: u16) -> bool {
    code == 1 || code == 14 || code == 15 || code == 28 || 102 <= code <= 111
}

/// The keysym of an editing key starts with a capital letter, and that of backspace has another
/// one in its middle; every other keysym is the name of the key as it stands.
pub proof fn lemma_keysym_capitals(name: Seq<char>)
    ensures
        ({
            let symbol = keysym_of(name);
            if code_of(name) is Some && is_editing_code(code_of(name)->0) {
                &&& symbol.len() == name.len()
                &&& 'A' <= symbol[0] <= 'Z'
                &&& forall|i: int|
                    0 < i < name.len() ==> (#[trigger] symbol[i] != name[i] <==> code_of(name)
                        == Some(14u16) && i == 4)
            } else {
                symbol == name
            }
        }),
{
    reveal_strlit("escape");
    assert("escape"@ =~= seq!['e', 's', 'c', 'a', 'p', 'e']);
    reveal_strlit("1");
    assert("1"@ =~= seq!['1']);
    reveal_strlit("2");
    assert("2"@ =~= seq!['2']);
    reveal_strlit("3");
    assert("3"@ =~= seq!['3']);
    reveal_strlit("4");
    assert("4"@ =~= seq!['4']);
    reveal_strlit("5");
    assert("5"@ =~= seq!['5']);
    reveal_strlit("6");
    assert("6"@ =~= seq!['6']);
    reveal_strlit("7");
    assert("7"@ =~= seq!['7']);
    reveal_strlit("8");
    assert("8"@ =~= seq!['8']);
    reveal_strlit("9");
    assert("9"@ =~= seq!['9']);
    reveal_strlit("0");
    assert("0"@ =~= seq!['0']);
    reveal_strlit("minus");
    assert("minus"@ =~= seq!['m', 'i', 'n', 'u', 's']);
    reveal_strlit("equal");
    assert("equal"@ =~= seq!['e', 'q', 'u', 'a', 'l']);
    reveal_strlit("backspace");
    assert("backspace"@ =~= seq!['b', 'a', 'c', 'k', 's', 'p', 'a', 'c', 'e']);
    reveal_strlit("tab");
    assert("tab"@ =~= seq!['t', 'a', 'b']);
    reveal_strlit("q");
    assert("q"@ =~= seq!['q']);
    reveal_strlit("w");
    assert("w"@ =~= seq!['w']);
    reveal_strlit("e");
    assert("e"@ =~= seq!['e']);
    reveal_strlit("r");
    assert("r"@ =~= seq!['r']);
    reveal_strlit("t");
    assert("t"@ =~= seq!['t']);
    reveal_strlit("y");
    assert("y"@ =~= seq!['y']);
    reveal_strlit("u");
    assert("u"@ =~= seq!['u']);
    reveal_strlit("i");
    assert("i"@ =~= seq!['i']);
    reveal_strlit("o");
    assert("o"@ =~= seq!['o']);
    reveal_strlit("p");
    assert("p"@ =~= seq!['p']);
    reveal_strlit("bracketleft");
    assert("bracketleft"@ =~= seq!['b', 'r', 'a', 'c', 'k', 'e', 't', 'l', 'e', 'f', 't']);
    reveal_strlit("bracketright");
    assert("bracketright"@ =~= seq!['b', 'r', 'a', 'c', 'k', 'e', 't', 'r', 'i', 'g', 'h', 't']);
    reveal_strlit("return");
    assert("return"@ =~= seq!['r', 'e', 't', 'u', 'r', 'n']);
    reveal_strlit("ctrl");
    assert("ctrl"@ =~= seq!['c', 't', 'r', 'l']);
    reveal_strlit("a");
    assert("a"@ =~= seq!['a']);
    reveal_strlit("s");
    assert("s"@ =~= seq!['s']);
    reveal_strlit("d");
    assert("d"@ =~= seq!['d']);
    reveal_strlit("f");
    assert("f"@ =~= seq!['f']);
    reveal_strlit("g");
    assert("g"@ =~= seq!['g']);
    reveal_strlit("h");
    assert("h"@ =~= seq!['h']);
    reveal_strlit("j");
    assert("j"@ =~= seq!['j']);
    reveal_strlit("k");
    assert("k"@ =~= seq!['k']);
    reveal_strlit("l");
    assert("l"@ =~= seq!['l']);
    reveal_strlit("semicolon");
    assert("semicolon"@ =~= seq!['s', 'e', 'm', 'i', 'c', 'o', 'l', 'o', 'n']);
    reveal_strlit("apostrophe");
    assert("apostrophe"@ =~= seq!['a', 'p', 'o', 's', 't', 'r', 'o', 'p', 'h', 'e']);
    reveal_strlit("grave");
    assert("grave"@ =~= seq!['g', 'r', 'a', 'v', 'e']);
    reveal_strlit("shift");
    assert("shift"@ =~= seq!['s', 'h', 'i', 'f', 't']);
    reveal_strlit("backslash");
    assert("backslash"@ =~= seq!['b', 'a', 'c', 'k', 's', 'l', 'a', 's', 'h']);
    reveal_strlit("z");
    assert("z"@ =~= seq!['z']);
    reveal_strlit("x");
    assert("x"@ =~= seq!['x']);
    reveal_strlit("c");
    assert("c"@ =~= seq!['c']);
    reveal_strlit("v");
    assert("v"@ =~= seq!['v']);
    reveal_strlit("b");
    assert("b"@ =~= seq!['b']);
    reveal_strlit("n");
    assert("n"@ =~= seq!['n']);
    reveal_strlit("m");
    assert("m"@ =~= seq!['m']);
    reveal_strlit("comma");
    assert("comma"@ =~= seq!['c', 'o', 'm', 'm', 'a']);
    reveal_strlit("period");
    assert("period"@ =~= seq!['p', 'e', 'r', 'i', 'o', 'd']);
    reveal_strlit("slash");
    assert("slash"@ =~= seq!['s', 'l', 'a', 's', 'h']);
    reveal_strlit("alt");
    assert("alt"@ =~= seq!['a', 'l', 't']);
    reveal_strlit("space");
    assert("space"@ =~= seq!['s', 'p', 'a', 'c', 'e']);
    reveal_strlit("capslock");
    assert("capslock"@ =~= seq!['c', 'a', 'p', 's', 'l', 'o', 'c', 'k']);
    reveal_strlit("f1");
    assert("f1"@ =~= seq!['f', '1']);
    reveal_strlit("f2");
    assert("f2"@ =~= seq!['f', '2']);
    reveal_strlit("f3");
    assert("f3"@ =~= seq!['f', '3']);
    reveal_strlit("f4");
    assert("f4"@ =~= seq!['f', '4']);
    reveal_strlit("f5");
    assert("f5"@ =~= seq!['f', '5']);
    reveal_strlit("f6");
    assert("f6"@ =~= seq!['f', '6']);
    reveal_strlit("f7");
    assert("f7"@ =~= seq!['f', '7']);
    reveal_strlit("f8");
    assert("f8"@ =~= seq!['f', '8']);
    reveal_strlit("f9");
    assert("f9"@ =~= seq!['f', '9']);
    reveal_strlit("f10");
    assert("f10"@ =~= seq!['f', '1', '0']);
    reveal_strlit("f11");
    assert("f11"@ =~= seq!['f', '1', '1']);
    reveal_strlit("f12");
    assert("f12"@ =~= seq!['f', '1', '2']);
    reveal_strlit("home");
    assert("home"@ =~= seq!['h', 'o', 'm', 'e']);
    reveal_strlit("up");
    assert("up"@ =~= seq!['u', 'p']);
    reveal_strlit("prior");
    assert("prior"@ =~= seq!['p', 'r', 'i', 'o', 'r']);
    reveal_strlit("left");
    assert("left"@ =~= seq!['l', 'e', 'f', 't']);
    reveal_strlit("right");
    assert("right"@ =~= seq!['r', 'i', 'g', 'h', 't']);
    reveal_strlit("end");
    assert("end"@ =~= seq!['e', 'n', 'd']);
    reveal_strlit("down");
    assert("down"@ =~= seq!['d', 'o', 'w', 'n']);
    reveal_strlit("next");
    assert("next"@ =~= seq!['n', 'e', 'x', 't']);
    reveal_strlit("insert");
    assert("insert"@ =~= seq!['i', 'n', 's', 'e', 'r', 't']);
    reveal_strlit("delete");
    assert("delete"@ =~= seq!['d', 'e', 'l', 'e', 't', 'e']);
    reveal_strlit("super");
    assert("super"@ =~= seq!['s', 'u', 'p', 'e', 'r']);
    reveal_strlit("Return");
    assert("Return"@ =~= seq!['R', 'e', 't', 'u', 'r', 'n']);
    reveal_strlit("Escape");
    assert("Escape"@ =~= seq!['E', 's', 'c', 'a', 'p', 'e']);
    reveal_strlit("Tab");
    assert("Tab"@ =~= seq!['T', 'a', 'b']);
    reveal_strlit("BackSpace");
    assert("BackSpace"@ =~= seq!['B', 'a', 'c', 'k', 'S', 'p', 'a', 'c', 'e']);
    reveal_strlit("Delete");
    assert("Delete"@ =~= seq!['D', 'e', 'l', 'e', 't', 'e']);
    reveal_strlit("Insert");
    assert("Insert"@ =~= seq!['I', 'n', 's', 'e', 'r', 't']);
    reveal_strlit("Home");
    assert("Home"@ =~= seq!['H', 'o', 'm', 'e']);
    reveal_strlit("End");
    assert("End"@ =~= seq!['E', 'n', 'd']);
    reveal_strlit("Prior");
    assert("Prior"@ =~= seq!['P', 'r', 'i', 'o', 'r']);
    reveal_strlit("Next");
    assert("Next"@ =~= seq!['N', 'e', 'x', 't']);
    reveal_strlit("Up");
    assert("Up"@ =~= seq!['U', 'p']);
    reveal_strlit("Down");
    assert("Down"@ =~= seq!['D', 'o', 'w', 'n']);
    reveal_strlit("Left");
    assert("Left"@ =~= seq!['L', 'e', 'f', 't']);
    reveal_strlit("Right");
    assert("Right"@ =~= seq!['R', 'i', 'g', 'h', 't']);
}

} // verus!
