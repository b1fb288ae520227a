//! Key identifiers and the parsing of key labels.
use crate::text::{
    concat3, decimal_chars, decimal_string, digit_char,
    ascii_lower_chars, chars_eq_str, chars_of, digit_value, is_ascii_alpha, is_ascii_digit,
    is_ascii_upper, parse_unsigned, parse_unsigned_chars, to_ascii_lower, trim, trim_chars,
    is_white_space, lemma_case_char, lemma_trim_case, lemma_trim_padded, to_ascii_upper,
};
use crate::config::Config;
use crate::constants::DEFAULT_FKEYS_MAX;
use vstd::prelude::*;

verus! {

/// Letter keys.
#[derive(Debug, Clone, Copy, PartialEq, Eq, Hash, PartialOrd, Ord, Structural)]
pub enum LetterKey {
    A,
    B,
    C,
    D,
    E,
    F,
    G,
    H,
    I,
    J,
    K,
    L,
    M,
    N,
    O,
    P,
    Q,
    R,
    S,
    T,
    U,
    V,
    W,
    X,
    Y,
    Z,
}

/// Symbol keys of the US layout.
#[derive(Debug, Clone, Copy, PartialEq, Eq, Hash, PartialOrd, Ord, Structural)]
pub enum SymbolKey {
    Backtick,
    Minus,
    Equal,
    LBracket,
    RBracket,
    Backslash,
    Semicolon,
    Quote,
    Comma,
    Period,
    Slash,
}

/// Arrow keys.
#[derive(Debug, Clone, Copy, PartialEq, Eq, Hash, PartialOrd, Ord, Structural)]
pub enum ArrowKey {
    Left,
    Down,
    Up,
    Right,
}

/// Modifier keys that switch layers.
#[derive(Debug, Clone, Copy, PartialEq, Eq, Hash, PartialOrd, Ord, Structural)]
pub enum ModifierKey {
    Layer1,
    Layer2,
    Layer3,
}

/// Identifier of a key that the optimizer places.
#[derive(Debug, Clone, Copy, PartialEq, Eq, Hash, PartialOrd, Ord, Structural)]
pub enum KeyId {
    Letter(LetterKey),
    /// A digit key, 0..=9.
    Digit(u8),
    Symbol(SymbolKey),
    Tab,
    Escape,
    CapsLock,
    Delete,
    Backspace,
    Space,
    Enter,
    ShiftL,
    ShiftR,
    CtrlL,
    CtrlR,
    AltL,
    AltR,
    MetaL,
    MetaR,
    Function(u8),
    Arrow(ArrowKey),
    Modifier(ModifierKey),
    Home,
    End,
    PageUp,
    PageDown,
    Insert,
    /// A numeric keypad digit, 0..=9.
    NumpadDigit(u8),
    NumpadAdd,
    NumpadSubtract,
    NumpadMultiply,
    NumpadDivide,
    NumpadEnter,
    NumpadEquals,
    NumpadDecimal,
}

/// How labels of a key frequency file are read.
#[derive(Debug, Clone, Copy, PartialEq, Eq, Structural)]
pub struct ParseOptions {
    /// Reject a label that names no optimized key (else it is skipped).
    pub strict_unknown_keys: bool,
}

impl Default for ParseOptions {
    /// Unknown labels are skipped.
    fn default() -> (r: Self)
        ensures
            !r.strict_unknown_keys,
    {
        ParseOptions { strict_unknown_keys: false }
    }
}

/// The letter key of an upper case ASCII letter.
pub open spec fn letter_of(c: char) -> LetterKey {
    if c == 'A' {
        LetterKey::A
    } else if c == 'B' {
        LetterKey::B
    } else if c == 'C' {
        LetterKey::C
    } else if c == 'D' {
        LetterKey::D
    } else if c == 'E' {
        LetterKey::E
    } else if c == 'F' {
        LetterKey::F
    } else if c == 'G' {
        LetterKey::G
    } else if c == 'H' {
        LetterKey::H
    } else if c == 'I' {
        LetterKey::I
    } else if c == 'J' {
        LetterKey::J
    } else if c == 'K' {
        LetterKey::K
    } else if c == 'L' {
        LetterKey::L
    } else if c == 'M' {
        LetterKey::M
    } else if c == 'N' {
        LetterKey::N
    } else if c == 'O' {
        LetterKey::O
    } else if c == 'P' {
        LetterKey::P
    } else if c == 'Q' {
        LetterKey::Q
    } else if c == 'R' {
        LetterKey::R
    } else if c == 'S' {
        LetterKey::S
    } else if c == 'T' {
        LetterKey::T
    } else if c == 'U' {
        LetterKey::U
    } else if c == 'V' {
        LetterKey::V
    } else if c == 'W' {
        LetterKey::W
    } else if c == 'X' {
        LetterKey::X
    } else if c == 'Y' {
        LetterKey::Y
    } else {
        LetterKey::Z
    }
}

/// The key that `str_to_keyid` gives for the characters `s`: an upper case
/// letter or a digit alone.
pub open spec fn spec_str_to_keyid(s: Seq<char>) -> Option<KeyId> {
    if s.len() == 1 && is_ascii_upper(s[0]) {
        Some(KeyId::Letter(letter_of(s[0])))
    } else if s.len() == 1 && is_ascii_digit(s[0]) {
        Some(KeyId::Digit(digit_value(s[0]) as u8))
    } else {
        None
    }
}

fn letter_key_of(c: char) -> (k: LetterKey)
    requires
        is_ascii_upper(c),
    ensures
        k == letter_of(c),
{
    match c {
        'A' => LetterKey::A,
        'B' => LetterKey::B,
        'C' => LetterKey::C,
        'D' => LetterKey::D,
        'E' => LetterKey::E,
        'F' => LetterKey::F,
        'G' => LetterKey::G,
        'H' => LetterKey::H,
        'I' => LetterKey::I,
        'J' => LetterKey::J,
        'K' => LetterKey::K,
        'L' => LetterKey::L,
        'M' => LetterKey::M,
        'N' => LetterKey::N,
        'O' => LetterKey::O,
        'P' => LetterKey::P,
        'Q' => LetterKey::Q,
        'R' => LetterKey::R,
        'S' => LetterKey::S,
        'T' => LetterKey::T,
        'U' => LetterKey::U,
        'V' => LetterKey::V,
        'W' => LetterKey::W,
        'X' => LetterKey::X,
        'Y' => LetterKey::Y,
        'Z' => LetterKey::Z,
        _ => LetterKey::Z,
    }
}

/// The key that a fixed-letter name stands for: `"A"`..`"Z"` and `"0"`..`"9"`.
pub fn str_to_keyid(str: &str) -> (r: Option<KeyId>)
    ensures
        r == spec_str_to_keyid(str@),
{
    let s = chars_of(str);
    if s.len() == 1 {
        let c = s[0];
        if 'A' <= c && c <= 'Z' {
            return Some(KeyId::Letter(letter_key_of(c)));
        }
        if '0' <= c && c <= '9' {
            let d: u32 = (c as u32) - ('0' as u32);
            return Some(KeyId::Digit(d as u8));
        }
    }
    None
}


/// The key that a lower case label names: a symbol, an editing or modifier
/// key, or an arrow.
pub open spec fn keyword_key(t: Seq<char>) -> Option<KeyId> {
    if t == "grave"@ || t == "`"@ {
        Some(KeyId::Symbol(SymbolKey::Backtick))
    } else if t == "minus"@ || t == "-"@ {
        Some(KeyId::Symbol(SymbolKey::Minus))
    } else if t == "equal"@ || t == "="@ {
        Some(KeyId::Symbol(SymbolKey::Equal))
    } else if t == "leftbracket"@ || t == "["@ {
        Some(KeyId::Symbol(SymbolKey::LBracket))
    } else if t == "rightbracket"@ || t == "]"@ {
        Some(KeyId::Symbol(SymbolKey::RBracket))
    } else if t == "backslash"@ || t == "\\"@ {
        Some(KeyId::Symbol(SymbolKey::Backslash))
    } else if t == "semicolon"@ || t == ";"@ {
        Some(KeyId::Symbol(SymbolKey::Semicolon))
    } else if t == "apostrophe"@ || t == "'"@ {
        Some(KeyId::Symbol(SymbolKey::Quote))
    } else if t == "comma"@ || t == ","@ {
        Some(KeyId::Symbol(SymbolKey::Comma))
    } else if t == "period"@ || t == "dot"@ || t == "."@ {
        Some(KeyId::Symbol(SymbolKey::Period))
    } else if t == "slash"@ || t == "/"@ {
        Some(KeyId::Symbol(SymbolKey::Slash))
    } else if t == "tab"@ {
        Some(KeyId::Tab)
    } else if t == "escape"@ {
        Some(KeyId::Escape)
    } else if t == "capslock"@ {
        Some(KeyId::CapsLock)
    } else if t == "delete"@ {
        Some(KeyId::Delete)
    } else if t == "backspace"@ {
        Some(KeyId::Backspace)
    } else if t == "space"@ || t == "spacebar"@ {
        Some(KeyId::Space)
    } else if t == "enter"@ || t == "return"@ {
        Some(KeyId::Enter)
    } else if t == "leftshift"@ {
        Some(KeyId::ShiftL)
    } else if t == "rightshift"@ {
        Some(KeyId::ShiftR)
    } else if t == "leftcontrol"@ {
        Some(KeyId::CtrlL)
    } else if t == "rightcontrol"@ {
        Some(KeyId::CtrlR)
    } else if t == "leftalt"@ || t == "loption"@ {
        Some(KeyId::AltL)
    } else if t == "rightalt"@ || t == "roption"@ {
        Some(KeyId::AltR)
    } else if t == "leftmeta"@ || t == "command"@ {
        Some(KeyId::MetaL)
    } else if t == "rightmeta"@ || t == "rcommand"@ {
        Some(KeyId::MetaR)
    } else if t == "arrowleft"@ || t == "left"@ {
        Some(KeyId::Arrow(ArrowKey::Left))
    } else if t == "arrowright"@ || t == "right"@ {
        Some(KeyId::Arrow(ArrowKey::Right))
    } else if t == "arrowup"@ || t == "up"@ {
        Some(KeyId::Arrow(ArrowKey::Up))
    } else if t == "arrowdown"@ || t == "down"@ {
        Some(KeyId::Arrow(ArrowKey::Down))
    } else {
        None
    }
}

/// The characters of the words that `parse_key_label` reads as keys.
pub proof fn lemma_keyword_literals()
    ensures
        "grave"@ == seq!['g', 'r', 'a', 'v', 'e'],
        "`"@ == seq!['`'],
        "minus"@ == seq!['m', 'i', 'n', 'u', 's'],
        "-"@ == seq!['-'],
        "equal"@ == seq!['e', 'q', 'u', 'a', 'l'],
        "="@ == seq!['='],
        "leftbracket"@ == seq!['l', 'e', 'f', 't', 'b', 'r', 'a', 'c', 'k', 'e', 't'],
        "["@ == seq!['['],
        "rightbracket"@ == seq!['r', 'i', 'g', 'h', 't', 'b', 'r', 'a', 'c', 'k', 'e', 't'],
        "]"@ == seq![']'],
        "backslash"@ == seq!['b', 'a', 'c', 'k', 's', 'l', 'a', 's', 'h'],
        "\\"@ == seq!['\\'],
        "semicolon"@ == seq!['s', 'e', 'm', 'i', 'c', 'o', 'l', 'o', 'n'],
        ";"@ == seq![';'],
        "apostrophe"@ == seq!['a', 'p', 'o', 's', 't', 'r', 'o', 'p', 'h', 'e'],
        "'"@ == seq!['\''],
        "comma"@ == seq!['c', 'o', 'm', 'm', 'a'],
        ","@ == seq![','],
        "period"@ == seq!['p', 'e', 'r', 'i', 'o', 'd'],
        "dot"@ == seq!['d', 'o', 't'],
        "."@ == seq!['.'],
        "slash"@ == seq!['s', 'l', 'a', 's', 'h'],
        "/"@ == seq!['/'],
        "tab"@ == seq!['t', 'a', 'b'],
        "escape"@ == seq!['e', 's', 'c', 'a', 'p', 'e'],
        "capslock"@ == seq!['c', 'a', 'p', 's', 'l', 'o', 'c', 'k'],
        "delete"@ == seq!['d', 'e', 'l', 'e', 't', 'e'],
        "backspace"@ == seq!['b', 'a', 'c', 'k', 's', 'p', 'a', 'c', 'e'],
        "space"@ == seq!['s', 'p', 'a', 'c', 'e'],
        "spacebar"@ == seq!['s', 'p', 'a', 'c', 'e', 'b', 'a', 'r'],
        "enter"@ == seq!['e', 'n', 't', 'e', 'r'],
        "return"@ == seq!['r', 'e', 't', 'u', 'r', 'n'],
        "leftshift"@ == seq!['l', 'e', 'f', 't', 's', 'h', 'i', 'f', 't'],
        "rightshift"@ == seq!['r', 'i', 'g', 'h', 't', 's', 'h', 'i', 'f', 't'],
        "leftcontrol"@ == seq!['l', 'e', 'f', 't', 'c', 'o', 'n', 't', 'r', 'o', 'l'],
        "rightcontrol"@ == seq!['r', 'i', 'g', 'h', 't', 'c', 'o', 'n', 't', 'r', 'o', 'l'],
        "leftalt"@ == seq!['l', 'e', 'f', 't', 'a', 'l', 't'],
        "loption"@ == seq!['l', 'o', 'p', 't', 'i', 'o', 'n'],
        "rightalt"@ == seq!['r', 'i', 'g', 'h', 't', 'a', 'l', 't'],
        "roption"@ == seq!['r', 'o', 'p', 't', 'i', 'o', 'n'],
        "leftmeta"@ == seq!['l', 'e', 'f', 't', 'm', 'e', 't', 'a'],
        "command"@ == seq!['c', 'o', 'm', 'm', 'a', 'n', 'd'],
        "rightmeta"@ == seq!['r', 'i', 'g', 'h', 't', 'm', 'e', 't', 'a'],
        "rcommand"@ == seq!['r', 'c', 'o', 'm', 'm', 'a', 'n', 'd'],
        "arrowleft"@ == seq!['a', 'r', 'r', 'o', 'w', 'l', 'e', 'f', 't'],
        "left"@ == seq!['l', 'e', 'f', 't'],
        "arrowright"@ == seq!['a', 'r', 'r', 'o', 'w', 'r', 'i', 'g', 'h', 't'],
        "right"@ == seq!['r', 'i', 'g', 'h', 't'],
        "arrowup"@ == seq!['a', 'r', 'r', 'o', 'w', 'u', 'p'],
        "up"@ == seq!['u', 'p'],
        "arrowdown"@ == seq!['a', 'r', 'r', 'o', 'w', 'd', 'o', 'w', 'n'],
        "down"@ == seq!['d', 'o', 'w', 'n'],
{
    reveal_strlit("grave");
    reveal_strlit("`");
    reveal_strlit("minus");
    reveal_strlit("-");
    reveal_strlit("equal");
    reveal_strlit("=");
    reveal_strlit("leftbracket");
    reveal_strlit("[");
    reveal_strlit("rightbracket");
    reveal_strlit("]");
    reveal_strlit("backslash");
    reveal_strlit("\\");
    reveal_strlit("semicolon");
    reveal_strlit(";");
    reveal_strlit("apostrophe");
    reveal_strlit("'");
    reveal_strlit("comma");
    reveal_strlit(",");
    reveal_strlit("period");
    reveal_strlit("dot");
    reveal_strlit(".");
    reveal_strlit("slash");
    reveal_strlit("/");
    reveal_strlit("tab");
    reveal_strlit("escape");
    reveal_strlit("capslock");
    reveal_strlit("delete");
    reveal_strlit("backspace");
    reveal_strlit("space");
    reveal_strlit("spacebar");
    reveal_strlit("enter");
    reveal_strlit("return");
    reveal_strlit("leftshift");
    reveal_strlit("rightshift");
    reveal_strlit("leftcontrol");
    reveal_strlit("rightcontrol");
    reveal_strlit("leftalt");
    reveal_strlit("loption");
    reveal_strlit("rightalt");
    reveal_strlit("roption");
    reveal_strlit("leftmeta");
    reveal_strlit("command");
    reveal_strlit("rightmeta");
    reveal_strlit("rcommand");
    reveal_strlit("arrowleft");
    reveal_strlit("left");
    reveal_strlit("arrowright");
    reveal_strlit("right");
    reveal_strlit("arrowup");
    reveal_strlit("up");
    reveal_strlit("arrowdown");
    reveal_strlit("down");
}

fn keyword_key_of(t: &[char]) -> (r: Option<KeyId>)
    ensures
        r == keyword_key(t@),
{
    if chars_eq_str(t, "grave") || chars_eq_str(t, "`") {
        return Some(KeyId::Symbol(SymbolKey::Backtick));
    }
    if chars_eq_str(t, "minus") || chars_eq_str(t, "-") {
        return Some(KeyId::Symbol(SymbolKey::Minus));
    }
    if chars_eq_str(t, "equal") || chars_eq_str(t, "=") {
        return Some(KeyId::Symbol(SymbolKey::Equal));
    }
    if chars_eq_str(t, "leftbracket") || chars_eq_str(t, "[") {
        return Some(KeyId::Symbol(SymbolKey::LBracket));
    }
    if chars_eq_str(t, "rightbracket") || chars_eq_str(t, "]") {
        return Some(KeyId::Symbol(SymbolKey::RBracket));
    }
    if chars_eq_str(t, "backslash") || chars_eq_str(t, "\\") {
        return Some(KeyId::Symbol(SymbolKey::Backslash));
    }
    if chars_eq_str(t, "semicolon") || chars_eq_str(t, ";") {
        return Some(KeyId::Symbol(SymbolKey::Semicolon));
    }
    if chars_eq_str(t, "apostrophe") || chars_eq_str(t, "'") {
        return Some(KeyId::Symbol(SymbolKey::Quote));
    }
    if chars_eq_str(t, "comma") || chars_eq_str(t, ",") {
        return Some(KeyId::Symbol(SymbolKey::Comma));
    }
    if chars_eq_str(t, "period") || chars_eq_str(t, "dot") || chars_eq_str(t, ".") {
        return Some(KeyId::Symbol(SymbolKey::Period));
    }
    if chars_eq_str(t, "slash") || chars_eq_str(t, "/") {
        return Some(KeyId::Symbol(SymbolKey::Slash));
    }
    if chars_eq_str(t, "tab") {
        return Some(KeyId::Tab);
    }
    if chars_eq_str(t, "escape") {
        return Some(KeyId::Escape);
    }
    if chars_eq_str(t, "capslock") {
        return Some(KeyId::CapsLock);
    }
    if chars_eq_str(t, "delete") {
        return Some(KeyId::Delete);
    }
    if chars_eq_str(t, "backspace") {
        return Some(KeyId::Backspace);
    }
    if chars_eq_str(t, "space") || chars_eq_str(t, "spacebar") {
        return Some(KeyId::Space);
    }
    if chars_eq_str(t, "enter") || chars_eq_str(t, "return") {
        return Some(KeyId::Enter);
    }
    if chars_eq_str(t, "leftshift") {
        return Some(KeyId::ShiftL);
    }
    if chars_eq_str(t, "rightshift") {
        return Some(KeyId::ShiftR);
    }
    if chars_eq_str(t, "leftcontrol") {
        return Some(KeyId::CtrlL);
    }
    if chars_eq_str(t, "rightcontrol") {
        return Some(KeyId::CtrlR);
    }
    if chars_eq_str(t, "leftalt") || chars_eq_str(t, "loption") {
        return Some(KeyId::AltL);
    }
    if chars_eq_str(t, "rightalt") || chars_eq_str(t, "roption") {
        return Some(KeyId::AltR);
    }
    if chars_eq_str(t, "leftmeta") || chars_eq_str(t, "command") {
        return Some(KeyId::MetaL);
    }
    if chars_eq_str(t, "rightmeta") || chars_eq_str(t, "rcommand") {
        return Some(KeyId::MetaR);
    }
    if chars_eq_str(t, "arrowleft") || chars_eq_str(t, "left") {
        return Some(KeyId::Arrow(ArrowKey::Left));
    }
    if chars_eq_str(t, "arrowright") || chars_eq_str(t, "right") {
        return Some(KeyId::Arrow(ArrowKey::Right));
    }
    if chars_eq_str(t, "arrowup") || chars_eq_str(t, "up") {
        return Some(KeyId::Arrow(ArrowKey::Up));
    }
    if chars_eq_str(t, "arrowdown") || chars_eq_str(t, "down") {
        return Some(KeyId::Arrow(ArrowKey::Down));
    }
    None
}

/// The characters `k`, `e`, `y`.
pub open spec fn key_prefix() -> Seq<char> {
    seq!['k', 'e', 'y']
}

/// The digit that a label `key<n>` names, `n` read as a `u8` and at most 9.
pub open spec fn key_digit(t: Seq<char>) -> Option<u8> {
    if t.len() >= 3 && t.subrange(0, 3) == key_prefix() {
        match parse_unsigned(t.skip(3), 255) {
            Ok(n) => if n <= 9 {
                Some(n as u8)
            } else {
                None
            },
            Err(_) => None,
        }
    } else {
        None
    }
}

/// The key that a label of a key frequency file names, if it is one that
/// the optimizer places. Letters alone are not placed, digits alone are.
pub open spec fn spec_parse_key_label(label: Seq<char>) -> Option<KeyId> {
    let s = trim(label);
    if s.len() == 0 {
        None
    } else if s.len() == 1 && is_ascii_alpha(s[0]) {
        None
    } else if s.len() == 1 && is_ascii_digit(s[0]) {
        Some(KeyId::Digit(digit_value(s[0]) as u8))
    } else {
        let t = to_ascii_lower(s);
        match key_digit(t) {
            Some(n) => Some(KeyId::Digit(n)),
            None => keyword_key(t),
        }
    }
}

/// The key that a label names, if the optimizer places it.
///
/// The label is trimmed and read without regard to ASCII case. One ASCII
/// letter names no optimized key; one digit, or `key` and a digit, names
/// that digit; the other names are those of symbols, editing and modifier
/// keys and arrows.
pub fn parse_key_label(label: &str) -> (r: Option<KeyId>)
    ensures
        r == spec_parse_key_label(label@),
{
    let raw = chars_of(label);
    let s = trim_chars(raw.as_slice());
    if s.len() == 0 {
        return None;
    }
    if s.len() == 1 {
        let ch = s[0];
        if ('A' <= ch && ch <= 'Z') || ('a' <= ch && ch <= 'z') {
            return None;
        }
        if '0' <= ch && ch <= '9' {
            let d: u32 = (ch as u32) - ('0' as u32);
            return Some(KeyId::Digit(d as u8));
        }
    }
    let t = ascii_lower_chars(s.as_slice());
    if t.len() >= 3 && t[0] == 'k' && t[1] == 'e' && t[2] == 'y' {
        assert(t@.subrange(0, 3) =~= key_prefix());
        let mut rest: Vec<char> = Vec::new();
        let mut i: usize = 3;
        while i < t.len()
            invariant
                3 <= i <= t@.len(),
                rest@ == t@.subrange(3, i as int),
            decreases t@.len() - i,
        {
            rest.push(t[i]);
            i = i + 1;
            assert(rest@ =~= t@.subrange(3, i as int));
        }
        assert(rest@ =~= t@.skip(3));
        match parse_unsigned_chars(rest.as_slice(), 255) {
            Ok(n) => {
                if n <= 9 {
                    return Some(KeyId::Digit(n as u8));
                }
            },
            Err(_) => {},
        }
    } else {
        assert(!(t@.len() >= 3 && t@.subrange(0, 3) == key_prefix())) by {
            if t@.len() >= 3 && t@.subrange(0, 3) == key_prefix() {
                assert(t@[0] == t@.subrange(0, 3)[0]);
                assert(t@[1] == t@.subrange(0, 3)[1]);
                assert(t@[2] == t@.subrange(0, 3)[2]);
            }
        }
    }
    keyword_key_of(t.as_slice())
}

/// The arrow keys as one connected block of four.
#[derive(Debug, Clone, Copy, PartialEq, Eq, Hash, Structural)]
pub enum ArrowClusterId {
    Up,
    Down,
    Left,
    Right,
}

/// The arrow key that a member of the arrow block is.
pub open spec fn spec_arrow_key_id(a: ArrowClusterId) -> KeyId {
    match a {
        ArrowClusterId::Up => KeyId::Arrow(ArrowKey::Up),
        ArrowClusterId::Down => KeyId::Arrow(ArrowKey::Down),
        ArrowClusterId::Left => KeyId::Arrow(ArrowKey::Left),
        ArrowClusterId::Right => KeyId::Arrow(ArrowKey::Right),
    }
}

impl ArrowClusterId {
    /// The four arrow keys in their standard order: up, down, left, right.
    pub fn all() -> (r: [ArrowClusterId; 4])
        ensures
            r@ == seq![
                ArrowClusterId::Up,
                ArrowClusterId::Down,
                ArrowClusterId::Left,
                ArrowClusterId::Right,
            ],
    {
        let r = [ArrowClusterId::Up, ArrowClusterId::Down, ArrowClusterId::Left, ArrowClusterId::Right];
        assert(r@ =~= seq![
            ArrowClusterId::Up,
            ArrowClusterId::Down,
            ArrowClusterId::Left,
            ArrowClusterId::Right,
        ]);
        r
    }

    /// The key of this member of the arrow block.
    pub fn to_key_id(self) -> (r: KeyId)
        ensures
            r == spec_arrow_key_id(self),
    {
        match self {
            ArrowClusterId::Up => KeyId::Arrow(ArrowKey::Up),
            ArrowClusterId::Down => KeyId::Arrow(ArrowKey::Down),
            ArrowClusterId::Left => KeyId::Arrow(ArrowKey::Left),
            ArrowClusterId::Right => KeyId::Arrow(ArrowKey::Right),
        }
    }

    /// The member of the arrow block that a key is, if it is an arrow key.
    pub fn from_key_id(key_id: KeyId) -> (r: Option<ArrowClusterId>)
        ensures
            r matches Some(a) ==> spec_arrow_key_id(a) == key_id,
            r is None <==> !(key_id is Arrow),
    {
        match key_id {
            KeyId::Arrow(ArrowKey::Up) => Some(ArrowClusterId::Up),
            KeyId::Arrow(ArrowKey::Down) => Some(ArrowClusterId::Down),
            KeyId::Arrow(ArrowKey::Left) => Some(ArrowClusterId::Left),
            KeyId::Arrow(ArrowKey::Right) => Some(ArrowClusterId::Right),
            _ => None,
        }
    }
}

/// The digit keys as one connected block of ten, in the order 1..9, 0.
#[derive(Debug, Clone, Copy, PartialEq, Eq, Hash, Structural)]
pub enum DigitClusterId {
    One,
    Two,
    Three,
    Four,
    Five,
    Six,
    Seven,
    Eight,
    Nine,
    Zero,
}

/// The digit that a member of the digit block stands for.
pub open spec fn spec_digit_value(d: DigitClusterId) -> u8 {
    match d {
        DigitClusterId::One => 1,
        DigitClusterId::Two => 2,
        DigitClusterId::Three => 3,
        DigitClusterId::Four => 4,
        DigitClusterId::Five => 5,
        DigitClusterId::Six => 6,
        DigitClusterId::Seven => 7,
        DigitClusterId::Eight => 8,
        DigitClusterId::Nine => 9,
        DigitClusterId::Zero => 0,
    }
}

/// The position of a member in the digit block: 1 first, 0 last.
pub open spec fn spec_sequence_index(d: DigitClusterId) -> usize {
    match d {
        DigitClusterId::One => 0,
        DigitClusterId::Two => 1,
        DigitClusterId::Three => 2,
        DigitClusterId::Four => 3,
        DigitClusterId::Five => 4,
        DigitClusterId::Six => 5,
        DigitClusterId::Seven => 6,
        DigitClusterId::Eight => 7,
        DigitClusterId::Nine => 8,
        DigitClusterId::Zero => 9,
    }
}

/// The members of the digit block in their order.
pub open spec fn spec_digit_sequence() -> Seq<DigitClusterId> {
    seq![
        DigitClusterId::One,
        DigitClusterId::Two,
        DigitClusterId::Three,
        DigitClusterId::Four,
        DigitClusterId::Five,
        DigitClusterId::Six,
        DigitClusterId::Seven,
        DigitClusterId::Eight,
        DigitClusterId::Nine,
        DigitClusterId::Zero,
    ]
}

impl DigitClusterId {
    /// The ten digit keys in their fixed order 1, 2, ..., 9, 0.
    pub fn sequence() -> (r: [DigitClusterId; 10])
        ensures
            r@ == spec_digit_sequence(),
    {
        let r = [
            DigitClusterId::One,
            DigitClusterId::Two,
            DigitClusterId::Three,
            DigitClusterId::Four,
            DigitClusterId::Five,
            DigitClusterId::Six,
            DigitClusterId::Seven,
            DigitClusterId::Eight,
            DigitClusterId::Nine,
            DigitClusterId::Zero,
        ];
        assert(r@ =~= spec_digit_sequence());
        r
    }

    /// The key of this member of the digit block.
    pub fn to_key_id(self) -> (r: KeyId)
        ensures
            r == KeyId::Digit(spec_digit_value(self)),
    {
        let v: u8 = match self {
            DigitClusterId::One => 1,
            DigitClusterId::Two => 2,
            DigitClusterId::Three => 3,
            DigitClusterId::Four => 4,
            DigitClusterId::Five => 5,
            DigitClusterId::Six => 6,
            DigitClusterId::Seven => 7,
            DigitClusterId::Eight => 8,
            DigitClusterId::Nine => 9,
            DigitClusterId::Zero => 0,
        };
        KeyId::Digit(v)
    }

    /// The member of the digit block that a key is, if it is a digit 0..=9.
    pub fn from_key_id(key_id: KeyId) -> (r: Option<DigitClusterId>)
        ensures
            r matches Some(d) ==> KeyId::Digit(spec_digit_value(d)) == key_id,
            r is None <==> !(key_id matches KeyId::Digit(n) && n <= 9),
    {
        match key_id {
            KeyId::Digit(1) => Some(DigitClusterId::One),
            KeyId::Digit(2) => Some(DigitClusterId::Two),
            KeyId::Digit(3) => Some(DigitClusterId::Three),
            KeyId::Digit(4) => Some(DigitClusterId::Four),
            KeyId::Digit(5) => Some(DigitClusterId::Five),
            KeyId::Digit(6) => Some(DigitClusterId::Six),
            KeyId::Digit(7) => Some(DigitClusterId::Seven),
            KeyId::Digit(8) => Some(DigitClusterId::Eight),
            KeyId::Digit(9) => Some(DigitClusterId::Nine),
            KeyId::Digit(0) => Some(DigitClusterId::Zero),
            _ => None,
        }
    }

    /// The position of this member in the block, 0..=9.
    pub fn sequence_index(self) -> (r: usize)
        ensures
            r == spec_sequence_index(self),
            spec_digit_sequence()[r as int] == self,
    {
        match self {
            DigitClusterId::One => 0,
            DigitClusterId::Two => 1,
            DigitClusterId::Three => 2,
            DigitClusterId::Four => 3,
            DigitClusterId::Five => 4,
            DigitClusterId::Six => 5,
            DigitClusterId::Seven => 6,
            DigitClusterId::Eight => 7,
            DigitClusterId::Nine => 8,
            DigitClusterId::Zero => 9,
        }
    }
}

/// Settings of the arrow and digit blocks.
#[derive(Debug, Clone)]
pub struct ClusterConfig {
    /// Place the arrow keys as a block.
    pub enable_arrows: bool,
    /// Place the digit keys as a block.
    pub enable_digits: bool,
    /// Keep the digits in the order 1, 2, ..., 9, 0.
    pub enforce_digit_sequence: bool,
    /// Rows where the blocks may stand (0-based).
    pub allowed_rows: Vec<usize>,
    /// Place the blocks in one row.
    pub enforce_horizontal: bool,
    /// Align the left edges of all rows.
    pub align_left_edge: bool,
    /// Align the right edges of all rows.
    pub align_right_edge: bool,
}

impl Default for ClusterConfig {
    fn default() -> (r: Self)
        ensures
            r.enable_arrows,
            r.enable_digits,
            r.enforce_digit_sequence,
            r.allowed_rows@ == seq![0usize, 1usize],
            !r.enforce_horizontal,
            !r.align_left_edge,
            !r.align_right_edge,
    {
        let mut rows: Vec<usize> = Vec::new();
        rows.push(0);
        rows.push(1);
        assert(rows@ =~= seq![0usize, 1usize]);
        ClusterConfig {
            enable_arrows: true,
            enable_digits: true,
            enforce_digit_sequence: true,
            allowed_rows: rows,
            enforce_horizontal: false,
            align_left_edge: false,
            align_right_edge: false,
        }
    }
}

/// The digit keys 0..=9.
pub open spec fn digit_keys() -> Seq<KeyId> {
    Seq::new(10, |i: int| KeyId::Digit(i as u8))
}

/// The symbol keys in their order.
pub open spec fn symbol_keys() -> Seq<KeyId> {
    seq![
        KeyId::Symbol(SymbolKey::Backtick),
        KeyId::Symbol(SymbolKey::Minus),
        KeyId::Symbol(SymbolKey::Equal),
        KeyId::Symbol(SymbolKey::LBracket),
        KeyId::Symbol(SymbolKey::RBracket),
        KeyId::Symbol(SymbolKey::Backslash),
        KeyId::Symbol(SymbolKey::Semicolon),
        KeyId::Symbol(SymbolKey::Quote),
        KeyId::Symbol(SymbolKey::Comma),
        KeyId::Symbol(SymbolKey::Period),
        KeyId::Symbol(SymbolKey::Slash),
    ]
}

/// The editing and modifier keys in their order.
pub open spec fn named_keys() -> Seq<KeyId> {
    seq![
        KeyId::Tab,
        KeyId::Escape,
        KeyId::CapsLock,
        KeyId::Delete,
        KeyId::Backspace,
        KeyId::Space,
        KeyId::Enter,
        KeyId::ShiftL,
        KeyId::ShiftR,
        KeyId::CtrlL,
        KeyId::CtrlR,
        KeyId::AltL,
        KeyId::AltR,
        KeyId::MetaL,
        KeyId::MetaR,
    ]
}

/// The function keys F1..=F12.
pub open spec fn function_keys() -> Seq<KeyId> {
    Seq::new(DEFAULT_FKEYS_MAX as nat, |i: int| KeyId::Function((i + 1) as u8))
}

/// The arrow keys in the order left, down, up, right.
pub open spec fn arrow_keys() -> Seq<KeyId> {
    seq![
        KeyId::Arrow(ArrowKey::Left),
        KeyId::Arrow(ArrowKey::Down),
        KeyId::Arrow(ArrowKey::Up),
        KeyId::Arrow(ArrowKey::Right),
    ]
}

/// The keys that the optimizer places without the arrows: the digits when
/// they are placed, the symbols, the editing and modifier keys, and the
/// function keys when they are placed.
pub open spec fn movable_keys_without_arrows(include_digits: bool, include_fkeys: bool) -> Seq<
    KeyId,
> {
    (if include_digits {
        digit_keys()
    } else {
        Seq::empty()
    }) + symbol_keys() + named_keys() + (if include_fkeys {
        function_keys()
    } else {
        Seq::empty()
    })
}

/// The keys that the optimizer places, arrows last.
pub open spec fn spec_all_movable_keys(include_digits: bool, include_fkeys: bool) -> Seq<KeyId> {
    movable_keys_without_arrows(include_digits, include_fkeys) + arrow_keys()
}

/// Appends the keys `ks` to `v`.
fn push_all(v: &mut Vec<KeyId>, ks: &[KeyId])
    ensures
        final(v)@ == old(v)@ + ks@,
{
    let mut i: usize = 0;
    while i < ks.len()
        invariant
            i <= ks@.len(),
            v@ == old(v)@ + ks@.subrange(0, i as int),
        decreases ks@.len() - i,
    {
        v.push(ks[i]);
        i = i + 1;
        assert(v@ =~= old(v)@ + ks@.subrange(0, i as int));
    }
    assert(ks@.subrange(0, ks@.len() as int) =~= ks@);
}

/// The placed keys without the arrows.
pub fn movable_keys_no_arrows(include_digits: bool, include_fkeys: bool) -> (v: Vec<KeyId>)
    ensures
        v@ == movable_keys_without_arrows(include_digits, include_fkeys),
{
    let mut v: Vec<KeyId> = Vec::new();
    if include_digits {
        let mut d: u8 = 0;
        while d <= 9
            invariant
                d <= 10,
                v@ == digit_keys().subrange(0, d as int),
            decreases 10 - d,
        {
            v.push(KeyId::Digit(d));
            d = d + 1;
            assert(v@ =~= digit_keys().subrange(0, d as int));
        }
        assert(v@ =~= digit_keys());
    }
    let ghost before_symbols = v@;
    let symbols = [KeyId::Symbol(SymbolKey::Backtick), KeyId::Symbol(SymbolKey::Minus), KeyId::Symbol(SymbolKey::Equal), KeyId::Symbol(SymbolKey::LBracket), KeyId::Symbol(SymbolKey::RBracket), KeyId::Symbol(SymbolKey::Backslash), KeyId::Symbol(SymbolKey::Semicolon), KeyId::Symbol(SymbolKey::Quote), KeyId::Symbol(SymbolKey::Comma), KeyId::Symbol(SymbolKey::Period), KeyId::Symbol(SymbolKey::Slash)];
    assert(symbols@ =~= symbol_keys());
    push_all(&mut v, &symbols);
    let named = [KeyId::Tab, KeyId::Escape, KeyId::CapsLock, KeyId::Delete, KeyId::Backspace, KeyId::Space, KeyId::Enter, KeyId::ShiftL, KeyId::ShiftR, KeyId::CtrlL, KeyId::CtrlR, KeyId::AltL, KeyId::AltR, KeyId::MetaL, KeyId::MetaR];
    assert(named@ =~= named_keys());
    push_all(&mut v, &named);
    let ghost before_fkeys = v@;
    if include_fkeys {
        let mut n: u8 = 1;
        while n <= DEFAULT_FKEYS_MAX
            invariant
                1 <= n <= DEFAULT_FKEYS_MAX + 1,
                v@ == before_fkeys + function_keys().subrange(0, n - 1),
            decreases DEFAULT_FKEYS_MAX + 1 - n,
        {
            v.push(KeyId::Function(n));
            n = n + 1;
            assert(v@ =~= before_fkeys + function_keys().subrange(0, n - 1));
        }
        assert(function_keys().subrange(0, DEFAULT_FKEYS_MAX as int) =~= function_keys());
    }
    assert(v@ =~= movable_keys_without_arrows(include_digits, include_fkeys));
    v
}

/// The keys that the optimizer places: the digits when they are placed,
/// the symbols, the editing and modifier keys, the function keys when they
/// are placed, and the four arrows.
pub fn all_movable_keys(config: &Config) -> (v: Vec<KeyId>)
    ensures
        v@ == spec_all_movable_keys(config.solver.include_digits, config.solver.include_fkeys),
{
    let mut v = movable_keys_no_arrows(config.solver.include_digits, config.solver.include_fkeys);
    let arrows = [
        KeyId::Arrow(ArrowKey::Left),
        KeyId::Arrow(ArrowKey::Down),
        KeyId::Arrow(ArrowKey::Up),
        KeyId::Arrow(ArrowKey::Right),
    ];
    assert(arrows@ =~= arrow_keys());
    push_all(&mut v, &arrows);
    v
}

/// The name under which each key is shown.
/// The name of a LetterKey key.
pub open spec fn letter_name(k: LetterKey) -> Seq<char> {
    match k {
        LetterKey::A => "A"@,
        LetterKey::B => "B"@,
        LetterKey::C => "C"@,
        LetterKey::D => "D"@,
        LetterKey::E => "E"@,
        LetterKey::F => "F"@,
        LetterKey::G => "G"@,
        LetterKey::H => "H"@,
        LetterKey::I => "I"@,
        LetterKey::J => "J"@,
        LetterKey::K => "K"@,
        LetterKey::L => "L"@,
        LetterKey::M => "M"@,
        LetterKey::N => "N"@,
        LetterKey::O => "O"@,
        LetterKey::P => "P"@,
        LetterKey::Q => "Q"@,
        LetterKey::R => "R"@,
        LetterKey::S => "S"@,
        LetterKey::T => "T"@,
        LetterKey::U => "U"@,
        LetterKey::V => "V"@,
        LetterKey::W => "W"@,
        LetterKey::X => "X"@,
        LetterKey::Y => "Y"@,
        LetterKey::Z => "Z"@,
    }
}

/// The name of a SymbolKey key.
pub open spec fn symbol_name(k: SymbolKey) -> Seq<char> {
    match k {
        SymbolKey::Backtick => "Backtick"@,
        SymbolKey::Minus => "Minus"@,
        SymbolKey::Equal => "Equal"@,
        SymbolKey::LBracket => "LBracket"@,
        SymbolKey::RBracket => "RBracket"@,
        SymbolKey::Backslash => "Backslash"@,
        SymbolKey::Semicolon => "Semicolon"@,
        SymbolKey::Quote => "Quote"@,
        SymbolKey::Comma => "Comma"@,
        SymbolKey::Period => "Period"@,
        SymbolKey::Slash => "Slash"@,
    }
}

/// The name of a ArrowKey key.
pub open spec fn arrow_name(k: ArrowKey) -> Seq<char> {
    match k {
        ArrowKey::Left => "Left"@,
        ArrowKey::Down => "Down"@,
        ArrowKey::Up => "Up"@,
        ArrowKey::Right => "Right"@,
    }
}

/// The name of a ModifierKey key.
pub open spec fn modifier_name(k: ModifierKey) -> Seq<char> {
    match k {
        ModifierKey::Layer1 => "Layer1"@,
        ModifierKey::Layer2 => "Layer2"@,
        ModifierKey::Layer3 => "Layer3"@,
    }
}

/// The name of a LetterKey key.
fn letter_str(k: LetterKey) -> (r: &'static str)
    ensures
        r@ == letter_name(k),
{
    match k {
        LetterKey::A => "A",
        LetterKey::B => "B",
        LetterKey::C => "C",
        LetterKey::D => "D",
        LetterKey::E => "E",
        LetterKey::F => "F",
        LetterKey::G => "G",
        LetterKey::H => "H",
        LetterKey::I => "I",
        LetterKey::J => "J",
        LetterKey::K => "K",
        LetterKey::L => "L",
        LetterKey::M => "M",
        LetterKey::N => "N",
        LetterKey::O => "O",
        LetterKey::P => "P",
        LetterKey::Q => "Q",
        LetterKey::R => "R",
        LetterKey::S => "S",
        LetterKey::T => "T",
        LetterKey::U => "U",
        LetterKey::V => "V",
        LetterKey::W => "W",
        LetterKey::X => "X",
        LetterKey::Y => "Y",
        LetterKey::Z => "Z",
    }
}

/// The name of a SymbolKey key.
fn symbol_str(k: SymbolKey) -> (r: &'static str)
    ensures
        r@ == symbol_name(k),
{
    match k {
        SymbolKey::Backtick => "Backtick",
        SymbolKey::Minus => "Minus",
        SymbolKey::Equal => "Equal",
        SymbolKey::LBracket => "LBracket",
        SymbolKey::RBracket => "RBracket",
        SymbolKey::Backslash => "Backslash",
        SymbolKey::Semicolon => "Semicolon",
        SymbolKey::Quote => "Quote",
        SymbolKey::Comma => "Comma",
        SymbolKey::Period => "Period",
        SymbolKey::Slash => "Slash",
    }
}

/// The name of a ArrowKey key.
fn arrow_str(k: ArrowKey) -> (r: &'static str)
    ensures
        r@ == arrow_name(k),
{
    match k {
        ArrowKey::Left => "Left",
        ArrowKey::Down => "Down",
        ArrowKey::Up => "Up",
        ArrowKey::Right => "Right",
    }
}

/// The name of a ModifierKey key.
fn modifier_str(k: ModifierKey) -> (r: &'static str)
    ensures
        r@ == modifier_name(k),
{
    match k {
        ModifierKey::Layer1 => "Layer1",
        ModifierKey::Layer2 => "Layer2",
        ModifierKey::Layer3 => "Layer3",
    }
}

/// The name under which a key is shown: a letter, a number, the name of
/// a symbol or of an editing key, `F` and the number of a function key,
/// `Arrow` and the direction of an arrow key.
pub open spec fn key_display(k: KeyId) -> Seq<char> {
    match k {
        KeyId::Letter(l) => letter_name(l),
        KeyId::Digit(d) => decimal_chars(d as nat),
        KeyId::Symbol(s) => symbol_name(s),
        KeyId::Function(n) => "F"@ + decimal_chars(n as nat),
        KeyId::Arrow(a) => "Arrow"@ + arrow_name(a),
        KeyId::Modifier(m) => "Modifier"@ + modifier_name(m),
        KeyId::NumpadDigit(d) => "Numpad"@ + decimal_chars(d as nat),
        KeyId::Tab => "Tab"@,
        KeyId::Escape => "Escape"@,
        KeyId::CapsLock => "CapsLock"@,
        KeyId::Delete => "Delete"@,
        KeyId::Backspace => "Backspace"@,
        KeyId::Space => "Space"@,
        KeyId::Enter => "Enter"@,
        KeyId::ShiftL => "LeftShift"@,
        KeyId::ShiftR => "RightShift"@,
        KeyId::CtrlL => "LeftControl"@,
        KeyId::CtrlR => "RightControl"@,
        KeyId::AltL => "LeftAlt"@,
        KeyId::AltR => "RightAlt"@,
        KeyId::MetaL => "LeftMeta"@,
        KeyId::MetaR => "RightMeta"@,
        KeyId::Home => "Home"@,
        KeyId::End => "End"@,
        KeyId::PageUp => "PageUp"@,
        KeyId::PageDown => "PageDown"@,
        KeyId::Insert => "Insert"@,
        KeyId::NumpadAdd => "NumpadAdd"@,
        KeyId::NumpadSubtract => "NumpadSubtract"@,
        KeyId::NumpadMultiply => "NumpadMultiply"@,
        KeyId::NumpadDivide => "NumpadDivide"@,
        KeyId::NumpadEnter => "NumpadEnter"@,
        KeyId::NumpadEquals => "NumpadEquals"@,
        KeyId::NumpadDecimal => "NumpadDecimal"@,
    }
}

impl KeyId {
    /// The name under which the key is shown.
    pub fn to_display_string(&self) -> (r: String)
        ensures
            r@ == key_display(*self),
    {
        proof {
            reveal_strlit("");
        }
        match *self {
            KeyId::Letter(l) => concat3(letter_str(l), "", ""),
            KeyId::Digit(d) => decimal_string(d as u64),
            KeyId::Symbol(s) => concat3(symbol_str(s), "", ""),
            KeyId::Function(n) => concat3("F", decimal_string(n as u64).as_str(), ""),
            KeyId::Arrow(a) => concat3("Arrow", arrow_str(a), ""),
            KeyId::Modifier(m) => concat3("Modifier", modifier_str(m), ""),
            KeyId::NumpadDigit(d) => concat3("Numpad", decimal_string(d as u64).as_str(), ""),
            KeyId::Tab => concat3("Tab", "", ""),
            KeyId::Escape => concat3("Escape", "", ""),
            KeyId::CapsLock => concat3("CapsLock", "", ""),
            KeyId::Delete => concat3("Delete", "", ""),
            KeyId::Backspace => concat3("Backspace", "", ""),
            KeyId::Space => concat3("Space", "", ""),
            KeyId::Enter => concat3("Enter", "", ""),
            KeyId::ShiftL => concat3("LeftShift", "", ""),
            KeyId::ShiftR => concat3("RightShift", "", ""),
            KeyId::CtrlL => concat3("LeftControl", "", ""),
            KeyId::CtrlR => concat3("RightControl", "", ""),
            KeyId::AltL => concat3("LeftAlt", "", ""),
            KeyId::AltR => concat3("RightAlt", "", ""),
            KeyId::MetaL => concat3("LeftMeta", "", ""),
            KeyId::MetaR => concat3("RightMeta", "", ""),
            KeyId::Home => concat3("Home", "", ""),
            KeyId::End => concat3("End", "", ""),
            KeyId::PageUp => concat3("PageUp", "", ""),
            KeyId::PageDown => concat3("PageDown", "", ""),
            KeyId::Insert => concat3("Insert", "", ""),
            KeyId::NumpadAdd => concat3("NumpadAdd", "", ""),
            KeyId::NumpadSubtract => concat3("NumpadSubtract", "", ""),
            KeyId::NumpadMultiply => concat3("NumpadMultiply", "", ""),
            KeyId::NumpadDivide => concat3("NumpadDivide", "", ""),
            KeyId::NumpadEnter => concat3("NumpadEnter", "", ""),
            KeyId::NumpadEquals => concat3("NumpadEquals", "", ""),
            KeyId::NumpadDecimal => concat3("NumpadDecimal", "", ""),
        }
    }
}

/// Different members of the arrow block are different arrow keys, so a
/// member is found again from its key.
pub proof fn lemma_arrow_cluster_round_trip(a: ArrowClusterId, b: ArrowClusterId)
    ensures
        spec_arrow_key_id(a) is Arrow,
        spec_arrow_key_id(a) == spec_arrow_key_id(b) ==> a == b,
{
}

/// Different members of the digit block are different digits 0..=9, and
/// each stands at its own position of the block's order.
pub proof fn lemma_digit_cluster_round_trip(d: DigitClusterId, e: DigitClusterId)
    ensures
        spec_digit_value(d) <= 9,
        spec_digit_value(d) == spec_digit_value(e) ==> d == e,
        spec_sequence_index(d) < 10,
        spec_digit_sequence()[spec_sequence_index(d) as int] == d,
{
}

/// The name shown for a letter or digit key is the name that
/// `str_to_keyid` reads as that key.
pub proof fn lemma_fixed_name_round_trip(k: KeyId)
    requires
        k is Letter || (k matches KeyId::Digit(d) && d <= 9),
    ensures
        spec_str_to_keyid(key_display(k)) == Some(k),
{
    match k {
        KeyId::Letter(l) => {
            reveal_strlit("A");
            reveal_strlit("B");
            reveal_strlit("C");
            reveal_strlit("D");
            reveal_strlit("E");
            reveal_strlit("F");
            reveal_strlit("G");
            reveal_strlit("H");
            reveal_strlit("I");
            reveal_strlit("J");
            reveal_strlit("K");
            reveal_strlit("L");
            reveal_strlit("M");
            reveal_strlit("N");
            reveal_strlit("O");
            reveal_strlit("P");
            reveal_strlit("Q");
            reveal_strlit("R");
            reveal_strlit("S");
            reveal_strlit("T");
            reveal_strlit("U");
            reveal_strlit("V");
            reveal_strlit("W");
            reveal_strlit("X");
            reveal_strlit("Y");
            reveal_strlit("Z");
        },
        KeyId::Digit(d) => {
            assert(decimal_chars(d as nat).len() == 1);
        },
        _ => {},
    }
}

/// A label is read the same with blanks around it.
pub proof fn lemma_parse_key_label_trims(label: Seq<char>)
    ensures
        spec_parse_key_label(trim(label)) == spec_parse_key_label(label),
{
    crate::text::lemma_trim_idempotent(label);
}

/// Whether the name under which `k` is shown is read back as `k`: a digit,
/// an arrow, an editing key, a modifier, or a symbol whose shown name is
/// one of the words of the labels (not the backtick, the brackets or the
/// quote, shown as `Backtick`, `LBracket`, `RBracket` and `Quote`).
pub open spec fn shown_name_reads_back(k: KeyId) -> bool {
    match k {
        KeyId::Digit(n) => n <= 9,
        KeyId::Arrow(_) => true,
        KeyId::Symbol(s) => !(s is Backtick || s is LBracket || s is RBracket || s is Quote),
        KeyId::Tab => true,
        KeyId::Escape => true,
        KeyId::CapsLock => true,
        KeyId::Delete => true,
        KeyId::Backspace => true,
        KeyId::Space => true,
        KeyId::Enter => true,
        KeyId::ShiftL => true,
        KeyId::ShiftR => true,
        KeyId::CtrlL => true,
        KeyId::CtrlR => true,
        KeyId::AltL => true,
        KeyId::AltR => true,
        KeyId::MetaL => true,
        KeyId::MetaR => true,
        _ => false,
    }
}

proof fn lemma_shown_word_reads_back(k: KeyId)
    requires
        shown_name_reads_back(k),
        !(k is Digit),
        !(k is Arrow),
        !(k is Symbol),
    ensures
        spec_parse_key_label(key_display(k)) == Some(k),
{
    lemma_keyword_literals();
    match k {
        KeyId::Tab => {
            reveal_strlit("Tab");
            assert(to_ascii_lower("Tab"@) =~= "tab"@);
        },
        KeyId::Escape => {
            reveal_strlit("Escape");
            assert(to_ascii_lower("Escape"@) =~= "escape"@);
        },
        KeyId::CapsLock => {
            reveal_strlit("CapsLock");
            assert(to_ascii_lower("CapsLock"@) =~= "capslock"@);
        },
        KeyId::Delete => {
            reveal_strlit("Delete");
            assert(to_ascii_lower("Delete"@) =~= "delete"@);
        },
        KeyId::Backspace => {
            reveal_strlit("Backspace");
            assert(to_ascii_lower("Backspace"@) =~= "backspace"@);
        },
        KeyId::Space => {
            reveal_strlit("Space");
            assert(to_ascii_lower("Space"@) =~= "space"@);
        },
        KeyId::Enter => {
            reveal_strlit("Enter");
            assert(to_ascii_lower("Enter"@) =~= "enter"@);
        },
        KeyId::ShiftL => {
            reveal_strlit("LeftShift");
            assert(to_ascii_lower("LeftShift"@) =~= "leftshift"@);
        },
        KeyId::ShiftR => {
            reveal_strlit("RightShift");
            assert(to_ascii_lower("RightShift"@) =~= "rightshift"@);
        },
        KeyId::CtrlL => {
            reveal_strlit("LeftControl");
            assert(to_ascii_lower("LeftControl"@) =~= "leftcontrol"@);
        },
        KeyId::CtrlR => {
            reveal_strlit("RightControl");
            assert(to_ascii_lower("RightControl"@) =~= "rightcontrol"@);
        },
        KeyId::AltL => {
            reveal_strlit("LeftAlt");
            assert(to_ascii_lower("LeftAlt"@) =~= "leftalt"@);
        },
        KeyId::AltR => {
            reveal_strlit("RightAlt");
            assert(to_ascii_lower("RightAlt"@) =~= "rightalt"@);
        },
        KeyId::MetaL => {
            reveal_strlit("LeftMeta");
            assert(to_ascii_lower("LeftMeta"@) =~= "leftmeta"@);
        },
        KeyId::MetaR => {
            reveal_strlit("RightMeta");
            assert(to_ascii_lower("RightMeta"@) =~= "rightmeta"@);
        },
        _ => {},
    }
}

proof fn lemma_shown_symbol_reads_back(s: SymbolKey)
    requires
        shown_name_reads_back(KeyId::Symbol(s)),
    ensures
        spec_parse_key_label(key_display(KeyId::Symbol(s))) == Some(KeyId::Symbol(s)),
{
    lemma_keyword_literals();
    match s {
        SymbolKey::Minus => {
            reveal_strlit("Minus");
            assert(to_ascii_lower("Minus"@) =~= "minus"@);
        },
        SymbolKey::Equal => {
            reveal_strlit("Equal");
            assert(to_ascii_lower("Equal"@) =~= "equal"@);
        },
        SymbolKey::Backslash => {
            reveal_strlit("Backslash");
            assert(to_ascii_lower("Backslash"@) =~= "backslash"@);
        },
        SymbolKey::Semicolon => {
            reveal_strlit("Semicolon");
            assert(to_ascii_lower("Semicolon"@) =~= "semicolon"@);
        },
        SymbolKey::Comma => {
            reveal_strlit("Comma");
            assert(to_ascii_lower("Comma"@) =~= "comma"@);
        },
        SymbolKey::Period => {
            reveal_strlit("Period");
            assert(to_ascii_lower("Period"@) =~= "period"@);
        },
        SymbolKey::Slash => {
            reveal_strlit("Slash");
            assert(to_ascii_lower("Slash"@) =~= "slash"@);
        },
        _ => {},
    }
}

proof fn lemma_shown_arrow_reads_back(a: ArrowKey)
    ensures
        spec_parse_key_label(key_display(KeyId::Arrow(a))) == Some(KeyId::Arrow(a)),
{
    lemma_keyword_literals();
    reveal_strlit("Arrow");
    match a {
        ArrowKey::Left => {
            reveal_strlit("Left");
            assert(to_ascii_lower("Arrow"@ + "Left"@) =~= "arrowleft"@);
        },
        ArrowKey::Down => {
            reveal_strlit("Down");
            assert(to_ascii_lower("Arrow"@ + "Down"@) =~= "arrowdown"@);
        },
        ArrowKey::Up => {
            reveal_strlit("Up");
            assert(to_ascii_lower("Arrow"@ + "Up"@) =~= "arrowup"@);
        },
        ArrowKey::Right => {
            reveal_strlit("Right");
            assert(to_ascii_lower("Arrow"@ + "Right"@) =~= "arrowright"@);
        },
    }
}

/// The name under which a digit, arrow, editing or modifier key, or a
/// symbol shown under a label word, is shown is read back as that key.
pub proof fn lemma_shown_name_reads_back(k: KeyId)
    requires
        shown_name_reads_back(k),
    ensures
        spec_parse_key_label(key_display(k)) == Some(k),
{
    match k {
        KeyId::Digit(n) => {
            assert(key_display(k) == seq![digit_char(n as nat)]);
            assert(trim(key_display(k)) == key_display(k));
        },
        KeyId::Arrow(a) => lemma_shown_arrow_reads_back(a),
        KeyId::Symbol(s) => lemma_shown_symbol_reads_back(s),
        _ => lemma_shown_word_reads_back(k),
    }
}

/// Reading a label does not depend on the ASCII case of its letters or on
/// white space around it.
pub proof fn lemma_parse_key_label_ignores_case_and_blanks(label: Seq<char>, w1: Seq<char>, w2: Seq<char>)
    requires
        forall|i: int| 0 <= i < w1.len() ==> is_white_space(#[trigger] w1[i]),
        forall|i: int| 0 <= i < w2.len() ==> is_white_space(#[trigger] w2[i]),
    ensures
        spec_parse_key_label(to_ascii_lower(label)) == spec_parse_key_label(label),
        spec_parse_key_label(to_ascii_upper(label)) == spec_parse_key_label(label),
        spec_parse_key_label(w1 + label + w2) == spec_parse_key_label(label),
{
    let s = trim(label);
    lemma_trim_case(label);
    lemma_trim_padded(label, w1, w2);
    let lo = to_ascii_lower(s);
    let up = to_ascii_upper(s);
    if s.len() == 1 {
        lemma_case_char(s[0]);
    }
    assert(to_ascii_lower(lo) =~= to_ascii_lower(s)) by {
        assert forall|i: int| 0 <= i < s.len() implies #[trigger] to_ascii_lower(lo)[i] == to_ascii_lower(s)[i] by {
            lemma_case_char(s[i]);
        }
    }
    assert(to_ascii_lower(up) =~= to_ascii_lower(s)) by {
        assert forall|i: int| 0 <= i < s.len() implies #[trigger] to_ascii_lower(up)[i] == to_ascii_lower(s)[i] by {
            lemma_case_char(s[i]);
        }
    }
}

/// The character that a symbol key carries on a US keyboard.
pub open spec fn symbol_char(s: SymbolKey) -> char {
    match s {
        SymbolKey::Backtick => '`',
        SymbolKey::Minus => '-',
        SymbolKey::Equal => '=',
        SymbolKey::LBracket => '[',
        SymbolKey::RBracket => ']',
        SymbolKey::Backslash => '\\',
        SymbolKey::Semicolon => ';',
        SymbolKey::Quote => '\'',
        SymbolKey::Comma => ',',
        SymbolKey::Period => '.',
        SymbolKey::Slash => '/',
    }
}

/// The word that names a symbol key in a key label.
pub open spec fn symbol_word(s: SymbolKey) -> Seq<char> {
    match s {
        SymbolKey::Backtick => "grave"@,
        SymbolKey::Minus => "minus"@,
        SymbolKey::Equal => "equal"@,
        SymbolKey::LBracket => "leftbracket"@,
        SymbolKey::RBracket => "rightbracket"@,
        SymbolKey::Backslash => "backslash"@,
        SymbolKey::Semicolon => "semicolon"@,
        SymbolKey::Quote => "apostrophe"@,
        SymbolKey::Comma => "comma"@,
        SymbolKey::Period => "period"@,
        SymbolKey::Slash => "slash"@,
    }
}

/// A symbol key is read from its character and from its word alike: the
/// one-character label of the character that the key carries on a US
/// keyboard and the label of its word both read as that key, in any ASCII
/// case.
pub proof fn lemma_symbol_labels_read_as_their_key(s: SymbolKey)
    ensures
        spec_parse_key_label(seq![symbol_char(s)]) == Some(KeyId::Symbol(s)),
        spec_parse_key_label(symbol_word(s)) == Some(KeyId::Symbol(s)),
        spec_parse_key_label(seq![symbol_char(s)]) == spec_parse_key_label(symbol_word(s)),
{
    lemma_keyword_literals();
    let c = seq![symbol_char(s)];
    assert(trim(c) == c);
    assert(to_ascii_lower(c) =~= c);
    match s {
        SymbolKey::Backtick => {
            reveal_strlit("grave");
            assert(to_ascii_lower("grave"@) =~= "grave"@);
        },
        SymbolKey::Minus => {
            reveal_strlit("minus");
            assert(to_ascii_lower("minus"@) =~= "minus"@);
        },
        SymbolKey::Equal => {
            reveal_strlit("equal");
            assert(to_ascii_lower("equal"@) =~= "equal"@);
        },
        SymbolKey::LBracket => {
            reveal_strlit("leftbracket");
            assert(to_ascii_lower("leftbracket"@) =~= "leftbracket"@);
        },
        SymbolKey::RBracket => {
            reveal_strlit("rightbracket");
            assert(to_ascii_lower("rightbracket"@) =~= "rightbracket"@);
        },
        SymbolKey::Backslash => {
            reveal_strlit("backslash");
            assert(to_ascii_lower("backslash"@) =~= "backslash"@);
        },
        SymbolKey::Semicolon => {
            reveal_strlit("semicolon");
            assert(to_ascii_lower("semicolon"@) =~= "semicolon"@);
        },
        SymbolKey::Quote => {
            reveal_strlit("apostrophe");
            assert(to_ascii_lower("apostrophe"@) =~= "apostrophe"@);
        },
        SymbolKey::Comma => {
            reveal_strlit("comma");
            assert(to_ascii_lower("comma"@) =~= "comma"@);
        },
        SymbolKey::Period => {
            reveal_strlit("period");
            assert(to_ascii_lower("period"@) =~= "period"@);
        },
        SymbolKey::Slash => {
            reveal_strlit("slash");
            assert(to_ascii_lower("slash"@) =~= "slash"@);
        },
    }
}

} // verus!
