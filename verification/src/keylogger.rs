//! The key logger: names of pressed keys, the keys newly pressed between
//! two polls, and the summary of the counts.
use crate::counts::{count_or_zero, keys_distinct, sum_counts};
use crate::stats::{
    add_many, counted, lemma_occurrences_witness, names_view, occurrences, row_before, rows_sorted,
    sorted_rows, stat_view, KeyStatistics,
};
use crate::keys::{lemma_keyword_literals, spec_parse_key_label, ArrowKey, KeyId, SymbolKey};
use crate::text::to_ascii_lower;
use vstd::prelude::*;

verus! {

/// The keys that the keyboard reports.
#[derive(Debug, Clone, Copy, PartialEq, Eq, Hash, Structural)]
pub enum KeyCode {
    Key0,
    Key1,
    Key2,
    Key3,
    Key4,
    Key5,
    Key6,
    Key7,
    Key8,
    Key9,
    A,
    B,
    C,
    D,
    E,
    F,
    G,
    H,
    I,
    J,
    K,
    L,
    M,
    N,
    O,
    P,
    Q,
    R,
    S,
    T,
    U,
    V,
    W,
    X,
    Y,
    Z,
    F1,
    F2,
    F3,
    F4,
    F5,
    F6,
    F7,
    F8,
    F9,
    F10,
    F11,
    F12,
    F13,
    F14,
    F15,
    F16,
    F17,
    F18,
    F19,
    F20,
    Escape,
    Space,
    LControl,
    RControl,
    LShift,
    RShift,
    LAlt,
    RAlt,
    Command,
    RCommand,
    LOption,
    ROption,
    LMeta,
    RMeta,
    Enter,
    Up,
    Down,
    Left,
    Right,
    Backspace,
    CapsLock,
    Tab,
    Home,
    End,
    PageUp,
    PageDown,
    Insert,
    Delete,
    Numpad0,
    Numpad1,
    Numpad2,
    Numpad3,
    Numpad4,
    Numpad5,
    Numpad6,
    Numpad7,
    Numpad8,
    Numpad9,
    NumpadSubtract,
    NumpadAdd,
    NumpadDivide,
    NumpadMultiply,
    NumpadEquals,
    NumpadEnter,
    NumpadDecimal,
    Grave,
    Minus,
    Equal,
    LeftBracket,
    RightBracket,
    BackSlash,
    Semicolon,
    Apostrophe,
    Comma,
    Dot,
    Slash,
}

/// The name under which a key is counted.
pub open spec fn keycode_name(k: KeyCode) -> Seq<char> {
    match k {
        KeyCode::A => "A"@,
        KeyCode::B => "B"@,
        KeyCode::C => "C"@,
        KeyCode::D => "D"@,
        KeyCode::E => "E"@,
        KeyCode::F => "F"@,
        KeyCode::G => "G"@,
        KeyCode::H => "H"@,
        KeyCode::I => "I"@,
        KeyCode::J => "J"@,
        KeyCode::K => "K"@,
        KeyCode::L => "L"@,
        KeyCode::M => "M"@,
        KeyCode::N => "N"@,
        KeyCode::O => "O"@,
        KeyCode::P => "P"@,
        KeyCode::Q => "Q"@,
        KeyCode::R => "R"@,
        KeyCode::S => "S"@,
        KeyCode::T => "T"@,
        KeyCode::U => "U"@,
        KeyCode::V => "V"@,
        KeyCode::W => "W"@,
        KeyCode::X => "X"@,
        KeyCode::Y => "Y"@,
        KeyCode::Z => "Z"@,
        KeyCode::Key0 => "0"@,
        KeyCode::Key1 => "1"@,
        KeyCode::Key2 => "2"@,
        KeyCode::Key3 => "3"@,
        KeyCode::Key4 => "4"@,
        KeyCode::Key5 => "5"@,
        KeyCode::Key6 => "6"@,
        KeyCode::Key7 => "7"@,
        KeyCode::Key8 => "8"@,
        KeyCode::Key9 => "9"@,
        KeyCode::Space => "Space"@,
        KeyCode::Enter => "Enter"@,
        KeyCode::Tab => "Tab"@,
        KeyCode::Backspace => "Backspace"@,
        KeyCode::Delete => "Delete"@,
        KeyCode::Escape => "Escape"@,
        KeyCode::LShift => "LeftShift"@,
        KeyCode::RShift => "RightShift"@,
        KeyCode::LControl => "LeftControl"@,
        KeyCode::RControl => "RightControl"@,
        KeyCode::LAlt => "LeftAlt"@,
        KeyCode::RAlt => "RightAlt"@,
        KeyCode::LMeta => "LeftMeta"@,
        KeyCode::RMeta => "RightMeta"@,
        KeyCode::Up => "ArrowUp"@,
        KeyCode::Down => "ArrowDown"@,
        KeyCode::Left => "ArrowLeft"@,
        KeyCode::Right => "ArrowRight"@,
        KeyCode::Comma => "Comma"@,
        KeyCode::Dot => "Period"@,
        KeyCode::Semicolon => "Semicolon"@,
        KeyCode::Grave => "Grave"@,
        KeyCode::Minus => "Minus"@,
        KeyCode::Equal => "Equal"@,
        KeyCode::LeftBracket => "LeftBracket"@,
        KeyCode::RightBracket => "RightBracket"@,
        KeyCode::BackSlash => "Backslash"@,
        KeyCode::Slash => "Slash"@,
        _ => "Unknown"@,
    }
}

/// The name under which the key `k` is counted: the letter or digit, or a
/// word such as `Space`, `LeftShift` or `ArrowUp`; `Unknown` for the keys
/// that are not told apart.
pub fn keycode_to_str(k: KeyCode) -> (r: &'static str)
    ensures
        r@ == keycode_name(k),
{
    match k {
        KeyCode::A => "A",
        KeyCode::B => "B",
        KeyCode::C => "C",
        KeyCode::D => "D",
        KeyCode::E => "E",
        KeyCode::F => "F",
        KeyCode::G => "G",
        KeyCode::H => "H",
        KeyCode::I => "I",
        KeyCode::J => "J",
        KeyCode::K => "K",
        KeyCode::L => "L",
        KeyCode::M => "M",
        KeyCode::N => "N",
        KeyCode::O => "O",
        KeyCode::P => "P",
        KeyCode::Q => "Q",
        KeyCode::R => "R",
        KeyCode::S => "S",
        KeyCode::T => "T",
        KeyCode::U => "U",
        KeyCode::V => "V",
        KeyCode::W => "W",
        KeyCode::X => "X",
        KeyCode::Y => "Y",
        KeyCode::Z => "Z",
        KeyCode::Key0 => "0",
        KeyCode::Key1 => "1",
        KeyCode::Key2 => "2",
        KeyCode::Key3 => "3",
        KeyCode::Key4 => "4",
        KeyCode::Key5 => "5",
        KeyCode::Key6 => "6",
        KeyCode::Key7 => "7",
        KeyCode::Key8 => "8",
        KeyCode::Key9 => "9",
        KeyCode::Space => "Space",
        KeyCode::Enter => "Enter",
        KeyCode::Tab => "Tab",
        KeyCode::Backspace => "Backspace",
        KeyCode::Delete => "Delete",
        KeyCode::Escape => "Escape",
        KeyCode::LShift => "LeftShift",
        KeyCode::RShift => "RightShift",
        KeyCode::LControl => "LeftControl",
        KeyCode::RControl => "RightControl",
        KeyCode::LAlt => "LeftAlt",
        KeyCode::RAlt => "RightAlt",
        KeyCode::LMeta => "LeftMeta",
        KeyCode::RMeta => "RightMeta",
        KeyCode::Up => "ArrowUp",
        KeyCode::Down => "ArrowDown",
        KeyCode::Left => "ArrowLeft",
        KeyCode::Right => "ArrowRight",
        KeyCode::Comma => "Comma",
        KeyCode::Dot => "Period",
        KeyCode::Semicolon => "Semicolon",
        KeyCode::Grave => "Grave",
        KeyCode::Minus => "Minus",
        KeyCode::Equal => "Equal",
        KeyCode::LeftBracket => "LeftBracket",
        KeyCode::RightBracket => "RightBracket",
        KeyCode::BackSlash => "Backslash",
        KeyCode::Slash => "Slash",
        _ => "Unknown",
    }
}

/// The optimized key that the analyzer reads from the name under which the
/// key `k` is counted: none for a letter or a key counted as `Unknown`.
pub open spec fn logged_key_id(k: KeyCode) -> Option<KeyId> {
    match k {
        KeyCode::Key0 => Some(KeyId::Digit(0)),
        KeyCode::Key1 => Some(KeyId::Digit(1)),
        KeyCode::Key2 => Some(KeyId::Digit(2)),
        KeyCode::Key3 => Some(KeyId::Digit(3)),
        KeyCode::Key4 => Some(KeyId::Digit(4)),
        KeyCode::Key5 => Some(KeyId::Digit(5)),
        KeyCode::Key6 => Some(KeyId::Digit(6)),
        KeyCode::Key7 => Some(KeyId::Digit(7)),
        KeyCode::Key8 => Some(KeyId::Digit(8)),
        KeyCode::Key9 => Some(KeyId::Digit(9)),
        KeyCode::Space => Some(KeyId::Space),
        KeyCode::Enter => Some(KeyId::Enter),
        KeyCode::Tab => Some(KeyId::Tab),
        KeyCode::Backspace => Some(KeyId::Backspace),
        KeyCode::Delete => Some(KeyId::Delete),
        KeyCode::Escape => Some(KeyId::Escape),
        KeyCode::LShift => Some(KeyId::ShiftL),
        KeyCode::RShift => Some(KeyId::ShiftR),
        KeyCode::LControl => Some(KeyId::CtrlL),
        KeyCode::RControl => Some(KeyId::CtrlR),
        KeyCode::LAlt => Some(KeyId::AltL),
        KeyCode::RAlt => Some(KeyId::AltR),
        KeyCode::LMeta => Some(KeyId::MetaL),
        KeyCode::RMeta => Some(KeyId::MetaR),
        KeyCode::Up => Some(KeyId::Arrow(ArrowKey::Up)),
        KeyCode::Down => Some(KeyId::Arrow(ArrowKey::Down)),
        KeyCode::Left => Some(KeyId::Arrow(ArrowKey::Left)),
        KeyCode::Right => Some(KeyId::Arrow(ArrowKey::Right)),
        KeyCode::Comma => Some(KeyId::Symbol(SymbolKey::Comma)),
        KeyCode::Dot => Some(KeyId::Symbol(SymbolKey::Period)),
        KeyCode::Semicolon => Some(KeyId::Symbol(SymbolKey::Semicolon)),
        KeyCode::Grave => Some(KeyId::Symbol(SymbolKey::Backtick)),
        KeyCode::Minus => Some(KeyId::Symbol(SymbolKey::Minus)),
        KeyCode::Equal => Some(KeyId::Symbol(SymbolKey::Equal)),
        KeyCode::LeftBracket => Some(KeyId::Symbol(SymbolKey::LBracket)),
        KeyCode::RightBracket => Some(KeyId::Symbol(SymbolKey::RBracket)),
        KeyCode::BackSlash => Some(KeyId::Symbol(SymbolKey::Backslash)),
        KeyCode::Slash => Some(KeyId::Symbol(SymbolKey::Slash)),
        _ => None,
    }
}

/// The keys of `curr` that `prev` lacks, each once, in the order of `curr`.
pub open spec fn fresh_keys(prev: Seq<KeyCode>, curr: Seq<KeyCode>) -> Seq<KeyCode>
    decreases curr.len(),
{
    if curr.len() == 0 {
        Seq::empty()
    } else {
        let rest = curr.drop_last();
        let k = curr.last();
        fresh_keys(prev, rest) + if !prev.contains(k) && !rest.contains(k) {
            seq![k]
        } else {
            Seq::empty()
        }
    }
}

/// The names of the keys `ks`.
pub open spec fn key_names(ks: Seq<KeyCode>) -> Seq<Seq<char>> {
    ks.map_values(|k: KeyCode| keycode_name(k))
}

/// Whether one of the first `n` keys of `v` is `k`.
fn holds_code(v: &Vec<KeyCode>, n: usize, k: KeyCode) -> (r: bool)
    requires
        n <= v@.len(),
    ensures
        r == v@.take(n as int).contains(k),
{
    let mut i: usize = 0;
    while i < n
        invariant
            i <= n <= v@.len(),
            forall|j: int| 0 <= j < i ==> v@[j] != k,
        decreases n - i,
    {
        if v[i] == k {
            assert(v@.take(n as int)[i as int] == k);
            return true;
        }
        i = i + 1;
    }
    proof {
        if v@.take(n as int).contains(k) {
            let j = choose|j: int| 0 <= j < n && v@.take(n as int)[j] == k;
            assert(v@[j] == k);
        }
    }
    false
}

/// The names of the keys pressed now (`curr`) that were not pressed at the
/// previous poll (`prev`), each key once.
pub fn newly_pressed(prev: &Vec<KeyCode>, curr: &Vec<KeyCode>) -> (names: Vec<&'static str>)
    ensures
        names_view(names@) == key_names(fresh_keys(prev@, curr@)),
{
    let mut names: Vec<&'static str> = Vec::new();
    let mut j: usize = 0;
    while j < curr.len()
        invariant
            j <= curr@.len(),
            names_view(names@) == key_names(fresh_keys(prev@, curr@.take(j as int))),
        decreases curr@.len() - j,
    {
        let k = curr[j];
        let before_now = holds_code(curr, j, k);
        let before_prev = holds_code(prev, prev.len(), k);
        proof {
            let t = curr@.take(j + 1);
            assert(t.drop_last() =~= curr@.take(j as int));
            assert(t.last() == k);
            assert(prev@.take(prev@.len() as int) =~= prev@);
        }
        let ghost old_names = names@;
        if !before_prev && !before_now {
            names.push(keycode_to_str(k));
        }
        proof {
            let t = curr@.take(j + 1);
            let f = fresh_keys(prev@, curr@.take(j as int));
            assert(t.drop_last().contains(k) == before_now);
            assert(prev@.contains(k) == before_prev);
            if !before_prev && !before_now {
                assert(fresh_keys(prev@, t) == f + seq![k]);
                assert(key_names(f + seq![k]) =~= key_names(f).push(keycode_name(k)));
                assert(names_view(names@) =~= names_view(old_names).push(keycode_name(k)));
            } else {
                assert(fresh_keys(prev@, t) =~= f);
                assert(names@ == old_names);
            }
        }
        j = j + 1;
    }
    assert(curr@.take(j as int) =~= curr@);
    names
}

/// The totals that the key logger reports when it stops.
#[derive(Debug, Clone)]
pub struct StatisticsSummary {
    /// All key presses.
    pub total_keys: u64,
    /// The keys pressed at least once.
    pub unique_keys: usize,
    /// The ten most pressed keys (fewer if fewer were pressed), most
    /// pressed first, equal counts by name.
    pub top_keys: Vec<(&'static str, u64)>,
}

/// The number of keys in the list of the most pressed keys.
pub open spec fn top_count(n: nat) -> nat {
    if n < 10 {
        n
    } else {
        10
    }
}

/// Whether the sum of all counts fits in `u64`.
pub fn total_fits(stats: &KeyStatistics) -> (r: bool)
    ensures
        r == (sum_counts(stat_view(stats.spec_entries())) <= u64::MAX),
{
    let entries = stats.entries();
    let ghost s = stat_view(entries@);
    let mut total: u64 = 0;
    let mut i: usize = 0;
    while i < entries.len()
        invariant
            s == stat_view(entries@),
            entries@ == stats.spec_entries(),
            i <= entries@.len(),
            total == sum_counts(s.subrange(0, i as int)),
        decreases entries@.len() - i,
    {
        proof {
            assert(s.subrange(0, i + 1).drop_last() =~= s.subrange(0, i as int));
        }
        if total > u64::MAX - entries[i].1 {
            proof {
                crate::counts::lemma_sum_counts_prefix(s, i + 1);
            }
            return false;
        }
        total = total + entries[i].1;
        i = i + 1;
    }
    proof {
        assert(s.subrange(0, i as int) =~= s);
    }
    true
}

/// The totals of the counts: the number of presses, the number of keys
/// pressed and the ten most pressed keys.
pub fn summarize_statistics(stats: &KeyStatistics) -> (r: StatisticsSummary)
    requires
        sum_counts(stat_view(stats.spec_entries())) <= u64::MAX,
    ensures
        r.total_keys == sum_counts(stat_view(stats.spec_entries())),
        r.unique_keys == stats@.dom().len(),
        r.top_keys@.len() == top_count(stats.spec_entries().len()),
        rows_sorted(stat_view(r.top_keys@)),
        forall|i: int| 0 <= i < r.top_keys@.len() ==> stats.spec_entries().contains(#[trigger] r.top_keys@[i]),
        forall|e: (&'static str, u64), i: int|
            #![trigger stats.spec_entries().contains(e), stat_view(r.top_keys@)[i]]
            stats.spec_entries().contains(e) && !r.top_keys@.contains(e) && 0 <= i < r.top_keys@.len()
                ==> row_before(stat_view(r.top_keys@)[i], (e.0@, e.1)),
{
    let entries = stats.entries();
    let ghost s = stat_view(entries@);
    let mut total: u64 = 0;
    let mut i: usize = 0;
    while i < entries.len()
        invariant
            s == stat_view(entries@),
            entries@ == stats.spec_entries(),
            sum_counts(s) <= u64::MAX,
            i <= entries@.len(),
            total == sum_counts(s.subrange(0, i as int)),
        decreases entries@.len() - i,
    {
        proof {
            assert(s.subrange(0, i + 1).drop_last() =~= s.subrange(0, i as int));
            crate::counts::lemma_sum_counts_prefix(s, i + 1);
        }
        total = total + entries[i].1;
        i = i + 1;
    }
    proof {
        assert(s.subrange(0, i as int) =~= s);
    }
    let unique = stats.len();
    let rows = sorted_rows(stats);
    let n = if rows.len() < 10 {
        rows.len()
    } else {
        10
    };
    let mut top: Vec<(&'static str, u64)> = Vec::new();
    let mut k: usize = 0;
    while k < n
        invariant
            n <= rows@.len(),
            k <= n,
            top@ == rows@.take(k as int),
        decreases n - k,
    {
        top.push(rows[k]);
        k = k + 1;
        assert(top@ =~= rows@.take(k as int));
    }
    proof {
        assert forall|i: int| 0 <= i < top@.len() implies stats.spec_entries().contains(#[trigger] top@[i]) by {
            assert(rows@[i] == top@[i]);
            assert(rows@.contains(top@[i]));
        }
        assert forall|i: int, j: int| 0 <= i < j < stat_view(top@).len() implies row_before(
            stat_view(top@)[i],
            stat_view(top@)[j],
        ) by {
            assert(stat_view(top@)[i] == stat_view(rows@)[i]);
            assert(stat_view(top@)[j] == stat_view(rows@)[j]);
        }
        assert forall|e: (&'static str, u64), i: int|
            #![trigger stats.spec_entries().contains(e), stat_view(top@)[i]]
            stats.spec_entries().contains(e) && !top@.contains(e) && 0 <= i < top@.len() implies row_before(
            stat_view(top@)[i],
            (e.0@, e.1),
        ) by {
            assert(rows@.contains(e));
            let p = choose|p: int| 0 <= p < rows@.len() && rows@[p] == e;
            if p < n {
                assert(top@[p] == e);
            }
            assert(stat_view(top@)[i] == stat_view(rows@)[i]);
            assert(stat_view(rows@)[p] == (e.0@, e.1));
        }
    }
    StatisticsSummary { total_keys: total, unique_keys: unique, top_keys: top }
}

/// The newly pressed keys are exactly the keys held now and not before,
/// each of them once.
pub proof fn lemma_fresh_keys(prev: Seq<KeyCode>, curr: Seq<KeyCode>, k: KeyCode)
    ensures
        fresh_keys(prev, curr).contains(k) <==> (curr.contains(k) && !prev.contains(k)),
        fresh_keys(prev, curr).no_duplicates(),
    decreases curr.len(),
{
    if curr.len() > 0 {
        let rest = curr.drop_last();
        let x = curr.last();
        lemma_fresh_keys(prev, rest, k);
        lemma_fresh_keys(prev, rest, x);
        let f = fresh_keys(prev, rest);
        assert(curr =~= rest.push(x));
        if curr.contains(k) && !rest.contains(k) {
            assert(k == x);
        }
        if rest.contains(k) {
            let i = choose|i: int| 0 <= i < rest.len() && rest[i] == k;
            assert(curr[i] == k);
        }
        if !prev.contains(x) && !rest.contains(x) {
            let g = f + seq![x];
            assert(g.last() == x);
            assert forall|i: int, j: int| 0 <= i < j < g.len() implies g[i] != g[j] by {
                if j == g.len() - 1 {
                    assert(g[i] == f[i]);
                    assert(f.contains(f[i]));
                }
            }
            if g.contains(k) {
                let i = choose|i: int| 0 <= i < g.len() && g[i] == k;
                if i < f.len() {
                    assert(f[i] == k);
                }
            }
            if f.contains(k) {
                let i = choose|i: int| 0 <= i < f.len() && f[i] == k;
                assert(g[i] == k);
            }
        } else {
            assert(fresh_keys(prev, curr) =~= f);
        }
    }
}

/// The characters of the names under which the keys are counted.
proof fn lemma_key_name_chars()
    ensures
        "A"@.len() == 1 && "A"@[0] == 'A',
        "B"@.len() == 1 && "B"@[0] == 'B',
        "C"@.len() == 1 && "C"@[0] == 'C',
        "D"@.len() == 1 && "D"@[0] == 'D',
        "E"@.len() == 1 && "E"@[0] == 'E',
        "F"@.len() == 1 && "F"@[0] == 'F',
        "G"@.len() == 1 && "G"@[0] == 'G',
        "H"@.len() == 1 && "H"@[0] == 'H',
        "I"@.len() == 1 && "I"@[0] == 'I',
        "J"@.len() == 1 && "J"@[0] == 'J',
        "K"@.len() == 1 && "K"@[0] == 'K',
        "L"@.len() == 1 && "L"@[0] == 'L',
        "M"@.len() == 1 && "M"@[0] == 'M',
        "N"@.len() == 1 && "N"@[0] == 'N',
        "O"@.len() == 1 && "O"@[0] == 'O',
        "P"@.len() == 1 && "P"@[0] == 'P',
        "Q"@.len() == 1 && "Q"@[0] == 'Q',
        "R"@.len() == 1 && "R"@[0] == 'R',
        "S"@.len() == 1 && "S"@[0] == 'S',
        "T"@.len() == 1 && "T"@[0] == 'T',
        "U"@.len() == 1 && "U"@[0] == 'U',
        "V"@.len() == 1 && "V"@[0] == 'V',
        "W"@.len() == 1 && "W"@[0] == 'W',
        "X"@.len() == 1 && "X"@[0] == 'X',
        "Y"@.len() == 1 && "Y"@[0] == 'Y',
        "Z"@.len() == 1 && "Z"@[0] == 'Z',
        "0"@.len() == 1 && "0"@[0] == '0',
        "1"@.len() == 1 && "1"@[0] == '1',
        "2"@.len() == 1 && "2"@[0] == '2',
        "3"@.len() == 1 && "3"@[0] == '3',
        "4"@.len() == 1 && "4"@[0] == '4',
        "5"@.len() == 1 && "5"@[0] == '5',
        "6"@.len() == 1 && "6"@[0] == '6',
        "7"@.len() == 1 && "7"@[0] == '7',
        "8"@.len() == 1 && "8"@[0] == '8',
        "9"@.len() == 1 && "9"@[0] == '9',
        "Space"@.len() == 5 && "Space"@[0] == 'S' && "Space"@[1] == 'p' && "Space"@[2] == 'a' && "Space"@[3] == 'c' && "Space"@[4] == 'e',
        "Enter"@.len() == 5 && "Enter"@[0] == 'E' && "Enter"@[1] == 'n' && "Enter"@[2] == 't' && "Enter"@[3] == 'e' && "Enter"@[4] == 'r',
        "Tab"@.len() == 3 && "Tab"@[0] == 'T' && "Tab"@[1] == 'a' && "Tab"@[2] == 'b',
        "Backspace"@.len() == 9 && "Backspace"@[0] == 'B' && "Backspace"@[1] == 'a' && "Backspace"@[2] == 'c' && "Backspace"@[3] == 'k' && "Backspace"@[4] == 's' && "Backspace"@[5] == 'p' && "Backspace"@[6] == 'a' && "Backspace"@[7] == 'c' && "Backspace"@[8] == 'e',
        "Delete"@.len() == 6 && "Delete"@[0] == 'D' && "Delete"@[1] == 'e' && "Delete"@[2] == 'l' && "Delete"@[3] == 'e' && "Delete"@[4] == 't' && "Delete"@[5] == 'e',
        "Escape"@.len() == 6 && "Escape"@[0] == 'E' && "Escape"@[1] == 's' && "Escape"@[2] == 'c' && "Escape"@[3] == 'a' && "Escape"@[4] == 'p' && "Escape"@[5] == 'e',
        "LeftShift"@.len() == 9 && "LeftShift"@[0] == 'L' && "LeftShift"@[1] == 'e' && "LeftShift"@[2] == 'f' && "LeftShift"@[3] == 't' && "LeftShift"@[4] == 'S' && "LeftShift"@[5] == 'h' && "LeftShift"@[6] == 'i' && "LeftShift"@[7] == 'f' && "LeftShift"@[8] == 't',
        "RightShift"@.len() == 10 && "RightShift"@[0] == 'R' && "RightShift"@[1] == 'i' && "RightShift"@[2] == 'g' && "RightShift"@[3] == 'h' && "RightShift"@[4] == 't' && "RightShift"@[5] == 'S' && "RightShift"@[6] == 'h' && "RightShift"@[7] == 'i' && "RightShift"@[8] == 'f' && "RightShift"@[9] == 't',
        "LeftControl"@.len() == 11 && "LeftControl"@[0] == 'L' && "LeftControl"@[1] == 'e' && "LeftControl"@[2] == 'f' && "LeftControl"@[3] == 't' && "LeftControl"@[4] == 'C' && "LeftControl"@[5] == 'o' && "LeftControl"@[6] == 'n' && "LeftControl"@[7] == 't' && "LeftControl"@[8] == 'r' && "LeftControl"@[9] == 'o' && "LeftControl"@[10] == 'l',
        "RightControl"@.len() == 12 && "RightControl"@[0] == 'R' && "RightControl"@[1] == 'i' && "RightControl"@[2] == 'g' && "RightControl"@[3] == 'h' && "RightControl"@[4] == 't' && "RightControl"@[5] == 'C' && "RightControl"@[6] == 'o' && "RightControl"@[7] == 'n' && "RightControl"@[8] == 't' && "RightControl"@[9] == 'r' && "RightControl"@[10] == 'o' && "RightControl"@[11] == 'l',
        "LeftAlt"@.len() == 7 && "LeftAlt"@[0] == 'L' && "LeftAlt"@[1] == 'e' && "LeftAlt"@[2] == 'f' && "LeftAlt"@[3] == 't' && "LeftAlt"@[4] == 'A' && "LeftAlt"@[5] == 'l' && "LeftAlt"@[6] == 't',
        "RightAlt"@.len() == 8 && "RightAlt"@[0] == 'R' && "RightAlt"@[1] == 'i' && "RightAlt"@[2] == 'g' && "RightAlt"@[3] == 'h' && "RightAlt"@[4] == 't' && "RightAlt"@[5] == 'A' && "RightAlt"@[6] == 'l' && "RightAlt"@[7] == 't',
        "LeftMeta"@.len() == 8 && "LeftMeta"@[0] == 'L' && "LeftMeta"@[1] == 'e' && "LeftMeta"@[2] == 'f' && "LeftMeta"@[3] == 't' && "LeftMeta"@[4] == 'M' && "LeftMeta"@[5] == 'e' && "LeftMeta"@[6] == 't' && "LeftMeta"@[7] == 'a',
        "RightMeta"@.len() == 9 && "RightMeta"@[0] == 'R' && "RightMeta"@[1] == 'i' && "RightMeta"@[2] == 'g' && "RightMeta"@[3] == 'h' && "RightMeta"@[4] == 't' && "RightMeta"@[5] == 'M' && "RightMeta"@[6] == 'e' && "RightMeta"@[7] == 't' && "RightMeta"@[8] == 'a',
        "ArrowUp"@.len() == 7 && "ArrowUp"@[0] == 'A' && "ArrowUp"@[1] == 'r' && "ArrowUp"@[2] == 'r' && "ArrowUp"@[3] == 'o' && "ArrowUp"@[4] == 'w' && "ArrowUp"@[5] == 'U' && "ArrowUp"@[6] == 'p',
        "ArrowDown"@.len() == 9 && "ArrowDown"@[0] == 'A' && "ArrowDown"@[1] == 'r' && "ArrowDown"@[2] == 'r' && "ArrowDown"@[3] == 'o' && "ArrowDown"@[4] == 'w' && "ArrowDown"@[5] == 'D' && "ArrowDown"@[6] == 'o' && "ArrowDown"@[7] == 'w' && "ArrowDown"@[8] == 'n',
        "ArrowLeft"@.len() == 9 && "ArrowLeft"@[0] == 'A' && "ArrowLeft"@[1] == 'r' && "ArrowLeft"@[2] == 'r' && "ArrowLeft"@[3] == 'o' && "ArrowLeft"@[4] == 'w' && "ArrowLeft"@[5] == 'L' && "ArrowLeft"@[6] == 'e' && "ArrowLeft"@[7] == 'f' && "ArrowLeft"@[8] == 't',
        "ArrowRight"@.len() == 10 && "ArrowRight"@[0] == 'A' && "ArrowRight"@[1] == 'r' && "ArrowRight"@[2] == 'r' && "ArrowRight"@[3] == 'o' && "ArrowRight"@[4] == 'w' && "ArrowRight"@[5] == 'R' && "ArrowRight"@[6] == 'i' && "ArrowRight"@[7] == 'g' && "ArrowRight"@[8] == 'h' && "ArrowRight"@[9] == 't',
        "Comma"@.len() == 5 && "Comma"@[0] == 'C' && "Comma"@[1] == 'o' && "Comma"@[2] == 'm' && "Comma"@[3] == 'm' && "Comma"@[4] == 'a',
        "Period"@.len() == 6 && "Period"@[0] == 'P' && "Period"@[1] == 'e' && "Period"@[2] == 'r' && "Period"@[3] == 'i' && "Period"@[4] == 'o' && "Period"@[5] == 'd',
        "Semicolon"@.len() == 9 && "Semicolon"@[0] == 'S' && "Semicolon"@[1] == 'e' && "Semicolon"@[2] == 'm' && "Semicolon"@[3] == 'i' && "Semicolon"@[4] == 'c' && "Semicolon"@[5] == 'o' && "Semicolon"@[6] == 'l' && "Semicolon"@[7] == 'o' && "Semicolon"@[8] == 'n',
        "Grave"@.len() == 5 && "Grave"@[0] == 'G' && "Grave"@[1] == 'r' && "Grave"@[2] == 'a' && "Grave"@[3] == 'v' && "Grave"@[4] == 'e',
        "Minus"@.len() == 5 && "Minus"@[0] == 'M' && "Minus"@[1] == 'i' && "Minus"@[2] == 'n' && "Minus"@[3] == 'u' && "Minus"@[4] == 's',
        "Equal"@.len() == 5 && "Equal"@[0] == 'E' && "Equal"@[1] == 'q' && "Equal"@[2] == 'u' && "Equal"@[3] == 'a' && "Equal"@[4] == 'l',
        "LeftBracket"@.len() == 11 && "LeftBracket"@[0] == 'L' && "LeftBracket"@[1] == 'e' && "LeftBracket"@[2] == 'f' && "LeftBracket"@[3] == 't' && "LeftBracket"@[4] == 'B' && "LeftBracket"@[5] == 'r' && "LeftBracket"@[6] == 'a' && "LeftBracket"@[7] == 'c' && "LeftBracket"@[8] == 'k' && "LeftBracket"@[9] == 'e' && "LeftBracket"@[10] == 't',
        "RightBracket"@.len() == 12 && "RightBracket"@[0] == 'R' && "RightBracket"@[1] == 'i' && "RightBracket"@[2] == 'g' && "RightBracket"@[3] == 'h' && "RightBracket"@[4] == 't' && "RightBracket"@[5] == 'B' && "RightBracket"@[6] == 'r' && "RightBracket"@[7] == 'a' && "RightBracket"@[8] == 'c' && "RightBracket"@[9] == 'k' && "RightBracket"@[10] == 'e' && "RightBracket"@[11] == 't',
        "Backslash"@.len() == 9 && "Backslash"@[0] == 'B' && "Backslash"@[1] == 'a' && "Backslash"@[2] == 'c' && "Backslash"@[3] == 'k' && "Backslash"@[4] == 's' && "Backslash"@[5] == 'l' && "Backslash"@[6] == 'a' && "Backslash"@[7] == 's' && "Backslash"@[8] == 'h',
        "Slash"@.len() == 5 && "Slash"@[0] == 'S' && "Slash"@[1] == 'l' && "Slash"@[2] == 'a' && "Slash"@[3] == 's' && "Slash"@[4] == 'h',
        "Unknown"@.len() == 7 && "Unknown"@[0] == 'U' && "Unknown"@[1] == 'n' && "Unknown"@[2] == 'k' && "Unknown"@[3] == 'n' && "Unknown"@[4] == 'o' && "Unknown"@[5] == 'w' && "Unknown"@[6] == 'n',
{
    reveal_strlit("A");
    reveal_strlit("B");
    reveal_strlit("C");
    reveal_strlit("D");
    reveal_strlit("E");
    reveal_strlit("F");
    reveal_strlit("G");
    reveal_strlit("H");
    reveal_strlit("I");
    reveal_strlit("J");
    reveal_strlit("K");
    reveal_strlit("L");
    reveal_strlit("M");
    reveal_strlit("N");
    reveal_strlit("O");
    reveal_strlit("P");
    reveal_strlit("Q");
    reveal_strlit("R");
    reveal_strlit("S");
    reveal_strlit("T");
    reveal_strlit("U");
    reveal_strlit("V");
    reveal_strlit("W");
    reveal_strlit("X");
    reveal_strlit("Y");
    reveal_strlit("Z");
    reveal_strlit("0");
    reveal_strlit("1");
    reveal_strlit("2");
    reveal_strlit("3");
    reveal_strlit("4");
    reveal_strlit("5");
    reveal_strlit("6");
    reveal_strlit("7");
    reveal_strlit("8");
    reveal_strlit("9");
    reveal_strlit("Space");
    reveal_strlit("Enter");
    reveal_strlit("Tab");
    reveal_strlit("Backspace");
    reveal_strlit("Delete");
    reveal_strlit("Escape");
    reveal_strlit("LeftShift");
    reveal_strlit("RightShift");
    reveal_strlit("LeftControl");
    reveal_strlit("RightControl");
    reveal_strlit("LeftAlt");
    reveal_strlit("RightAlt");
    reveal_strlit("LeftMeta");
    reveal_strlit("RightMeta");
    reveal_strlit("ArrowUp");
    reveal_strlit("ArrowDown");
    reveal_strlit("ArrowLeft");
    reveal_strlit("ArrowRight");
    reveal_strlit("Comma");
    reveal_strlit("Period");
    reveal_strlit("Semicolon");
    reveal_strlit("Grave");
    reveal_strlit("Minus");
    reveal_strlit("Equal");
    reveal_strlit("LeftBracket");
    reveal_strlit("RightBracket");
    reveal_strlit("Backslash");
    reveal_strlit("Slash");
    reveal_strlit("Unknown");
}

/// The letter keys in alphabetical order.
pub open spec fn letter_codes() -> Seq<KeyCode> {
    seq![KeyCode::A, KeyCode::B, KeyCode::C, KeyCode::D, KeyCode::E, KeyCode::F, KeyCode::G, KeyCode::H, KeyCode::I, KeyCode::J, KeyCode::K, KeyCode::L, KeyCode::M, KeyCode::N, KeyCode::O, KeyCode::P, KeyCode::Q, KeyCode::R, KeyCode::S, KeyCode::T, KeyCode::U, KeyCode::V, KeyCode::W, KeyCode::X, KeyCode::Y, KeyCode::Z]
}

/// The digit keys of the main block, from 0 to 9.
pub open spec fn digit_codes() -> Seq<KeyCode> {
    seq![KeyCode::Key0, KeyCode::Key1, KeyCode::Key2, KeyCode::Key3, KeyCode::Key4, KeyCode::Key5, KeyCode::Key6, KeyCode::Key7, KeyCode::Key8, KeyCode::Key9]
}

/// A letter key is counted under its own letter and a digit key under its
/// own digit: the `i`-th letter key in alphabetical order under the `i`-th
/// capital letter, the digit key `i` under the character `i`.
pub proof fn lemma_letters_and_digits_named_by_themselves(i: int)
    ensures
        0 <= i < 26 ==> keycode_name(letter_codes()[i]) == seq![(('A' as int) + i) as char],
        0 <= i < 10 ==> keycode_name(digit_codes()[i]) == seq![(('0' as int) + i) as char],
{
    lemma_key_name_chars();
    if i == 0 {
        assert(letter_codes()[0] == KeyCode::A);
    }
    if i == 1 {
        assert(letter_codes()[1] == KeyCode::B);
    }
    if i == 2 {
        assert(letter_codes()[2] == KeyCode::C);
    }
    if i == 3 {
        assert(letter_codes()[3] == KeyCode::D);
    }
    if i == 4 {
        assert(letter_codes()[4] == KeyCode::E);
    }
    if i == 5 {
        assert(letter_codes()[5] == KeyCode::F);
    }
    if i == 6 {
        assert(letter_codes()[6] == KeyCode::G);
    }
    if i == 7 {
        assert(letter_codes()[7] == KeyCode::H);
    }
    if i == 8 {
        assert(letter_codes()[8] == KeyCode::I);
    }
    if i == 9 {
        assert(letter_codes()[9] == KeyCode::J);
    }
    if i == 10 {
        assert(letter_codes()[10] == KeyCode::K);
    }
    if i == 11 {
        assert(letter_codes()[11] == KeyCode::L);
    }
    if i == 12 {
        assert(letter_codes()[12] == KeyCode::M);
    }
    if i == 13 {
        assert(letter_codes()[13] == KeyCode::N);
    }
    if i == 14 {
        assert(letter_codes()[14] == KeyCode::O);
    }
    if i == 15 {
        assert(letter_codes()[15] == KeyCode::P);
    }
    if i == 16 {
        assert(letter_codes()[16] == KeyCode::Q);
    }
    if i == 17 {
        assert(letter_codes()[17] == KeyCode::R);
    }
    if i == 18 {
        assert(letter_codes()[18] == KeyCode::S);
    }
    if i == 19 {
        assert(letter_codes()[19] == KeyCode::T);
    }
    if i == 20 {
        assert(letter_codes()[20] == KeyCode::U);
    }
    if i == 21 {
        assert(letter_codes()[21] == KeyCode::V);
    }
    if i == 22 {
        assert(letter_codes()[22] == KeyCode::W);
    }
    if i == 23 {
        assert(letter_codes()[23] == KeyCode::X);
    }
    if i == 24 {
        assert(letter_codes()[24] == KeyCode::Y);
    }
    if i == 25 {
        assert(letter_codes()[25] == KeyCode::Z);
    }
    if i == 0 {
        assert(digit_codes()[0] == KeyCode::Key0);
    }
    if i == 1 {
        assert(digit_codes()[1] == KeyCode::Key1);
    }
    if i == 2 {
        assert(digit_codes()[2] == KeyCode::Key2);
    }
    if i == 3 {
        assert(digit_codes()[3] == KeyCode::Key3);
    }
    if i == 4 {
        assert(digit_codes()[4] == KeyCode::Key4);
    }
    if i == 5 {
        assert(digit_codes()[5] == KeyCode::Key5);
    }
    if i == 6 {
        assert(digit_codes()[6] == KeyCode::Key6);
    }
    if i == 7 {
        assert(digit_codes()[7] == KeyCode::Key7);
    }
    if i == 8 {
        assert(digit_codes()[8] == KeyCode::Key8);
    }
    if i == 9 {
        assert(digit_codes()[9] == KeyCode::Key9);
    }
}

/// The key counted under the name `s`, if some key that is told apart is.
pub open spec fn code_of_name(s: Seq<char>) -> Option<KeyCode> {
    if s == "A"@ {
        Some(KeyCode::A)
    } else if s == "B"@ {
        Some(KeyCode::B)
    } else if s == "C"@ {
        Some(KeyCode::C)
    } else if s == "D"@ {
        Some(KeyCode::D)
    } else if s == "E"@ {
        Some(KeyCode::E)
    } else if s == "F"@ {
        Some(KeyCode::F)
    } else if s == "G"@ {
        Some(KeyCode::G)
    } else if s == "H"@ {
        Some(KeyCode::H)
    } else if s == "I"@ {
        Some(KeyCode::I)
    } else if s == "J"@ {
        Some(KeyCode::J)
    } else if s == "K"@ {
        Some(KeyCode::K)
    } else if s == "L"@ {
        Some(KeyCode::L)
    } else if s == "M"@ {
        Some(KeyCode::M)
    } else if s == "N"@ {
        Some(KeyCode::N)
    } else if s == "O"@ {
        Some(KeyCode::O)
    } else if s == "P"@ {
        Some(KeyCode::P)
    } else if s == "Q"@ {
        Some(KeyCode::Q)
    } else if s == "R"@ {
        Some(KeyCode::R)
    } else if s == "S"@ {
        Some(KeyCode::S)
    } else if s == "T"@ {
        Some(KeyCode::T)
    } else if s == "U"@ {
        Some(KeyCode::U)
    } else if s == "V"@ {
        Some(KeyCode::V)
    } else if s == "W"@ {
        Some(KeyCode::W)
    } else if s == "X"@ {
        Some(KeyCode::X)
    } else if s == "Y"@ {
        Some(KeyCode::Y)
    } else if s == "Z"@ {
        Some(KeyCode::Z)
    } else if s == "0"@ {
        Some(KeyCode::Key0)
    } else if s == "1"@ {
        Some(KeyCode::Key1)
    } else if s == "2"@ {
        Some(KeyCode::Key2)
    } else if s == "3"@ {
        Some(KeyCode::Key3)
    } else if s == "4"@ {
        Some(KeyCode::Key4)
    } else if s == "5"@ {
        Some(KeyCode::Key5)
    } else if s == "6"@ {
        Some(KeyCode::Key6)
    } else if s == "7"@ {
        Some(KeyCode::Key7)
    } else if s == "8"@ {
        Some(KeyCode::Key8)
    } else if s == "9"@ {
        Some(KeyCode::Key9)
    } else if s == "Space"@ {
        Some(KeyCode::Space)
    } else if s == "Enter"@ {
        Some(KeyCode::Enter)
    } else if s == "Tab"@ {
        Some(KeyCode::Tab)
    } else if s == "Backspace"@ {
        Some(KeyCode::Backspace)
    } else if s == "Delete"@ {
        Some(KeyCode::Delete)
    } else if s == "Escape"@ {
        Some(KeyCode::Escape)
    } else if s == "LeftShift"@ {
        Some(KeyCode::LShift)
    } else if s == "RightShift"@ {
        Some(KeyCode::RShift)
    } else if s == "LeftControl"@ {
        Some(KeyCode::LControl)
    } else if s == "RightControl"@ {
        Some(KeyCode::RControl)
    } else if s == "LeftAlt"@ {
        Some(KeyCode::LAlt)
    } else if s == "RightAlt"@ {
        Some(KeyCode::RAlt)
    } else if s == "LeftMeta"@ {
        Some(KeyCode::LMeta)
    } else if s == "RightMeta"@ {
        Some(KeyCode::RMeta)
    } else if s == "ArrowUp"@ {
        Some(KeyCode::Up)
    } else if s == "ArrowDown"@ {
        Some(KeyCode::Down)
    } else if s == "ArrowLeft"@ {
        Some(KeyCode::Left)
    } else if s == "ArrowRight"@ {
        Some(KeyCode::Right)
    } else if s == "Comma"@ {
        Some(KeyCode::Comma)
    } else if s == "Period"@ {
        Some(KeyCode::Dot)
    } else if s == "Semicolon"@ {
        Some(KeyCode::Semicolon)
    } else if s == "Grave"@ {
        Some(KeyCode::Grave)
    } else if s == "Minus"@ {
        Some(KeyCode::Minus)
    } else if s == "Equal"@ {
        Some(KeyCode::Equal)
    } else if s == "LeftBracket"@ {
        Some(KeyCode::LeftBracket)
    } else if s == "RightBracket"@ {
        Some(KeyCode::RightBracket)
    } else if s == "Backslash"@ {
        Some(KeyCode::BackSlash)
    } else if s == "Slash"@ {
        Some(KeyCode::Slash)
    } else {
        None
    }
}

proof fn lemma_name_code_0(k: KeyCode)
    requires
        k == KeyCode::A || k == KeyCode::B || k == KeyCode::C || k == KeyCode::D || k == KeyCode::E || k == KeyCode::F || k == KeyCode::G || k == KeyCode::H,
    ensures
        code_of_name(keycode_name(k)) == Some(k),
{
    lemma_key_name_chars();
    match k {
        KeyCode::A => {},
        KeyCode::B => {},
        KeyCode::C => {},
        KeyCode::D => {},
        KeyCode::E => {},
        KeyCode::F => {},
        KeyCode::G => {},
        KeyCode::H => {},
        _ => {},
    }
}

proof fn lemma_name_code_1(k: KeyCode)
    requires
        k == KeyCode::I || k == KeyCode::J || k == KeyCode::K || k == KeyCode::L || k == KeyCode::M || k == KeyCode::N || k == KeyCode::O || k == KeyCode::P,
    ensures
        code_of_name(keycode_name(k)) == Some(k),
{
    lemma_key_name_chars();
    match k {
        KeyCode::I => {},
        KeyCode::J => {},
        KeyCode::K => {},
        KeyCode::L => {},
        KeyCode::M => {},
        KeyCode::N => {},
        KeyCode::O => {},
        KeyCode::P => {},
        _ => {},
    }
}

proof fn lemma_name_code_2(k: KeyCode)
    requires
        k == KeyCode::Q || k == KeyCode::R || k == KeyCode::S || k == KeyCode::T || k == KeyCode::U || k == KeyCode::V || k == KeyCode::W || k == KeyCode::X,
    ensures
        code_of_name(keycode_name(k)) == Some(k),
{
    lemma_key_name_chars();
    match k {
        KeyCode::Q => {},
        KeyCode::R => {},
        KeyCode::S => {},
        KeyCode::T => {},
        KeyCode::U => {},
        KeyCode::V => {},
        KeyCode::W => {},
        KeyCode::X => {},
        _ => {},
    }
}

proof fn lemma_name_code_3(k: KeyCode)
    requires
        k == KeyCode::Y || k == KeyCode::Z || k == KeyCode::Key0 || k == KeyCode::Key1 || k == KeyCode::Key2 || k == KeyCode::Key3 || k == KeyCode::Key4 || k == KeyCode::Key5,
    ensures
        code_of_name(keycode_name(k)) == Some(k),
{
    lemma_key_name_chars();
    match k {
        KeyCode::Y => {},
        KeyCode::Z => {},
        KeyCode::Key0 => {},
        KeyCode::Key1 => {},
        KeyCode::Key2 => {},
        KeyCode::Key3 => {},
        KeyCode::Key4 => {},
        KeyCode::Key5 => {},
        _ => {},
    }
}

proof fn lemma_name_code_4(k: KeyCode)
    requires
        k == KeyCode::Key6 || k == KeyCode::Key7 || k == KeyCode::Key8 || k == KeyCode::Key9 || k == KeyCode::Space || k == KeyCode::Enter || k == KeyCode::Tab || k == KeyCode::Backspace,
    ensures
        code_of_name(keycode_name(k)) == Some(k),
{
    lemma_key_name_chars();
    match k {
        KeyCode::Key6 => {},
        KeyCode::Key7 => {},
        KeyCode::Key8 => {},
        KeyCode::Key9 => {},
        KeyCode::Space => {},
        KeyCode::Enter => {},
        KeyCode::Tab => {},
        KeyCode::Backspace => {},
        _ => {},
    }
}

proof fn lemma_name_code_5(k: KeyCode)
    requires
        k == KeyCode::Delete || k == KeyCode::Escape || k == KeyCode::LShift || k == KeyCode::RShift || k == KeyCode::LControl || k == KeyCode::RControl || k == KeyCode::LAlt || k == KeyCode::RAlt,
    ensures
        code_of_name(keycode_name(k)) == Some(k),
{
    lemma_key_name_chars();
    match k {
        KeyCode::Delete => {},
        KeyCode::Escape => {},
        KeyCode::LShift => {},
        KeyCode::RShift => {},
        KeyCode::LControl => {},
        KeyCode::RControl => {},
        KeyCode::LAlt => {},
        KeyCode::RAlt => {},
        _ => {},
    }
}

proof fn lemma_name_code_6(k: KeyCode)
    requires
        k == KeyCode::LMeta || k == KeyCode::RMeta || k == KeyCode::Up || k == KeyCode::Down || k == KeyCode::Left || k == KeyCode::Right || k == KeyCode::Comma || k == KeyCode::Dot,
    ensures
        code_of_name(keycode_name(k)) == Some(k),
{
    lemma_key_name_chars();
    match k {
        KeyCode::LMeta => {},
        KeyCode::RMeta => {},
        KeyCode::Up => {},
        KeyCode::Down => {},
        KeyCode::Left => {},
        KeyCode::Right => {},
        KeyCode::Comma => {},
        KeyCode::Dot => {},
        _ => {},
    }
}

proof fn lemma_name_code_7(k: KeyCode)
    requires
        k == KeyCode::Semicolon || k == KeyCode::Grave || k == KeyCode::Minus || k == KeyCode::Equal || k == KeyCode::LeftBracket || k == KeyCode::RightBracket || k == KeyCode::BackSlash || k == KeyCode::Slash,
    ensures
        code_of_name(keycode_name(k)) == Some(k),
{
    lemma_key_name_chars();
    match k {
        KeyCode::Semicolon => {},
        KeyCode::Grave => {},
        KeyCode::Minus => {},
        KeyCode::Equal => {},
        KeyCode::LeftBracket => {},
        KeyCode::RightBracket => {},
        KeyCode::BackSlash => {},
        KeyCode::Slash => {},
        _ => {},
    }
}

/// The name under which a key that is told apart is counted names that
/// key and no other.
proof fn lemma_name_names_code(k: KeyCode)
    requires
        keycode_name(k) != "Unknown"@,
    ensures
        code_of_name(keycode_name(k)) == Some(k),
{
    if k == KeyCode::A || k == KeyCode::B || k == KeyCode::C || k == KeyCode::D || k == KeyCode::E || k == KeyCode::F || k == KeyCode::G || k == KeyCode::H {
        lemma_name_code_0(k);
    } else if k == KeyCode::I || k == KeyCode::J || k == KeyCode::K || k == KeyCode::L || k == KeyCode::M || k == KeyCode::N || k == KeyCode::O || k == KeyCode::P {
        lemma_name_code_1(k);
    } else if k == KeyCode::Q || k == KeyCode::R || k == KeyCode::S || k == KeyCode::T || k == KeyCode::U || k == KeyCode::V || k == KeyCode::W || k == KeyCode::X {
        lemma_name_code_2(k);
    } else if k == KeyCode::Y || k == KeyCode::Z || k == KeyCode::Key0 || k == KeyCode::Key1 || k == KeyCode::Key2 || k == KeyCode::Key3 || k == KeyCode::Key4 || k == KeyCode::Key5 {
        lemma_name_code_3(k);
    } else if k == KeyCode::Key6 || k == KeyCode::Key7 || k == KeyCode::Key8 || k == KeyCode::Key9 || k == KeyCode::Space || k == KeyCode::Enter || k == KeyCode::Tab || k == KeyCode::Backspace {
        lemma_name_code_4(k);
    } else if k == KeyCode::Delete || k == KeyCode::Escape || k == KeyCode::LShift || k == KeyCode::RShift || k == KeyCode::LControl || k == KeyCode::RControl || k == KeyCode::LAlt || k == KeyCode::RAlt {
        lemma_name_code_5(k);
    } else if k == KeyCode::LMeta || k == KeyCode::RMeta || k == KeyCode::Up || k == KeyCode::Down || k == KeyCode::Left || k == KeyCode::Right || k == KeyCode::Comma || k == KeyCode::Dot {
        lemma_name_code_6(k);
    } else if k == KeyCode::Semicolon || k == KeyCode::Grave || k == KeyCode::Minus || k == KeyCode::Equal || k == KeyCode::LeftBracket || k == KeyCode::RightBracket || k == KeyCode::BackSlash || k == KeyCode::Slash {
        lemma_name_code_7(k);
    }
}

/// Different keys that are told apart are counted under different names:
/// only the keys counted as `Unknown` share a name.
pub proof fn lemma_key_names_distinct(k1: KeyCode, k2: KeyCode)
    requires
        k1 != k2,
        keycode_name(k1) != "Unknown"@,
    ensures
        keycode_name(k1) != keycode_name(k2),
{
    lemma_name_names_code(k1);
    if keycode_name(k2) != "Unknown"@ {
        lemma_name_names_code(k2);
    }
}

/// Whether `s` is the name under which some key is counted.
pub open spec fn is_key_name(s: Seq<char>) -> bool {
    exists|k: KeyCode| #[trigger] keycode_name(k) == s
}

/// The counts name keys only: counting the keys newly pressed at a poll
/// into counts that name keys only leaves counts that name keys only, so
/// however long the logger runs its table holds no more names than there
/// are key names.
pub proof fn lemma_counts_name_keys_only(
    m0: Map<Seq<char>, u64>,
    prev: Seq<KeyCode>,
    curr: Seq<KeyCode>,
    m1: Map<Seq<char>, u64>,
)
    requires
        forall|s: Seq<char>| #[trigger] m0.contains_key(s) ==> is_key_name(s),
        counted(m0, key_names(fresh_keys(prev, curr)), m1),
    ensures
        forall|s: Seq<char>| #[trigger] m1.contains_key(s) ==> is_key_name(s),
{
    let names = key_names(fresh_keys(prev, curr));
    assert forall|s: Seq<char>| #[trigger] m1.contains_key(s) implies is_key_name(s) by {
        if !m0.contains_key(s) {
            lemma_occurrences_witness(names, s);
            let i = choose|i: int| 0 <= i < names.len() && names[i] == s;
            assert(keycode_name(fresh_keys(prev, curr)[i]) == s);
        }
    }
}

/// Whether `k` is a letter key.
pub open spec fn is_letter_code(k: KeyCode) -> bool {
    match k {
        KeyCode::A | KeyCode::B | KeyCode::C | KeyCode::D | KeyCode::E | KeyCode::F |
        KeyCode::G | KeyCode::H | KeyCode::I | KeyCode::J | KeyCode::K | KeyCode::L |
        KeyCode::M | KeyCode::N | KeyCode::O | KeyCode::P | KeyCode::Q | KeyCode::R |
        KeyCode::S | KeyCode::T | KeyCode::U | KeyCode::V | KeyCode::W | KeyCode::X |
        KeyCode::Y | KeyCode::Z => true,
        _ => false,
    }
}

/// Whether `k` is a digit key of the main block.
pub open spec fn is_digit_code(k: KeyCode) -> bool {
    match k {
        KeyCode::Key0 | KeyCode::Key1 | KeyCode::Key2 | KeyCode::Key3 | KeyCode::Key4 |
        KeyCode::Key5 | KeyCode::Key6 | KeyCode::Key7 | KeyCode::Key8 | KeyCode::Key9 => true,
        _ => false,
    }
}


proof fn lemma_letter_names_read_back(k: KeyCode)
    requires
        is_letter_code(k),
    ensures
        spec_parse_key_label(keycode_name(k)) == logged_key_id(k),
{
    match k {
        KeyCode::A => reveal_strlit("A"),
        KeyCode::B => reveal_strlit("B"),
        KeyCode::C => reveal_strlit("C"),
        KeyCode::D => reveal_strlit("D"),
        KeyCode::E => reveal_strlit("E"),
        KeyCode::F => reveal_strlit("F"),
        KeyCode::G => reveal_strlit("G"),
        KeyCode::H => reveal_strlit("H"),
        KeyCode::I => reveal_strlit("I"),
        KeyCode::J => reveal_strlit("J"),
        KeyCode::K => reveal_strlit("K"),
        KeyCode::L => reveal_strlit("L"),
        KeyCode::M => reveal_strlit("M"),
        KeyCode::N => reveal_strlit("N"),
        KeyCode::O => reveal_strlit("O"),
        KeyCode::P => reveal_strlit("P"),
        KeyCode::Q => reveal_strlit("Q"),
        KeyCode::R => reveal_strlit("R"),
        KeyCode::S => reveal_strlit("S"),
        KeyCode::T => reveal_strlit("T"),
        KeyCode::U => reveal_strlit("U"),
        KeyCode::V => reveal_strlit("V"),
        KeyCode::W => reveal_strlit("W"),
        KeyCode::X => reveal_strlit("X"),
        KeyCode::Y => reveal_strlit("Y"),
        KeyCode::Z => reveal_strlit("Z"),
        _ => {},
    }
}

proof fn lemma_digit_names_read_back(k: KeyCode)
    requires
        is_digit_code(k),
    ensures
        spec_parse_key_label(keycode_name(k)) == logged_key_id(k),
{
    match k {
        KeyCode::Key0 => reveal_strlit("0"),
        KeyCode::Key1 => reveal_strlit("1"),
        KeyCode::Key2 => reveal_strlit("2"),
        KeyCode::Key3 => reveal_strlit("3"),
        KeyCode::Key4 => reveal_strlit("4"),
        KeyCode::Key5 => reveal_strlit("5"),
        KeyCode::Key6 => reveal_strlit("6"),
        KeyCode::Key7 => reveal_strlit("7"),
        KeyCode::Key8 => reveal_strlit("8"),
        KeyCode::Key9 => reveal_strlit("9"),
        _ => {},
    }
}

/// Whether `k` is one of the editing keys counted under a word.
pub open spec fn is_editing_code(k: KeyCode) -> bool {
    match k {
        KeyCode::Space | KeyCode::Enter | KeyCode::Tab | KeyCode::Backspace | KeyCode::Delete |
        KeyCode::Escape => true,
        _ => false,
    }
}

/// Whether `k` is one of the modifier keys counted under a word.
pub open spec fn is_modifier_code(k: KeyCode) -> bool {
    match k {
        KeyCode::LShift | KeyCode::RShift | KeyCode::LControl | KeyCode::RControl |
        KeyCode::LAlt | KeyCode::RAlt | KeyCode::LMeta | KeyCode::RMeta => true,
        _ => false,
    }
}

/// Whether `k` is one of the arrow keys counted under a word.
pub open spec fn is_arrow_code(k: KeyCode) -> bool {
    match k {
        KeyCode::Up | KeyCode::Down | KeyCode::Left | KeyCode::Right => true,
        _ => false,
    }
}

/// Whether `k` is one of the symbol keys counted under a word.
pub open spec fn is_symbol_code(k: KeyCode) -> bool {
    match k {
        KeyCode::Comma | KeyCode::Dot | KeyCode::Semicolon | KeyCode::Grave | KeyCode::Minus |
        KeyCode::Equal | KeyCode::LeftBracket | KeyCode::RightBracket | KeyCode::BackSlash |
        KeyCode::Slash => true,
        _ => false,
    }
}

proof fn lemma_editing_names_read_back(k: KeyCode)
    requires
        is_editing_code(k),
    ensures
        spec_parse_key_label(keycode_name(k)) == logged_key_id(k),
{
    lemma_keyword_literals();
    match k {
        KeyCode::Space => {
            reveal_strlit("Space");
            assert(to_ascii_lower("Space"@) =~= "space"@);
        },
        KeyCode::Enter => {
            reveal_strlit("Enter");
            assert(to_ascii_lower("Enter"@) =~= "enter"@);
        },
        KeyCode::Tab => {
            reveal_strlit("Tab");
            assert(to_ascii_lower("Tab"@) =~= "tab"@);
        },
        KeyCode::Backspace => {
            reveal_strlit("Backspace");
            assert(to_ascii_lower("Backspace"@) =~= "backspace"@);
        },
        KeyCode::Delete => {
            reveal_strlit("Delete");
            assert(to_ascii_lower("Delete"@) =~= "delete"@);
        },
        KeyCode::Escape => {
            reveal_strlit("Escape");
            assert(to_ascii_lower("Escape"@) =~= "escape"@);
        },
        _ => {},
    }
}

proof fn lemma_modifier_names_read_back(k: KeyCode)
    requires
        is_modifier_code(k),
    ensures
        spec_parse_key_label(keycode_name(k)) == logged_key_id(k),
{
    lemma_keyword_literals();
    match k {
        KeyCode::LShift => {
            reveal_strlit("LeftShift");
            assert(to_ascii_lower("LeftShift"@) =~= "leftshift"@);
        },
        KeyCode::RShift => {
            reveal_strlit("RightShift");
            assert(to_ascii_lower("RightShift"@) =~= "rightshift"@);
        },
        KeyCode::LControl => {
            reveal_strlit("LeftControl");
            assert(to_ascii_lower("LeftControl"@) =~= "leftcontrol"@);
        },
        KeyCode::RControl => {
            reveal_strlit("RightControl");
            assert(to_ascii_lower("RightControl"@) =~= "rightcontrol"@);
        },
        KeyCode::LAlt => {
            reveal_strlit("LeftAlt");
            assert(to_ascii_lower("LeftAlt"@) =~= "leftalt"@);
        },
        KeyCode::RAlt => {
            reveal_strlit("RightAlt");
            assert(to_ascii_lower("RightAlt"@) =~= "rightalt"@);
        },
        KeyCode::LMeta => {
            reveal_strlit("LeftMeta");
            assert(to_ascii_lower("LeftMeta"@) =~= "leftmeta"@);
        },
        KeyCode::RMeta => {
            reveal_strlit("RightMeta");
            assert(to_ascii_lower("RightMeta"@) =~= "rightmeta"@);
        },
        _ => {},
    }
}

proof fn lemma_arrow_names_read_back(k: KeyCode)
    requires
        is_arrow_code(k),
    ensures
        spec_parse_key_label(keycode_name(k)) == logged_key_id(k),
{
    lemma_keyword_literals();
    match k {
        KeyCode::Up => {
            reveal_strlit("ArrowUp");
            assert(to_ascii_lower("ArrowUp"@) =~= "arrowup"@);
        },
        KeyCode::Down => {
            reveal_strlit("ArrowDown");
            assert(to_ascii_lower("ArrowDown"@) =~= "arrowdown"@);
        },
        KeyCode::Left => {
            reveal_strlit("ArrowLeft");
            assert(to_ascii_lower("ArrowLeft"@) =~= "arrowleft"@);
        },
        KeyCode::Right => {
            reveal_strlit("ArrowRight");
            assert(to_ascii_lower("ArrowRight"@) =~= "arrowright"@);
        },
        _ => {},
    }
}

proof fn lemma_symbol_names_read_back(k: KeyCode)
    requires
        is_symbol_code(k),
    ensures
        spec_parse_key_label(keycode_name(k)) == logged_key_id(k),
{
    lemma_keyword_literals();
    match k {
        KeyCode::Comma => {
            reveal_strlit("Comma");
            assert(to_ascii_lower("Comma"@) =~= "comma"@);
        },
        KeyCode::Dot => {
            reveal_strlit("Period");
            assert(to_ascii_lower("Period"@) =~= "period"@);
        },
        KeyCode::Semicolon => {
            reveal_strlit("Semicolon");
            assert(to_ascii_lower("Semicolon"@) =~= "semicolon"@);
        },
        KeyCode::Grave => {
            reveal_strlit("Grave");
            assert(to_ascii_lower("Grave"@) =~= "grave"@);
        },
        KeyCode::Minus => {
            reveal_strlit("Minus");
            assert(to_ascii_lower("Minus"@) =~= "minus"@);
        },
        KeyCode::Equal => {
            reveal_strlit("Equal");
            assert(to_ascii_lower("Equal"@) =~= "equal"@);
        },
        KeyCode::LeftBracket => {
            reveal_strlit("LeftBracket");
            assert(to_ascii_lower("LeftBracket"@) =~= "leftbracket"@);
        },
        KeyCode::RightBracket => {
            reveal_strlit("RightBracket");
            assert(to_ascii_lower("RightBracket"@) =~= "rightbracket"@);
        },
        KeyCode::BackSlash => {
            reveal_strlit("Backslash");
            assert(to_ascii_lower("Backslash"@) =~= "backslash"@);
        },
        KeyCode::Slash => {
            reveal_strlit("Slash");
            assert(to_ascii_lower("Slash"@) =~= "slash"@);
        },
        _ => {},
    }
}

proof fn lemma_unknown_names_read_back(k: KeyCode)
    requires
        !is_letter_code(k),
        !is_digit_code(k),
        !is_editing_code(k),
        !is_modifier_code(k),
        !is_arrow_code(k),
        !is_symbol_code(k),
    ensures
        spec_parse_key_label(keycode_name(k)) == logged_key_id(k),
{
    lemma_keyword_literals();
    reveal_strlit("Unknown");
    assert(to_ascii_lower("Unknown"@) =~= "unknown"@) by {
        reveal_strlit("unknown");
    }
}

/// What the key logger writes, the analyzer reads back: the name under
/// which a key is counted is read as that key (a digit as the digit, a
/// modifier, editing key, arrow or symbol as itself), and a letter or a key
/// counted as `Unknown` as no optimized key.
pub proof fn lemma_logged_names_read_back(k: KeyCode)
    ensures
        spec_parse_key_label(keycode_name(k)) == logged_key_id(k),
{
    if is_letter_code(k) {
        lemma_letter_names_read_back(k);
    } else if is_digit_code(k) {
        lemma_digit_names_read_back(k);
    } else if is_editing_code(k) {
        lemma_editing_names_read_back(k);
    } else if is_modifier_code(k) {
        lemma_modifier_names_read_back(k);
    } else if is_arrow_code(k) {
        lemma_arrow_names_read_back(k);
    } else if is_symbol_code(k) {
        lemma_symbol_names_read_back(k);
    } else {
        lemma_unknown_names_read_back(k);
    }
}

} // verus!
