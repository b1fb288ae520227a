//! Labels and colours of the debug figures of the grid and of an
//! optimized layout.
use crate::colors::{escape_markup, escape_text, find_freq, freq_of, heat_color};
use crate::geometry::Finger;
use crate::text::{chars_of, str_eq};
use vstd::prelude::*;

verus! {

/// The corner of a figure that holds the legend.
#[derive(Debug, Clone, Copy, PartialEq, Eq, Structural)]
pub enum LegendPos {
    TopLeft,
    TopRight,
    BottomLeft,
    BottomRight,
}

/// What a debug figure shows.
#[derive(Debug, Clone, Copy, PartialEq, Eq, Structural)]
pub enum RenderMode {
    /// Each quarter-unit cell filled with the colour of its finger.
    Partition,
    /// Vertical bands at the finger boundaries.
    ZonesVertical,
    /// The keys of an optimized layout.
    OptimizedLayout,
}

/// The full name of a finger.
pub open spec fn long_finger_label(f: Finger) -> Seq<char> {
    match f {
        Finger::LPinky => "Left Pinky"@,
        Finger::LRing => "Left Ring"@,
        Finger::LMiddle => "Left Middle"@,
        Finger::LIndex => "Left Index"@,
        Finger::LThumb => "Left Thumb"@,
        Finger::RThumb => "Right Thumb"@,
        Finger::RIndex => "Right Index"@,
        Finger::RMiddle => "Right Middle"@,
        Finger::RRing => "Right Ring"@,
        Finger::RPinky => "Right Pinky"@,
    }
}

/// The full name of a finger, as the legend shows it.
pub fn finger_label(fgr: Finger) -> (r: &'static str)
    ensures
        r@ == long_finger_label(fgr),
{
    match fgr {
        Finger::LPinky => "Left Pinky",
        Finger::LRing => "Left Ring",
        Finger::LMiddle => "Left Middle",
        Finger::LIndex => "Left Index",
        Finger::LThumb => "Left Thumb",
        Finger::RThumb => "Right Thumb",
        Finger::RIndex => "Right Index",
        Finger::RMiddle => "Right Middle",
        Finger::RRing => "Right Ring",
        Finger::RPinky => "Right Pinky",
    }
}

/// The fill colour of the cells of a finger.
pub fn color_of(fgr: Finger) -> (r: &'static str)
    ensures
        r@ == crate::colors::finger_color(fgr),
{
    crate::colors::color_of(fgr)
}

/// Whether `s` begins with `prefix`.
pub open spec fn has_prefix(s: Seq<char>, prefix: Seq<char>) -> bool {
    prefix.len() <= s.len() && s.take(prefix.len() as int) == prefix
}

/// Whether `s` begins with `prefix`.
fn starts_with(s: &str, prefix: &str) -> (r: bool)
    ensures
        r == has_prefix(s@, prefix@),
{
    let a = chars_of(s);
    let b = chars_of(prefix);
    if b.len() > a.len() {
        return false;
    }
    let mut i: usize = 0;
    while i < b.len()
        invariant
            a@ == s@,
            b@ == prefix@,
            b@.len() <= a@.len(),
            i <= b@.len(),
            forall|j: int| 0 <= j < i ==> a@[j] == b@[j],
        decreases b@.len() - i,
    {
        if a[i] != b[i] {
            assert(s@.take(prefix@.len() as int)[i as int] != prefix@[i as int]);
            return false;
        }
        i = i + 1;
    }
    assert(s@.take(prefix@.len() as int) =~= prefix@);
    true
}

/// The colour of a key of an optimized layout.
pub open spec fn layout_key_color(name: Seq<char>, freq: Option<u64>) -> Seq<char> {
    if has_prefix(name, "Arrow"@) {
        "#e0e0e0"@
    } else {
        match freq {
            Some(f) => heat_color(f),
            None => "#f0f0f0"@,
        }
    }
}

/// The colour of a key of an optimized layout: light grey for an arrow
/// key, else by how often it was pressed (red from 1000 presses, orange
/// from 500, blue from 100, grey below), and a lighter grey for a key
/// without a count.
pub fn get_key_color(key_name: &str, freqs: &Vec<(String, u64)>) -> (r: &'static str)
    ensures
        r@ == layout_key_color(key_name@, freq_of(freqs@, key_name@)),
{
    if starts_with(key_name, "Arrow") {
        return "#e0e0e0";
    }
    match find_freq(freqs, key_name) {
        Some(freq) => {
            if freq >= 1000 {
                "#ff6b6b"
            } else if freq >= 500 {
                "#feca57"
            } else if freq >= 100 {
                "#48dbfb"
            } else {
                "#ddd"
            }
        },
        None => "#f0f0f0",
    }
}

/// `text` with `<`, `>`, `&`, `"` and `'` written as character references
/// (`&lt;`, `&gt;`, `&amp;`, `&quot;` and `&apos;`).
pub fn html_encode(text: &str) -> (r: String)
    ensures
        r@ == escape_text(text@, "&apos;"@),
{
    escape_markup(text, "&apos;")
}

} // verus!
