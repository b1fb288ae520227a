//! Colours and labels of the layout figures, and the escaping of text put
//! into them.
use crate::geometry::{Finger, PlacementType};
use crate::text::{chars_of, str_eq, string_of_chars};
use vstd::prelude::*;

verus! {

/// The fill colour of the cells of each finger.
pub open spec fn finger_color(f: Finger) -> Seq<char> {
    match f {
        Finger::LPinky => "#ff9aa2"@,
        Finger::LRing => "#ffbfa3"@,
        Finger::LMiddle => "#fff4a3"@,
        Finger::LIndex => "#b9ffb7"@,
        Finger::LThumb => "#b5d6ff"@,
        Finger::RThumb => "#98c7ff"@,
        Finger::RIndex => "#a7fff0"@,
        Finger::RMiddle => "#fff08a"@,
        Finger::RRing => "#ffc89b"@,
        Finger::RPinky => "#ff8c94"@,
    }
}

/// The fill colour of the cells of a finger: pink, orange, yellow, green
/// and blue from the little finger to the thumb, a shade darker on the
/// right hand.
pub fn color_of(fgr: Finger) -> (r: &'static str)
    ensures
        r@ == finger_color(fgr),
{
    match fgr {
        Finger::LPinky => "#ff9aa2",
        Finger::LRing => "#ffbfa3",
        Finger::LMiddle => "#fff4a3",
        Finger::LIndex => "#b9ffb7",
        Finger::LThumb => "#b5d6ff",
        Finger::RThumb => "#98c7ff",
        Finger::RIndex => "#a7fff0",
        Finger::RMiddle => "#fff08a",
        Finger::RRing => "#ffc89b",
        Finger::RPinky => "#ff8c94",
    }
}

/// The two-letter label of a finger.
pub open spec fn short_finger_label(f: Finger) -> Seq<char> {
    match f {
        Finger::LPinky => "LP"@,
        Finger::LRing => "LR"@,
        Finger::LMiddle => "LM"@,
        Finger::LIndex => "LI"@,
        Finger::LThumb => "LT"@,
        Finger::RThumb => "RT"@,
        Finger::RIndex => "RI"@,
        Finger::RMiddle => "RM"@,
        Finger::RRing => "RR"@,
        Finger::RPinky => "RP"@,
    }
}

/// The two-letter label of a finger: hand, then finger.
pub fn finger_label(fgr: Finger) -> (r: &'static str)
    ensures
        r@ == short_finger_label(fgr),
{
    match fgr {
        Finger::LPinky => "LP",
        Finger::LRing => "LR",
        Finger::LMiddle => "LM",
        Finger::LIndex => "LI",
        Finger::LThumb => "LT",
        Finger::RThumb => "RT",
        Finger::RIndex => "RI",
        Finger::RMiddle => "RM",
        Finger::RRing => "RR",
        Finger::RPinky => "RP",
    }
}

/// The count of the first entry named `name`, if any.
pub open spec fn freq_of(freqs: Seq<(String, u64)>, name: Seq<char>) -> Option<u64>
    decreases freqs.len(),
{
    if freqs.len() == 0 {
        None
    } else if freqs[0].0@ == name {
        Some(freqs[0].1)
    } else {
        freq_of(freqs.drop_first(), name)
    }
}

/// The count of the key named `name`, if `freqs` has one.
pub fn find_freq(freqs: &Vec<(String, u64)>, name: &str) -> (r: Option<u64>)
    ensures
        r == freq_of(freqs@, name@),
{
    let mut k: usize = 0;
    assert(freqs@.skip(0) =~= freqs@);
    while k < freqs.len()
        invariant
            k <= freqs@.len(),
            freq_of(freqs@, name@) == freq_of(freqs@.skip(k as int), name@),
        decreases freqs@.len() - k,
    {
        proof {
            assert(freqs@.skip(k as int).drop_first() =~= freqs@.skip(k + 1));
        }
        if str_eq(freqs[k].0.as_str(), name) {
            return Some(freqs[k].1);
        }
        k = k + 1;
    }
    None
}

/// The colour of a key by how often it was pressed.
pub open spec fn heat_color(freq: u64) -> Seq<char> {
    if freq >= 1000 {
        "#ff6b6b"@
    } else if freq >= 500 {
        "#feca57"@
    } else if freq >= 100 {
        "#48dbfb"@
    } else {
        "#ddd"@
    }
}

/// The colour of a key by how often it was pressed: red from 1000 presses,
/// yellow from 500, blue from 100, grey below (and for a key without a
/// count).
pub fn get_key_color(key_name: &str, freqs: &Vec<(String, u64)>) -> (r: &'static str)
    ensures
        r@ == heat_color(
            match freq_of(freqs@, key_name@) {
                Some(f) => f,
                None => 0,
            },
        ),
{
    let freq = match find_freq(freqs, key_name) {
        Some(f) => f,
        None => 0,
    };
    if freq >= 1000 {
        "#ff6b6b"
    } else if freq >= 500 {
        "#feca57"
    } else if freq >= 100 {
        "#48dbfb"
    } else {
        "#ddd"
    }
}

/// The text that stands for the character `c` in markup, the apostrophe
/// written as `apos`.
pub open spec fn escape_char(c: char, apos: Seq<char>) -> Seq<char> {
    if c == '<' {
        "&lt;"@
    } else if c == '>' {
        "&gt;"@
    } else if c == '&' {
        "&amp;"@
    } else if c == '"' {
        "&quot;"@
    } else if c == '\'' {
        apos
    } else {
        seq![c]
    }
}

/// The text `s` with each special character of markup replaced.
pub open spec fn escape_text(s: Seq<char>, apos: Seq<char>) -> Seq<char>
    decreases s.len(),
{
    if s.len() == 0 {
        Seq::empty()
    } else {
        escape_text(s.drop_last(), apos) + escape_char(s.last(), apos)
    }
}

/// Appends the characters of `s` to `out`.
fn append_str(out: &mut Vec<char>, s: &str)
    ensures
        final(out)@ == old(out)@ + s@,
{
    let cs = chars_of(s);
    let mut i: usize = 0;
    while i < cs.len()
        invariant
            cs@ == s@,
            i <= cs@.len(),
            out@ == old(out)@ + s@.take(i as int),
        decreases cs@.len() - i,
    {
        out.push(cs[i]);
        i = i + 1;
        assert(out@ =~= old(out)@ + s@.take(i as int));
    }
    assert(s@.take(i as int) =~= s@);
}

/// `text` with `<`, `>`, `&`, `"` and `'` written as character
/// references, the apostrophe as `apos`.
pub fn escape_markup(text: &str, apos: &str) -> (r: String)
    ensures
        r@ == escape_text(text@, apos@),
{
    let cs = chars_of(text);
    let mut out: Vec<char> = Vec::new();
    let mut i: usize = 0;
    while i < cs.len()
        invariant
            cs@ == text@,
            i <= cs@.len(),
            out@ == escape_text(text@.take(i as int), apos@),
        decreases cs@.len() - i,
    {
        let c = cs[i];
        let ghost before = out@;
        if c == '<' {
            append_str(&mut out, "&lt;");
        } else if c == '>' {
            append_str(&mut out, "&gt;");
        } else if c == '&' {
            append_str(&mut out, "&amp;");
        } else if c == '"' {
            append_str(&mut out, "&quot;");
        } else if c == '\'' {
            append_str(&mut out, apos);
        } else {
            out.push(c);
        }
        proof {
            let t = text@.take(i + 1);
            assert(t.drop_last() =~= text@.take(i as int));
            assert(t.last() == c);
            assert(out@ =~= before + escape_char(c, apos@));
        }
        i = i + 1;
    }
    assert(text@.take(i as int) =~= text@);
    string_of_chars(out.as_slice())
}

/// `text` with `&`, `<`, `>`, `"` and `'` written as character references
/// (`&amp;`, `&lt;`, `&gt;`, `&quot;` and `&#x27;`).
pub fn html_encode(text: &str) -> (r: String)
    ensures
        r@ == escape_text(text@, "&#x27;"@),
{
    escape_markup(text, "&#x27;")
}

/// Named colours of the raster figures, as red, green and blue.
pub struct Colors;

impl Colors {
    /// White.
    pub fn white() -> (r: [u8; 3])
        ensures
            r@ == seq![255u8, 255u8, 255u8],
    {
        let r = [255u8, 255u8, 255u8];
        assert(r@ =~= seq![255u8, 255u8, 255u8]);
        r
    }

    /// Black.
    pub fn black() -> (r: [u8; 3])
        ensures
            r@ == seq![0u8, 0u8, 0u8],
    {
        let r = [0u8, 0u8, 0u8];
        assert(r@ =~= seq![0u8, 0u8, 0u8]);
        r
    }

    /// Light grey.
    pub fn light_gray() -> (r: [u8; 3])
        ensures
            r@ == seq![200u8, 200u8, 200u8],
    {
        let r = [200u8, 200u8, 200u8];
        assert(r@ =~= seq![200u8, 200u8, 200u8]);
        r
    }

    /// Dark grey.
    pub fn dark_gray() -> (r: [u8; 3])
        ensures
            r@ == seq![128u8, 128u8, 128u8],
    {
        let r = [128u8, 128u8, 128u8];
        assert(r@ =~= seq![128u8, 128u8, 128u8]);
        r
    }

    /// Blue.
    pub fn blue() -> (r: [u8; 3])
        ensures
            r@ == seq![0u8, 100u8, 255u8],
    {
        let r = [0u8, 100u8, 255u8];
        assert(r@ =~= seq![0u8, 100u8, 255u8]);
        r
    }

    /// Green.
    pub fn green() -> (r: [u8; 3])
        ensures
            r@ == seq![0u8, 200u8, 0u8],
    {
        let r = [0u8, 200u8, 0u8];
        assert(r@ =~= seq![0u8, 200u8, 0u8]);
        r
    }

    /// Red.
    pub fn red() -> (r: [u8; 3])
        ensures
            r@ == seq![255u8, 0u8, 0u8],
    {
        let r = [255u8, 0u8, 0u8];
        assert(r@ =~= seq![255u8, 0u8, 0u8]);
        r
    }

    /// Orange.
    pub fn orange() -> (r: [u8; 3])
        ensures
            r@ == seq![255u8, 165u8, 0u8],
    {
        let r = [255u8, 165u8, 0u8];
        assert(r@ =~= seq![255u8, 165u8, 0u8]);
        r
    }
}

/// The pale background colour of the cells of a finger in the layout
/// image.
pub open spec fn spec_region_color(f: Finger) -> Seq<u8> {
    match f {
        Finger::LPinky | Finger::RPinky => seq![255u8, 230u8, 230u8],
        Finger::LRing | Finger::RRing => seq![255u8, 245u8, 230u8],
        Finger::LMiddle | Finger::RMiddle => seq![255u8, 255u8, 230u8],
        Finger::LIndex | Finger::RIndex => seq![230u8, 255u8, 230u8],
        Finger::LThumb => seq![230u8, 230u8, 255u8],
        Finger::RThumb => seq![240u8, 230u8, 255u8],
    }
}

/// The background colour of the cells of a finger in the layout image:
/// pale red, orange, yellow and green from the little finger to the index
/// finger on either hand, pale blue and violet for the two thumbs.
pub fn region_color(f: Finger) -> (r: [u8; 3])
    ensures
        r@ == spec_region_color(f),
{
    let r = match f {
        Finger::LPinky | Finger::RPinky => [255u8, 230u8, 230u8],
        Finger::LRing | Finger::RRing => [255u8, 245u8, 230u8],
        Finger::LMiddle | Finger::RMiddle => [255u8, 255u8, 230u8],
        Finger::LIndex | Finger::RIndex => [230u8, 255u8, 230u8],
        Finger::LThumb => [230u8, 230u8, 255u8],
        Finger::RThumb => [240u8, 230u8, 255u8],
    };
    assert(r@ =~= spec_region_color(f));
    r
}

/// The fill of a key of the given kind in the layout image: none for a
/// fixed key (drawn as an outline only), blue for an optimized key, green
/// for an arrow or digit key.
pub fn key_fill_color(t: PlacementType) -> (r: Option<[u8; 3]>)
    ensures
        t is Fixed <==> r is None,
        t is Optimized ==> (r matches Some(c) && c@ == seq![0u8, 100u8, 255u8]),
        (t is Arrow || t is Digit) ==> (r matches Some(c) && c@ == seq![0u8, 200u8, 0u8]),
{
    match t {
        PlacementType::Fixed => None,
        PlacementType::Optimized => Some(Colors::blue()),
        PlacementType::Arrow | PlacementType::Digit => Some(Colors::green()),
    }
}

} // verus!
