//! The reference layout that the key counts were typed on, and the places
//! of its keys for the evaluation of that layout.
use crate::constants::MIDDLE_CELL;
use crate::counts::{entries_map, keys_distinct, lemma_entries_map};
use crate::csv_reader::KeyFreq;
use crate::config::Config;
use crate::geometry::{
    determine_finger_for_key, ortho_homes, spec_finger_for_key, CellId, CustomBuilder, CustomKeyDef, Finger,
    GeometryBuilder,
};
use crate::keys::{parse_key_label, spec_parse_key_label, KeyId};
use crate::model::home_of;
use vstd::prelude::*;

verus! {

/// The keys of the reference layout (a row-staggered QWERTY keyboard with
/// its modifiers), each with its row, the offset of its first cell from the
/// middle cell and its width in cells.
pub open spec fn spec_baseline_layout() -> Seq<CustomKeyDef> {
    seq![
        CustomKeyDef { key_name: "leftcontrol", row: 0, start_cell_offset: -27i32, width_cells: 5 },
        CustomKeyDef { key_name: "leftmeta", row: 0, start_cell_offset: -22i32, width_cells: 5 },
        CustomKeyDef { key_name: "leftalt", row: 0, start_cell_offset: -17i32, width_cells: 5 },
        CustomKeyDef { key_name: "space", row: 0, start_cell_offset: -12i32, width_cells: 25 },
        CustomKeyDef { key_name: "rightalt", row: 0, start_cell_offset: 13i32, width_cells: 4 },
        CustomKeyDef { key_name: "menu", row: 0, start_cell_offset: 17i32, width_cells: 4 },
        CustomKeyDef { key_name: "rightcontrol", row: 0, start_cell_offset: 21i32, width_cells: 4 },
        CustomKeyDef { key_name: "arrowleft", row: 0, start_cell_offset: 25i32, width_cells: 4 },
        CustomKeyDef { key_name: "arrowdown", row: 0, start_cell_offset: 29i32, width_cells: 4 },
        CustomKeyDef { key_name: "arrowright", row: 0, start_cell_offset: 33i32, width_cells: 4 },
        CustomKeyDef { key_name: "leftshift", row: 1, start_cell_offset: -27i32, width_cells: 9 },
        CustomKeyDef { key_name: "Z", row: 1, start_cell_offset: -18i32, width_cells: 4 },
        CustomKeyDef { key_name: "X", row: 1, start_cell_offset: -14i32, width_cells: 4 },
        CustomKeyDef { key_name: "C", row: 1, start_cell_offset: -10i32, width_cells: 4 },
        CustomKeyDef { key_name: "V", row: 1, start_cell_offset: -6i32, width_cells: 4 },
        CustomKeyDef { key_name: "B", row: 1, start_cell_offset: -2i32, width_cells: 4 },
        CustomKeyDef { key_name: "N", row: 1, start_cell_offset: 2i32, width_cells: 4 },
        CustomKeyDef { key_name: "M", row: 1, start_cell_offset: 6i32, width_cells: 4 },
        CustomKeyDef { key_name: ",", row: 1, start_cell_offset: 10i32, width_cells: 4 },
        CustomKeyDef { key_name: ".", row: 1, start_cell_offset: 14i32, width_cells: 4 },
        CustomKeyDef { key_name: "/", row: 1, start_cell_offset: 18i32, width_cells: 4 },
        CustomKeyDef { key_name: "rightshift", row: 1, start_cell_offset: 22i32, width_cells: 7 },
        CustomKeyDef { key_name: "arrowup", row: 1, start_cell_offset: 29i32, width_cells: 4 },
        CustomKeyDef { key_name: "pgdown", row: 1, start_cell_offset: 33i32, width_cells: 4 },
        CustomKeyDef { key_name: "capslock", row: 2, start_cell_offset: -27i32, width_cells: 7 },
        CustomKeyDef { key_name: "A", row: 2, start_cell_offset: -20i32, width_cells: 4 },
        CustomKeyDef { key_name: "S", row: 2, start_cell_offset: -16i32, width_cells: 4 },
        CustomKeyDef { key_name: "D", row: 2, start_cell_offset: -12i32, width_cells: 4 },
        CustomKeyDef { key_name: "F", row: 2, start_cell_offset: -8i32, width_cells: 4 },
        CustomKeyDef { key_name: "G", row: 2, start_cell_offset: -4i32, width_cells: 4 },
        CustomKeyDef { key_name: "H", row: 2, start_cell_offset: 0i32, width_cells: 4 },
        CustomKeyDef { key_name: "J", row: 2, start_cell_offset: 4i32, width_cells: 4 },
        CustomKeyDef { key_name: "K", row: 2, start_cell_offset: 8i32, width_cells: 4 },
        CustomKeyDef { key_name: "L", row: 2, start_cell_offset: 12i32, width_cells: 4 },
        CustomKeyDef { key_name: ";", row: 2, start_cell_offset: 16i32, width_cells: 4 },
        CustomKeyDef { key_name: "'", row: 2, start_cell_offset: 20i32, width_cells: 4 },
        CustomKeyDef { key_name: "enter", row: 2, start_cell_offset: 24i32, width_cells: 9 },
        CustomKeyDef { key_name: "pgup", row: 2, start_cell_offset: 33i32, width_cells: 4 },
        CustomKeyDef { key_name: "tab", row: 3, start_cell_offset: -27i32, width_cells: 4 },
        CustomKeyDef { key_name: "Q", row: 3, start_cell_offset: -21i32, width_cells: 4 },
        CustomKeyDef { key_name: "W", row: 3, start_cell_offset: -17i32, width_cells: 4 },
        CustomKeyDef { key_name: "E", row: 3, start_cell_offset: -13i32, width_cells: 4 },
        CustomKeyDef { key_name: "R", row: 3, start_cell_offset: -9i32, width_cells: 4 },
        CustomKeyDef { key_name: "T", row: 3, start_cell_offset: -5i32, width_cells: 4 },
        CustomKeyDef { key_name: "Y", row: 3, start_cell_offset: -1i32, width_cells: 4 },
        CustomKeyDef { key_name: "U", row: 3, start_cell_offset: 3i32, width_cells: 4 },
        CustomKeyDef { key_name: "I", row: 3, start_cell_offset: 7i32, width_cells: 4 },
        CustomKeyDef { key_name: "O", row: 3, start_cell_offset: 11i32, width_cells: 4 },
        CustomKeyDef { key_name: "P", row: 3, start_cell_offset: 15i32, width_cells: 4 },
        CustomKeyDef { key_name: "[", row: 3, start_cell_offset: 19i32, width_cells: 4 },
        CustomKeyDef { key_name: "]", row: 3, start_cell_offset: 23i32, width_cells: 4 },
        CustomKeyDef { key_name: "\\", row: 3, start_cell_offset: 27i32, width_cells: 6 },
        CustomKeyDef { key_name: "delete", row: 3, start_cell_offset: 33i32, width_cells: 4 },
        CustomKeyDef { key_name: "`", row: 4, start_cell_offset: -27i32, width_cells: 4 },
        CustomKeyDef { key_name: "1", row: 4, start_cell_offset: -23i32, width_cells: 4 },
        CustomKeyDef { key_name: "2", row: 4, start_cell_offset: -19i32, width_cells: 4 },
        CustomKeyDef { key_name: "3", row: 4, start_cell_offset: -15i32, width_cells: 4 },
        CustomKeyDef { key_name: "4", row: 4, start_cell_offset: -11i32, width_cells: 4 },
        CustomKeyDef { key_name: "5", row: 4, start_cell_offset: -7i32, width_cells: 4 },
        CustomKeyDef { key_name: "6", row: 4, start_cell_offset: -3i32, width_cells: 4 },
        CustomKeyDef { key_name: "7", row: 4, start_cell_offset: 1i32, width_cells: 4 },
        CustomKeyDef { key_name: "8", row: 4, start_cell_offset: 5i32, width_cells: 4 },
        CustomKeyDef { key_name: "9", row: 4, start_cell_offset: 9i32, width_cells: 4 },
        CustomKeyDef { key_name: "0", row: 4, start_cell_offset: 13i32, width_cells: 4 },
        CustomKeyDef { key_name: "-", row: 4, start_cell_offset: 17i32, width_cells: 4 },
        CustomKeyDef { key_name: "=", row: 4, start_cell_offset: 21i32, width_cells: 4 },
        CustomKeyDef { key_name: "backspace", row: 4, start_cell_offset: 25i32, width_cells: 8 },
        CustomKeyDef { key_name: "`", row: 4, start_cell_offset: 33i32, width_cells: 4 }
    ]
}

/// The keys of the reference layout, row by row from the bottom.
pub fn baseline_layout() -> (v: Vec<CustomKeyDef>)
    ensures
        v@ == spec_baseline_layout(),
        defs_in_range(v@),
{
    let v = vec![
        CustomKeyDef { key_name: "leftcontrol", row: 0, start_cell_offset: -27, width_cells: 5 },
        CustomKeyDef { key_name: "leftmeta", row: 0, start_cell_offset: -22, width_cells: 5 },
        CustomKeyDef { key_name: "leftalt", row: 0, start_cell_offset: -17, width_cells: 5 },
        CustomKeyDef { key_name: "space", row: 0, start_cell_offset: -12, width_cells: 25 },
        CustomKeyDef { key_name: "rightalt", row: 0, start_cell_offset: 13, width_cells: 4 },
        CustomKeyDef { key_name: "menu", row: 0, start_cell_offset: 17, width_cells: 4 },
        CustomKeyDef { key_name: "rightcontrol", row: 0, start_cell_offset: 21, width_cells: 4 },
        CustomKeyDef { key_name: "arrowleft", row: 0, start_cell_offset: 25, width_cells: 4 },
        CustomKeyDef { key_name: "arrowdown", row: 0, start_cell_offset: 29, width_cells: 4 },
        CustomKeyDef { key_name: "arrowright", row: 0, start_cell_offset: 33, width_cells: 4 },
        CustomKeyDef { key_name: "leftshift", row: 1, start_cell_offset: -27, width_cells: 9 },
        CustomKeyDef { key_name: "Z", row: 1, start_cell_offset: -18, width_cells: 4 },
        CustomKeyDef { key_name: "X", row: 1, start_cell_offset: -14, width_cells: 4 },
        CustomKeyDef { key_name: "C", row: 1, start_cell_offset: -10, width_cells: 4 },
        CustomKeyDef { key_name: "V", row: 1, start_cell_offset: -6, width_cells: 4 },
        CustomKeyDef { key_name: "B", row: 1, start_cell_offset: -2, width_cells: 4 },
        CustomKeyDef { key_name: "N", row: 1, start_cell_offset: 2, width_cells: 4 },
        CustomKeyDef { key_name: "M", row: 1, start_cell_offset: 6, width_cells: 4 },
        CustomKeyDef { key_name: ",", row: 1, start_cell_offset: 10, width_cells: 4 },
        CustomKeyDef { key_name: ".", row: 1, start_cell_offset: 14, width_cells: 4 },
        CustomKeyDef { key_name: "/", row: 1, start_cell_offset: 18, width_cells: 4 },
        CustomKeyDef { key_name: "rightshift", row: 1, start_cell_offset: 22, width_cells: 7 },
        CustomKeyDef { key_name: "arrowup", row: 1, start_cell_offset: 29, width_cells: 4 },
        CustomKeyDef { key_name: "pgdown", row: 1, start_cell_offset: 33, width_cells: 4 },
        CustomKeyDef { key_name: "capslock", row: 2, start_cell_offset: -27, width_cells: 7 },
        CustomKeyDef { key_name: "A", row: 2, start_cell_offset: -20, width_cells: 4 },
        CustomKeyDef { key_name: "S", row: 2, start_cell_offset: -16, width_cells: 4 },
        CustomKeyDef { key_name: "D", row: 2, start_cell_offset: -12, width_cells: 4 },
        CustomKeyDef { key_name: "F", row: 2, start_cell_offset: -8, width_cells: 4 },
        CustomKeyDef { key_name: "G", row: 2, start_cell_offset: -4, width_cells: 4 },
        CustomKeyDef { key_name: "H", row: 2, start_cell_offset: 0, width_cells: 4 },
        CustomKeyDef { key_name: "J", row: 2, start_cell_offset: 4, width_cells: 4 },
        CustomKeyDef { key_name: "K", row: 2, start_cell_offset: 8, width_cells: 4 },
        CustomKeyDef { key_name: "L", row: 2, start_cell_offset: 12, width_cells: 4 },
        CustomKeyDef { key_name: ";", row: 2, start_cell_offset: 16, width_cells: 4 },
        CustomKeyDef { key_name: "'", row: 2, start_cell_offset: 20, width_cells: 4 },
        CustomKeyDef { key_name: "enter", row: 2, start_cell_offset: 24, width_cells: 9 },
        CustomKeyDef { key_name: "pgup", row: 2, start_cell_offset: 33, width_cells: 4 },
        CustomKeyDef { key_name: "tab", row: 3, start_cell_offset: -27, width_cells: 4 },
        CustomKeyDef { key_name: "Q", row: 3, start_cell_offset: -21, width_cells: 4 },
        CustomKeyDef { key_name: "W", row: 3, start_cell_offset: -17, width_cells: 4 },
        CustomKeyDef { key_name: "E", row: 3, start_cell_offset: -13, width_cells: 4 },
        CustomKeyDef { key_name: "R", row: 3, start_cell_offset: -9, width_cells: 4 },
        CustomKeyDef { key_name: "T", row: 3, start_cell_offset: -5, width_cells: 4 },
        CustomKeyDef { key_name: "Y", row: 3, start_cell_offset: -1, width_cells: 4 },
        CustomKeyDef { key_name: "U", row: 3, start_cell_offset: 3, width_cells: 4 },
        CustomKeyDef { key_name: "I", row: 3, start_cell_offset: 7, width_cells: 4 },
        CustomKeyDef { key_name: "O", row: 3, start_cell_offset: 11, width_cells: 4 },
        CustomKeyDef { key_name: "P", row: 3, start_cell_offset: 15, width_cells: 4 },
        CustomKeyDef { key_name: "[", row: 3, start_cell_offset: 19, width_cells: 4 },
        CustomKeyDef { key_name: "]", row: 3, start_cell_offset: 23, width_cells: 4 },
        CustomKeyDef { key_name: "\\", row: 3, start_cell_offset: 27, width_cells: 6 },
        CustomKeyDef { key_name: "delete", row: 3, start_cell_offset: 33, width_cells: 4 },
        CustomKeyDef { key_name: "`", row: 4, start_cell_offset: -27, width_cells: 4 },
        CustomKeyDef { key_name: "1", row: 4, start_cell_offset: -23, width_cells: 4 },
        CustomKeyDef { key_name: "2", row: 4, start_cell_offset: -19, width_cells: 4 },
        CustomKeyDef { key_name: "3", row: 4, start_cell_offset: -15, width_cells: 4 },
        CustomKeyDef { key_name: "4", row: 4, start_cell_offset: -11, width_cells: 4 },
        CustomKeyDef { key_name: "5", row: 4, start_cell_offset: -7, width_cells: 4 },
        CustomKeyDef { key_name: "6", row: 4, start_cell_offset: -3, width_cells: 4 },
        CustomKeyDef { key_name: "7", row: 4, start_cell_offset: 1, width_cells: 4 },
        CustomKeyDef { key_name: "8", row: 4, start_cell_offset: 5, width_cells: 4 },
        CustomKeyDef { key_name: "9", row: 4, start_cell_offset: 9, width_cells: 4 },
        CustomKeyDef { key_name: "0", row: 4, start_cell_offset: 13, width_cells: 4 },
        CustomKeyDef { key_name: "-", row: 4, start_cell_offset: 17, width_cells: 4 },
        CustomKeyDef { key_name: "=", row: 4, start_cell_offset: 21, width_cells: 4 },
        CustomKeyDef { key_name: "backspace", row: 4, start_cell_offset: 25, width_cells: 8 },
        CustomKeyDef { key_name: "`", row: 4, start_cell_offset: 33, width_cells: 4 }
    ];
    assert(v@ =~= spec_baseline_layout());
    v
}

/// A key of the reference layout at its place: its row, first cell and
/// width in cells, the finger that presses it and that finger's home.
#[derive(Debug, Clone, Copy, PartialEq, Eq, Structural)]
pub struct BaselinePlace {
    pub key: KeyId,
    pub row: usize,
    pub start_cell: usize,
    pub width_cells: usize,
    pub finger: Finger,
    pub home: CellId,
}

/// Whether the offsets and widths of `defs` give cells of a row.
pub open spec fn defs_in_range(defs: Seq<CustomKeyDef>) -> bool {
    forall|i: int|
        0 <= i < defs.len() ==> {
            let d = #[trigger] defs[i];
            &&& 0 <= MIDDLE_CELL + d.start_cell_offset <= i32::MAX
            &&& d.start_cell_offset + d.width_cells / 2 <= i32::MAX
            &&& d.width_cells <= i32::MAX
        }
}

/// The place of the key `d`, if its name names an optimized key that the
/// counts hold (and they hold some presses) and its finger has a home.
pub open spec fn baseline_place(d: CustomKeyDef, homes: Seq<(Finger, CellId)>, counts: Map<KeyId, u64>, total: nat) -> Option<BaselinePlace> {
    match spec_parse_key_label(d.key_name@) {
        None => None,
        Some(key) => {
            let finger = spec_finger_for_key(d.row as int, d.start_cell_offset as int, d.width_cells as int);
            if total > 0 && counts.contains_key(key) {
                match home_of(homes, finger) {
                    Some(home) => Some(
                        BaselinePlace {
                            key,
                            row: d.row,
                            start_cell: (MIDDLE_CELL + d.start_cell_offset) as usize,
                            width_cells: d.width_cells,
                            finger,
                            home,
                        },
                    ),
                    None => None,
                }
            } else {
                None
            }
        },
    }
}

/// The places of the keys of `defs` that have one, in order.
pub open spec fn baseline_places(defs: Seq<CustomKeyDef>, homes: Seq<(Finger, CellId)>, counts: Map<KeyId, u64>, total: nat) -> Seq<BaselinePlace>
    decreases defs.len(),
{
    if defs.len() == 0 {
        Seq::empty()
    } else {
        baseline_places(defs.drop_last(), homes, counts, total) + match baseline_place(defs.last(), homes, counts, total) {
            Some(p) => seq![p],
            None => Seq::empty(),
        }
    }
}

/// The home of `finger`, if `homes` has one.
fn home_for(homes: &Vec<(Finger, CellId)>, finger: Finger) -> (r: Option<CellId>)
    ensures
        r == home_of(homes@, finger),
{
    let mut k: usize = 0;
    assert(homes@.skip(0) =~= homes@);
    while k < homes.len()
        invariant
            k <= homes@.len(),
            home_of(homes@, finger) == home_of(homes@.skip(k as int), finger),
        decreases homes@.len() - k,
    {
        proof {
            assert(homes@.skip(k as int).drop_first() =~= homes@.skip(k + 1));
        }
        if homes[k].0 == finger {
            return Some(homes[k].1);
        }
        k = k + 1;
    }
    None
}

/// Whether the counts hold `key`.
fn has_count(freqs: &KeyFreq, key: KeyId) -> (r: bool)
    ensures
        r == freqs@.contains_key(key),
{
    let entries = freqs.counts();
    let mut i: usize = 0;
    while i < entries.len()
        invariant
            i <= entries@.len(),
            entries@ == freqs.entries(),
            keys_distinct(entries@),
            forall|j: int| 0 <= j < i ==> entries@[j].0 != key,
        decreases entries@.len() - i,
    {
        if entries[i].0 == key {
            proof {
                freqs.lemma_entries();
                lemma_entries_map(entries@);
                assert(entries_map(entries@).contains_key(entries@[i as int].0));
            }
            return true;
        }
        i = i + 1;
    }
    proof {
        freqs.lemma_entries();
        lemma_entries_map(entries@);
        if freqs@.contains_key(key) {
            let j = choose|j: int| 0 <= j < entries@.len() && entries@[j].0 == key;
        }
    }
    false
}

/// The keys of the reference layout that the evaluation of that layout
/// counts, at their places: those whose name names an optimized key with a
/// count (none when the counts hold no press) and whose finger has a home.
pub fn baseline_key_places(defs: &Vec<CustomKeyDef>, homes: &Vec<(Finger, CellId)>, freqs: &KeyFreq) -> (v: Vec<BaselinePlace>)
    requires
        defs_in_range(defs@),
    ensures
        v@ == baseline_places(defs@, homes@, freqs@, freqs.spec_total()),
{
    let total = freqs.total();
    let mut v: Vec<BaselinePlace> = Vec::new();
    let mut i: usize = 0;
    while i < defs.len()
        invariant
            defs_in_range(defs@),
            total == freqs.spec_total(),
            i <= defs@.len(),
            v@ == baseline_places(defs@.take(i as int), homes@, freqs@, freqs.spec_total()),
        decreases defs@.len() - i,
    {
        let d = &defs[i];
        proof {
            let t = defs@.take(i + 1);
            assert(t.drop_last() =~= defs@.take(i as int));
            assert(t.last() == defs@[i as int]);
        }
        match parse_key_label(d.key_name) {
            Some(key) => {
                let finger = determine_finger_for_key(d);
                if total > 0 && has_count(freqs, key) {
                    match home_for(homes, finger) {
                        Some(home) => {
                            let start: i32 = MIDDLE_CELL as i32 + d.start_cell_offset;
                            v.push(
                                BaselinePlace {
                                    key,
                                    row: d.row,
                                    start_cell: start as usize,
                                    width_cells: d.width_cells,
                                    finger,
                                    home,
                                },
                            );
                        },
                        None => {},
                    }
                }
            },
            None => {},
        }
        i = i + 1;
    }
    assert(defs@.take(i as int) =~= defs@);
    v
}

/// The keys of the reference layout that its evaluation counts, at their
/// places, with the homes of the reference layout: the part of the
/// evaluation of the reference layout that is no arithmetic on times.
pub fn baseline_evaluation_places(config: &Config, freqs: &KeyFreq) -> (v: Vec<BaselinePlace>)
    ensures
        v@ == baseline_places(spec_baseline_layout(), ortho_homes(), freqs@, freqs.spec_total()),
{
    let defs = baseline_layout();
    let homes = CustomBuilder::build_home_positions(config);
    baseline_key_places(&defs, &homes, freqs)
}

} // verus!
