//! The integer structure of the layout model of the first solver version:
//! the slots a key may take, the decision variables, the constraints that
//! every key is placed once and every cell is covered at most once, and
//! the layout that a chosen assignment gives.
use crate::arrows::{
    lemma_arrow_keys_cover_cluster, placement_in_range, span_is_free, spec_arrow_positions,
    spec_occupied_cells, under_keys, ArrowPlacement,
};
use crate::constants::{MAX_WIDTH_CELLS, MIN_WIDTH_CELLS, U2CELL};
use crate::error::KbOptError;
use crate::geometry::{spec_cell_finger, fixed_blocks, GeometryName, block_covers, block_placements, blocks_fit, fixed_placements, grid_cell, is_fresh_grid, reserved, finger_name, finger_to_string, Cell, CellId, Finger, Geometry, KeyPlacement, PlacementType};
use crate::keys::KeyId;
use crate::text::concat3;
use vstd::prelude::*;

verus! {

/// A place that a key may take: `width` cells of row `row` from column
/// `start` on, served by `finger` (the finger of its centre cell), whose
/// home is the cell `home`.
#[derive(Debug, Clone, Copy, PartialEq, Eq, Structural)]
pub struct KeySlot {
    pub row: usize,
    pub start: usize,
    pub width: usize,
    pub finger: Finger,
    pub home: CellId,
}

/// Whether a key of `width` cells fits at row `r`, column `i`: its width
/// is allowed and its cells are free.
pub open spec fn slot_fits(cells: Seq<Vec<Cell>>, r: int, i: int, width: int) -> bool {
    &&& MIN_WIDTH_CELLS <= width <= MAX_WIDTH_CELLS
    &&& span_is_free(cells, r, i, i + width)
}

/// The home of `finger` in `homes`: the first entry for it.
pub open spec fn home_of(homes: Seq<(Finger, CellId)>, finger: Finger) -> Option<CellId>
    decreases homes.len(),
{
    if homes.len() == 0 {
        None
    } else if homes[0].0 == finger {
        Some(homes[0].1)
    } else {
        home_of(homes.drop_first(), finger)
    }
}

/// The finger that serves the centre cell of a fitting slot.
pub open spec fn centre_finger(cells: Seq<Vec<Cell>>, r: int, i: int, width: int) -> Finger {
    cells[r]@[i + width / 2].finger
}

/// The order in which slots are listed: by row, then width, then column.
pub open spec fn slot_before(a: (int, int, int), b: (int, int, int)) -> bool {
    a.0 < b.0 || (a.0 == b.0 && (a.2 < b.2 || (a.2 == b.2 && a.1 < b.1)))
}

/// The row, column and width of a slot.
pub open spec fn slot_key(s: KeySlot) -> (int, int, int) {
    (s.row as int, s.start as int, s.width as int)
}

/// Whether `v` lists every fitting slot of the grid once, by row, then
/// width, then column, each with the finger of its centre cell and that
/// finger's home.
pub open spec fn lists_slots(v: Seq<KeySlot>, geom: Geometry) -> bool {
    let cells = geom.cells@;
    &&& forall|k: int|
        0 <= k < v.len() ==> {
            let s = #[trigger] v[k];
            &&& slot_fits(cells, s.row as int, s.start as int, s.width as int)
            &&& s.finger == centre_finger(cells, s.row as int, s.start as int, s.width as int)
            &&& home_of(geom.homes@, s.finger) == Some(s.home)
        }
    &&& forall|k: int, l: int| 0 <= k < l < v.len() ==> slot_before(slot_key(#[trigger] v[k]), slot_key(#[trigger] v[l]))
    &&& forall|r: int, i: int, w: int|
        #[trigger] slot_fits(cells, r, i, w) ==> exists|k: int|
            0 <= k < v.len() && #[trigger] slot_key(v[k]) == (r, i, w)
}

/// Whether every fitting slot is served by a finger that has a home.
pub open spec fn all_slots_have_homes(geom: Geometry) -> bool {
    forall|r: int, i: int, w: int|
        #[trigger] slot_fits(geom.cells@, r, i, w) ==> home_of(
            geom.homes@,
            centre_finger(geom.cells@, r, i, w),
        ) is Some
}

/// Whether the fitting slot of `w` cells at row `q`, column `x` is the
/// first one, in listing order, whose finger has no home.
pub open spec fn first_homeless_slot(geom: Geometry, q: int, x: int, w: int) -> bool {
    &&& slot_fits(geom.cells@, q, x, w)
    &&& home_of(geom.homes@, centre_finger(geom.cells@, q, x, w)) is None
    &&& forall|a: int, b: int, c: int|
        slot_before((a, b, c), (q, x, w)) && #[trigger] slot_fits(geom.cells@, a, b, c) ==> home_of(
            geom.homes@,
            centre_finger(geom.cells@, a, b, c),
        ) is Some
}

/// The message for a finger without a home.
pub open spec fn missing_home_message(f: Finger) -> Seq<char> {
    "failed to get home position, finger: "@ + finger_name(f)
}

/// The home of `finger`, if `homes` has one.
fn find_home(homes: &Vec<(Finger, CellId)>, finger: Finger) -> (r: Option<CellId>)
    ensures
        r == home_of(homes@, finger),
{
    let mut k: usize = 0;
    assert(homes@.skip(0) =~= homes@);
    while k < homes.len()
        invariant
            k <= homes@.len(),
            home_of(homes@, finger) == home_of(homes@.skip(k as int), finger),
        decreases homes@.len() - k,
    {
        proof {
            assert(homes@.skip(k as int).drop_first() =~= homes@.skip(k + 1));
        }
        if homes[k].0 == finger {
            return Some(homes[k].1);
        }
        k = k + 1;
    }
    None
}

/// Whether the cells `from..to` of `row` are free.
fn cells_free(row: &Vec<Cell>, from: usize, to: usize) -> (b: bool)
    requires
        from <= to <= row@.len(),
    ensures
        b == forall|j: int| from <= j < to ==> !(#[trigger] row@[j]).occupied,
{
    let mut j = from;
    while j < to
        invariant
            from <= j <= to <= row@.len(),
            forall|x: int| from <= x < j ==> !(#[trigger] row@[x]).occupied,
        decreases to - j,
    {
        if row[j].occupied {
            return false;
        }
        j = j + 1;
    }
    true
}

/// Every slot that a key may take, by row, then width, then column: each
/// allowed width at each column where its cells are free, with the finger
/// of its centre cell and that finger's home. A slot whose finger has no
/// home is refused.
pub fn precompute_key_slots(geom: &Geometry) -> (r: Result<Vec<KeySlot>, KbOptError>)
    ensures
        r is Ok <==> all_slots_have_homes(*geom),
        r matches Ok(v) ==> lists_slots(v@, *geom),
        r matches Err(e) ==> exists|q: int, x: int, w: int|
            #[trigger] first_homeless_slot(*geom, q, x, w) && (e matches KbOptError::SolverError(m)
                && m@ == missing_home_message(centre_finger(geom.cells@, q, x, w))),
{
    let ghost cells = geom.cells@;
    let mut v: Vec<KeySlot> = Vec::new();
    let mut r: usize = 0;
    while r < geom.cells.len()
        invariant
            cells == geom.cells@,
            r <= cells.len(),
            forall|k: int|
                0 <= k < v@.len() ==> {
                    let s = #[trigger] v@[k];
                    &&& slot_fits(cells, s.row as int, s.start as int, s.width as int)
                    &&& s.finger == centre_finger(cells, s.row as int, s.start as int, s.width as int)
                    &&& home_of(geom.homes@, s.finger) == Some(s.home)
                    &&& s.row < r
                },
            forall|k: int, l: int|
                0 <= k < l < v@.len() ==> slot_before(slot_key(#[trigger] v@[k]), slot_key(#[trigger] v@[l])),
            forall|q: int, i: int, w: int|
                q < r && #[trigger] slot_fits(cells, q, i, w) ==> exists|k: int|
                    0 <= k < v@.len() && #[trigger] slot_key(v@[k]) == (q, i, w),
            forall|q: int, i: int, w: int|
                q < r && #[trigger] slot_fits(cells, q, i, w) ==> home_of(
                    geom.homes@,
                    centre_finger(cells, q, i, w),
                ) is Some,
        decreases cells.len() - r,
    {
        let row_len = geom.cells[r].len();
        let mut s: usize = MIN_WIDTH_CELLS;
        while s <= MAX_WIDTH_CELLS
            invariant
                cells == geom.cells@,
                r < cells.len(),
                row_len == cells[r as int]@.len(),
                MIN_WIDTH_CELLS <= s <= MAX_WIDTH_CELLS + 1,
                forall|k: int|
                    0 <= k < v@.len() ==> {
                        let t = #[trigger] v@[k];
                        &&& slot_fits(cells, t.row as int, t.start as int, t.width as int)
                        &&& t.finger == centre_finger(cells, t.row as int, t.start as int, t.width as int)
                        &&& home_of(geom.homes@, t.finger) == Some(t.home)
                        &&& (t.row < r || (t.row == r && t.width < s))
                    },
                forall|k: int, l: int|
                    0 <= k < l < v@.len() ==> slot_before(slot_key(#[trigger] v@[k]), slot_key(#[trigger] v@[l])),
                forall|q: int, i: int, w: int|
                    (q < r || (q == r && w < s)) && #[trigger] slot_fits(cells, q, i, w) ==> exists|k: int|
                        0 <= k < v@.len() && #[trigger] slot_key(v@[k]) == (q, i, w),
                forall|q: int, i: int, w: int|
                    (q < r || (q == r && w < s)) && #[trigger] slot_fits(cells, q, i, w) ==> home_of(
                        geom.homes@,
                        centre_finger(cells, q, i, w),
                    ) is Some,
            decreases MAX_WIDTH_CELLS + 1 - s,
        {
            if row_len >= s {
                let max_i = row_len - s;
                let mut i: usize = 0;
                while i <= max_i
                    invariant
                        cells == geom.cells@,
                        r < cells.len(),
                        row_len == cells[r as int]@.len(),
                        MIN_WIDTH_CELLS <= s <= MAX_WIDTH_CELLS,
                        max_i + s == row_len,
                        i <= max_i + 1,
                        forall|k: int|
                            0 <= k < v@.len() ==> {
                                let t = #[trigger] v@[k];
                                &&& slot_fits(cells, t.row as int, t.start as int, t.width as int)
                                &&& t.finger == centre_finger(
                                    cells,
                                    t.row as int,
                                    t.start as int,
                                    t.width as int,
                                )
                                &&& home_of(geom.homes@, t.finger) == Some(t.home)
                                &&& (t.row < r || (t.row == r && (t.width < s || (t.width == s && t.start < i))))
                            },
                        forall|k: int, l: int|
                            0 <= k < l < v@.len() ==> slot_before(
                                slot_key(#[trigger] v@[k]),
                                slot_key(#[trigger] v@[l]),
                            ),
                        forall|q: int, x: int, w: int|
                            (q < r || (q == r && (w < s || (w == s && x < i)))) && #[trigger] slot_fits(
                                cells,
                                q,
                                x,
                                w,
                            ) ==> exists|k: int| 0 <= k < v@.len() && #[trigger] slot_key(v@[k]) == (q, x, w),
                        forall|q: int, x: int, w: int|
                            (q < r || (q == r && (w < s || (w == s && x < i)))) && #[trigger] slot_fits(
                                cells,
                                q,
                                x,
                                w,
                            ) ==> home_of(geom.homes@, centre_finger(cells, q, x, w)) is Some,
                    decreases max_i + 1 - i,
                {
                    let free = cells_free(&geom.cells[r], i, i + s);
                    proof {
                        assert(free == slot_fits(cells, r as int, i as int, s as int));
                    }
                    if free {
                        let centre = i + s / 2;
                        let finger = geom.cells[r][centre].finger;
                        match find_home(&geom.homes, finger) {
                            Some(home) => {
                                let ghost before = v@;
                                v.push(KeySlot { row: r, start: i, width: s, finger, home });
                                proof {
                                    let n = before.len() as int;
                                    assert(slot_key(v@[n]) == (r as int, i as int, s as int));
                                    assert forall|q: int, x: int, w: int|
                                        (q < r || (q == r && (w < s || (w == s && x < i + 1))))
                                            && #[trigger] slot_fits(cells, q, x, w) implies exists|k: int|
                                        0 <= k < v@.len() && #[trigger] slot_key(v@[k]) == (q, x, w) by {
                                        if q == r && w == s && x == i {
                                            assert(slot_key(v@[n]) == (q, x, w));
                                        } else {
                                            let k = choose|k: int|
                                                0 <= k < before.len() && #[trigger] slot_key(before[k]) == (
                                                    q,
                                                    x,
                                                    w,
                                                );
                                            assert(v@[k] == before[k]);
                                        }
                                    }
                                }
                            },
                            None => {
                                proof {
                                    assert(slot_fits(cells, r as int, i as int, s as int));
                                    assert(!all_slots_have_homes(*geom));
                                    assert forall|a: int, b: int, c: int|
                                        slot_before((a, b, c), (r as int, i as int, s as int))
                                            && #[trigger] slot_fits(geom.cells@, a, b, c) implies home_of(
                                        geom.homes@,
                                        centre_finger(geom.cells@, a, b, c),
                                    ) is Some by {
                                        if a == r && c == s {
                                            assert(b < i);
                                        }
                                    }
                                    assert(first_homeless_slot(*geom, r as int, i as int, s as int));
                                }
                                let name = finger_to_string(&finger);
                                proof {
                                    reveal_strlit("");
                                    assert(missing_home_message(finger) == "failed to get home position, finger: "@ + name@ + ""@);
                                }
                                return Err(
                                    KbOptError::SolverError(
                                        concat3("failed to get home position, finger: ", name, ""),
                                    ),
                                );
                            },
                        }
                    }
                    i = i + 1;
                }
            }
            proof {
                assert forall|q: int, x: int, w: int|
                    (q < r || (q == r && w < s + 1)) && #[trigger] slot_fits(cells, q, x, w) implies exists|
                    k: int,
                | 0 <= k < v@.len() && #[trigger] slot_key(v@[k]) == (q, x, w) by {
                    if q == r && w == s {
                        assert(span_is_free(cells, q, x, x + w));
                    }
                }
                assert forall|q: int, x: int, w: int|
                    (q < r || (q == r && w < s + 1)) && #[trigger] slot_fits(cells, q, x, w) implies home_of(
                        geom.homes@,
                        centre_finger(cells, q, x, w),
                    ) is Some by {
                    if q == r && w == s {
                        assert(span_is_free(cells, q, x, x + w));
                    }
                }
            }
            s = s + 1;
        }
        r = r + 1;
    }
    Ok(v)
}

/// Every slot is served by the finger of the cell in the middle of its
/// cells, and has that finger's home as its home; on a grid that
/// `Geometry::build` gives, that is the finger serving the slot's centre
/// column (a thumb in the bottom row but in the little fingers' columns).
pub proof fn lemma_slots_served_by_centre_finger(
    geom: Geometry,
    v: Seq<KeySlot>,
    blocks: Seq<(int, int, Seq<Seq<char>>)>,
)
    requires
        lists_slots(v, geom),
    ensures
        forall|k: int|
            0 <= k < v.len() ==> {
                let s = #[trigger] v[k];
                &&& s.start <= s.start + s.width / 2 < s.start + s.width
                &&& s.finger == geom.cells@[s.row as int]@[s.start + s.width / 2].finger
                &&& home_of(geom.homes@, s.finger) == Some(s.home)
            },
        is_fresh_grid(geom.cells@, geom.cells@.len() as int, blocks) ==> forall|k: int|
            0 <= k < v.len() ==> (#[trigger] v[k]).finger == spec_cell_finger(
                v[k].row as int,
                v[k].start + v[k].width / 2,
            ),
{
    assert forall|k: int| 0 <= k < v.len() implies {
        let s = #[trigger] v[k];
        &&& s.start <= s.start + s.width / 2 < s.start + s.width
        &&& s.finger == geom.cells@[s.row as int]@[s.start + s.width / 2].finger
        &&& home_of(geom.homes@, s.finger) == Some(s.home)
    } by {
        let s = v[k];
        assert(slot_fits(geom.cells@, s.row as int, s.start as int, s.width as int));
    }
    if is_fresh_grid(geom.cells@, geom.cells@.len() as int, blocks) {
        assert forall|k: int| 0 <= k < v.len() implies (#[trigger] v[k]).finger == spec_cell_finger(
            v[k].row as int,
            v[k].start + v[k].width / 2,
        ) by {
            let s = v[k];
            assert(slot_fits(geom.cells@, s.row as int, s.start as int, s.width as int));
            let c = s.start + s.width / 2;
            assert(geom.cells@[s.row as int]@[c] == grid_cell(blocks, s.row as int, c));
        }
    }
}

/// The indices below `n` at which `p` holds, in increasing order.
pub open spec fn indices_where(n: nat, p: spec_fn(int) -> bool) -> Seq<usize>
    decreases n,
{
    if n == 0 {
        Seq::empty()
    } else {
        indices_where((n - 1) as nat, p) + if p(n - 1) {
            seq![(n - 1) as usize]
        } else {
            Seq::empty()
        }
    }
}

/// The placement variables of the keys: for each key in turn, one
/// variable (key, slot index) for each of `m` slots.
pub open spec fn key_slot_vars(keys: Seq<KeyId>, m: nat) -> Seq<(KeyId, usize)>
    decreases keys.len(),
{
    if keys.len() == 0 {
        Seq::empty()
    } else {
        key_slot_vars(keys.drop_last(), m) + Seq::new(m, |b: int| (keys.last(), b as usize))
    }
}

/// The placement variables of the keys: one binary variable for each key
/// and each slot, key after key; variable `(k, b)` places key `k` in slot
/// `b`. The arrow cluster has one variable per candidate place besides.
pub fn create_decision_variables(movable_keys: &Vec<KeyId>, slot_count: usize) -> (v: Vec<(KeyId, usize)>)
    ensures
        v@ == key_slot_vars(movable_keys@, slot_count as nat),
{
    let mut v: Vec<(KeyId, usize)> = Vec::new();
    let mut a: usize = 0;
    while a < movable_keys.len()
        invariant
            a <= movable_keys@.len(),
            v@ == key_slot_vars(movable_keys@.take(a as int), slot_count as nat),
        decreases movable_keys@.len() - a,
    {
        let key = movable_keys[a];
        let ghost before = v@;
        let mut b: usize = 0;
        while b < slot_count
            invariant
                b <= slot_count,
                v@ == before + Seq::new(b as nat, |j: int| (key, j as usize)),
            decreases slot_count - b,
        {
            v.push((key, b));
            b = b + 1;
            assert(v@ =~= before + Seq::new(b as nat, |j: int| (key, j as usize)));
        }
        proof {
            let t = movable_keys@.take(a + 1);
            assert(t.drop_last() =~= movable_keys@.take(a as int));
            assert(t.last() == key);
        }
        a = a + 1;
    }
    assert(movable_keys@.take(a as int) =~= movable_keys@);
    v
}

/// Whether variable `j` places `key`.
pub open spec fn places_key(x: Seq<(KeyId, usize)>, j: int, key: KeyId) -> bool {
    x[j].0 == key
}

/// The indices of the variables of `key`, in increasing order.
pub open spec fn vars_of_key(x: Seq<(KeyId, usize)>, key: KeyId) -> Seq<usize> {
    indices_where(x.len(), |j: int| places_key(x, j, key))
}

/// For each key in turn whose variables are not none, the key with the
/// indices of its variables: their sum must be one.
pub open spec fn key_groups(keys: Seq<KeyId>, x: Seq<(KeyId, usize)>) -> Seq<(KeyId, Seq<usize>)>
    decreases keys.len(),
{
    if keys.len() == 0 {
        Seq::empty()
    } else {
        key_groups(keys.drop_last(), x) + if vars_of_key(x, keys.last()).len() > 0 {
            seq![(keys.last(), vars_of_key(x, keys.last()))]
        } else {
            Seq::empty()
        }
    }
}

/// The view of a group of variable indices.
pub open spec fn group_view(g: Seq<(KeyId, Vec<usize>)>) -> Seq<(KeyId, Seq<usize>)> {
    g.map_values(|e: (KeyId, Vec<usize>)| (e.0, e.1@))
}

/// The indices of the variables of `key`.
fn key_var_indices(x: &Vec<(KeyId, usize)>, key: KeyId) -> (v: Vec<usize>)
    ensures
        v@ == vars_of_key(x@, key),
{
    let ghost p = |j: int| places_key(x@, j, key);
    let mut v: Vec<usize> = Vec::new();
    let mut j: usize = 0;
    while j < x.len()
        invariant
            j <= x@.len(),
            p == (|j: int| places_key(x@, j, key)),
            v@ == indices_where(j as nat, p),
        decreases x@.len() - j,
    {
        if x[j].0 == key {
            v.push(j);
        }
        j = j + 1;
    }
    v
}

/// The uniqueness constraints of the keys: for each key with variables,
/// the indices of its variables, whose sum must be one.
pub fn key_uniqueness_groups(movable_keys: &Vec<KeyId>, x: &Vec<(KeyId, usize)>) -> (g: Vec<(KeyId, Vec<usize>)>)
    ensures
        group_view(g@) == key_groups(movable_keys@, x@),
{
    let mut g: Vec<(KeyId, Vec<usize>)> = Vec::new();
    let mut a: usize = 0;
    while a < movable_keys.len()
        invariant
            a <= movable_keys@.len(),
            group_view(g@) == key_groups(movable_keys@.take(a as int), x@),
        decreases movable_keys@.len() - a,
    {
        let key = movable_keys[a];
        let indices = key_var_indices(x, key);
        let ghost before = g@;
        if indices.len() > 0 {
            g.push((key, indices));
        }
        proof {
            let t = movable_keys@.take(a + 1);
            assert(t.drop_last() =~= movable_keys@.take(a as int));
            assert(t.last() == key);
            assert(group_view(g@) =~= key_groups(t, x@));
        }
        a = a + 1;
    }
    assert(movable_keys@.take(a as int) =~= movable_keys@);
    g
}

/// The variables (and the fixed key) that may cover one cell: at most one
/// of them may be chosen, and none if a fixed key covers the cell.
#[derive(Debug, Clone)]
pub struct CellCover {
    pub row: usize,
    pub col: usize,
    /// A fixed key covers the cell.
    pub fixed: bool,
    /// The key variables whose slot covers the cell.
    pub keys: Vec<usize>,
    /// The row clusters that cover the cell.
    pub horizontal: Vec<usize>,
    /// The T clusters that cover the cell.
    pub t_shape: Vec<usize>,
}

/// Whether the slot `s` covers the cell at `row`, `col`.
pub open spec fn slot_covers(s: KeySlot, row: int, col: int) -> bool {
    s.row == row && s.start <= col < s.start + s.width
}

/// Whether the cluster `p` covers the cell at `row`, `col`.
pub open spec fn cluster_covers(p: ArrowPlacement, row: int, col: int) -> bool {
    spec_occupied_cells(p).contains((row as usize, col as usize))
}

/// Whether the slots and the clusters may be used in the model.
pub open spec fn model_in_range(
    slots: Seq<KeySlot>,
    x: Seq<(KeyId, usize)>,
    horizontal: Seq<ArrowPlacement>,
    t_shape: Seq<ArrowPlacement>,
) -> bool {
    &&& forall|j: int| 0 <= j < x.len() ==> (#[trigger] x[j]).1 < slots.len()
    &&& forall|k: int| 0 <= k < slots.len() ==> (#[trigger] slots[k]).start + slots[k].width <= usize::MAX
    &&& forall|k: int| 0 <= k < horizontal.len() ==> placement_in_range(#[trigger] horizontal[k])
    &&& forall|k: int| 0 <= k < t_shape.len() ==> placement_in_range(#[trigger] t_shape[k])
}

/// Whether `c` is the constraint of the cell at `row`, `col`.
pub open spec fn is_cell_cover(
    c: CellCover,
    geom: Geometry,
    slots: Seq<KeySlot>,
    x: Seq<(KeyId, usize)>,
    horizontal: Seq<ArrowPlacement>,
    t_shape: Seq<ArrowPlacement>,
    row: int,
    col: int,
) -> bool {
    &&& c.row == row
    &&& c.col == col
    &&& c.fixed == geom.cells@[row]@[col].occupied
    &&& c.keys@ == indices_where(x.len(), |j: int| slot_covers(slots[x[j].1 as int], row, col))
    &&& c.horizontal@ == indices_where(horizontal.len(), |k: int| cluster_covers(horizontal[k], row, col))
    &&& c.t_shape@ == indices_where(t_shape.len(), |k: int| cluster_covers(t_shape[k], row, col))
}

/// Whether the list `cells` holds the pair `c`.
fn holds_cell(cells: &Vec<(usize, usize)>, c: (usize, usize)) -> (b: bool)
    ensures
        b == cells@.contains(c),
{
    let mut k: usize = 0;
    while k < cells.len()
        invariant
            k <= cells@.len(),
            forall|q: int| 0 <= q < k ==> cells@[q] != c,
        decreases cells@.len() - k,
    {
        if cells[k].0 == c.0 && cells[k].1 == c.1 {
            assert(cells@[k as int] == c);
            return true;
        }
        k = k + 1;
    }
    false
}

/// The clusters of `places` that cover the cell at `row`, `col`.
fn clusters_covering(places: &Vec<ArrowPlacement>, row: usize, col: usize) -> (v: Vec<usize>)
    requires
        forall|k: int| 0 <= k < places@.len() ==> placement_in_range(#[trigger] places@[k]),
    ensures
        v@ == indices_where(places@.len(), |k: int| cluster_covers(places@[k], row as int, col as int)),
{
    let ghost p = |k: int| cluster_covers(places@[k], row as int, col as int);
    let mut v: Vec<usize> = Vec::new();
    let mut k: usize = 0;
    while k < places.len()
        invariant
            k <= places@.len(),
            p == (|k: int| cluster_covers(places@[k], row as int, col as int)),
            forall|k: int| 0 <= k < places@.len() ==> placement_in_range(#[trigger] places@[k]),
            v@ == indices_where(k as nat, p),
        decreases places@.len() - k,
    {
        let cells = places[k].get_occupied_cells();
        if holds_cell(&cells, (row, col)) {
            v.push(k);
        }
        k = k + 1;
    }
    v
}

/// The key variables whose slot covers the cell at `row`, `col`.
fn keys_covering(slots: &Vec<KeySlot>, x: &Vec<(KeyId, usize)>, row: usize, col: usize) -> (v: Vec<usize>)
    requires
        forall|j: int| 0 <= j < x@.len() ==> (#[trigger] x@[j]).1 < slots@.len(),
        forall|k: int| 0 <= k < slots@.len() ==> (#[trigger] slots@[k]).start + slots@[k].width <= usize::MAX,
    ensures
        v@ == indices_where(x@.len(), |j: int| slot_covers(slots@[x@[j].1 as int], row as int, col as int)),
{
    let ghost p = |j: int| slot_covers(slots@[x@[j].1 as int], row as int, col as int);
    let mut v: Vec<usize> = Vec::new();
    let mut j: usize = 0;
    while j < x.len()
        invariant
            j <= x@.len(),
            p == (|j: int| slot_covers(slots@[x@[j].1 as int], row as int, col as int)),
            forall|j: int| 0 <= j < x@.len() ==> (#[trigger] x@[j]).1 < slots@.len(),
            forall|k: int| 0 <= k < slots@.len() ==> (#[trigger] slots@[k]).start + slots@[k].width <= usize::MAX,
            v@ == indices_where(j as nat, p),
        decreases x@.len() - j,
    {
        let slot = slots[x[j].1];
        assert(slot == slots@[x@[j as int].1 as int]);
        if slot.row == row && slot.start <= col && col < slot.start + slot.width {
            v.push(j);
        }
        j = j + 1;
    }
    v
}

/// The non-overlap constraints, one per cell, row by row: the fixed key,
/// the key variables and the clusters that cover the cell. A chosen
/// assignment may cover each cell at most once.
pub fn non_overlap_constraints(
    geom: &Geometry,
    slots: &Vec<KeySlot>,
    x: &Vec<(KeyId, usize)>,
    horizontal: &Vec<ArrowPlacement>,
    t_shape: &Vec<ArrowPlacement>,
) -> (out: Vec<Vec<CellCover>>)
    requires
        model_in_range(slots@, x@, horizontal@, t_shape@),
    ensures
        out@.len() == geom.cells@.len(),
        forall|r: int| 0 <= r < out@.len() ==> (#[trigger] out@[r])@.len() == geom.cells@[r]@.len(),
        forall|r: int, c: int|
            0 <= r < out@.len() && 0 <= c < out@[r]@.len() ==> is_cell_cover(
                #[trigger] out@[r]@[c],
                *geom,
                slots@,
                x@,
                horizontal@,
                t_shape@,
                r,
                c,
            ),
{
    let mut out: Vec<Vec<CellCover>> = Vec::new();
    let mut r: usize = 0;
    while r < geom.cells.len()
        invariant
            model_in_range(slots@, x@, horizontal@, t_shape@),
            r <= geom.cells@.len(),
            out@.len() == r,
            forall|q: int| 0 <= q < r ==> (#[trigger] out@[q])@.len() == geom.cells@[q]@.len(),
            forall|q: int, c: int|
                0 <= q < r && 0 <= c < out@[q]@.len() ==> is_cell_cover(
                    #[trigger] out@[q]@[c],
                    *geom,
                    slots@,
                    x@,
                    horizontal@,
                    t_shape@,
                    q,
                    c,
                ),
        decreases geom.cells@.len() - r,
    {
        let mut row_out: Vec<CellCover> = Vec::new();
        let mut j: usize = 0;
        while j < geom.cells[r].len()
            invariant
                model_in_range(slots@, x@, horizontal@, t_shape@),
                r < geom.cells@.len(),
                j <= geom.cells@[r as int]@.len(),
                row_out@.len() == j,
                forall|c: int|
                    0 <= c < j ==> is_cell_cover(
                        #[trigger] row_out@[c],
                        *geom,
                        slots@,
                        x@,
                        horizontal@,
                        t_shape@,
                        r as int,
                        c,
                    ),
            decreases geom.cells@[r as int]@.len() - j,
        {
            let fixed = geom.cells[r][j].occupied;
            let keys = keys_covering(slots, x, r, j);
            let h = clusters_covering(horizontal, r, j);
            let t = clusters_covering(t_shape, r, j);
            row_out.push(CellCover { row: r, col: j, fixed, keys, horizontal: h, t_shape: t });
            j = j + 1;
        }
        out.push(row_out);
        r = r + 1;
    }
    out
}

/// The fixed keys of `ps`, in their order.
pub open spec fn fixed_only(ps: Seq<KeyPlacement>) -> Seq<KeyPlacement>
    decreases ps.len(),
{
    if ps.len() == 0 {
        Seq::empty()
    } else {
        fixed_only(ps.drop_last()) + if ps.last().placement_type == PlacementType::Fixed {
            seq![ps.last()]
        } else {
            Seq::empty()
        }
    }
}

/// The index of the first placement of `key` in `ps`, if any.
pub open spec fn index_of_key(ps: Seq<KeyPlacement>, key: Option<KeyId>) -> Option<int>
    decreases ps.len(),
{
    if ps.len() == 0 {
        None
    } else {
        match index_of_key(ps.drop_last(), key) {
            Some(i) => Some(i),
            None => if ps.last().key_id == key {
                Some(ps.len() - 1)
            } else {
                None
            },
        }
    }
}

/// `ps` with `p` in place of the placement of the same key, or with `p`
/// added when there is none: the placements are keyed by their key.
pub open spec fn insert_by_key(ps: Seq<KeyPlacement>, p: KeyPlacement) -> Seq<KeyPlacement> {
    match index_of_key(ps, p.key_id) {
        Some(i) => ps.update(i, p),
        None => ps.push(p),
    }
}

/// `ps` with the placements `qs` inserted one after another.
pub open spec fn insert_all(ps: Seq<KeyPlacement>, qs: Seq<KeyPlacement>) -> Seq<KeyPlacement>
    decreases qs.len(),
{
    if qs.len() == 0 {
        ps
    } else {
        insert_by_key(insert_all(ps, qs.drop_last()), qs.last())
    }
}

/// The placement that variable `v` gives: its key in its slot.
pub open spec fn key_placement_of(slots: Seq<KeySlot>, v: (KeyId, usize)) -> KeyPlacement {
    let s = slots[v.1 as int];
    KeyPlacement {
        placement_type: PlacementType::Optimized,
        key_id: Some(v.0),
        row: s.row,
        col: s.start,
        width_cells: s.width,
        layer: 0,
    }
}

/// The placements of the chosen variables among the first `n`, in order.
pub open spec fn chosen_keys(slots: Seq<KeySlot>, x: Seq<(KeyId, usize)>, chosen: Seq<bool>, n: nat) -> Seq<
    KeyPlacement,
>
    decreases n,
{
    if n == 0 {
        Seq::empty()
    } else {
        chosen_keys(slots, x, chosen, (n - 1) as nat) + if chosen[n - 1] {
            seq![key_placement_of(slots, x[n - 1])]
        } else {
            Seq::empty()
        }
    }
}

/// The four 1u arrow keys of the cluster `p`.
pub open spec fn arrow_placements_of(p: ArrowPlacement) -> Seq<KeyPlacement> {
    spec_arrow_positions(p).map_values(
        |a: (crate::keys::ArrowKey, usize, usize)|
            KeyPlacement {
                placement_type: PlacementType::Arrow,
                key_id: Some(KeyId::Arrow(a.0)),
                row: a.1,
                col: a.2,
                width_cells: U2CELL,
                layer: 0,
            },
    )
}

/// The arrow keys of the chosen clusters among the first `n`, in order.
pub open spec fn chosen_arrows(places: Seq<ArrowPlacement>, chosen: Seq<bool>, n: nat) -> Seq<KeyPlacement>
    decreases n,
{
    if n == 0 {
        Seq::empty()
    } else {
        chosen_arrows(places, chosen, (n - 1) as nat) + if chosen[n - 1] {
            arrow_placements_of(places[n - 1])
        } else {
            Seq::empty()
        }
    }
}

/// The keys that a solution places besides the fixed ones: the chosen key
/// variables, then the arrows of the chosen row and T clusters.
pub open spec fn solution_placements(
    slots: Seq<KeySlot>,
    x: Seq<(KeyId, usize)>,
    horizontal: Seq<ArrowPlacement>,
    t_shape: Seq<ArrowPlacement>,
    x_chosen: Seq<bool>,
    h_chosen: Seq<bool>,
    t_chosen: Seq<bool>,
) -> Seq<KeyPlacement> {
    chosen_keys(slots, x, x_chosen, x.len()) + chosen_arrows(horizontal, h_chosen, horizontal.len())
        + chosen_arrows(t_shape, t_chosen, t_shape.len())
}

impl Geometry {
    /// Places `p`, in place of the placement of the same key if there is
    /// one.
    pub fn insert_placement(&mut self, p: KeyPlacement)
        ensures
            final(self).key_placements@ == insert_by_key(old(self).key_placements@, p),
            final(self).name == old(self).name,
            final(self).cells@ == old(self).cells@,
            final(self).homes@ == old(self).homes@,
            final(self).max_layers == old(self).max_layers,
    {
        let ghost ps = self.key_placements@;
        let mut k: usize = 0;
        while k < self.key_placements.len()
            invariant
                ps == self.key_placements@,
                ps == old(self).key_placements@,
                k <= ps.len(),
                index_of_key(ps.take(k as int), p.key_id) is None,
                self.name == old(self).name,
                self.cells@ == old(self).cells@,
                self.homes@ == old(self).homes@,
                self.max_layers == old(self).max_layers,
            decreases ps.len() - k,
        {
            proof {
                assert(ps.take(k + 1).drop_last() =~= ps.take(k as int));
            }
            if self.key_placements[k].key_id == p.key_id {
                proof {
                    assert(ps.take(k + 1).last() == ps[k as int]);
                    assert(index_of_key(ps.take(k + 1), p.key_id) == Some(k as int));
                    lemma_index_of_key_prefix(ps, k as int + 1, p.key_id);
                }
                self.key_placements.set(k, p);
                return;
            }
            k = k + 1;
        }
        proof {
            assert(ps.take(k as int) =~= ps);
        }
        self.key_placements.push(p);
    }
}

/// The first match in a prefix that holds a match is the first match of
/// the whole.
proof fn lemma_index_of_key_prefix(ps: Seq<KeyPlacement>, n: int, key: Option<KeyId>)
    requires
        0 <= n <= ps.len(),
        index_of_key(ps.take(n), key) is Some,
    ensures
        index_of_key(ps, key) == index_of_key(ps.take(n), key),
    decreases ps.len() - n,
{
    if n < ps.len() {
        assert(ps.take(n + 1).drop_last() =~= ps.take(n));
        lemma_index_of_key_prefix(ps, n + 1, key);
    } else {
        assert(ps.take(n) =~= ps);
    }
}

/// Inserts the arrow keys of `places[k]` for each chosen `k`.
fn insert_chosen_arrows(geom: &mut Geometry, places: &Vec<ArrowPlacement>, chosen: &Vec<bool>)
    requires
        chosen@.len() == places@.len(),
        forall|k: int| 0 <= k < places@.len() ==> placement_in_range(#[trigger] places@[k]),
    ensures
        final(geom).key_placements@ == insert_all(
            old(geom).key_placements@,
            chosen_arrows(places@, chosen@, places@.len()),
        ),
        final(geom).name == old(geom).name,
        final(geom).cells@ == old(geom).cells@,
        final(geom).homes@ == old(geom).homes@,
        final(geom).max_layers == old(geom).max_layers,
{
    let ghost start = geom.key_placements@;
    let mut k: usize = 0;
    while k < places.len()
        invariant
            chosen@.len() == places@.len(),
            forall|k: int| 0 <= k < places@.len() ==> placement_in_range(#[trigger] places@[k]),
            k <= places@.len(),
            geom.key_placements@ == insert_all(start, chosen_arrows(places@, chosen@, k as nat)),
            geom.name == old(geom).name,
            geom.cells@ == old(geom).cells@,
            geom.homes@ == old(geom).homes@,
            geom.max_layers == old(geom).max_layers,
        decreases places@.len() - k,
    {
        if chosen[k] {
            add_arrow_placements(geom, &places[k]);
            proof {
                lemma_insert_all_concat(
                    start,
                    chosen_arrows(places@, chosen@, k as nat),
                    arrow_placements_of(places@[k as int]),
                );
            }
        } else {
            assert(chosen_arrows(places@, chosen@, (k + 1) as nat) =~= chosen_arrows(places@, chosen@, k as nat));
        }
        k = k + 1;
    }
}

/// Inserting a concatenation inserts one part, then the other.
pub proof fn lemma_insert_all_concat(ps: Seq<KeyPlacement>, a: Seq<KeyPlacement>, b: Seq<KeyPlacement>)
    ensures
        insert_all(ps, a + b) == insert_all(insert_all(ps, a), b),
    decreases b.len(),
{
    if b.len() == 0 {
        assert(a + b =~= a);
    } else {
        lemma_insert_all_concat(ps, a, b.drop_last());
        assert((a + b).drop_last() =~= a + b.drop_last());
    }
}

/// Places the four arrow keys of the cluster `placement`.
fn add_arrow_placements(geom: &mut Geometry, placement: &ArrowPlacement)
    requires
        placement_in_range(*placement),
    ensures
        final(geom).key_placements@ == insert_all(old(geom).key_placements@, arrow_placements_of(*placement)),
        final(geom).name == old(geom).name,
        final(geom).cells@ == old(geom).cells@,
        final(geom).homes@ == old(geom).homes@,
        final(geom).max_layers == old(geom).max_layers,
{
    let positions = placement.get_arrow_positions();
    let ghost all = arrow_placements_of(*placement);
    let ghost start = geom.key_placements@;
    let mut k: usize = 0;
    while k < positions.len()
        invariant
            positions@ == spec_arrow_positions(*placement),
            all == arrow_placements_of(*placement),
            all.len() == positions@.len(),
            k <= positions@.len(),
            geom.key_placements@ == insert_all(start, all.take(k as int)),
            geom.name == old(geom).name,
            geom.cells@ == old(geom).cells@,
            geom.homes@ == old(geom).homes@,
            geom.max_layers == old(geom).max_layers,
        decreases positions@.len() - k,
    {
        let (arrow_key, r, col) = positions[k];
        let p = KeyPlacement {
            placement_type: PlacementType::Arrow,
            key_id: Some(KeyId::Arrow(arrow_key)),
            row: r,
            col,
            width_cells: U2CELL,
            layer: 0,
        };
        assert(p == all[k as int]);
        geom.insert_placement(p);
        proof {
            assert(all.take(k + 1).drop_last() =~= all.take(k as int));
        }
        k = k + 1;
    }
    assert(all.take(k as int) =~= all);
}

/// Whether the fixed keys of `ps` are kept by `keep` in their order.
fn fixed_placements_only(ps: &Vec<KeyPlacement>) -> (v: Vec<KeyPlacement>)
    ensures
        v@ == fixed_only(ps@),
{
    let mut v: Vec<KeyPlacement> = Vec::new();
    let mut k: usize = 0;
    while k < ps.len()
        invariant
            k <= ps@.len(),
            v@ == fixed_only(ps@.take(k as int)),
        decreases ps@.len() - k,
    {
        proof {
            assert(ps@.take(k + 1).drop_last() =~= ps@.take(k as int));
        }
        if ps[k].placement_type == PlacementType::Fixed {
            v.push(ps[k]);
        }
        k = k + 1;
    }
    assert(ps@.take(k as int) =~= ps@);
    v
}

/// The layout of a solution: the keys placed before are dropped but for
/// the fixed ones; then each chosen key variable places its key in its
/// slot, and each chosen cluster places its four arrow keys. A placement
/// takes the place of an earlier one of the same key.
pub fn build_solution(
    geom: &mut Geometry,
    slots: &Vec<KeySlot>,
    x: &Vec<(KeyId, usize)>,
    horizontal: &Vec<ArrowPlacement>,
    t_shape: &Vec<ArrowPlacement>,
    x_chosen: &Vec<bool>,
    h_chosen: &Vec<bool>,
    t_chosen: &Vec<bool>,
)
    requires
        model_in_range(slots@, x@, horizontal@, t_shape@),
        x_chosen@.len() == x@.len(),
        h_chosen@.len() == horizontal@.len(),
        t_chosen@.len() == t_shape@.len(),
    ensures
        final(geom).key_placements@ == insert_all(
            fixed_only(old(geom).key_placements@),
            solution_placements(slots@, x@, horizontal@, t_shape@, x_chosen@, h_chosen@, t_chosen@),
        ),
        final(geom).name == old(geom).name,
        final(geom).cells@ == old(geom).cells@,
        final(geom).homes@ == old(geom).homes@,
        final(geom).max_layers == old(geom).max_layers,
{
    let kept = fixed_placements_only(&geom.key_placements);
    geom.key_placements = kept;
    let ghost base = geom.key_placements@;
    let mut j: usize = 0;
    while j < x.len()
        invariant
            model_in_range(slots@, x@, horizontal@, t_shape@),
            x_chosen@.len() == x@.len(),
            j <= x@.len(),
            geom.key_placements@ == insert_all(base, chosen_keys(slots@, x@, x_chosen@, j as nat)),
            geom.name == old(geom).name,
            geom.cells@ == old(geom).cells@,
            geom.homes@ == old(geom).homes@,
            geom.max_layers == old(geom).max_layers,
        decreases x@.len() - j,
    {
        if x_chosen[j] {
            let (key, b) = x[j];
            let slot = slots[b];
            let p = KeyPlacement {
                placement_type: PlacementType::Optimized,
                key_id: Some(key),
                row: slot.row,
                col: slot.start,
                width_cells: slot.width,
                layer: 0,
            };
            assert(p == key_placement_of(slots@, x@[j as int]));
            geom.insert_placement(p);
            proof {
                let before = chosen_keys(slots@, x@, x_chosen@, j as nat);
                assert(chosen_keys(slots@, x@, x_chosen@, (j + 1) as nat) == before.push(p));
                assert(before.push(p).drop_last() =~= before);
            }
        } else {
            assert(chosen_keys(slots@, x@, x_chosen@, (j + 1) as nat) =~= chosen_keys(slots@, x@, x_chosen@, j as nat));
        }
        j = j + 1;
    }
    let ghost after_keys = geom.key_placements@;
    insert_chosen_arrows(geom, horizontal, h_chosen);
    let ghost after_h = geom.key_placements@;
    insert_chosen_arrows(geom, t_shape, t_chosen);
    proof {
        let ks = chosen_keys(slots@, x@, x_chosen@, x@.len());
        let hs = chosen_arrows(horizontal@, h_chosen@, horizontal@.len());
        let ts = chosen_arrows(t_shape@, t_chosen@, t_shape@.len());
        lemma_insert_all_concat(base, ks, hs);
        lemma_insert_all_concat(base, ks + hs, ts);
    }
}

/// Whether the key `p` covers the cell at `row`, `col`.
pub open spec fn placement_covers(p: KeyPlacement, row: int, col: int) -> bool {
    p.row == row && p.col <= col < p.col + p.width_cells
}

/// How many of the variables `idx` are chosen.
pub open spec fn count_chosen(idx: Seq<usize>, chosen: Seq<bool>) -> nat
    decreases idx.len(),
{
    if idx.len() == 0 {
        0
    } else {
        count_chosen(idx.drop_last(), chosen) + if chosen[idx.last() as int] {
            1nat
        } else {
            0nat
        }
    }
}

/// Whether a choice meets the constraint of one cell: the fixed key and
/// the chosen variables cover it at most once.
pub open spec fn respects_cell(c: CellCover, x_chosen: Seq<bool>, h_chosen: Seq<bool>, t_chosen: Seq<bool>) -> bool {
    (if c.fixed {
        1nat
    } else {
        0nat
    }) + count_chosen(c.keys@, x_chosen) + count_chosen(c.horizontal@, h_chosen) + count_chosen(
        c.t_shape@,
        t_chosen,
    ) <= 1
}

/// Whether the fixed keys of the grid lie on covered cells of the grid
/// and no two of them share a cell.
pub open spec fn fixed_keys_sound(geom: Geometry) -> bool {
    let fixed = fixed_only(geom.key_placements@);
    &&& forall|q: int, row: int, col: int|
        0 <= q < fixed.len() && #[trigger] placement_covers(fixed[q], row, col) ==> 0 <= row
            < geom.cells@.len() && 0 <= col < geom.cells@[row]@.len() && geom.cells@[row]@[col].occupied
    &&& forall|q1: int, q2: int, row: int, col: int|
        0 <= q1 < q2 < fixed.len() && #[trigger] placement_covers(fixed[q1], row, col) ==> !#[trigger] placement_covers(
            fixed[q2],
            row,
            col,
        )
}

proof fn lemma_count_concat(a: Seq<usize>, b: Seq<usize>, chosen: Seq<bool>)
    ensures
        count_chosen(a + b, chosen) == count_chosen(a, chosen) + count_chosen(b, chosen),
    decreases b.len(),
{
    if b.len() == 0 {
        assert(a + b =~= a);
    } else {
        lemma_count_concat(a, b.drop_last(), chosen);
        assert((a + b).drop_last() =~= a + b.drop_last());
    }
}

/// A chosen index that the filter keeps counts once; two count twice.
proof fn lemma_count_chosen_where(n: nat, p: spec_fn(int) -> bool, chosen: Seq<bool>, j1: int, j2: int)
    requires
        0 <= j1 < n <= usize::MAX,
        p(j1),
        chosen[j1],
    ensures
        count_chosen(indices_where(n, p), chosen) >= 1,
        j1 < j2 < n && p(j2) && chosen[j2] ==> count_chosen(indices_where(n, p), chosen) >= 2,
    decreases n,
{
    let last = if p(n - 1) {
        seq![(n - 1) as usize]
    } else {
        Seq::<usize>::empty()
    };
    lemma_count_concat(indices_where((n - 1) as nat, p), last, chosen);
    if p(n - 1) {
        assert(last.drop_last() =~= Seq::<usize>::empty());
        assert(last.last() as int == n - 1);
    }
    if j1 < n - 1 {
        lemma_count_chosen_where((n - 1) as nat, p, chosen, j1, j2);
    }
    if j1 < j2 < n && p(j2) && chosen[j2] && j2 < n - 1 {
        lemma_count_chosen_where((n - 1) as nat, p, chosen, j1, j2);
    }
    if j1 < j2 && j2 == n - 1 && p(j2) && chosen[j2] {
        lemma_count_chosen_where((n - 1) as nat, p, chosen, j1, j1);
    }
}

/// The variable from which the `q`-th chosen key placement comes.
pub open spec fn key_source(chosen: Seq<bool>, n: nat, q: int) -> int
    decreases n,
{
    if n == 0 {
        0
    } else if q < count_true(chosen, (n - 1) as nat) {
        key_source(chosen, (n - 1) as nat, q)
    } else {
        n - 1
    }
}

/// How many of the first `n` choices are made.
pub open spec fn count_true(chosen: Seq<bool>, n: nat) -> nat
    decreases n,
{
    if n == 0 {
        0
    } else {
        count_true(chosen, (n - 1) as nat) + if chosen[n - 1] {
            1nat
        } else {
            0nat
        }
    }
}

/// The chosen key placements come one from each chosen variable, in order.
proof fn lemma_chosen_keys_source(
    slots: Seq<KeySlot>,
    x: Seq<(KeyId, usize)>,
    chosen: Seq<bool>,
    n: nat,
    q1: int,
    q2: int,
)
    requires
        n <= x.len(),
        0 <= q1 < chosen_keys(slots, x, chosen, n).len(),
    ensures
        chosen_keys(slots, x, chosen, n).len() == count_true(chosen, n),
        0 <= key_source(chosen, n, q1) < n,
        chosen[key_source(chosen, n, q1)],
        chosen_keys(slots, x, chosen, n)[q1] == key_placement_of(slots, x[key_source(chosen, n, q1)]),
        q1 < q2 < chosen_keys(slots, x, chosen, n).len() ==> key_source(chosen, n, q1) < key_source(
            chosen,
            n,
            q2,
        ),
    decreases n,
{
    let prev = chosen_keys(slots, x, chosen, (n - 1) as nat);
    lemma_chosen_keys_len(slots, x, chosen, (n - 1) as nat);
    if q1 < prev.len() {
        lemma_chosen_keys_source(slots, x, chosen, (n - 1) as nat, q1, q2);
        if q1 < q2 < chosen_keys(slots, x, chosen, n).len() && q2 < prev.len() {
            lemma_chosen_keys_source(slots, x, chosen, (n - 1) as nat, q2, q2);
        }
    }
}

proof fn lemma_chosen_keys_len(slots: Seq<KeySlot>, x: Seq<(KeyId, usize)>, chosen: Seq<bool>, n: nat)
    ensures
        chosen_keys(slots, x, chosen, n).len() == count_true(chosen, n),
    decreases n,
{
    if n > 0 {
        lemma_chosen_keys_len(slots, x, chosen, (n - 1) as nat);
    }
}

/// The cluster from which the `q`-th chosen arrow key comes.
pub open spec fn arrow_source(chosen: Seq<bool>, n: nat, q: int) -> int
    decreases n,
{
    if n == 0 {
        0
    } else if q < 4 * count_true(chosen, (n - 1) as nat) {
        arrow_source(chosen, (n - 1) as nat, q)
    } else {
        n - 1
    }
}

/// Which of the four keys of its cluster the `q`-th chosen arrow key is.
pub open spec fn arrow_offset(chosen: Seq<bool>, n: nat, q: int) -> int
    decreases n,
{
    if n == 0 {
        0
    } else if q < 4 * count_true(chosen, (n - 1) as nat) {
        arrow_offset(chosen, (n - 1) as nat, q)
    } else {
        q - 4 * count_true(chosen, (n - 1) as nat)
    }
}

/// The chosen arrow keys come four from each chosen cluster, in order.
proof fn lemma_chosen_arrows_source(places: Seq<ArrowPlacement>, chosen: Seq<bool>, n: nat, q1: int, q2: int)
    requires
        n <= places.len(),
        0 <= q1 < chosen_arrows(places, chosen, n).len(),
    ensures
        chosen_arrows(places, chosen, n).len() == 4 * count_true(chosen, n),
        0 <= arrow_source(chosen, n, q1) < n,
        chosen[arrow_source(chosen, n, q1)],
        0 <= arrow_offset(chosen, n, q1) < 4,
        chosen_arrows(places, chosen, n)[q1] == arrow_placements_of(
            places[arrow_source(chosen, n, q1)],
        )[arrow_offset(chosen, n, q1)],
        q1 < q2 < chosen_arrows(places, chosen, n).len() ==> (arrow_source(chosen, n, q1)
            < arrow_source(chosen, n, q2) || (arrow_source(chosen, n, q1) == arrow_source(chosen, n, q2)
            && arrow_offset(chosen, n, q1) < arrow_offset(chosen, n, q2))),
    decreases n,
{
    let prev = chosen_arrows(places, chosen, (n - 1) as nat);
    lemma_chosen_arrows_len(places, chosen, (n - 1) as nat);
    lemma_chosen_arrows_len(places, chosen, n);
    if q1 < prev.len() {
        lemma_chosen_arrows_source(places, chosen, (n - 1) as nat, q1, q2);
        if q1 < q2 < chosen_arrows(places, chosen, n).len() && q2 < prev.len() {
            lemma_chosen_arrows_source(places, chosen, (n - 1) as nat, q2, q2);
        }
    }
}

proof fn lemma_chosen_arrows_len(places: Seq<ArrowPlacement>, chosen: Seq<bool>, n: nat)
    requires
        n <= places.len(),
    ensures
        chosen_arrows(places, chosen, n).len() == 4 * count_true(chosen, n),
    decreases n,
{
    if n > 0 {
        lemma_chosen_arrows_len(places, chosen, (n - 1) as nat);
        assert(arrow_placements_of(places[n - 1]).len() == 4);
    }
}

/// Each arrow key of a cluster lies on cells of the cluster, and no two
/// of its keys share a cell.
proof fn lemma_cluster_keys(p: ArrowPlacement, o1: int, o2: int, row: int, col: int)
    requires
        placement_in_range(p),
        0 <= o1 < 4,
        0 <= o2 < 4,
        placement_covers(arrow_placements_of(p)[o1], row, col),
    ensures
        cluster_covers(p, row, col),
        o1 != o2 ==> !placement_covers(arrow_placements_of(p)[o2], row, col),
{
    let keys = spec_arrow_positions(p);
    assert(arrow_placements_of(p)[o1].row == keys[o1].1);
    assert(arrow_placements_of(p)[o1].col == keys[o1].2);
    assert(under_keys(keys, row, col));
    lemma_arrow_keys_cover_cluster(p, row, col);
}

/// How many placements of `ps` place `key`.
pub open spec fn key_count(ps: Seq<KeyPlacement>, key: Option<KeyId>) -> nat
    decreases ps.len(),
{
    if ps.len() == 0 {
        0
    } else {
        key_count(ps.drop_last(), key) + if ps.last().key_id == key {
            1nat
        } else {
            0nat
        }
    }
}

proof fn lemma_key_count_concat(a: Seq<KeyPlacement>, b: Seq<KeyPlacement>, key: Option<KeyId>)
    ensures
        key_count(a + b, key) == key_count(a, key) + key_count(b, key),
    decreases b.len(),
{
    if b.len() == 0 {
        assert(a + b =~= a);
    } else {
        lemma_key_count_concat(a, b.drop_last(), key);
        assert((a + b).drop_last() =~= a + b.drop_last());
    }
}

proof fn lemma_key_count_absent(ps: Seq<KeyPlacement>, key: Option<KeyId>)
    requires
        forall|q: int| 0 <= q < ps.len() ==> (#[trigger] ps[q]).key_id != key,
    ensures
        key_count(ps, key) == 0,
    decreases ps.len(),
{
    if ps.len() > 0 {
        lemma_key_count_absent(ps.drop_last(), key);
        assert(ps.last() == ps[ps.len() - 1]);
    }
}

/// The chosen placements of a key are as many as its chosen variables.
proof fn lemma_chosen_keys_count(
    slots: Seq<KeySlot>,
    x: Seq<(KeyId, usize)>,
    chosen: Seq<bool>,
    n: nat,
    key: KeyId,
)
    requires
        n <= x.len() <= usize::MAX,
    ensures
        key_count(chosen_keys(slots, x, chosen, n), Some(key)) == count_chosen(
            indices_where(n, |j: int| places_key(x, j, key)),
            chosen,
        ),
    decreases n,
{
    if n > 0 {
        let p = |j: int| places_key(x, j, key);
        let m = (n - 1) as nat;
        lemma_chosen_keys_count(slots, x, chosen, m, key);
        let extra = if chosen[n - 1] {
            seq![key_placement_of(slots, x[n - 1])]
        } else {
            Seq::<KeyPlacement>::empty()
        };
        lemma_key_count_concat(chosen_keys(slots, x, chosen, m), extra, Some(key));
        if chosen[n - 1] {
            assert(extra.drop_last() =~= Seq::<KeyPlacement>::empty());
        }
        let last = if p(n - 1) {
            seq![(n - 1) as usize]
        } else {
            Seq::<usize>::empty()
        };
        lemma_count_concat(indices_where(m, p), last, chosen);
        if p(n - 1) {
            assert(last.drop_last() =~= Seq::<usize>::empty());
            assert(last.last() as int == n - 1);
        }
        assert(key_placement_of(slots, x[n - 1]).key_id == Some(x[n - 1].0));
        assert(key_count(Seq::<KeyPlacement>::empty(), Some(key)) == 0);
        assert(count_chosen(Seq::<usize>::empty(), chosen) == 0);
    }
}

/// The chosen clusters place arrow keys only.
proof fn lemma_chosen_arrows_count(places: Seq<ArrowPlacement>, chosen: Seq<bool>, n: nat, key: KeyId)
    requires
        n <= places.len(),
        !(key is Arrow),
    ensures
        key_count(chosen_arrows(places, chosen, n), Some(key)) == 0,
    decreases n,
{
    if n > 0 {
        let m = (n - 1) as nat;
        lemma_chosen_arrows_count(places, chosen, m, key);
        let extra = if chosen[n - 1] {
            arrow_placements_of(places[n - 1])
        } else {
            Seq::<KeyPlacement>::empty()
        };
        assert forall|q: int| 0 <= q < extra.len() implies (#[trigger] extra[q]).key_id != Some(key) by {
            assert(extra[q].key_id is Some && extra[q].key_id.unwrap() is Arrow);
        }
        lemma_key_count_absent(extra, Some(key));
        lemma_key_count_concat(chosen_arrows(places, chosen, m), extra, Some(key));
    }
}

/// A solution places each key as often as it chooses variables of that
/// key; so a choice that meets the constraint of a key (exactly one of its
/// variables chosen) places that key exactly once, and in the slot of a
/// chosen variable of that key. Arrow keys are placed by the clusters
/// alone and are left out.
pub proof fn lemma_solution_places_key_once(
    slots: Seq<KeySlot>,
    x: Seq<(KeyId, usize)>,
    horizontal: Seq<ArrowPlacement>,
    t_shape: Seq<ArrowPlacement>,
    x_chosen: Seq<bool>,
    h_chosen: Seq<bool>,
    t_chosen: Seq<bool>,
    key: KeyId,
)
    requires
        x_chosen.len() == x.len() <= usize::MAX,
        h_chosen.len() == horizontal.len(),
        t_chosen.len() == t_shape.len(),
        !(key is Arrow),
    ensures
        key_count(
            solution_placements(slots, x, horizontal, t_shape, x_chosen, h_chosen, t_chosen),
            Some(key),
        ) == count_chosen(vars_of_key(x, key), x_chosen),
        count_chosen(vars_of_key(x, key), x_chosen) == 1 ==> key_count(
            solution_placements(slots, x, horizontal, t_shape, x_chosen, h_chosen, t_chosen),
            Some(key),
        ) == 1,
        forall|q: int|
            0 <= q < solution_placements(slots, x, horizontal, t_shape, x_chosen, h_chosen, t_chosen).len()
                && (#[trigger] solution_placements(slots, x, horizontal, t_shape, x_chosen, h_chosen, t_chosen)[q]).key_id
                == Some(key) ==> exists|j: int|
                0 <= j < x.len() && x[j].0 == key && x_chosen[j] && solution_placements(
                    slots,
                    x,
                    horizontal,
                    t_shape,
                    x_chosen,
                    h_chosen,
                    t_chosen,
                )[q] == key_placement_of(slots, x[j]),
{
    let ks = chosen_keys(slots, x, x_chosen, x.len());
    let hs = chosen_arrows(horizontal, h_chosen, horizontal.len());
    let ts = chosen_arrows(t_shape, t_chosen, t_shape.len());
    let sol = solution_placements(slots, x, horizontal, t_shape, x_chosen, h_chosen, t_chosen);
    assert(sol == ks + hs + ts);
    lemma_chosen_keys_count(slots, x, x_chosen, x.len(), key);
    lemma_chosen_arrows_count(horizontal, h_chosen, horizontal.len(), key);
    lemma_chosen_arrows_count(t_shape, t_chosen, t_shape.len(), key);
    lemma_key_count_concat(ks, hs, Some(key));
    lemma_key_count_concat(ks + hs, ts, Some(key));
    assert forall|q: int| 0 <= q < sol.len() && (#[trigger] sol[q]).key_id == Some(key) implies exists|j: int|
        0 <= j < x.len() && x[j].0 == key && x_chosen[j] && sol[q] == key_placement_of(slots, x[j]) by {
        let nk = ks.len() as int;
        let nh = hs.len() as int;
        if q < nk {
            assert(sol[q] == ks[q]);
            lemma_chosen_keys_source(slots, x, x_chosen, x.len(), q, q);
            let j = key_source(x_chosen, x.len(), q);
            assert(ks[q] == key_placement_of(slots, x[j]));
        } else if q < nk + nh {
            assert(sol[q] == hs[q - nk]);
            lemma_chosen_arrows_source(horizontal, h_chosen, horizontal.len(), q - nk, q - nk);
        } else {
            assert(sol[q] == ts[q - nk - nh]);
            lemma_chosen_arrows_source(t_shape, t_chosen, t_shape.len(), q - nk - nh, q - nk - nh);
        }
    }
}

/// Each cluster places each arrow key once.
proof fn lemma_cluster_places_arrow_once(p: ArrowPlacement, a: crate::keys::ArrowKey)
    ensures
        key_count(arrow_placements_of(p), Some(KeyId::Arrow(a))) == 1,
{
    reveal_with_fuel(key_count, 5);
    let s = arrow_placements_of(p);
    assert(s.drop_last().drop_last().drop_last().drop_last() =~= Seq::<KeyPlacement>::empty());
}

/// The chosen clusters place each arrow key once per chosen cluster.
proof fn lemma_chosen_arrows_count_arrow(
    places: Seq<ArrowPlacement>,
    chosen: Seq<bool>,
    n: nat,
    a: crate::keys::ArrowKey,
)
    requires
        n <= places.len(),
    ensures
        key_count(chosen_arrows(places, chosen, n), Some(KeyId::Arrow(a))) == count_true(chosen, n),
    decreases n,
{
    if n > 0 {
        let m = (n - 1) as nat;
        lemma_chosen_arrows_count_arrow(places, chosen, m, a);
        let extra = if chosen[n - 1] {
            arrow_placements_of(places[n - 1])
        } else {
            Seq::<KeyPlacement>::empty()
        };
        if chosen[n - 1] {
            lemma_cluster_places_arrow_once(places[n - 1], a);
        }
        assert(key_count(Seq::<KeyPlacement>::empty(), Some(KeyId::Arrow(a))) == 0);
        lemma_key_count_concat(chosen_arrows(places, chosen, m), extra, Some(KeyId::Arrow(a)));
    }
}

/// A solution whose key variables place no arrow key places each arrow key
/// once per chosen cluster; so a choice that meets the constraint of the
/// clusters (exactly one cluster chosen) places each arrow key exactly
/// once.
pub proof fn lemma_solution_places_arrows_once(
    slots: Seq<KeySlot>,
    x: Seq<(KeyId, usize)>,
    horizontal: Seq<ArrowPlacement>,
    t_shape: Seq<ArrowPlacement>,
    x_chosen: Seq<bool>,
    h_chosen: Seq<bool>,
    t_chosen: Seq<bool>,
    a: crate::keys::ArrowKey,
)
    requires
        x_chosen.len() == x.len() <= usize::MAX,
        h_chosen.len() == horizontal.len(),
        t_chosen.len() == t_shape.len(),
        forall|j: int| 0 <= j < x.len() ==> !((#[trigger] x[j]).0 is Arrow),
    ensures
        key_count(
            solution_placements(slots, x, horizontal, t_shape, x_chosen, h_chosen, t_chosen),
            Some(KeyId::Arrow(a)),
        ) == count_true(h_chosen, horizontal.len()) + count_true(t_chosen, t_shape.len()),
        count_true(h_chosen, horizontal.len()) + count_true(t_chosen, t_shape.len()) == 1 ==> key_count(
            solution_placements(slots, x, horizontal, t_shape, x_chosen, h_chosen, t_chosen),
            Some(KeyId::Arrow(a)),
        ) == 1,
{
    let key = KeyId::Arrow(a);
    let ks = chosen_keys(slots, x, x_chosen, x.len());
    let hs = chosen_arrows(horizontal, h_chosen, horizontal.len());
    let ts = chosen_arrows(t_shape, t_chosen, t_shape.len());
    assert(solution_placements(slots, x, horizontal, t_shape, x_chosen, h_chosen, t_chosen) == ks + hs + ts);
    lemma_chosen_keys_count(slots, x, x_chosen, x.len(), key);
    lemma_indices_where_none(x.len(), |j: int| places_key(x, j, key));
    assert(indices_where(x.len(), |j: int| places_key(x, j, key)) =~= Seq::<usize>::empty());
    assert(count_chosen(Seq::<usize>::empty(), x_chosen) == 0);
    lemma_chosen_arrows_count_arrow(horizontal, h_chosen, horizontal.len(), a);
    lemma_chosen_arrows_count_arrow(t_shape, t_chosen, t_shape.len(), a);
    lemma_key_count_concat(ks, hs, Some(key));
    lemma_key_count_concat(ks + hs, ts, Some(key));
}

/// A layout that a choice gives, when the choice meets the constraint of a
/// cell, covers that cell at most once: no two of the fixed keys, the keys
/// of the chosen variables and the arrow keys of the chosen clusters share
/// it.
pub proof fn lemma_solution_covers_cell_once(
    geom: Geometry,
    slots: Seq<KeySlot>,
    x: Seq<(KeyId, usize)>,
    horizontal: Seq<ArrowPlacement>,
    t_shape: Seq<ArrowPlacement>,
    cover: CellCover,
    x_chosen: Seq<bool>,
    h_chosen: Seq<bool>,
    t_chosen: Seq<bool>,
    row: int,
    col: int,
    a: int,
    b: int,
)
    requires
        model_in_range(slots, x, horizontal, t_shape),
        x_chosen.len() == x.len() <= usize::MAX,
        h_chosen.len() == horizontal.len() <= usize::MAX,
        t_chosen.len() == t_shape.len() <= usize::MAX,
        fixed_keys_sound(geom),
        0 <= row < geom.cells@.len(),
        0 <= col < geom.cells@[row]@.len(),
        is_cell_cover(cover, geom, slots, x, horizontal, t_shape, row, col),
        respects_cell(cover, x_chosen, h_chosen, t_chosen),
        0 <= a < b < (fixed_only(geom.key_placements@) + solution_placements(
            slots,
            x,
            horizontal,
            t_shape,
            x_chosen,
            h_chosen,
            t_chosen,
        )).len(),
    ensures
        ({
            let items = fixed_only(geom.key_placements@) + solution_placements(
                slots,
                x,
                horizontal,
                t_shape,
                x_chosen,
                h_chosen,
                t_chosen,
            );
            !(placement_covers(items[a], row, col) && placement_covers(items[b], row, col))
        }),
{
    let fixed = fixed_only(geom.key_placements@);
    let ks = chosen_keys(slots, x, x_chosen, x.len());
    let hs = chosen_arrows(horizontal, h_chosen, horizontal.len());
    let ts = chosen_arrows(t_shape, t_chosen, t_shape.len());
    let items = fixed + (ks + hs + ts);
    assert(items == fixed + solution_placements(slots, x, horizontal, t_shape, x_chosen, h_chosen, t_chosen));
    if !(placement_covers(items[a], row, col) && placement_covers(items[b], row, col)) {
        return;
    }
    let nf = fixed.len() as int;
    let nk = ks.len() as int;
    let nh = hs.len() as int;
    let pk = |j: int| slot_covers(slots[x[j].1 as int], row, col);
    let ph = |k: int| cluster_covers(horizontal[k], row, col);
    let pt = |k: int| cluster_covers(t_shape[k], row, col);
    let fx: nat = if cover.fixed {
        1
    } else {
        0
    };
    // what each item says about the counts of the cell
    assert forall|q: int| 0 <= q < items.len() && placement_covers(#[trigger] items[q], row, col) implies {
        &&& q < nf ==> cover.fixed
        &&& nf <= q < nf + nk ==> count_chosen(cover.keys@, x_chosen) >= 1
        &&& nf + nk <= q < nf + nk + nh ==> count_chosen(cover.horizontal@, h_chosen) >= 1
        &&& nf + nk + nh <= q ==> count_chosen(cover.t_shape@, t_chosen) >= 1
    } by {
        if q < nf {
            assert(items[q] == fixed[q]);
            assert(placement_covers(fixed[q], row, col));
        } else if q < nf + nk {
            let qq = q - nf;
            assert(items[q] == ks[qq]);
            lemma_chosen_keys_source(slots, x, x_chosen, x.len(), qq, qq);
            let j = key_source(x_chosen, x.len(), qq);
            assert(pk(j));
            lemma_count_chosen_where(x.len(), pk, x_chosen, j, j);
        } else if q < nf + nk + nh {
            let qq = q - nf - nk;
            assert(items[q] == hs[qq]);
            lemma_chosen_arrows_source(horizontal, h_chosen, horizontal.len(), qq, qq);
            let k = arrow_source(h_chosen, horizontal.len(), qq);
            lemma_cluster_keys(horizontal[k], arrow_offset(h_chosen, horizontal.len(), qq), 0, row, col);
            assert(ph(k));
            lemma_count_chosen_where(horizontal.len(), ph, h_chosen, k, k);
        } else {
            let qq = q - nf - nk - nh;
            assert(items[q] == ts[qq]);
            lemma_chosen_arrows_source(t_shape, t_chosen, t_shape.len(), qq, qq);
            let k = arrow_source(t_chosen, t_shape.len(), qq);
            lemma_cluster_keys(t_shape[k], arrow_offset(t_chosen, t_shape.len(), qq), 0, row, col);
            assert(pt(k));
            lemma_count_chosen_where(t_shape.len(), pt, t_chosen, k, k);
        }
    }
    assert(placement_covers(items[a], row, col));
    assert(placement_covers(items[b], row, col));
    // two items of the same part need two chosen variables
    if b < nf {
        assert(items[a] == fixed[a] && items[b] == fixed[b]);
        assert(placement_covers(fixed[a], row, col));
    } else if nf <= a && b < nf + nk {
        let qa = a - nf;
        let qb = b - nf;
        assert(items[a] == ks[qa] && items[b] == ks[qb]);
        lemma_chosen_keys_source(slots, x, x_chosen, x.len(), qa, qb);
        lemma_chosen_keys_source(slots, x, x_chosen, x.len(), qb, qb);
        let ja = key_source(x_chosen, x.len(), qa);
        let jb = key_source(x_chosen, x.len(), qb);
        assert(pk(ja) && pk(jb));
        lemma_count_chosen_where(x.len(), pk, x_chosen, ja, jb);
    } else if nf + nk <= a && b < nf + nk + nh {
        let qa = a - nf - nk;
        let qb = b - nf - nk;
        assert(items[a] == hs[qa] && items[b] == hs[qb]);
        lemma_chosen_arrows_source(horizontal, h_chosen, horizontal.len(), qa, qb);
        lemma_chosen_arrows_source(horizontal, h_chosen, horizontal.len(), qb, qb);
        let ka = arrow_source(h_chosen, horizontal.len(), qa);
        let kb = arrow_source(h_chosen, horizontal.len(), qb);
        let oa = arrow_offset(h_chosen, horizontal.len(), qa);
        let ob = arrow_offset(h_chosen, horizontal.len(), qb);
        lemma_cluster_keys(horizontal[ka], oa, ob, row, col);
        lemma_cluster_keys(horizontal[kb], ob, oa, row, col);
        if ka < kb {
            lemma_count_chosen_where(horizontal.len(), ph, h_chosen, ka, kb);
        }
    } else if nf + nk + nh <= a {
        let qa = a - nf - nk - nh;
        let qb = b - nf - nk - nh;
        assert(items[a] == ts[qa] && items[b] == ts[qb]);
        lemma_chosen_arrows_source(t_shape, t_chosen, t_shape.len(), qa, qb);
        lemma_chosen_arrows_source(t_shape, t_chosen, t_shape.len(), qb, qb);
        let ka = arrow_source(t_chosen, t_shape.len(), qa);
        let kb = arrow_source(t_chosen, t_shape.len(), qb);
        let oa = arrow_offset(t_chosen, t_shape.len(), qa);
        let ob = arrow_offset(t_chosen, t_shape.len(), qb);
        lemma_cluster_keys(t_shape[ka], oa, ob, row, col);
        lemma_cluster_keys(t_shape[kb], ob, oa, row, col);
        if ka < kb {
            lemma_count_chosen_where(t_shape.len(), pt, t_chosen, ka, kb);
        }
    }
}

/// Whether no two of the blocks share a row.
pub open spec fn block_rows_distinct(blocks: Seq<(int, int, Seq<Seq<char>>)>) -> bool {
    forall|i: int, j: int| 0 <= i < j < blocks.len() ==> (#[trigger] blocks[i]).0 != (#[trigger] blocks[j]).0
}

/// The number of keys of the first `n` blocks.
pub open spec fn keys_in_blocks(blocks: Seq<(int, int, Seq<Seq<char>>)>, n: nat) -> nat
    decreases n,
{
    if n == 0 {
        0
    } else {
        keys_in_blocks(blocks, (n - 1) as nat) + blocks[n - 1].2.len()
    }
}

/// The block of the `q`-th fixed key.
pub open spec fn block_source(blocks: Seq<(int, int, Seq<Seq<char>>)>, n: nat, q: int) -> int
    decreases n,
{
    if n == 0 {
        0
    } else if q < keys_in_blocks(blocks, (n - 1) as nat) {
        block_source(blocks, (n - 1) as nat, q)
    } else {
        n - 1
    }
}

/// The `q`-th fixed key is key `q - keys before its block` of its block.
proof fn lemma_fixed_placements_source(blocks: Seq<(int, int, Seq<Seq<char>>)>, n: nat, q: int)
    requires
        n <= blocks.len(),
        0 <= q < fixed_placements(blocks.take(n as int)).len(),
    ensures
        fixed_placements(blocks.take(n as int)).len() == keys_in_blocks(blocks, n),
        0 <= block_source(blocks, n, q) < n,
        keys_in_blocks(blocks, block_source(blocks, n, q) as nat) <= q < keys_in_blocks(
            blocks,
            (block_source(blocks, n, q) + 1) as nat,
        ),
        fixed_placements(blocks.take(n as int))[q] == block_placements(
            blocks[block_source(blocks, n, q)],
        )[q - keys_in_blocks(blocks, block_source(blocks, n, q) as nat)],
    decreases n,
{
    assert(blocks.take(n as int).drop_last() =~= blocks.take(n - 1));
    lemma_fixed_placements_len(blocks, (n - 1) as nat);
    lemma_fixed_placements_len(blocks, n);
    if q < keys_in_blocks(blocks, (n - 1) as nat) {
        lemma_fixed_placements_source(blocks, (n - 1) as nat, q);
    }
}

proof fn lemma_fixed_placements_len(blocks: Seq<(int, int, Seq<Seq<char>>)>, n: nat)
    requires
        n <= blocks.len(),
    ensures
        fixed_placements(blocks.take(n as int)).len() == keys_in_blocks(blocks, n),
    decreases n,
{
    if n > 0 {
        assert(blocks.take(n as int).drop_last() =~= blocks.take(n - 1));
        lemma_fixed_placements_len(blocks, (n - 1) as nat);
    }
}

proof fn lemma_keys_in_blocks_monotone(blocks: Seq<(int, int, Seq<Seq<char>>)>, m: nat, n: nat)
    requires
        m <= n,
    ensures
        keys_in_blocks(blocks, m) <= keys_in_blocks(blocks, n),
    decreases n,
{
    if m < n {
        lemma_keys_in_blocks_monotone(blocks, m, (n - 1) as nat);
    }
}

proof fn lemma_fixed_only_of_fixed(ps: Seq<KeyPlacement>)
    requires
        forall|q: int| 0 <= q < ps.len() ==> (#[trigger] ps[q]).placement_type == PlacementType::Fixed,
    ensures
        fixed_only(ps) == ps,
    decreases ps.len(),
{
    if ps.len() > 0 {
        lemma_fixed_only_of_fixed(ps.drop_last());
        assert(ps.drop_last().push(ps.last()) =~= ps);
    }
}

/// The cells of the `q`-th fixed key are cells of its block.
proof fn lemma_fixed_key_in_block(blocks: Seq<(int, int, Seq<Seq<char>>)>, rows: int, q: int, row: int, col: int)
    requires
        blocks_fit(blocks, rows),
        rows <= usize::MAX,
        0 <= q < fixed_placements(blocks).len(),
        placement_covers(fixed_placements(blocks)[q], row, col),
    ensures
        ({
            let bi = block_source(blocks, blocks.len(), q);
            &&& 0 <= bi < blocks.len()
            &&& block_covers(blocks[bi], row, col)
            &&& fixed_placements(blocks)[q].placement_type == PlacementType::Fixed
            &&& fixed_placements(blocks)[q].col == blocks[bi].1 + U2CELL * (q - keys_in_blocks(blocks, bi as nat))
            &&& fixed_placements(blocks)[q].width_cells == U2CELL
            &&& keys_in_blocks(blocks, bi as nat) <= q < keys_in_blocks(blocks, (bi + 1) as nat)
        }),
{
    let n = blocks.len();
    assert(blocks.take(n as int) =~= blocks);
    lemma_fixed_placements_source(blocks, n, q);
    let bi = block_source(blocks, n, q);
    let b = blocks[bi];
    let k = q - keys_in_blocks(blocks, bi as nat);
    lemma_keys_in_blocks_len(blocks, bi as nat);
    assert(0 <= b.0 < rows && 0 <= b.1 && b.1 + U2CELL * b.2.len() <= crate::constants::MAX_COL_CELLS);
    assert(fixed_placements(blocks)[q] == block_placements(b)[k]);
}

/// The fixed keys of a fresh grid lie on its reserved cells, and no two
/// of them share a cell, when its blocks fit and stand in distinct rows.
pub proof fn lemma_fresh_grid_fixed_keys_sound(geom: Geometry, blocks: Seq<(int, int, Seq<Seq<char>>)>)
    requires
        is_fresh_grid(geom.cells@, geom.cells@.len() as int, blocks),
        blocks_fit(blocks, geom.cells@.len() as int),
        geom.cells@.len() <= usize::MAX,
        block_rows_distinct(blocks),
        geom.key_placements@ == fixed_placements(blocks),
    ensures
        fixed_keys_sound(geom),
{
    let n = blocks.len();
    let rows = geom.cells@.len() as int;
    let ps = fixed_placements(blocks);
    assert(blocks.take(n as int) =~= blocks);
    assert forall|q: int| 0 <= q < ps.len() implies (#[trigger] ps[q]).placement_type == PlacementType::Fixed by {
        lemma_fixed_placements_source(blocks, n, q);
    }
    lemma_fixed_only_of_fixed(ps);
    assert forall|q: int, row: int, col: int|
        0 <= q < ps.len() && #[trigger] placement_covers(ps[q], row, col) implies 0 <= row < geom.cells@.len()
            && 0 <= col < geom.cells@[row]@.len() && geom.cells@[row]@[col].occupied by {
        lemma_fixed_key_in_block(blocks, rows, q, row, col);
        assert(reserved(blocks, row, col));
        assert(geom.cells@[row]@[col] == grid_cell(blocks, row, col));
    }
    assert forall|q1: int, q2: int, row: int, col: int|
        0 <= q1 < q2 < ps.len() && #[trigger] placement_covers(ps[q1], row, col) implies !#[trigger] placement_covers(
            ps[q2],
            row,
            col,
        ) by {
        if placement_covers(ps[q2], row, col) {
            lemma_fixed_key_in_block(blocks, rows, q1, row, col);
            lemma_fixed_key_in_block(blocks, rows, q2, row, col);
            let b1 = block_source(blocks, n, q1);
            let b2 = block_source(blocks, n, q2);
            if b1 < b2 {
                assert(blocks[b1].0 != blocks[b2].0);
            } else if b1 > b2 {
                lemma_keys_in_blocks_monotone(blocks, (b2 + 1) as nat, b1 as nat);
            }
        }
    }
}

proof fn lemma_keys_in_blocks_len(blocks: Seq<(int, int, Seq<Seq<char>>)>, i: nat)
    ensures
        keys_in_blocks(blocks, i + 1) == keys_in_blocks(blocks, i) + blocks[i as int].2.len(),
{
}

/// The fixed keys of every grid that `Geometry::build` gives lie on its
/// reserved cells, and no two of them share a cell.
pub proof fn lemma_built_grid_fixed_keys_sound(geom: Geometry, include_digits: bool)
    requires
        4 <= geom.cells@.len() <= usize::MAX,
        geom.name == GeometryName::Ortho && !include_digits ==> geom.cells@.len() > 4,
        is_fresh_grid(geom.cells@, geom.cells@.len() as int, fixed_blocks(geom.name, include_digits)),
        geom.key_placements@ == fixed_placements(fixed_blocks(geom.name, include_digits)),
    ensures
        fixed_keys_sound(geom),
{
    let blocks = fixed_blocks(geom.name, include_digits);
    assert(crate::geometry::bottom_letters().len() == 7);
    assert(crate::geometry::home_letters().len() == 9);
    assert(crate::geometry::top_letters().len() == 10);
    assert(crate::geometry::digit_names().len() == 10);
    assert(blocks_fit(blocks, geom.cells@.len() as int));
    assert(block_rows_distinct(blocks));
    lemma_fresh_grid_fixed_keys_sound(geom, blocks);
}

/// Whether two placements put their key at the same cells.
pub open spec fn same_place(p: KeyPlacement, q: KeyPlacement) -> bool {
    p.row == q.row && p.col == q.col && p.width_cells == q.width_cells
}

/// Whether the `q`-th placement of `a` is the placement of its key in `a`
/// and `b` places that key elsewhere or not at all.
pub open spec fn moved_or_dropped(a: Seq<KeyPlacement>, b: Seq<KeyPlacement>, q: int) -> bool {
    &&& index_of_key(a, a[q].key_id) == Some(q)
    &&& match index_of_key(b, a[q].key_id) {
        None => true,
        Some(j) => !same_place(a[q], b[j]),
    }
}

/// Whether the `q`-th placement of `b` is the placement of its key in `b`
/// and `a` does not place that key.
pub open spec fn only_in_second(a: Seq<KeyPlacement>, b: Seq<KeyPlacement>, q: int) -> bool {
    &&& index_of_key(b, b[q].key_id) == Some(q)
    &&& index_of_key(a, b[q].key_id) is None
}

/// The number of keys that two layouts place differently: placed in both
/// at different cells, or placed in one of them only.
pub open spec fn spec_placement_differences(a: Seq<KeyPlacement>, b: Seq<KeyPlacement>) -> nat {
    indices_where(a.len(), |q: int| moved_or_dropped(a, b, q)).len() + indices_where(
        b.len(),
        |q: int| only_in_second(a, b, q),
    ).len()
}

/// Where `ps` places `key` first, if it does.
fn find_key(ps: &Vec<KeyPlacement>, key: Option<KeyId>) -> (r: Option<usize>)
    ensures
        r matches Some(j) ==> index_of_key(ps@, key) == Some(j as int),
        r is None <==> index_of_key(ps@, key) is None,
{
    let mut k: usize = 0;
    while k < ps.len()
        invariant
            k <= ps@.len(),
            index_of_key(ps@.take(k as int), key) is None,
        decreases ps@.len() - k,
    {
        proof {
            assert(ps@.take(k + 1).drop_last() =~= ps@.take(k as int));
        }
        if ps[k].key_id == key {
            proof {
                assert(index_of_key(ps@.take(k + 1), key) == Some(k as int));
                lemma_index_of_key_prefix(ps@, k as int + 1, key);
            }
            return Some(k);
        }
        k = k + 1;
    }
    proof {
        assert(ps@.take(k as int) =~= ps@);
    }
    None
}

proof fn lemma_index_of_key_bound(ps: Seq<KeyPlacement>, key: Option<KeyId>)
    ensures
        index_of_key(ps, key) matches Some(i) ==> 0 <= i < ps.len() && ps[i].key_id == key,
    decreases ps.len(),
{
    if ps.len() > 0 {
        lemma_index_of_key_bound(ps.drop_last(), key);
    }
}

/// The number of keys that two layouts place differently: those placed in
/// both at different cells or with different widths, and those placed in
/// only one of them.
pub fn count_key_placement_differences(geom_v1: &Geometry, geom_v2: &Geometry) -> (n: usize)
    requires
        geom_v1.key_placements@.len() + geom_v2.key_placements@.len() <= usize::MAX,
    ensures
        n == spec_placement_differences(geom_v1.key_placements@, geom_v2.key_placements@),
{
    let a = &geom_v1.key_placements;
    let b = &geom_v2.key_placements;
    let ghost pa = |q: int| moved_or_dropped(a@, b@, q);
    let ghost pb = |q: int| only_in_second(a@, b@, q);
    let mut diff_count: usize = 0;
    let mut q: usize = 0;
    while q < a.len()
        invariant
            q <= a@.len(),
            pa == (|q: int| moved_or_dropped(a@, b@, q)),
            diff_count == indices_where(q as nat, pa).len(),
            diff_count <= q,
        decreases a@.len() - q,
    {
        let key = a[q].key_id;
        let first = find_key(a, key);
        proof {
            lemma_index_of_key_bound(a@, key);
            lemma_index_of_key_bound(b@, key);
        }
        let counts = match first {
            Some(i) => {
                if i == q {
                    match find_key(b, key) {
                        None => true,
                        Some(j) => {
                            let p1 = a[q];
                            let p2 = b[j];
                            proof {
                                assert(index_of_key(b@, key) == Some(j as int));
                                assert(p1 == a@[q as int]);
                                assert(p2 == b@[j as int]);
                            }
                            !(p1.row == p2.row && p1.col == p2.col && p1.width_cells == p2.width_cells)
                        },
                    }
                } else {
                    false
                }
            },
            None => false,
        };
        proof {
            assert(counts == pa(q as int));
        }
        if counts {
            diff_count = diff_count + 1;
        }
        q = q + 1;
    }
    let ghost first_part = diff_count;
    let mut extra: usize = 0;
    let mut q: usize = 0;
    while q < b.len()
        invariant
            q <= b@.len(),
            a@.len() + b@.len() <= usize::MAX,
            first_part <= a@.len(),
            pb == (|q: int| only_in_second(a@, b@, q)),
            extra == indices_where(q as nat, pb).len(),
            extra <= q,
        decreases b@.len() - q,
    {
        let key = b[q].key_id;
        let first = find_key(b, key);
        proof {
            lemma_index_of_key_bound(a@, key);
            lemma_index_of_key_bound(b@, key);
        }
        let counts = match first {
            Some(i) => i == q && find_key(a, key).is_none(),
            None => false,
        };
        proof {
            assert(counts == pb(q as int));
        }
        if counts {
            extra = extra + 1;
        }
        q = q + 1;
    }
    diff_count + extra
}

proof fn lemma_indices_where_none(n: nat, p: spec_fn(int) -> bool)
    requires
        forall|q: int| 0 <= q < n ==> !#[trigger] p(q),
    ensures
        indices_where(n, p).len() == 0,
    decreases n,
{
    if n > 0 {
        lemma_indices_where_none((n - 1) as nat, p);
    }
}

/// Whether the `q`-th placement of `a` is the placement of its key in `a`
/// and `b` places that key at other cells.
pub open spec fn moved(a: Seq<KeyPlacement>, b: Seq<KeyPlacement>, q: int) -> bool {
    &&& index_of_key(a, a[q].key_id) == Some(q)
    &&& index_of_key(b, a[q].key_id) matches Some(j) && !same_place(a[q], b[j])
}

/// Indices where one of two exclusive properties holds are as many as
/// those of the first and those of the second together.
proof fn lemma_indices_where_split(
    n: nat,
    p: spec_fn(int) -> bool,
    p1: spec_fn(int) -> bool,
    p2: spec_fn(int) -> bool,
)
    requires
        forall|q: int| 0 <= q < n ==> #[trigger] p(q) == (p1(q) || p2(q)),
        forall|q: int| 0 <= q < n ==> !(#[trigger] p1(q) && p2(q)),
    ensures
        indices_where(n, p).len() == indices_where(n, p1).len() + indices_where(n, p2).len(),
    decreases n,
{
    if n > 0 {
        lemma_indices_where_split((n - 1) as nat, p, p1, p2);
        assert(p(n - 1) == (p1(n - 1) || p2(n - 1)));
    }
}

/// The indices below `n` where `p` holds, each once.
proof fn lemma_indices_where_members(n: nat, p: spec_fn(int) -> bool)
    requires
        n <= usize::MAX,
    ensures
        indices_where(n, p).no_duplicates(),
        forall|i: usize| #[trigger] indices_where(n, p).contains(i) <==> (i < n && p(i as int)),
    decreases n,
{
    if n > 0 {
        let m = (n - 1) as nat;
        lemma_indices_where_members(m, p);
        let prev = indices_where(m, p);
        let last = if p(n - 1) {
            seq![(n - 1) as usize]
        } else {
            Seq::<usize>::empty()
        };
        let all = prev + last;
        assert(indices_where(n, p) == all);
        assert forall|i: usize| #[trigger] all.contains(i) <==> (i < n && p(i as int)) by {
            if all.contains(i) {
                let k = choose|k: int| 0 <= k < all.len() && all[k] == i;
                if k < prev.len() {
                    assert(prev[k] == i);
                    assert(prev.contains(i));
                }
            }
            if i < n && p(i as int) {
                if i < m {
                    assert(prev.contains(i));
                    let k = choose|k: int| 0 <= k < prev.len() && prev[k] == i;
                    assert(all[k] == i);
                } else {
                    assert(all[prev.len() as int] == i);
                }
            }
        }
        assert forall|k1: int, k2: int| 0 <= k1 < all.len() && 0 <= k2 < all.len() && k1 != k2 implies all[k1]
            != all[k2] by {
            if k1 < prev.len() && k2 < prev.len() {
            } else if k1 < prev.len() {
                assert(prev.contains(all[k1]));
            } else if k2 < prev.len() {
                assert(prev.contains(all[k2]));
            }
        }
    }
}

/// The indices below `n` where `p` holds, as a set.
pub open spec fn index_set(n: nat, p: spec_fn(int) -> bool) -> Set<usize> {
    Set::new(|i: usize| i < n && p(i as int))
}

proof fn lemma_indices_where_count(n: nat, p: spec_fn(int) -> bool)
    requires
        n <= usize::MAX,
    ensures
        index_set(n, p).finite(),
        indices_where(n, p).len() == index_set(n, p).len(),
{
    lemma_indices_where_members(n, p);
    let s = indices_where(n, p);
    assert(s.to_set() =~= index_set(n, p));
    s.unique_seq_to_set();
}

/// Keys placed in both layouts at different cells are as many counted
/// from either layout.
proof fn lemma_moved_counts_agree(a: Seq<KeyPlacement>, b: Seq<KeyPlacement>)
    requires
        a.len() <= usize::MAX,
        b.len() <= usize::MAX,
    ensures
        indices_where(a.len(), |q: int| moved(a, b, q)).len() == indices_where(
            b.len(),
            |q: int| moved(b, a, q),
        ).len(),
{
    let pa = |q: int| moved(a, b, q);
    let pb = |q: int| moved(b, a, q);
    let xs = index_set(a.len(), pa);
    let ys = index_set(b.len(), pb);
    lemma_indices_where_count(a.len(), pa);
    lemma_indices_where_count(b.len(), pb);
    let f = |q: usize| index_of_key(b, a[q as int].key_id)->0 as usize;
    assert forall|q1: usize, q2: usize| xs.contains(q1) && xs.contains(q2) && #[trigger] f(q1) == #[trigger] f(
        q2,
    ) implies q1 == q2 by {
        lemma_index_of_key_bound(b, a[q1 as int].key_id);
        lemma_index_of_key_bound(b, a[q2 as int].key_id);
    }
    assert forall|j: usize| #[trigger] xs.map(f).contains(j) <==> ys.contains(j) by {
        if xs.map(f).contains(j) {
            let q = choose|q: usize| xs.contains(q) && f(q) == j;
            lemma_index_of_key_bound(b, a[q as int].key_id);
        }
        if ys.contains(j) {
            lemma_index_of_key_bound(a, b[j as int].key_id);
            let q = (index_of_key(a, b[j as int].key_id)->0) as usize;
            assert(xs.contains(q));
            assert(f(q) == j);
        }
    }
    assert(xs.map(f) =~= ys);
    vstd::set_lib::lemma_map_size(xs, ys, f);
}

/// The number of keys that two layouts place differently does not depend
/// on the order of the two layouts.
pub proof fn lemma_differences_symmetric(a: Seq<KeyPlacement>, b: Seq<KeyPlacement>)
    requires
        a.len() <= usize::MAX,
        b.len() <= usize::MAX,
    ensures
        spec_placement_differences(a, b) == spec_placement_differences(b, a),
{
    lemma_indices_where_split(
        a.len(),
        |q: int| moved_or_dropped(a, b, q),
        |q: int| moved(a, b, q),
        |q: int| only_in_second(b, a, q),
    );
    lemma_indices_where_split(
        b.len(),
        |q: int| moved_or_dropped(b, a, q),
        |q: int| moved(b, a, q),
        |q: int| only_in_second(a, b, q),
    );
    lemma_moved_counts_agree(a, b);
}

/// A layout differs from itself in no key.
pub proof fn lemma_no_differences_with_itself(a: Seq<KeyPlacement>)
    ensures
        spec_placement_differences(a, a) == 0,
{
    assert forall|q: int| 0 <= q < a.len() implies !moved_or_dropped(a, a, q) by {}
    assert forall|q: int| 0 <= q < a.len() implies !only_in_second(a, a, q) by {}
    lemma_indices_where_none(a.len(), |q: int| moved_or_dropped(a, a, q));
    lemma_indices_where_none(a.len(), |q: int| only_in_second(a, a, q));
}

} // verus!
