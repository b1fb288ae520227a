//! Placements of the arrow cluster: four 1u keys in one row, or three in a
//! row with the up key above the middle one.
use crate::constants::U2CELL;
use crate::geometry::{Cell, Geometry};
use crate::keys::ArrowKey;
use vstd::prelude::*;

verus! {

/// Where the arrow cluster stands: its row `r` and first column `i`.
#[derive(Debug, Clone, Copy, PartialEq, Eq, Structural)]
pub enum ArrowPlacement {
    /// Left, down, up and right side by side in row `r` from column `i` on.
    Horizontal { r: usize, i: usize },
    /// Left, down and right in row `r` from column `i` on, up above down.
    TShape { r: usize, i: usize },
}

/// The row of the cluster.
pub open spec fn placement_row(p: ArrowPlacement) -> int {
    match p {
        ArrowPlacement::Horizontal { r, .. } => r as int,
        ArrowPlacement::TShape { r, .. } => r as int,
    }
}

/// The first column of the cluster.
pub open spec fn placement_col(p: ArrowPlacement) -> int {
    match p {
        ArrowPlacement::Horizontal { i, .. } => i as int,
        ArrowPlacement::TShape { i, .. } => i as int,
    }
}

/// Whether the numbers of the cluster stay far from the end of `usize`.
pub open spec fn placement_in_range(p: ArrowPlacement) -> bool {
    placement_row(p) + 1 <= usize::MAX && placement_col(p) + 4 * U2CELL <= usize::MAX
}

/// Whether the row and columns of the four arrow keys of the cluster fit
/// in `usize`.
pub open spec fn positions_in_range(p: ArrowPlacement) -> bool {
    match p {
        ArrowPlacement::Horizontal { i, .. } => i + 3 * U2CELL <= usize::MAX,
        ArrowPlacement::TShape { r, i } => r + 1 <= usize::MAX && i + 2 * U2CELL <= usize::MAX,
    }
}

/// Each arrow key with the row and first column of its 1u key.
pub open spec fn spec_arrow_positions(p: ArrowPlacement) -> Seq<(ArrowKey, usize, usize)> {
    match p {
        ArrowPlacement::Horizontal { r, i } => seq![
            (ArrowKey::Left, r, i),
            (ArrowKey::Down, r, (i + U2CELL) as usize),
            (ArrowKey::Up, r, (i + 2 * U2CELL) as usize),
            (ArrowKey::Right, r, (i + 3 * U2CELL) as usize),
        ],
        ArrowPlacement::TShape { r, i } => seq![
            (ArrowKey::Left, r, i),
            (ArrowKey::Down, r, (i + U2CELL) as usize),
            (ArrowKey::Right, r, (i + 2 * U2CELL) as usize),
            (ArrowKey::Up, (r + 1) as usize, (i + U2CELL) as usize),
        ],
    }
}

/// The cells that the cluster covers, row by row, left to right.
pub open spec fn spec_occupied_cells(p: ArrowPlacement) -> Seq<(usize, usize)> {
    match p {
        ArrowPlacement::Horizontal { r, i } => Seq::new(
            4 * U2CELL as nat,
            |j: int| (r, (i + j) as usize),
        ),
        ArrowPlacement::TShape { r, i } => Seq::new(3 * U2CELL as nat, |j: int| (r, (i + j) as usize))
            + Seq::new(U2CELL as nat, |j: int| ((r + 1) as usize, (i + U2CELL + j) as usize)),
    }
}

impl ArrowPlacement {
    /// Each arrow key with the row and first column of its 1u key: left,
    /// down, up, right side by side, or left, down, right with up above
    /// down.
    pub fn get_arrow_positions(&self) -> (v: Vec<(ArrowKey, usize, usize)>)
        requires
            positions_in_range(*self),
        ensures
            v@ == spec_arrow_positions(*self),
            v@.len() == 4,
            forall|a: ArrowKey| #[trigger] lists_arrow(v@, a),
            forall|k: int, l: int| 0 <= k < l < 4 ==> (#[trigger] v@[k]).0 != (#[trigger] v@[l]).0,
    {
        let v = match *self {
            ArrowPlacement::Horizontal { r, i } => vec![
                (ArrowKey::Left, r, i),
                (ArrowKey::Down, r, i + U2CELL),
                (ArrowKey::Up, r, i + 2 * U2CELL),
                (ArrowKey::Right, r, i + 3 * U2CELL),
            ],
            ArrowPlacement::TShape { r, i } => vec![
                (ArrowKey::Left, r, i),
                (ArrowKey::Down, r, i + U2CELL),
                (ArrowKey::Right, r, i + 2 * U2CELL),
                (ArrowKey::Up, r + 1, i + U2CELL),
            ],
        };
        assert(v@ =~= spec_arrow_positions(*self));
        assert forall|a: ArrowKey| #[trigger] lists_arrow(v@, a) by {
            match a {
                ArrowKey::Left => assert(v@[0].0 == a),
                ArrowKey::Down => assert(v@[1].0 == a),
                ArrowKey::Up => assert(v@[2].0 == a || v@[3].0 == a),
                ArrowKey::Right => assert(v@[2].0 == a || v@[3].0 == a),
            }
        }
        v
    }

    /// The cells (row, column) that the cluster covers.
    pub fn get_occupied_cells(&self) -> (v: Vec<(usize, usize)>)
        requires
            placement_in_range(*self),
        ensures
            v@ == spec_occupied_cells(*self),
    {
        let mut cells: Vec<(usize, usize)> = Vec::new();
        match *self {
            ArrowPlacement::Horizontal { r, i } => {
                let mut j = i;
                while j < i + 4 * U2CELL
                    invariant
                        i <= j <= i + 4 * U2CELL,
                        i + 4 * U2CELL <= usize::MAX,
                        cells@ =~= Seq::new((j - i) as nat, |k: int| (r, (i + k) as usize)),
                    decreases i + 4 * U2CELL - j,
                {
                    cells.push((r, j));
                    j = j + 1;
                }
            },
            ArrowPlacement::TShape { r, i } => {
                let mut j = i;
                while j < i + 3 * U2CELL
                    invariant
                        i <= j <= i + 3 * U2CELL,
                        i + 4 * U2CELL <= usize::MAX,
                        cells@ =~= Seq::new((j - i) as nat, |k: int| (r, (i + k) as usize)),
                    decreases i + 3 * U2CELL - j,
                {
                    cells.push((r, j));
                    j = j + 1;
                }
                let ghost bottom = cells@;
                let mut j = i + U2CELL;
                while j < i + 2 * U2CELL
                    invariant
                        i + U2CELL <= j <= i + 2 * U2CELL,
                        i + 4 * U2CELL <= usize::MAX,
                        r + 1 <= usize::MAX,
                        cells@ =~= bottom + Seq::new(
                            (j - i - U2CELL) as nat,
                            |k: int| ((r + 1) as usize, (i + U2CELL + k) as usize),
                        ),
                    decreases i + 2 * U2CELL - j,
                {
                    cells.push((r + 1, j));
                    j = j + 1;
                }
            },
        }
        cells
    }
}

/// Whether the cells `from..to` of row `r` exist and are free.
pub open spec fn span_is_free(cells: Seq<Vec<Cell>>, r: int, from: int, to: int) -> bool {
    &&& 0 <= r < cells.len()
    &&& 0 <= from <= to <= cells[r]@.len()
    &&& forall|j: int| from <= j < to ==> !(#[trigger] cells[r]@[j]).occupied
}

/// Whether the row cluster fits at row `r`, column `i`: 16 free cells.
pub open spec fn horizontal_fits(cells: Seq<Vec<Cell>>, r: int, i: int) -> bool {
    span_is_free(cells, r, i, i + 4 * U2CELL)
}

/// Whether the T cluster fits at row `r`, column `i`: 12 free cells in
/// row `r` and the 4 free cells above the middle ones.
pub open spec fn t_shape_fits(cells: Seq<Vec<Cell>>, r: int, i: int) -> bool {
    &&& span_is_free(cells, r, i, i + 3 * U2CELL)
    &&& span_is_free(cells, r + 1, i + U2CELL, i + 2 * U2CELL)
}

/// Whether the (row, column) pair `a` comes before `b` row by row.
pub open spec fn row_major_before(a: (int, int), b: (int, int)) -> bool {
    a.0 < b.0 || (a.0 == b.0 && a.1 < b.1)
}

/// Whether `v` lists, row by row and left to right, exactly the
/// placements of one kind (`horizontal` or not) that `fits` accepts.
pub open spec fn lists_exactly(
    v: Seq<ArrowPlacement>,
    horizontal: bool,
    fits: spec_fn(int, int) -> bool,
) -> bool {
    &&& forall|k: int|
        0 <= k < v.len() ==> (#[trigger] v[k] is Horizontal) == horizontal && fits(
            placement_row(v[k]),
            placement_col(v[k]),
        )
    &&& forall|k: int, l: int|
        0 <= k < l < v.len() ==> row_major_before(
            (placement_row(#[trigger] v[k]), placement_col(v[k])),
            (placement_row(#[trigger] v[l]), placement_col(v[l])),
        )
    &&& forall|r: int, i: int|
        #[trigger] fits(r, i) ==> exists|k: int|
            0 <= k < v.len() && placement_row(#[trigger] v[k]) == r && placement_col(v[k]) == i
}

/// Whether the cells `from..to` of `row` are free.
fn span_free(row: &Vec<Cell>, from: usize, to: usize) -> (b: bool)
    requires
        from <= to <= row@.len(),
    ensures
        b == forall|j: int| from <= j < to ==> !(#[trigger] row@[j]).occupied,
{
    let mut j = from;
    while j < to
        invariant
            from <= j <= to <= row@.len(),
            forall|x: int| from <= x < j ==> !(#[trigger] row@[x]).occupied,
        decreases to - j,
    {
        if row[j].occupied {
            return false;
        }
        j = j + 1;
    }
    true
}

/// All places of the row cluster, row by row and left to right: every row
/// and column where 16 cells in a row are free.
pub fn generate_horizontal_candidates(geom: &Geometry) -> (v: Vec<ArrowPlacement>)
    ensures
        lists_exactly(v@, true, |r: int, i: int| horizontal_fits(geom.cells@, r, i)),
        forall|r: int, i: int|
            #[trigger] horizontal_fits(geom.cells@, r, i) ==> exists|k: int|
                0 <= k < v@.len() && placement_row(#[trigger] v@[k]) == r && placement_col(v@[k]) == i,
{
    let ghost cells = geom.cells@;
    let ghost fits = |r: int, i: int| horizontal_fits(cells, r, i);
    let mut v: Vec<ArrowPlacement> = Vec::new();
    let mut r: usize = 0;
    while r < geom.cells.len()
        invariant
            cells == geom.cells@,
            fits == (|r: int, i: int| horizontal_fits(cells, r, i)),
            r <= cells.len(),
            forall|k: int|
                0 <= k < v@.len() ==> (#[trigger] v@[k] is Horizontal) && fits(
                    placement_row(v@[k]),
                    placement_col(v@[k]),
                ) && placement_row(v@[k]) < r,
            forall|k: int, l: int|
                0 <= k < l < v@.len() ==> row_major_before(
                    (placement_row(#[trigger] v@[k]), placement_col(v@[k])),
                    (placement_row(#[trigger] v@[l]), placement_col(v@[l])),
                ),
            forall|q: int, i: int|
                q < r && #[trigger] fits(q, i) ==> exists|k: int|
                    0 <= k < v@.len() && placement_row(#[trigger] v@[k]) == q && placement_col(v@[k])
                        == i,
        decreases cells.len() - r,
    {
        let row_len = geom.cells[r].len();
        if row_len >= 4 * U2CELL {
            let mut i: usize = 0;
            while i <= row_len - 4 * U2CELL
                invariant
                    cells == geom.cells@,
                    fits == (|r: int, i: int| horizontal_fits(cells, r, i)),
                    r < cells.len(),
                    row_len == cells[r as int]@.len(),
                    row_len >= 4 * U2CELL,
                    i <= row_len - 4 * U2CELL + 1,
                    forall|k: int|
                        0 <= k < v@.len() ==> (#[trigger] v@[k] is Horizontal) && fits(
                            placement_row(v@[k]),
                            placement_col(v@[k]),
                        ) && (placement_row(v@[k]) < r || (placement_row(v@[k]) == r
                            && placement_col(v@[k]) < i)),
                    forall|k: int, l: int|
                        0 <= k < l < v@.len() ==> row_major_before(
                            (placement_row(#[trigger] v@[k]), placement_col(v@[k])),
                            (placement_row(#[trigger] v@[l]), placement_col(v@[l])),
                        ),
                    forall|q: int, x: int|
                        (q < r || (q == r && x < i)) && #[trigger] fits(q, x) ==> exists|k: int|
                            0 <= k < v@.len() && placement_row(#[trigger] v@[k]) == q
                                && placement_col(v@[k]) == x,
                decreases row_len - 4 * U2CELL + 1 - i,
            {
                let free = span_free(&geom.cells[r], i, i + 4 * U2CELL);
                proof {
                    assert(free == fits(r as int, i as int));
                }
                if free {
                    let ghost before = v@;
                    v.push(ArrowPlacement::Horizontal { r, i });
                    proof {
                        let n = before.len() as int;
                        assert(placement_row(v@[n]) == r && placement_col(v@[n]) == i);
                        assert forall|q: int, x: int|
                            (q < r || (q == r && x < i + 1)) && #[trigger] fits(q, x) implies exists|k: int|
                                0 <= k < v@.len() && placement_row(#[trigger] v@[k]) == q
                                    && placement_col(v@[k]) == x by {
                            if q == r && x == i {
                                assert(placement_row(v@[n]) == q);
                            } else {
                                let k = choose|k: int|
                                    0 <= k < before.len() && placement_row(#[trigger] before[k]) == q
                                        && placement_col(before[k]) == x;
                                assert(v@[k] == before[k]);
                            }
                        }
                    }
                }
                i = i + 1;
            }
        }
        proof {
            assert forall|q: int, x: int|
                q < r + 1 && #[trigger] fits(q, x) implies exists|k: int|
                    0 <= k < v@.len() && placement_row(#[trigger] v@[k]) == q && placement_col(v@[k]) == x by {
                if q == r {
                    assert(horizontal_fits(cells, q, x));
                }
            }
        }
        r = r + 1;
    }
    proof {
        assert forall|q: int, x: int| #[trigger] horizontal_fits(geom.cells@, q, x) implies exists|k: int|
            0 <= k < v@.len() && placement_row(#[trigger] v@[k]) == q && placement_col(v@[k]) == x by {
            assert(fits(q, x));
        }
    }
    v
}

/// All places of the T cluster, row by row and left to right: every row
/// (with a row above it) and column where 12 cells in a row and the 4
/// cells above the middle ones are free.
pub fn generate_t_shape_candidates(geom: &Geometry) -> (v: Vec<ArrowPlacement>)
    ensures
        lists_exactly(v@, false, |r: int, i: int| t_shape_fits(geom.cells@, r, i)),
        forall|r: int, i: int|
            #[trigger] t_shape_fits(geom.cells@, r, i) ==> exists|k: int|
                0 <= k < v@.len() && placement_row(#[trigger] v@[k]) == r && placement_col(v@[k]) == i,
{
    let ghost cells = geom.cells@;
    let ghost fits = |r: int, i: int| t_shape_fits(cells, r, i);
    let mut v: Vec<ArrowPlacement> = Vec::new();
    let mut r: usize = 0;
    while r < geom.cells.len()
        invariant
            cells == geom.cells@,
            fits == (|r: int, i: int| t_shape_fits(cells, r, i)),
            r <= cells.len(),
            forall|k: int|
                0 <= k < v@.len() ==> (#[trigger] v@[k] is TShape) && fits(
                    placement_row(v@[k]),
                    placement_col(v@[k]),
                ) && placement_row(v@[k]) < r,
            forall|k: int, l: int|
                0 <= k < l < v@.len() ==> row_major_before(
                    (placement_row(#[trigger] v@[k]), placement_col(v@[k])),
                    (placement_row(#[trigger] v@[l]), placement_col(v@[l])),
                ),
            forall|q: int, i: int|
                q < r && #[trigger] fits(q, i) ==> exists|k: int|
                    0 <= k < v@.len() && placement_row(#[trigger] v@[k]) == q && placement_col(v@[k])
                        == i,
        decreases cells.len() - r,
    {
        if r + 1 < geom.cells.len() {
            let r1 = r + 1;
            let bottom_len = geom.cells[r].len();
            let top_len = geom.cells[r1].len();
            if bottom_len >= 3 * U2CELL && top_len >= 2 * U2CELL {
                let a = bottom_len - 3 * U2CELL;
                let b = top_len - 2 * U2CELL;
                let max_i = if a < b {
                    a
                } else {
                    b
                };
                let mut i: usize = 0;
                while i <= max_i
                    invariant
                        cells == geom.cells@,
                        fits == (|r: int, i: int| t_shape_fits(cells, r, i)),
                        r + 1 < cells.len(),
                        r1 == r + 1,
                        bottom_len == cells[r as int]@.len(),
                        top_len == cells[r + 1]@.len(),
                        max_i + 3 * U2CELL <= bottom_len,
                        max_i + 2 * U2CELL <= top_len,
                        max_i + 3 * U2CELL == bottom_len || max_i + 2 * U2CELL == top_len,
                            i <= max_i + 1,
                        forall|k: int|
                            0 <= k < v@.len() ==> (#[trigger] v@[k] is TShape) && fits(
                                placement_row(v@[k]),
                                placement_col(v@[k]),
                            ) && (placement_row(v@[k]) < r || (placement_row(v@[k]) == r
                                && placement_col(v@[k]) < i)),
                        forall|k: int, l: int|
                            0 <= k < l < v@.len() ==> row_major_before(
                                (placement_row(#[trigger] v@[k]), placement_col(v@[k])),
                                (placement_row(#[trigger] v@[l]), placement_col(v@[l])),
                            ),
                        forall|q: int, x: int|
                            (q < r || (q == r && x < i)) && #[trigger] fits(q, x) ==> exists|k: int|
                                0 <= k < v@.len() && placement_row(#[trigger] v@[k]) == q
                                    && placement_col(v@[k]) == x,
                    decreases max_i + 1 - i,
                {
                    let bottom_free = span_free(&geom.cells[r], i, i + 3 * U2CELL);
                    let top_free = span_free(&geom.cells[r1], i + U2CELL, i + 2 * U2CELL);
                    proof {
                        assert((bottom_free && top_free) == fits(r as int, i as int));
                    }
                    if bottom_free && top_free {
                        let ghost before = v@;
                        v.push(ArrowPlacement::TShape { r, i });
                        proof {
                            let n = before.len() as int;
                            assert(placement_row(v@[n]) == r && placement_col(v@[n]) == i);
                            assert forall|q: int, x: int|
                                (q < r || (q == r && x < i + 1)) && #[trigger] fits(q, x) implies exists|
                                k: int,
                            |
                                0 <= k < v@.len() && placement_row(#[trigger] v@[k]) == q
                                    && placement_col(v@[k]) == x by {
                                if q == r && x == i {
                                    assert(placement_row(v@[n]) == q);
                                } else {
                                    let k = choose|k: int|
                                        0 <= k < before.len() && placement_row(#[trigger] before[k])
                                            == q && placement_col(before[k]) == x;
                                    assert(v@[k] == before[k]);
                                }
                            }
                        }
                    }
                    i = i + 1;
                }
            }
        }
        proof {
            assert forall|q: int, x: int|
                q < r + 1 && #[trigger] fits(q, x) implies exists|k: int|
                    0 <= k < v@.len() && placement_row(#[trigger] v@[k]) == q && placement_col(v@[k]) == x by {
                if q == r {
                    assert(t_shape_fits(cells, q, x));
                }
            }
        }
        r = r + 1;
    }
    proof {
        assert forall|q: int, x: int| #[trigger] t_shape_fits(geom.cells@, q, x) implies exists|k: int|
            0 <= k < v@.len() && placement_row(#[trigger] v@[k]) == q && placement_col(v@[k]) == x by {
            assert(fits(q, x));
        }
    }
    v
}

/// Whether the cell at `row`, `col` lies under one of the 1u keys `keys`.
pub open spec fn under_keys(keys: Seq<(ArrowKey, usize, usize)>, row: int, col: int) -> bool {
    exists|k: int|
        0 <= k < keys.len() && #[trigger] keys[k].1 == row && keys[k].2 <= col < keys[k].2 + U2CELL
}

/// Whether the arrow `a` is one of the keys `keys`.
pub open spec fn lists_arrow(keys: Seq<(ArrowKey, usize, usize)>, a: ArrowKey) -> bool {
    exists|k: int| 0 <= k < keys.len() && (#[trigger] keys[k]).0 == a
}

/// The cells that a cluster covers are exactly the cells under its four
/// arrow keys, and the four keys are left, down, up and right, each once.
pub proof fn lemma_arrow_keys_cover_cluster(p: ArrowPlacement, row: int, col: int)
    requires
        placement_in_range(p),
    ensures
        spec_occupied_cells(p).contains((row as usize, col as usize)) && 0 <= row <= usize::MAX && 0
            <= col <= usize::MAX <==> under_keys(spec_arrow_positions(p), row, col),
        spec_arrow_positions(p).len() == 4,
        forall|a: ArrowKey| #[trigger] lists_arrow(spec_arrow_positions(p), a),
        forall|k: int, l: int|
            0 <= k < l < 4 ==> (#[trigger] spec_arrow_positions(p)[k]).0 != (#[trigger] spec_arrow_positions(p)[l]).0,
{
    let keys = spec_arrow_positions(p);
    let cells = spec_occupied_cells(p);
    assert forall|a: ArrowKey| #[trigger] lists_arrow(spec_arrow_positions(p), a) by {
        match p {
            ArrowPlacement::Horizontal { .. } => match a {
                ArrowKey::Left => assert(keys[0].0 == a),
                ArrowKey::Down => assert(keys[1].0 == a),
                ArrowKey::Up => assert(keys[2].0 == a),
                ArrowKey::Right => assert(keys[3].0 == a),
            },
            ArrowPlacement::TShape { .. } => match a {
                ArrowKey::Left => assert(keys[0].0 == a),
                ArrowKey::Down => assert(keys[1].0 == a),
                ArrowKey::Right => assert(keys[2].0 == a),
                ArrowKey::Up => assert(keys[3].0 == a),
            },
        }
    }
    if cells.contains((row as usize, col as usize)) && 0 <= row <= usize::MAX && 0 <= col <= usize::MAX {
        let j = choose|j: int| 0 <= j < cells.len() && cells[j] == (row as usize, col as usize);
        match p {
            ArrowPlacement::Horizontal { r, i } => {
                let k = j / 4;
                assert(keys[k].1 == row && keys[k].2 <= col < keys[k].2 + U2CELL);
            },
            ArrowPlacement::TShape { r, i } => {
                if j < 12 {
                    let k = j / 4;
                    assert(keys[k].1 == row && keys[k].2 <= col < keys[k].2 + U2CELL);
                } else {
                    assert(keys[3].1 == row && keys[3].2 <= col < keys[3].2 + U2CELL);
                }
            },
        }
    }
    if under_keys(keys, row, col) {
        let k = choose|k: int|
            0 <= k < keys.len() && #[trigger] keys[k].1 == row && keys[k].2 <= col < keys[k].2 + U2CELL;
        match p {
            ArrowPlacement::Horizontal { r, i } => {
                let j = col - i;
                assert(cells[j] == (row as usize, col as usize));
            },
            ArrowPlacement::TShape { r, i } => {
                if k < 3 {
                    let j = col - i;
                    assert(cells[j] == (row as usize, col as usize));
                } else {
                    let j = 12 + col - i - 4;
                    assert(cells[j] == (row as usize, col as usize));
                }
            },
        }
    }
}

/// A cluster that fits covers only cells of the grid that are free.
pub proof fn lemma_fitting_cluster_is_free(cells: Seq<Vec<Cell>>, p: ArrowPlacement)
    requires
        placement_in_range(p),
        p is Horizontal ==> horizontal_fits(cells, placement_row(p), placement_col(p)),
        p is TShape ==> t_shape_fits(cells, placement_row(p), placement_col(p)),
    ensures
        forall|k: int|
            0 <= k < spec_occupied_cells(p).len() ==> {
                let c = #[trigger] spec_occupied_cells(p)[k];
                &&& c.0 < cells.len()
                &&& c.1 < cells[c.0 as int]@.len()
                &&& !cells[c.0 as int]@[c.1 as int].occupied
            },
{
    assert forall|k: int| 0 <= k < spec_occupied_cells(p).len() implies {
        let c = #[trigger] spec_occupied_cells(p)[k];
        &&& c.0 < cells.len()
        &&& c.1 < cells[c.0 as int]@.len()
        &&& !cells[c.0 as int]@[c.1 as int].occupied
    } by {
        match p {
            ArrowPlacement::Horizontal { r, i } => {
                assert(spec_occupied_cells(p)[k] == (r, (i + k) as usize));
                assert(!cells[r as int]@[i + k].occupied);
            },
            ArrowPlacement::TShape { r, i } => {
                if k < 12 {
                    assert(spec_occupied_cells(p)[k] == (r, (i + k) as usize));
                    assert(!cells[r as int]@[i + k].occupied);
                } else {
                    assert(spec_occupied_cells(p)[k] == ((r + 1) as usize, (i + U2CELL + k - 12) as usize));
                    assert(!cells[r + 1]@[i + U2CELL + k - 12].occupied);
                }
            },
        }
    }
}

} // verus!
