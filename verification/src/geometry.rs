//! The key grid of a keyboard: rows of quarter-unit cells, the finger that
//! serves each cell, the reserved letter blocks and the home positions.
use crate::config::{is_geometry_name, Config};
use crate::constants::{COLUMN_STAGGER, MAX_COL_CELLS, MIDDLE_CELL, MIN_ROW, ORTHO, ROW_STAGGER, U2CELL};
use crate::error::KbOptError;
use crate::keys::{spec_str_to_keyid, str_to_keyid, KeyId};
use crate::stats::names_view;
use crate::text::{concat3, str_eq};
use vstd::prelude::*;

verus! {

/// The kind of key grid.
#[derive(Debug, Clone, Copy, PartialEq, Eq, Hash, Structural)]
pub enum GeometryName {
    RowStagger,
    Ortho,
}

/// The fingers, from the left little finger to the right one.
#[derive(Debug, Clone, Copy, PartialEq, Eq, Hash, Structural)]
pub enum Finger {
    LPinky,
    LRing,
    LMiddle,
    LIndex,
    LThumb,
    RThumb,
    RIndex,
    RMiddle,
    RRing,
    RPinky,
}

/// A cell of the grid: the row (in key units, counted from the bottom) and
/// the column (in quarter units, counted from the left).
#[derive(Debug, Clone, Copy, PartialEq, Eq, Hash, Structural)]
pub struct CellId {
    pub row: usize,
    pub col: usize,
}

impl CellId {
    /// The cell at `row`, `col`.
    pub fn new(row: usize, col: usize) -> (r: Self)
        ensures
            r.row == row,
            r.col == col,
    {
        CellId { row, col }
    }
}

/// A cell with the finger that serves it and whether a key covers it.
#[derive(Debug, Clone, Copy, PartialEq, Eq, Structural)]
pub struct Cell {
    pub id: CellId,
    pub finger: Finger,
    pub occupied: bool,
}

/// How a key came to its place.
#[derive(Debug, Clone, Copy, PartialEq, Eq, Structural)]
pub enum PlacementType {
    /// A letter (or digit) block that stays where it is.
    Fixed,
    /// A key placed by the optimizer.
    Optimized,
    /// An arrow key of the arrow cluster.
    Arrow,
    /// A digit key of the digit cluster.
    Digit,
}

/// A key on the grid: it covers `width_cells` cells of row `row` from
/// column `col` on. Its centre lies `(col + width_cells / 2)` quarter units
/// from the left edge and half a unit above the bottom of its row.
#[derive(Debug, Clone, Copy, PartialEq, Eq, Structural)]
pub struct KeyPlacement {
    pub placement_type: PlacementType,
    pub key_id: Option<KeyId>,
    pub row: usize,
    pub col: usize,
    pub width_cells: usize,
    /// 0 for the base layer, more for a layer behind a modifier.
    pub layer: u8,
}

/// The grid with its reserved keys and the home cell of each finger.
#[derive(Debug, Clone)]
pub struct Geometry {
    pub name: GeometryName,
    /// `cells[row][col]`.
    pub cells: Vec<Vec<Cell>>,
    /// The cell of the 1u key on which each finger rests.
    pub homes: Vec<(Finger, CellId)>,
    /// The keys placed so far.
    pub key_placements: Vec<KeyPlacement>,
    /// The number of layers (1 without layers).
    pub max_layers: usize,
}

/// The name of a finger.
pub open spec fn finger_name(f: Finger) -> Seq<char> {
    match f {
        Finger::LThumb => "LThumb"@,
        Finger::LIndex => "LIndex"@,
        Finger::LMiddle => "LMiddle"@,
        Finger::LRing => "LRing"@,
        Finger::LPinky => "LPinky"@,
        Finger::RThumb => "RThumb"@,
        Finger::RIndex => "RIndex"@,
        Finger::RMiddle => "RMiddle"@,
        Finger::RRing => "RRing"@,
        Finger::RPinky => "RPinky"@,
    }
}

/// The finger that the name `s` names, if any.
pub open spec fn spec_finger_from_string(s: Seq<char>) -> Option<Finger> {
    if s == finger_name(Finger::LThumb) {
        Some(Finger::LThumb)
    } else if s == finger_name(Finger::LIndex) {
        Some(Finger::LIndex)
    } else if s == finger_name(Finger::LMiddle) {
        Some(Finger::LMiddle)
    } else if s == finger_name(Finger::LRing) {
        Some(Finger::LRing)
    } else if s == finger_name(Finger::LPinky) {
        Some(Finger::LPinky)
    } else if s == finger_name(Finger::RThumb) {
        Some(Finger::RThumb)
    } else if s == finger_name(Finger::RIndex) {
        Some(Finger::RIndex)
    } else if s == finger_name(Finger::RMiddle) {
        Some(Finger::RMiddle)
    } else if s == finger_name(Finger::RRing) {
        Some(Finger::RRing)
    } else if s == finger_name(Finger::RPinky) {
        Some(Finger::RPinky)
    } else {
        None
    }
}

/// The finger named `s` (`"LThumb"`, `"RPinky"`, ...), if any.
pub fn finger_from_string(s: &str) -> (r: Option<Finger>)
    ensures
        r == spec_finger_from_string(s@),
{
    if str_eq(s, "LThumb") {
        Some(Finger::LThumb)
    } else if str_eq(s, "LIndex") {
        Some(Finger::LIndex)
    } else if str_eq(s, "LMiddle") {
        Some(Finger::LMiddle)
    } else if str_eq(s, "LRing") {
        Some(Finger::LRing)
    } else if str_eq(s, "LPinky") {
        Some(Finger::LPinky)
    } else if str_eq(s, "RThumb") {
        Some(Finger::RThumb)
    } else if str_eq(s, "RIndex") {
        Some(Finger::RIndex)
    } else if str_eq(s, "RMiddle") {
        Some(Finger::RMiddle)
    } else if str_eq(s, "RRing") {
        Some(Finger::RRing)
    } else if str_eq(s, "RPinky") {
        Some(Finger::RPinky)
    } else {
        None
    }
}

/// The name of `finger`.
pub fn finger_to_string(finger: &Finger) -> (r: &'static str)
    ensures
        r@ == finger_name(*finger),
{
    match finger {
        Finger::LThumb => "LThumb",
        Finger::LIndex => "LIndex",
        Finger::LMiddle => "LMiddle",
        Finger::LRing => "LRing",
        Finger::LPinky => "LPinky",
        Finger::RThumb => "RThumb",
        Finger::RIndex => "RIndex",
        Finger::RMiddle => "RMiddle",
        Finger::RRing => "RRing",
        Finger::RPinky => "RPinky",
    }
}

/// The first two characters of the names tell the fingers apart.
proof fn lemma_finger_names_differ(a: Finger, b: Finger)
    requires
        a != b,
    ensures
        finger_name(a) != finger_name(b),
{
    reveal_strlit("LThumb");
    reveal_strlit("LIndex");
    reveal_strlit("LMiddle");
    reveal_strlit("LRing");
    reveal_strlit("LPinky");
    reveal_strlit("RThumb");
    reveal_strlit("RIndex");
    reveal_strlit("RMiddle");
    reveal_strlit("RRing");
    reveal_strlit("RPinky");
    assert(finger_name(a)[0] != finger_name(b)[0] || finger_name(a)[1] != finger_name(b)[1]);
}

/// Reading the name of a finger gives the finger back, and a name that is
/// read as a finger is that finger's name.
pub proof fn lemma_finger_name_round_trip(f: Finger, s: Seq<char>)
    ensures
        spec_finger_from_string(finger_name(f)) == Some(f),
        spec_finger_from_string(s) == Some(f) ==> s == finger_name(f),
{
    if f != Finger::LThumb {
        lemma_finger_names_differ(f, Finger::LThumb);
    }
    if f != Finger::LIndex {
        lemma_finger_names_differ(f, Finger::LIndex);
    }
    if f != Finger::LMiddle {
        lemma_finger_names_differ(f, Finger::LMiddle);
    }
    if f != Finger::LRing {
        lemma_finger_names_differ(f, Finger::LRing);
    }
    if f != Finger::LPinky {
        lemma_finger_names_differ(f, Finger::LPinky);
    }
    if f != Finger::RThumb {
        lemma_finger_names_differ(f, Finger::RThumb);
    }
    if f != Finger::RIndex {
        lemma_finger_names_differ(f, Finger::RIndex);
    }
    if f != Finger::RMiddle {
        lemma_finger_names_differ(f, Finger::RMiddle);
    }
    if f != Finger::RRing {
        lemma_finger_names_differ(f, Finger::RRing);
    }
}

/// The finger (other than a thumb) that serves column `x`: the columns are
/// split at 16, 12, 8 and 0 cells left of the middle and 8, 12 and 16 cells
/// right of it.
pub open spec fn spec_finger_from_x(x: int) -> Finger {
    if x < MIDDLE_CELL - 16 {
        Finger::LPinky
    } else if x < MIDDLE_CELL - 12 {
        Finger::LRing
    } else if x < MIDDLE_CELL - 8 {
        Finger::LMiddle
    } else if x < MIDDLE_CELL {
        Finger::LIndex
    } else if x < MIDDLE_CELL + 8 {
        Finger::RIndex
    } else if x < MIDDLE_CELL + 12 {
        Finger::RMiddle
    } else if x < MIDDLE_CELL + 16 {
        Finger::RRing
    } else {
        Finger::RPinky
    }
}

/// The finger (other than a thumb) that serves column `x`.
pub fn finger_from_x(x: usize) -> (r: Finger)
    ensures
        r == spec_finger_from_x(x as int),
{
    let boundaries: [usize; 7] = [
        MIDDLE_CELL - 16,
        MIDDLE_CELL - 12,
        MIDDLE_CELL - 8,
        MIDDLE_CELL,
        MIDDLE_CELL + 8,
        MIDDLE_CELL + 12,
        MIDDLE_CELL + 16,
    ];
    let fingers: [Finger; 8] = [
        Finger::LPinky,
        Finger::LRing,
        Finger::LMiddle,
        Finger::LIndex,
        Finger::RIndex,
        Finger::RMiddle,
        Finger::RRing,
        Finger::RPinky,
    ];
    // the number of boundaries at or left of x
    let mut index: usize = 0;
    while index < 7 && x >= boundaries[index]
        invariant
            index <= 7,
            forall|j: int| 0 <= j < index ==> x >= boundaries@[j],
        decreases 7 - index,
    {
        index = index + 1;
    }
    fingers[index]
}

/// The finger that serves the cell at `row`, `col`: in the bottom row the
/// thumbs serve all but the little finger columns.
pub open spec fn spec_cell_finger(row: int, col: int) -> Finger {
    let f = spec_finger_from_x(col);
    if row == 0 && f != Finger::LPinky && f != Finger::RPinky {
        if col < MAX_COL_CELLS / 2 {
            Finger::LThumb
        } else {
            Finger::RThumb
        }
    } else {
        f
    }
}

/// The finger that serves the cell at `row`, `col`.
fn cell_finger(row: usize, col: usize) -> (r: Finger)
    ensures
        r == spec_cell_finger(row as int, col as int),
{
    let f = finger_from_x(col);
    if row == 0 {
        match f {
            Finger::LPinky | Finger::RPinky => f,
            _ => {
                if col < MAX_COL_CELLS / 2 {
                    Finger::LThumb
                } else {
                    Finger::RThumb
                }
            },
        }
    } else {
        f
    }
}

/// A reserved block of 1u keys: its row, its first column and the names of
/// its keys from left to right.
pub open spec fn block_view(b: (usize, usize, Vec<&'static str>)) -> (int, int, Seq<Seq<char>>) {
    (b.0 as int, b.1 as int, names_view(b.2@))
}

/// The reserved blocks, each by its view.
pub open spec fn blocks_view(v: Seq<(usize, usize, Vec<&'static str>)>) -> Seq<(int, int, Seq<Seq<char>>)> {
    v.map_values(|b: (usize, usize, Vec<&'static str>)| block_view(b))
}

/// The bottom letter row.
pub open spec fn bottom_letters() -> Seq<Seq<char>> {
    seq!["Z"@, "X"@, "C"@, "V"@, "B"@, "N"@, "M"@]
}

/// The home letter row.
pub open spec fn home_letters() -> Seq<Seq<char>> {
    seq!["A"@, "S"@, "D"@, "F"@, "G"@, "H"@, "J"@, "K"@, "L"@]
}

/// The top letter row.
pub open spec fn top_letters() -> Seq<Seq<char>> {
    seq!["Q"@, "W"@, "E"@, "R"@, "T"@, "Y"@, "U"@, "I"@, "O"@, "P"@]
}

/// The number row.
pub open spec fn digit_names() -> Seq<Seq<char>> {
    seq!["1"@, "2"@, "3"@, "4"@, "5"@, "6"@, "7"@, "8"@, "9"@, "0"@]
}

/// The reserved blocks of the ortholinear grid: the three letter rows
/// from 20 cells left of the middle, and the number row above them when
/// the digits are not placed by the optimizer.
pub open spec fn ortho_blocks(include_digits: bool) -> Seq<(int, int, Seq<Seq<char>>)> {
    let letters = seq![
        (1int, MIDDLE_CELL - 20, bottom_letters()),
        (2int, MIDDLE_CELL - 20, home_letters()),
        (3int, MIDDLE_CELL - 20, top_letters()),
    ];
    if include_digits {
        letters
    } else {
        letters.push((4int, MIDDLE_CELL - 20, digit_names()))
    }
}

/// The reserved blocks of the row-staggered grid: the three letter rows,
/// shifted as on a common keyboard.
pub open spec fn row_stagger_blocks() -> Seq<(int, int, Seq<Seq<char>>)> {
    seq![(1int, 22int, bottom_letters()), (2int, 20int, home_letters()), (3int, 19int, top_letters())]
}

/// The reserved blocks of a grid.
pub open spec fn fixed_blocks(name: GeometryName, include_digits: bool) -> Seq<(int, int, Seq<Seq<char>>)> {
    match name {
        GeometryName::RowStagger => row_stagger_blocks(),
        GeometryName::Ortho => ortho_blocks(include_digits),
    }
}

/// Whether the block `b` covers the cell at `row`, `col`.
pub open spec fn block_covers(b: (int, int, Seq<Seq<char>>), row: int, col: int) -> bool {
    b.0 == row && b.1 <= col < b.1 + U2CELL * b.2.len()
}

/// Whether one of the blocks covers the cell at `row`, `col`.
pub open spec fn reserved(blocks: Seq<(int, int, Seq<Seq<char>>)>, row: int, col: int) -> bool {
    exists|i: int| 0 <= i < blocks.len() && #[trigger] block_covers(blocks[i], row, col)
}

/// The keys of the block `b`, 1u each, left to right.
pub open spec fn block_placements(b: (int, int, Seq<Seq<char>>)) -> Seq<KeyPlacement> {
    Seq::new(
        b.2.len(),
        |k: int|
            KeyPlacement {
                placement_type: PlacementType::Fixed,
                key_id: spec_str_to_keyid(b.2[k]),
                row: b.0 as usize,
                col: (b.1 + U2CELL * k) as usize,
                width_cells: U2CELL,
                layer: 0,
            },
    )
}

/// The keys of all the blocks, block after block.
pub open spec fn fixed_placements(blocks: Seq<(int, int, Seq<Seq<char>>)>) -> Seq<KeyPlacement>
    decreases blocks.len(),
{
    if blocks.len() == 0 {
        Seq::empty()
    } else {
        fixed_placements(blocks.drop_last()) + block_placements(blocks.last())
    }
}

/// The home cell of each finger on the ortholinear grid.
pub open spec fn ortho_homes() -> Seq<(Finger, CellId)> {
    seq![
        (Finger::LPinky, CellId { row: 2, col: 20 }),
        (Finger::LRing, CellId { row: 2, col: 24 }),
        (Finger::LMiddle, CellId { row: 2, col: 28 }),
        (Finger::LIndex, CellId { row: 2, col: 32 }),
        (Finger::LThumb, CellId { row: 0, col: 32 }),
        (Finger::RIndex, CellId { row: 2, col: 44 }),
        (Finger::RThumb, CellId { row: 0, col: 44 }),
        (Finger::RMiddle, CellId { row: 2, col: 48 }),
        (Finger::RRing, CellId { row: 2, col: 52 }),
        (Finger::RPinky, CellId { row: 2, col: 56 }),
    ]
}

/// The home cell of each finger on the row-staggered grid: the keys A S D F
/// and J K L ; of the home row, and the thumbs in the bottom row.
pub open spec fn row_stagger_homes() -> Seq<(Finger, CellId)> {
    seq![
        (Finger::LPinky, CellId { row: 2, col: 20 }),
        (Finger::LRing, CellId { row: 2, col: 24 }),
        (Finger::LMiddle, CellId { row: 2, col: 28 }),
        (Finger::LIndex, CellId { row: 2, col: 32 }),
        (Finger::LThumb, CellId { row: 0, col: 32 }),
        (Finger::RIndex, CellId { row: 2, col: 44 }),
        (Finger::RMiddle, CellId { row: 2, col: 48 }),
        (Finger::RRing, CellId { row: 2, col: 52 }),
        (Finger::RPinky, CellId { row: 2, col: 56 }),
        (Finger::RThumb, CellId { row: 0, col: 56 }),
    ]
}

/// Every finger's home is a cell that the finger serves, on every grid
/// that `Geometry::build` gives: the finger of the home cell is the
/// finger whose home it is. The one exception is the right thumb of the
/// row-staggered grid, whose home lies in the bottom-row column of the
/// right little finger.
pub proof fn lemma_homes_served_by_their_finger(geom: Geometry, blocks: Seq<(int, int, Seq<Seq<char>>)>)
    requires
        is_fresh_grid(geom.cells@, geom.cells@.len() as int, blocks),
        geom.cells@.len() >= 3,
        geom.homes@ == homes_of(geom.name),
    ensures
        forall|i: int|
            0 <= i < geom.homes@.len() ==> {
                let (f, c) = #[trigger] geom.homes@[i];
                ||| geom.name == GeometryName::RowStagger && f == Finger::RThumb
                ||| c.row < geom.cells@.len() && c.col < geom.cells@[c.row as int]@.len()
                    && geom.cells@[c.row as int]@[c.col as int].finger == f
            },
{
    let rows = geom.cells@.len() as int;
    assert forall|i: int| 0 <= i < geom.homes@.len() implies {
        let (f, c) = #[trigger] geom.homes@[i];
        ||| geom.name == GeometryName::RowStagger && f == Finger::RThumb
        ||| c.row < geom.cells@.len() && c.col < geom.cells@[c.row as int]@.len()
            && geom.cells@[c.row as int]@[c.col as int].finger == f
    } by {
        let (f, c) = geom.homes@[i];
        assert(c.row == 0 || c.row == 2);
        assert(geom.cells@[c.row as int]@.len() == MAX_COL_CELLS);
        assert(geom.cells@[c.row as int]@[c.col as int] == grid_cell(blocks, c.row as int, c.col as int));
    }
}

/// What every grid builder offers: the reserved blocks and the homes.
pub trait GeometryBuilder {
    /// The reserved blocks: row, first column, names of the 1u keys.
    fn get_fixed_key_positions(config: &Config) -> Vec<(usize, usize, Vec<&'static str>)>;

    /// The home cell of each finger.
    fn build_home_positions(config: &Config) -> Vec<(Finger, CellId)>;
}

/// Builder of the ortholinear grid.
pub struct OrthoBuilder;

/// Builder of the row-staggered grid.
pub struct RowStaggerBuilder;

/// Builder of the column-staggered grid (not available yet).
pub struct ColStaggerBuilder;

/// The names `Z X C V B N M`.
fn bottom_letter_names() -> (v: Vec<&'static str>)
    ensures
        names_view(v@) == bottom_letters(),
{
    let v = vec!["Z", "X", "C", "V", "B", "N", "M"];
    assert(names_view(v@) =~= bottom_letters());
    v
}

/// The names `A S D F G H J K L`.
fn home_letter_names() -> (v: Vec<&'static str>)
    ensures
        names_view(v@) == home_letters(),
{
    let v = vec!["A", "S", "D", "F", "G", "H", "J", "K", "L"];
    assert(names_view(v@) =~= home_letters());
    v
}

/// The names `Q W E R T Y U I O P`.
fn top_letter_names() -> (v: Vec<&'static str>)
    ensures
        names_view(v@) == top_letters(),
{
    let v = vec!["Q", "W", "E", "R", "T", "Y", "U", "I", "O", "P"];
    assert(names_view(v@) =~= top_letters());
    v
}

/// The names `1 2 3 4 5 6 7 8 9 0`.
fn digit_key_names() -> (v: Vec<&'static str>)
    ensures
        names_view(v@) == digit_names(),
{
    let v = vec!["1", "2", "3", "4", "5", "6", "7", "8", "9", "0"];
    assert(names_view(v@) =~= digit_names());
    v
}

/// The home cells, each from its offset to the middle and its row.
fn homes_from_offsets(data: &[(Finger, i32, usize)]) -> (v: Vec<(Finger, CellId)>)
    requires
        forall|i: int| 0 <= i < data@.len() ==> 0 <= MIDDLE_CELL + #[trigger] data@[i].1 < 1000,
    ensures
        v@.len() == data@.len(),
        forall|i: int|
            0 <= i < data@.len() ==> #[trigger] v@[i] == (
                data@[i].0,
                CellId { row: data@[i].2, col: (MIDDLE_CELL + data@[i].1) as usize },
            ),
{
    let mut v: Vec<(Finger, CellId)> = Vec::new();
    let mut i: usize = 0;
    while i < data.len()
        invariant
            i <= data@.len(),
            v@.len() == i,
            forall|i: int| 0 <= i < data@.len() ==> 0 <= MIDDLE_CELL + #[trigger] data@[i].1 < 1000,
            forall|j: int|
                0 <= j < i ==> #[trigger] v@[j] == (
                    data@[j].0,
                    CellId { row: data@[j].2, col: (MIDDLE_CELL + data@[j].1) as usize },
                ),
        decreases data@.len() - i,
    {
        let (finger, offset, row) = data[i];
        let cell: i32 = MIDDLE_CELL as i32 + offset;
        v.push((finger, CellId::new(row, cell as usize)));
        i = i + 1;
    }
    v
}

impl GeometryBuilder for OrthoBuilder {
    /// The three letter rows from 20 cells left of the middle, and the
    /// number row above them unless the digits are placed.
    fn get_fixed_key_positions(config: &Config) -> (v: Vec<(usize, usize, Vec<&'static str>)>)
        ensures
            blocks_view(v@) == ortho_blocks(config.solver.include_digits),
    {
        let start: usize = MIDDLE_CELL - 20;
        let mut v: Vec<(usize, usize, Vec<&'static str>)> = Vec::new();
        v.push((1, start, bottom_letter_names()));
        v.push((2, start, home_letter_names()));
        v.push((3, start, top_letter_names()));
        if !config.solver.include_digits {
            v.push((4, start, digit_key_names()));
        }
        assert(blocks_view(v@) =~= ortho_blocks(config.solver.include_digits));
        v
    }

    /// The homes of the ortholinear grid.
    fn build_home_positions(config: &Config) -> (v: Vec<(Finger, CellId)>)
        ensures
            v@ == ortho_homes(),
    {
        let data: [(Finger, i32, usize); 10] = [
            (Finger::LPinky, -20, 2),
            (Finger::LRing, -16, 2),
            (Finger::LMiddle, -12, 2),
            (Finger::LIndex, -8, 2),
            (Finger::LThumb, -8, 0),
            (Finger::RIndex, 4, 2),
            (Finger::RThumb, 4, 0),
            (Finger::RMiddle, 8, 2),
            (Finger::RRing, 12, 2),
            (Finger::RPinky, 16, 2),
        ];
        let v = homes_from_offsets(&data);
        assert(v@ =~= ortho_homes());
        v
    }
}

impl GeometryBuilder for RowStaggerBuilder {
    /// The three letter rows, shifted as on a common keyboard.
    fn get_fixed_key_positions(config: &Config) -> (v: Vec<(usize, usize, Vec<&'static str>)>)
        ensures
            blocks_view(v@) == row_stagger_blocks(),
    {
        let mut v: Vec<(usize, usize, Vec<&'static str>)> = Vec::new();
        v.push((1, 22, bottom_letter_names()));
        v.push((2, 20, home_letter_names()));
        v.push((3, 19, top_letter_names()));
        assert(blocks_view(v@) =~= row_stagger_blocks());
        v
    }

    /// The homes of the row-staggered grid.
    fn build_home_positions(config: &Config) -> (v: Vec<(Finger, CellId)>)
        ensures
            v@ == row_stagger_homes(),
    {
        let mut v: Vec<(Finger, CellId)> = Vec::new();
        v.push((Finger::LPinky, CellId::new(2, 20)));
        v.push((Finger::LRing, CellId::new(2, 24)));
        v.push((Finger::LMiddle, CellId::new(2, 28)));
        v.push((Finger::LIndex, CellId::new(2, 32)));
        v.push((Finger::LThumb, CellId::new(0, 32)));
        v.push((Finger::RIndex, CellId::new(2, 44)));
        v.push((Finger::RMiddle, CellId::new(2, 48)));
        v.push((Finger::RRing, CellId::new(2, 52)));
        v.push((Finger::RPinky, CellId::new(2, 56)));
        v.push((Finger::RThumb, CellId::new(0, 56)));
        assert(v@ =~= row_stagger_homes());
        v
    }
}

/// The cell at `row`, `col` of a fresh grid with the reserved `blocks`.
pub open spec fn grid_cell(blocks: Seq<(int, int, Seq<Seq<char>>)>, row: int, col: int) -> Cell {
    Cell {
        id: CellId { row: row as usize, col: col as usize },
        finger: spec_cell_finger(row, col),
        occupied: reserved(blocks, row, col),
    }
}

/// Whether `cells` is a fresh grid of `rows` rows of `MAX_COL_CELLS` cells
/// with the reserved `blocks`.
pub open spec fn is_fresh_grid(
    cells: Seq<Vec<Cell>>,
    rows: int,
    blocks: Seq<(int, int, Seq<Seq<char>>)>,
) -> bool {
    &&& cells.len() == rows
    &&& forall|r: int| 0 <= r < rows ==> #[trigger] cells[r]@.len() == MAX_COL_CELLS
    &&& forall|r: int, c: int|
        0 <= r < rows && 0 <= c < MAX_COL_CELLS ==> #[trigger] cells[r]@[c] == grid_cell(blocks, r, c)
}

/// Whether the settings say how many layers there are: version 1 has
/// none, versions 2 and 3 take the count from their own settings.
pub open spec fn layers_known(c: Config) -> bool {
    ||| c.solver.version@ == "v1"@
    ||| c.solver.version@ == "v2"@ && c.v2 is Some
    ||| c.solver.version@ == "v3"@ && c.v3 is Some
}

/// The number of layers that the settings give.
pub open spec fn spec_max_layers(c: Config) -> int {
    if c.solver.version@ == "v1"@ {
        1
    } else if c.solver.version@ == "v2"@ {
        c.v2->0.max_layers as int
    } else {
        c.v3->0.max_layers as int
    }
}

/// The grid that the geometry name `g` names, when it is available.
pub open spec fn spec_geometry_name(g: Seq<char>) -> GeometryName {
    if g == ROW_STAGGER@ {
        GeometryName::RowStagger
    } else {
        GeometryName::Ortho
    }
}

/// The homes of a grid.
pub open spec fn homes_of(name: GeometryName) -> Seq<(Finger, CellId)> {
    match name {
        GeometryName::RowStagger => row_stagger_homes(),
        GeometryName::Ortho => ortho_homes(),
    }
}

/// The message for a geometry that is not available yet.
pub open spec fn column_stagger_message() -> Seq<char> {
    COLUMN_STAGGER@ + " geometry is not yet implemented."@
}

/// Whether the blocks lie within the columns of the grid.
pub open spec fn blocks_in_cols(blocks: Seq<(int, int, Seq<Seq<char>>)>) -> bool {
    forall|i: int|
        #![trigger blocks[i]]
        0 <= i < blocks.len() ==> 0 <= blocks[i].0 && 0 <= blocks[i].1 && blocks[i].1 + U2CELL
            * blocks[i].2.len() <= MAX_COL_CELLS
}

/// Whether the blocks lie within the grid of `rows` rows.
pub open spec fn blocks_fit(blocks: Seq<(int, int, Seq<Seq<char>>)>, rows: int) -> bool {
    &&& blocks_in_cols(blocks)
    &&& forall|i: int| #![trigger blocks[i]] 0 <= i < blocks.len() ==> blocks[i].0 < rows
}

/// Whether a block covers the cell at `row`, `col`.
fn covers(positions: &Vec<(usize, usize, Vec<&'static str>)>, row: usize, col: usize) -> (r: bool)
    requires
        blocks_in_cols(blocks_view(positions@)),
    ensures
        r == reserved(blocks_view(positions@), row as int, col as int),
{
    let ghost blocks = blocks_view(positions@);
    let mut i: usize = 0;
    while i < positions.len()
        invariant
            i <= positions@.len(),
            blocks == blocks_view(positions@),
            blocks_in_cols(blocks),
            forall|j: int| 0 <= j < i ==> !block_covers(#[trigger] blocks[j], row as int, col as int),
        decreases positions@.len() - i,
    {
        let (r0, start, ref names) = positions[i];
        assert(blocks[i as int] == block_view(positions@[i as int]));
        assert(0 <= blocks[i as int].1 && blocks[i as int].1 + U2CELL * blocks[i as int].2.len() <= MAX_COL_CELLS);
        assert(blocks[i as int].2.len() == names@.len());
        let end = start + U2CELL * names.len();
        if r0 == row && start <= col && col < end {
            assert(block_covers(blocks[i as int], row as int, col as int));
            return true;
        }
        i = i + 1;
    }
    false
}

/// The fixed keys of the blocks, block after block.
fn placements_of_blocks(positions: &Vec<(usize, usize, Vec<&'static str>)>) -> (v: Vec<KeyPlacement>)
    requires
        blocks_in_cols(blocks_view(positions@)),
    ensures
        v@ == fixed_placements(blocks_view(positions@)),
{
    let ghost blocks = blocks_view(positions@);
    let mut v: Vec<KeyPlacement> = Vec::new();
    let mut i: usize = 0;
    while i < positions.len()
        invariant
            i <= positions@.len(),
            blocks == blocks_view(positions@),
            blocks_in_cols(blocks),
            v@ == fixed_placements(blocks.take(i as int)),
        decreases positions@.len() - i,
    {
        let (row, start, ref names) = positions[i];
        let ghost b = blocks[i as int];
        assert(b == block_view(positions@[i as int]));
        assert(b.2.len() == names@.len());
        assert(0 <= b.1 && b.1 + U2CELL * b.2.len() <= MAX_COL_CELLS);
        let ghost before = v@;
        let mut k: usize = 0;
        while k < names.len()
            invariant
                k <= names@.len(),
                b == block_view((row, start, *names)),
                0 <= b.1 && b.1 + U2CELL * b.2.len() <= MAX_COL_CELLS,
                v@ == before + block_placements(b).take(k as int),
            decreases names@.len() - k,
        {
            let name = names[k];
            assert(b.2[k as int] == name@);
            v.push(
                KeyPlacement {
                    placement_type: PlacementType::Fixed,
                    key_id: str_to_keyid(name),
                    row,
                    col: start + U2CELL * k,
                    width_cells: U2CELL,
                    layer: 0,
                },
            );
            k = k + 1;
            assert(v@ =~= before + block_placements(b).take(k as int));
        }
        assert(block_placements(b).take(k as int) =~= block_placements(b));
        assert(blocks.take(i + 1).drop_last() =~= blocks.take(i as int));
        i = i + 1;
    }
    assert(blocks.take(i as int) =~= blocks);
    v
}

impl Geometry {
    /// The grid that the settings name: `max_rows` rows of `MAX_COL_CELLS`
    /// cells, each served by the finger of its column (the thumbs in the
    /// bottom row, but for the little finger columns), the letter blocks
    /// (and the number row on the ortholinear grid when the digits are not
    /// placed) reserved as fixed 1u keys, and the home cell of each finger.
    /// The column-staggered grid is refused.
    pub fn build(config: &Config) -> (r: Result<Geometry, KbOptError>)
        requires
            is_geometry_name(config.solver.geometry@),
            layers_known(*config),
            config.solver.max_rows >= MIN_ROW,
            config.solver.geometry@ == ORTHO@ && !config.solver.include_digits
                ==> config.solver.max_rows > 4,
        ensures
            config.solver.geometry@ == COLUMN_STAGGER@ ==> (r matches Err(KbOptError::ConfigError(m))
                && m@ == column_stagger_message()),
            config.solver.geometry@ != COLUMN_STAGGER@ ==> (r matches Ok(g) && {
                let name = spec_geometry_name(config.solver.geometry@);
                let blocks = fixed_blocks(name, config.solver.include_digits);
                &&& g.name == name
                &&& g.max_layers == spec_max_layers(*config)
                &&& is_fresh_grid(g.cells@, config.solver.max_rows as int, blocks)
                &&& g.homes@ == homes_of(name)
                &&& g.key_placements@ == fixed_placements(blocks)
            }),
    {
        let geometry = config.solver.geometry.as_str();
        let name = if str_eq(geometry, ROW_STAGGER) {
            GeometryName::RowStagger
        } else if str_eq(geometry, ORTHO) {
            GeometryName::Ortho
        } else {
            proof {
                reveal_strlit("");
            }
            return Err(
                KbOptError::ConfigError(concat3(COLUMN_STAGGER, " geometry is not yet implemented.", "")),
            );
        };
        proof {
            reveal_strlit("row-stagger");
            reveal_strlit("ortho");
            reveal_strlit("column-stagger");
            assert(ROW_STAGGER@[0] != COLUMN_STAGGER@[0]);
            assert(ORTHO@[0] != COLUMN_STAGGER@[0]);
        }
        let version = config.solver.version.as_str();
        assert(version@ == config.solver.version@);
        let max_layers: usize = if str_eq(version, "v1") {
            1
        } else if str_eq(version, "v2") {
            match &config.v2 {
                Some(v2) => v2.max_layers,
                None => {
                    proof {
                        reveal_strlit("v2");
                        reveal_strlit("v3");
                        assert("v2"@[1] != "v3"@[1]);
                    }
                    1
                },
            }
        } else {
            match &config.v3 {
                Some(v3) => v3.max_layers,
                None => 1,
            }
        };
        let max_rows = config.solver.max_rows;
        let positions = match name {
            GeometryName::RowStagger => RowStaggerBuilder::get_fixed_key_positions(config),
            GeometryName::Ortho => OrthoBuilder::get_fixed_key_positions(config),
        };
        let ghost blocks = fixed_blocks(name, config.solver.include_digits);
        assert(blocks_view(positions@) == blocks);
        assert(blocks_fit(blocks, max_rows as int));
        let mut cells: Vec<Vec<Cell>> = Vec::new();
        let mut row: usize = 0;
        while row < max_rows
            invariant
                row <= max_rows,
                blocks_view(positions@) == blocks,
                blocks_fit(blocks, max_rows as int),
                cells@.len() == row,
                forall|r: int| 0 <= r < row ==> #[trigger] cells@[r]@.len() == MAX_COL_CELLS,
                forall|r: int, c: int|
                    0 <= r < row && 0 <= c < MAX_COL_CELLS ==> #[trigger] cells@[r]@[c] == grid_cell(
                        blocks,
                        r,
                        c,
                    ),
            decreases max_rows - row,
        {
            let mut row_cells: Vec<Cell> = Vec::new();
            let mut col: usize = 0;
            while col < MAX_COL_CELLS
                invariant
                    col <= MAX_COL_CELLS,
                    row < max_rows,
                    blocks_view(positions@) == blocks,
                    blocks_fit(blocks, max_rows as int),
                    row_cells@.len() == col,
                    forall|c: int| 0 <= c < col ==> #[trigger] row_cells@[c] == grid_cell(blocks, row as int, c),
                decreases MAX_COL_CELLS - col,
            {
                let finger = cell_finger(row, col);
                assert(blocks_in_cols(blocks_view(positions@)));
                let occupied = covers(&positions, row, col);
                row_cells.push(Cell { id: CellId::new(row, col), finger, occupied });
                col = col + 1;
            }
            cells.push(row_cells);
            row = row + 1;
        }
        let key_placements = placements_of_blocks(&positions);
        let homes = match name {
            GeometryName::RowStagger => RowStaggerBuilder::build_home_positions(config),
            GeometryName::Ortho => OrthoBuilder::build_home_positions(config),
        };
        let g = Geometry { name, cells, homes, key_placements, max_layers };
        Ok(g)
    }
}

/// Whether each cell of a row is covered.
pub open spec fn occupancy(row: Seq<Cell>) -> Seq<bool> {
    row.map_values(|c: Cell| c.occupied)
}

/// Whether `len` cells from `start` on are free and the run can be made
/// longer on neither side.
pub open spec fn is_free_run(occ: Seq<bool>, start: int, len: int) -> bool {
    &&& 0 < len
    &&& 0 <= start
    &&& start + len <= occ.len()
    &&& forall|j: int| start <= j < start + len ==> !#[trigger] occ[j]
    &&& (start == 0 || occ[start - 1])
    &&& (start + len == occ.len() || occ[start + len])
}

/// Whether `runs` (start, length) are the runs of free cells of a row,
/// from left to right.
pub open spec fn are_free_runs(occ: Seq<bool>, runs: Seq<(usize, usize)>) -> bool {
    &&& forall|k: int| 0 <= k < runs.len() ==> is_free_run(occ, #[trigger] runs[k].0 as int, runs[k].1 as int)
    &&& forall|k: int, l: int|
        0 <= k < l < runs.len() ==> #[trigger] runs[k].0 + runs[k].1 < #[trigger] runs[l].0
    &&& forall|c: int|
        0 <= c < occ.len() && !#[trigger] occ[c] ==> exists|k: int|
            0 <= k < runs.len() && #[trigger] runs[k].0 <= c < runs[k].0 + runs[k].1
}

/// The runs of free cells of one row, from left to right.
fn free_runs(row: &Vec<Cell>) -> (out: Vec<(usize, usize)>)
    ensures
        are_free_runs(occupancy(row@), out@),
{
    let ghost occ = occupancy(row@);
    let n = row.len();
    let mut out: Vec<(usize, usize)> = Vec::new();
    let mut c: usize = 0;
    while c < n
        invariant
            n == row@.len(),
            occ == occupancy(row@),
            occ.len() == n,
            c <= n,
            c == 0 || c == n || occ[c as int],
            forall|k: int| 0 <= k < out@.len() ==> is_free_run(occ, #[trigger] out@[k].0 as int, out@[k].1 as int),
            forall|k: int| 0 <= k < out@.len() ==> #[trigger] out@[k].0 + out@[k].1 <= c,
            forall|k: int, l: int|
                0 <= k < l < out@.len() ==> #[trigger] out@[k].0 + out@[k].1 < #[trigger] out@[l].0,
            forall|x: int|
                0 <= x < c && !#[trigger] occ[x] ==> exists|k: int|
                    0 <= k < out@.len() && #[trigger] out@[k].0 <= x < out@[k].0 + out@[k].1,
        decreases n - c,
    {
        let ghost c0 = c;
        let ghost out0 = out@;
        while c < n && row[c].occupied
            invariant
                n == row@.len(),
                occ == occupancy(row@),
                c0 <= c <= n,
                forall|x: int| c0 <= x < c ==> #[trigger] occ[x],
            decreases n - c,
        {
            c = c + 1;
        }
        let start = c;
        proof {
            assert(start == 0 || occ[start - 1]) by {
                if start > c0 {
                    assert(occ[start - 1]);
                }
            }
        }
        while c < n && !row[c].occupied
            invariant
                n == row@.len(),
                occ == occupancy(row@),
                c0 <= start <= c <= n,
                forall|x: int| c0 <= x < start ==> #[trigger] occ[x],
                forall|x: int| start <= x < c ==> !#[trigger] occ[x],
            decreases n - c,
        {
            c = c + 1;
        }
        let len = c - start;
        if len > 0 {
            let ghost before = out@;
            out.push((start, len));
            proof {
                assert(out@[before.len() as int] == (start, len));
                assert forall|k: int, l: int|
                    0 <= k < l < out@.len() implies #[trigger] out@[k].0 + out@[k].1 < #[trigger] out@[l].0 by {
                    if l == before.len() {
                        assert(out@[k] == before[k]);
                        assert(before[k].0 + before[k].1 <= c0);
                        if before[k].0 + before[k].1 == start {
                            // the earlier run ended at a free cell: impossible
                            assert(is_free_run(occ, before[k].0 as int, before[k].1 as int));
                        }
                    }
                }
            }
        }
        proof {
            assert forall|x: int|
                0 <= x < c && !#[trigger] occ[x] implies exists|k: int|
                    0 <= k < out@.len() && #[trigger] out@[k].0 <= x < out@[k].0 + out@[k].1 by {
                if x >= c0 {
                    if x < start {
                        assert(occ[x]);
                    }
                    assert(x >= start);
                    let k = (out@.len() - 1) as int;
                    assert(out@[k].0 <= x < out@[k].0 + out@[k].1);
                } else {
                    let k = choose|k: int| 0 <= k < out0.len() && #[trigger] out0[k].0 <= x < out0[k].0 + out0[k].1;
                    assert(out@[k] == out0[k]);
                }
            }
        }
    }
    out
}

/// The runs of free cells (start, length) of each row, from left to right.
pub fn extract_free_cell_intervals(geom: &Geometry) -> (out: Vec<Vec<(usize, usize)>>)
    ensures
        out@.len() == geom.cells@.len(),
        forall|r: int| 0 <= r < out@.len() ==> are_free_runs(occupancy(geom.cells@[r]@), #[trigger] out@[r]@),
{
    let mut out: Vec<Vec<(usize, usize)>> = Vec::new();
    let mut r: usize = 0;
    while r < geom.cells.len()
        invariant
            r <= geom.cells@.len(),
            out@.len() == r,
            forall|q: int| 0 <= q < r ==> are_free_runs(occupancy(geom.cells@[q]@), #[trigger] out@[q]@),
        decreases geom.cells@.len() - r,
    {
        out.push(free_runs(&geom.cells[r]));
        r = r + 1;
    }
    out
}

/// A key of a reference layout: its name, its row, its first column as an
/// offset from the middle of the row, and its width in cells.
#[derive(Debug, Clone, Copy)]
pub struct CustomKeyDef {
    pub key_name: &'static str,
    pub row: usize,
    pub start_cell_offset: i32,
    pub width_cells: usize,
}

/// The finger (other than a thumb) for a key centre `x` cells from the
/// middle: the split between G and H.
pub open spec fn finger_by_offset(x: int) -> Finger {
    if x <= -17 {
        Finger::LPinky
    } else if x <= -13 {
        Finger::LRing
    } else if x <= -9 {
        Finger::LMiddle
    } else if x <= -1 {
        Finger::LIndex
    } else if x <= 7 {
        Finger::RIndex
    } else if x <= 11 {
        Finger::RMiddle
    } else if x <= 15 {
        Finger::RRing
    } else {
        Finger::RPinky
    }
}

/// The finger that presses a key of a reference layout.
pub open spec fn spec_finger_for_key(row: int, start: int, width: int) -> Finger {
    let f = finger_by_offset(start + width / 2);
    if row == 0 {
        match f {
            Finger::LPinky | Finger::RPinky => f,
            Finger::LRing | Finger::LMiddle | Finger::LIndex | Finger::LThumb => Finger::LThumb,
            _ => Finger::RThumb,
        }
    } else {
        f
    }
}

/// The place of a finger from left to right across both hands.
pub open spec fn finger_rank(f: Finger) -> int {
    match f {
        Finger::LPinky => 0,
        Finger::LRing => 1,
        Finger::LMiddle => 2,
        Finger::LIndex => 3,
        Finger::LThumb => 4,
        Finger::RThumb => 5,
        Finger::RIndex => 6,
        Finger::RMiddle => 7,
        Finger::RRing => 8,
        Finger::RPinky => 9,
    }
}

/// The columns of the grid go to the fingers from left to right: a column
/// further right is never served by a finger further left, every finger
/// but the thumbs serves some column, and the thumbs take the bottom row
/// but for the little fingers' columns.
pub proof fn lemma_grid_fingers_left_to_right(x: int, y: int, f: Finger)
    ensures
        x <= y ==> finger_rank(spec_finger_from_x(x)) <= finger_rank(spec_finger_from_x(y)),
        !(spec_finger_from_x(x) is LThumb) && !(spec_finger_from_x(x) is RThumb),
        !(f is LThumb) && !(f is RThumb) ==> exists|c: int| 0 <= c < MAX_COL_CELLS && #[trigger] spec_finger_from_x(c) == f,
        x <= y ==> finger_rank(spec_cell_finger(0, x)) <= finger_rank(spec_cell_finger(0, y)),
{
    if !(f is LThumb) && !(f is RThumb) {
        let c: int = match f {
            Finger::LPinky => 20,
            Finger::LRing => 24,
            Finger::LMiddle => 28,
            Finger::LIndex => 32,
            Finger::RIndex => 44,
            Finger::RMiddle => 48,
            Finger::RRing => 52,
            _ => 56,
        };
        assert(spec_finger_from_x(c) == f);
    }
}

/// A key of the reference layout is pressed by the finger that serves the
/// grid column of its centre (the thumbs in the bottom row but for the
/// little fingers' columns), so the fingers go from left to right with
/// the key centre.
pub proof fn lemma_reference_fingers_left_to_right(row: int, start: int, width: int, x: int, y: int)
    requires
        0 <= width,
    ensures
        spec_finger_for_key(row, start, width) == spec_cell_finger(row, MIDDLE_CELL + start + width / 2),
        finger_by_offset(x) == spec_finger_from_x(MIDDLE_CELL + x),
        x <= y ==> finger_rank(finger_by_offset(x)) <= finger_rank(finger_by_offset(y)),
{
    lemma_grid_fingers_left_to_right(MIDDLE_CELL + x, MIDDLE_CELL + y, Finger::LThumb);
}

/// The finger that presses a key of a reference layout, by the cell offset
/// of the key's centre from the middle: left pinky to 17 cells left of it,
/// then ring, middle and index at 13, 9 and 1; right index up to 7 cells
/// right of it, then middle, ring and pinky from 8, 12 and 16. In the
/// bottom row the thumbs take all but the pinky columns.
pub fn determine_finger_for_key(key_def: &CustomKeyDef) -> (r: Finger)
    requires
        key_def.width_cells / 2 <= i32::MAX,
        key_def.start_cell_offset + key_def.width_cells / 2 <= i32::MAX,
    ensures
        r == spec_finger_for_key(
            key_def.row as int,
            key_def.start_cell_offset as int,
            key_def.width_cells as int,
        ),
{
    let half: i32 = (key_def.width_cells / 2) as i32;
    let key_center_offset: i32 = key_def.start_cell_offset + half;
    let base_finger = if key_center_offset <= -17 {
        Finger::LPinky
    } else if key_center_offset <= -13 {
        Finger::LRing
    } else if key_center_offset <= -9 {
        Finger::LMiddle
    } else if key_center_offset <= -1 {
        Finger::LIndex
    } else if key_center_offset <= 7 {
        Finger::RIndex
    } else if key_center_offset <= 11 {
        Finger::RMiddle
    } else if key_center_offset <= 15 {
        Finger::RRing
    } else {
        Finger::RPinky
    };
    if key_def.row == 0 {
        match base_finger {
            Finger::LPinky | Finger::RPinky => base_finger,
            Finger::LRing | Finger::LMiddle | Finger::LIndex | Finger::LThumb => Finger::LThumb,
            Finger::RIndex | Finger::RMiddle | Finger::RRing | Finger::RThumb => Finger::RThumb,
        }
    } else {
        base_finger
    }
}

/// Builder of the grid of a reference layout.
pub struct CustomBuilder;

impl GeometryBuilder for CustomBuilder {
    /// A reference layout reserves no blocks.
    fn get_fixed_key_positions(config: &Config) -> (v: Vec<(usize, usize, Vec<&'static str>)>)
        ensures
            v@.len() == 0,
    {
        Vec::new()
    }

    /// The homes of a reference layout: those of the ortholinear grid.
    fn build_home_positions(config: &Config) -> (v: Vec<(Finger, CellId)>)
        ensures
            v@ == ortho_homes(),
    {
        OrthoBuilder::build_home_positions(config)
    }
}

} // verus!
