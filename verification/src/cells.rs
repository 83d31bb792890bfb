//! Finding unit cells of a pattern by their grid position, and the
//! positions of a cell's neighbours on square and hexagonal grids.
use vstd::prelude::*;

verus! {

/// A neighbour on a grid of hexagons in columns, where odd columns sit
/// half a cell lower.
#[derive(PartialEq, Eq, Copy, Clone, Debug)]
pub enum HexCellNeighbor {
    Up,
    UpLeft,
    DownLeft,
    Down,
    DownRight,
    UpRight,
}

/// A neighbour on a square grid.
#[derive(PartialEq, Eq, Copy, Clone, Debug)]
pub enum GridCellNeighbor {
    Up,
    UpLeft,
    Left,
    DownLeft,
    Down,
    DownRight,
    Right,
    UpRight,
}

/// A neighbour on either kind of grid.
#[derive(PartialEq, Eq, Copy, Clone, Debug)]
pub enum CellNeighbor {
    Hex(HexCellNeighbor),
    Grid(GridCellNeighbor),
}

impl CellNeighbor {
    pub fn hex_up() -> (r: Self)
        ensures r == CellNeighbor::Hex(HexCellNeighbor::Up),
    {
        CellNeighbor::Hex(HexCellNeighbor::Up)
    }

    pub fn hex_up_left() -> (r: Self)
        ensures r == CellNeighbor::Hex(HexCellNeighbor::UpLeft),
    {
        CellNeighbor::Hex(HexCellNeighbor::UpLeft)
    }

    pub fn hex_down_left() -> (r: Self)
        ensures r == CellNeighbor::Hex(HexCellNeighbor::DownLeft),
    {
        CellNeighbor::Hex(HexCellNeighbor::DownLeft)
    }

    pub fn hex_down() -> (r: Self)
        ensures r == CellNeighbor::Hex(HexCellNeighbor::Down),
    {
        CellNeighbor::Hex(HexCellNeighbor::Down)
    }

    pub fn hex_down_right() -> (r: Self)
        ensures r == CellNeighbor::Hex(HexCellNeighbor::DownRight),
    {
        CellNeighbor::Hex(HexCellNeighbor::DownRight)
    }

    pub fn hex_up_right() -> (r: Self)
        ensures r == CellNeighbor::Hex(HexCellNeighbor::UpRight),
    {
        CellNeighbor::Hex(HexCellNeighbor::UpRight)
    }

    pub fn grid_up() -> (r: Self)
        ensures r == CellNeighbor::Grid(GridCellNeighbor::Up),
    {
        CellNeighbor::Grid(GridCellNeighbor::Up)
    }

    pub fn grid_up_left() -> (r: Self)
        ensures r == CellNeighbor::Grid(GridCellNeighbor::UpLeft),
    {
        CellNeighbor::Grid(GridCellNeighbor::UpLeft)
    }

    pub fn grid_left() -> (r: Self)
        ensures r == CellNeighbor::Grid(GridCellNeighbor::Left),
    {
        CellNeighbor::Grid(GridCellNeighbor::Left)
    }

    pub fn grid_down_left() -> (r: Self)
        ensures r == CellNeighbor::Grid(GridCellNeighbor::DownLeft),
    {
        CellNeighbor::Grid(GridCellNeighbor::DownLeft)
    }

    pub fn grid_down() -> (r: Self)
        ensures r == CellNeighbor::Grid(GridCellNeighbor::Down),
    {
        CellNeighbor::Grid(GridCellNeighbor::Down)
    }

    pub fn grid_down_right() -> (r: Self)
        ensures r == CellNeighbor::Grid(GridCellNeighbor::DownRight),
    {
        CellNeighbor::Grid(GridCellNeighbor::DownRight)
    }

    pub fn grid_right() -> (r: Self)
        ensures r == CellNeighbor::Grid(GridCellNeighbor::Right),
    {
        CellNeighbor::Grid(GridCellNeighbor::Right)
    }

    pub fn grid_up_right() -> (r: Self)
        ensures r == CellNeighbor::Grid(GridCellNeighbor::UpRight),
    {
        CellNeighbor::Grid(GridCellNeighbor::UpRight)
    }
}

/// The column and row offsets of a neighbour. On the hexagon grid the row
/// of a diagonal neighbour depends on whether the column is even.
pub open spec fn neighbor_offset(i: int, n: CellNeighbor) -> (int, int) {
    let even = i % 2 == 0;
    match n {
        CellNeighbor::Hex(HexCellNeighbor::Up) => (0, 1),
        CellNeighbor::Hex(HexCellNeighbor::UpLeft) => (-1, if even { 1 } else { 0 }),
        CellNeighbor::Hex(HexCellNeighbor::DownLeft) => (-1, if even { 0 } else { -1 }),
        CellNeighbor::Hex(HexCellNeighbor::Down) => (0, -1),
        CellNeighbor::Hex(HexCellNeighbor::DownRight) => (1, if even { 0 } else { -1 }),
        CellNeighbor::Hex(HexCellNeighbor::UpRight) => (1, if even { 1 } else { 0 }),
        CellNeighbor::Grid(GridCellNeighbor::Up) => (0, 1),
        CellNeighbor::Grid(GridCellNeighbor::UpLeft) => (1, 1),
        CellNeighbor::Grid(GridCellNeighbor::Left) => (1, 0),
        CellNeighbor::Grid(GridCellNeighbor::DownLeft) => (1, -1),
        CellNeighbor::Grid(GridCellNeighbor::Down) => (0, -1),
        CellNeighbor::Grid(GridCellNeighbor::DownRight) => (-1, -1),
        CellNeighbor::Grid(GridCellNeighbor::Right) => (-1, 0),
        CellNeighbor::Grid(GridCellNeighbor::UpRight) => (-1, 1),
    }
}

/// The position of a neighbour of cell `(i, j)`.
pub open spec fn neighbor_position(i: int, j: int, n: CellNeighbor) -> (int, int) {
    (i + neighbor_offset(i, n).0, j + neighbor_offset(i, n).1)
}

/// Whether a neighbour's position can be written as column and row
/// numbers: neither goes below zero or past the largest index.
pub open spec fn neighbor_in_range(i: int, j: int, n: CellNeighbor) -> bool {
    let (a, b) = neighbor_position(i, j, n);
    0 <= a <= usize::MAX && 0 <= b <= usize::MAX
}

/// The position of a neighbour of cell `(i, j)`.
pub fn neighbor_ij(i: usize, j: usize, n: CellNeighbor) -> (r: (usize, usize))
    requires
        neighbor_in_range(i as int, j as int, n),
    ensures
        (r.0 as int, r.1 as int) == neighbor_position(i as int, j as int, n),
{
    let even = i % 2 == 0;
    match n {
        CellNeighbor::Hex(HexCellNeighbor::Up) => (i, j + 1),
        CellNeighbor::Hex(HexCellNeighbor::UpLeft) => (i - 1, if even { j + 1 } else { j }),
        CellNeighbor::Hex(HexCellNeighbor::DownLeft) => (i - 1, if even { j } else { j - 1 }),
        CellNeighbor::Hex(HexCellNeighbor::Down) => (i, j - 1),
        CellNeighbor::Hex(HexCellNeighbor::DownRight) => (i + 1, if even { j } else { j - 1 }),
        CellNeighbor::Hex(HexCellNeighbor::UpRight) => (i + 1, if even { j + 1 } else { j }),
        CellNeighbor::Grid(GridCellNeighbor::Up) => (i, j + 1),
        CellNeighbor::Grid(GridCellNeighbor::UpLeft) => (i + 1, j + 1),
        CellNeighbor::Grid(GridCellNeighbor::Left) => (i + 1, j),
        CellNeighbor::Grid(GridCellNeighbor::DownLeft) => (i + 1, j - 1),
        CellNeighbor::Grid(GridCellNeighbor::Down) => (i, j - 1),
        CellNeighbor::Grid(GridCellNeighbor::DownRight) => (i - 1, j - 1),
        CellNeighbor::Grid(GridCellNeighbor::Right) => (i - 1, j),
        CellNeighbor::Grid(GridCellNeighbor::UpRight) => (i - 1, j + 1),
    }
}

/// A cell's position: column, row and layer.
pub type CellKey = (u64, u64, u64);

/// The cell stored under `key`: the last entry with that key wins.
pub open spec fn cell_at<T>(entries: Seq<(CellKey, T)>, key: CellKey) -> Option<T>
    decreases entries.len(),
{
    if entries.len() == 0 {
        None
    } else if entries.last().0 == key {
        Some(entries.last().1)
    } else {
        cell_at(entries.drop_last(), key)
    }
}

/// Unit cells of a pattern found by position; `maxes` are the counts of
/// columns, rows and layers.
pub struct UnitCellLookup<T> {
    pub data: Vec<(CellKey, T)>,
    pub maxes: CellKey,
}

impl<T> UnitCellLookup<T> {
    /// A lookup over cells given with their positions; a later cell at a
    /// position replaces an earlier one.
    pub fn new(data: Vec<(CellKey, T)>, maxes: CellKey) -> (r: Self)
        ensures
            r.data@ == data@,
            r.maxes == maxes,
    {
        UnitCellLookup { data, maxes }
    }

    /// The cells at each position, by key.
    pub open spec fn cell(&self, key: CellKey) -> Option<T> {
        cell_at(self.data@, key)
    }

    /// The cell at column `i`, row `j` of the first layer.
    pub fn get_ij(&self, i: usize, j: usize) -> (r: Option<&T>)
        ensures
            match self.cell((i as u64, j as u64, 0)) {
                Some(c) => r == Some(&c),
                None => r is None,
            },
    {
        self.get_key((i as u64, j as u64, 0))
    }

    /// The cell stored under a position.
    fn get_key(&self, key: CellKey) -> (r: Option<&T>)
        ensures
            match self.cell(key) {
                Some(c) => r == Some(&c),
                None => r is None,
            },
    {
        let mut k = self.data.len();
        proof { assert(self.data@.take(k as int) =~= self.data@); }
        while k > 0
            invariant
                k <= self.data@.len(),
                cell_at(self.data@, key) == cell_at(self.data@.take(k as int), key),
            decreases k,
        {
            proof { assert(self.data@.take(k as int).drop_last() =~= self.data@.take(k as int - 1)); }
            let entry = &self.data[k - 1];
            if entry.0.0 == key.0 && entry.0.1 == key.1 && entry.0.2 == key.2 {
                proof {
                    assert(self.data@.take(k as int).last() == self.data@[k - 1]);
                    assert(entry.0 == key);
                    assert(cell_at(self.data@.take(k as int), key) == Some(self.data@[k - 1].1));
                }
                return Some(&entry.1);
            }
            k = k - 1;
        }
        None
    }

    /// `get_ij` with the position as a pair.
    pub fn get_ij_tuple(&self, ij: (usize, usize)) -> (r: Option<&T>)
        ensures
            match self.cell((ij.0 as u64, ij.1 as u64, 0)) {
                Some(c) => r == Some(&c),
                None => r is None,
            },
    {
        self.get_ij(ij.0, ij.1)
    }

    /// The cell at column `i`, row `j`, which must be there.
    pub fn force_get_ij(&self, i: usize, j: usize) -> (r: &T)
        requires
            self.cell((i as u64, j as u64, 0)) is Some,
        ensures
            Some(*r) == self.cell((i as u64, j as u64, 0)),
    {
        self.get_ij(i, j).unwrap()
    }

    /// The neighbour of cell `(i, j)`, if there is a cell there.
    pub fn get_ij_neighbor(&self, i: usize, j: usize, neighbor: CellNeighbor) -> (r: Option<&T>)
        requires
            neighbor_in_range(i as int, j as int, neighbor),
        ensures
            ({
                let (a, b) = neighbor_position(i as int, j as int, neighbor);
                match self.cell((a as u64, b as u64, 0)) {
                    Some(c) => r == Some(&c),
                    None => r is None,
                }
            }),
    {
        let (a, b) = neighbor_ij(i, j, neighbor);
        self.get_ij(a, b)
    }
}

impl<T: Clone> UnitCellLookup<T> {
    /// A copy of the cell at column `i`, row `j`.
    pub fn get_ij_node(&self, i: usize, j: usize) -> (r: Option<T>)
        ensures
            match self.cell((i as u64, j as u64, 0)) {
                Some(c) => r matches Some(d) && cloned(c, d),
                None => r is None,
            },
    {
        match self.get_ij(i, j) {
            Some(c) => Some(c.clone()),
            None => None,
        }
    }

    /// The first layer as rows (one per row index) of columns, each holding
    /// a copy of the cell there, if any.
    pub fn to_vec2d(&self) -> (r: Vec<Vec<Option<T>>>)
        ensures
            r@.len() == self.maxes.1,
            forall|y: int| #![trigger r@[y]] 0 <= y < r@.len() ==> r@[y]@.len() == self.maxes.0,
            forall|y: int, x: int| 0 <= y < r@.len() && 0 <= x < self.maxes.0 ==>
                match self.cell((x as u64, y as u64, 0)) {
                    Some(c) => #[trigger] r@[y]@[x] matches Some(d) && cloned(c, d),
                    None => r@[y]@[x] is None,
                },
    {
        let mut vs: Vec<Vec<Option<T>>> = Vec::new();
        let mut y: u64 = 0;
        while y < self.maxes.1
            invariant
                y <= self.maxes.1,
                vs@.len() == y,
                forall|yy: int| #![trigger vs@[yy]] 0 <= yy < vs@.len() ==> vs@[yy]@.len() == self.maxes.0,
                forall|yy: int, x: int| 0 <= yy < vs@.len() && 0 <= x < self.maxes.0 ==>
                    match self.cell((x as u64, yy as u64, 0)) {
                        Some(c) => #[trigger] vs@[yy]@[x] matches Some(d) && cloned(c, d),
                        None => vs@[yy]@[x] is None,
                    },
            decreases self.maxes.1 - y,
        {
            let mut row: Vec<Option<T>> = Vec::new();
            let mut x: u64 = 0;
            while x < self.maxes.0
                invariant
                    x <= self.maxes.0,
                    row@.len() == x,
                    forall|xx: int| 0 <= xx < row@.len() ==>
                        match self.cell((xx as u64, y, 0)) {
                            Some(c) => #[trigger] row@[xx] matches Some(d) && cloned(c, d),
                            None => row@[xx] is None,
                        },
                decreases self.maxes.0 - x,
            {
                let cell = match self.get_key((x, y, 0)) {
                    Some(c) => Some(c.clone()),
                    None => None,
                };
                row.push(cell);
                x = x + 1;
            }
            vs.push(row);
            y = y + 1;
        }
        vs
    }
}

/// The neighbour in the opposite direction.
pub open spec fn opposite(n: CellNeighbor) -> CellNeighbor {
    match n {
        CellNeighbor::Hex(HexCellNeighbor::Up) => CellNeighbor::Hex(HexCellNeighbor::Down),
        CellNeighbor::Hex(HexCellNeighbor::Down) => CellNeighbor::Hex(HexCellNeighbor::Up),
        CellNeighbor::Hex(HexCellNeighbor::UpLeft) => CellNeighbor::Hex(HexCellNeighbor::DownRight),
        CellNeighbor::Hex(HexCellNeighbor::DownRight) => CellNeighbor::Hex(HexCellNeighbor::UpLeft),
        CellNeighbor::Hex(HexCellNeighbor::DownLeft) => CellNeighbor::Hex(HexCellNeighbor::UpRight),
        CellNeighbor::Hex(HexCellNeighbor::UpRight) => CellNeighbor::Hex(HexCellNeighbor::DownLeft),
        CellNeighbor::Grid(GridCellNeighbor::Up) => CellNeighbor::Grid(GridCellNeighbor::Down),
        CellNeighbor::Grid(GridCellNeighbor::Down) => CellNeighbor::Grid(GridCellNeighbor::Up),
        CellNeighbor::Grid(GridCellNeighbor::UpLeft) => CellNeighbor::Grid(GridCellNeighbor::DownRight),
        CellNeighbor::Grid(GridCellNeighbor::DownRight) => CellNeighbor::Grid(GridCellNeighbor::UpLeft),
        CellNeighbor::Grid(GridCellNeighbor::Left) => CellNeighbor::Grid(GridCellNeighbor::Right),
        CellNeighbor::Grid(GridCellNeighbor::Right) => CellNeighbor::Grid(GridCellNeighbor::Left),
        CellNeighbor::Grid(GridCellNeighbor::DownLeft) => CellNeighbor::Grid(GridCellNeighbor::UpRight),
        CellNeighbor::Grid(GridCellNeighbor::UpRight) => CellNeighbor::Grid(GridCellNeighbor::DownLeft),
    }
}

/// Stepping to a neighbour and then back in the opposite direction returns
/// to the cell one started from, on both grids.
pub proof fn law_opposite_neighbors_return(i: int, j: int, n: CellNeighbor)
    ensures
        ({
            let (a, b) = neighbor_position(i, j, n);
            neighbor_position(a, b, opposite(n)) == (i, j)
        }),
{
    assert((i + 1) % 2 == 0 <==> i % 2 != 0);
    assert((i - 1) % 2 == 0 <==> i % 2 != 0);
}

/// Where the hexagon neighbours of cell `(i, j)` lie: the up and down ones
/// in the same column one row away; the left ones (up-left, down-left) in
/// column `i - 1` and the right ones in column `i + 1`. On each side the up
/// neighbour is one row above the down one, never below the cell, and the
/// down one never above it; both sides sit at the same rows, which in an
/// even column are `j + 1` and `j`, in an odd one `j` and `j - 1`.
pub proof fn law_hex_neighbor_sides(i: int, j: int)
    ensures
        neighbor_position(i, j, CellNeighbor::Hex(HexCellNeighbor::Up)) == (i, j + 1),
        neighbor_position(i, j, CellNeighbor::Hex(HexCellNeighbor::Down)) == (i, j - 1),
        neighbor_position(i, j, CellNeighbor::Hex(HexCellNeighbor::UpLeft)).0 == i - 1,
        neighbor_position(i, j, CellNeighbor::Hex(HexCellNeighbor::DownLeft)).0 == i - 1,
        neighbor_position(i, j, CellNeighbor::Hex(HexCellNeighbor::UpRight)).0 == i + 1,
        neighbor_position(i, j, CellNeighbor::Hex(HexCellNeighbor::DownRight)).0 == i + 1,
        neighbor_position(i, j, CellNeighbor::Hex(HexCellNeighbor::UpLeft)).1
            == neighbor_position(i, j, CellNeighbor::Hex(HexCellNeighbor::DownLeft)).1 + 1,
        neighbor_position(i, j, CellNeighbor::Hex(HexCellNeighbor::UpRight)).1
            == neighbor_position(i, j, CellNeighbor::Hex(HexCellNeighbor::DownRight)).1 + 1,
        neighbor_position(i, j, CellNeighbor::Hex(HexCellNeighbor::UpLeft)).1
            == neighbor_position(i, j, CellNeighbor::Hex(HexCellNeighbor::UpRight)).1,
        neighbor_position(i, j, CellNeighbor::Hex(HexCellNeighbor::UpLeft)).1 >= j,
        neighbor_position(i, j, CellNeighbor::Hex(HexCellNeighbor::DownLeft)).1 <= j,
        neighbor_position(i, j, CellNeighbor::Hex(HexCellNeighbor::DownRight)).1 <= j,
        i % 2 == 0 ==> neighbor_position(i, j, CellNeighbor::Hex(HexCellNeighbor::DownLeft)).1 == j,
        i % 2 != 0 ==> neighbor_position(i, j, CellNeighbor::Hex(HexCellNeighbor::UpLeft)).1 == j,
{
}

/// Where the square-grid neighbours of cell `(i, j)` lie: up and down keep
/// the column and move one row up or down; left and right keep the row,
/// left in column `i + 1` and right in column `i - 1`; each diagonal
/// takes its column from its side and its row from its vertical direction.
pub proof fn law_grid_neighbor_sides(i: int, j: int)
    ensures
        neighbor_position(i, j, CellNeighbor::Grid(GridCellNeighbor::Up)) == (i, j + 1),
        neighbor_position(i, j, CellNeighbor::Grid(GridCellNeighbor::Down)) == (i, j - 1),
        neighbor_position(i, j, CellNeighbor::Grid(GridCellNeighbor::Left)) == (i + 1, j),
        neighbor_position(i, j, CellNeighbor::Grid(GridCellNeighbor::Right)) == (i - 1, j),
        neighbor_position(i, j, CellNeighbor::Grid(GridCellNeighbor::UpLeft)) == (i + 1, j + 1),
        neighbor_position(i, j, CellNeighbor::Grid(GridCellNeighbor::DownLeft)) == (i + 1, j - 1),
        neighbor_position(i, j, CellNeighbor::Grid(GridCellNeighbor::UpRight)) == (i - 1, j + 1),
        neighbor_position(i, j, CellNeighbor::Grid(GridCellNeighbor::DownRight)) == (i - 1, j - 1),
{
}

/// A lookup finds the cell most recently given for a position: what it
/// finds was stored under that position and no later entry has that
/// position; it finds nothing exactly when no entry has the position.
pub proof fn law_lookup_finds_latest<T>(entries: Seq<(CellKey, T)>, key: CellKey)
    ensures
        cell_at(entries, key) matches Some(c) ==> exists|i: int| 0 <= i < entries.len()
            && #[trigger] entries[i] == (key, c)
            && forall|j: int| i < j < entries.len() ==> entries[j].0 != key,
        cell_at(entries, key) is None <==> forall|i: int| 0 <= i < entries.len() ==> entries[i].0 != key,
    decreases entries.len(),
{
    if entries.len() > 0 {
        let rest = entries.drop_last();
        law_lookup_finds_latest(rest, key);
        let n = entries.len() - 1;
        if entries.last().0 == key {
            assert(entries[n] == (key, entries.last().1));
        } else {
            match cell_at(rest, key) {
                Some(c) => {
                    let i = choose|i: int| 0 <= i < rest.len() && #[trigger] rest[i] == (key, c)
                        && forall|j: int| i < j < rest.len() ==> rest[j].0 != key;
                    assert(entries[i] == rest[i]);
                    assert forall|j: int| i < j < entries.len() implies entries[j].0 != key by {
                        if j < n { assert(entries[j] == rest[j]); }
                    }
                },
                None => {
                    assert forall|i: int| 0 <= i < entries.len() implies entries[i].0 != key by {
                        if i < n { assert(entries[i] == rest[i]); }
                    }
                },
            }
            if cell_at(entries, key) is None {
                assert forall|i: int| 0 <= i < rest.len() implies rest[i].0 != key by {
                    assert(entries[i] == rest[i]);
                }
            }
        }
    }
}

} // verus!
