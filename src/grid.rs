//! Grid coordinates and the coordinate helpers shared by the rest of the crate.
use vstd::prelude::*;

verus! {

/// An integer cell coordinate.
#[derive(Clone, Copy, Debug, PartialEq, Eq, Structural)]
pub struct Pos {
    pub x: i32,
    pub y: i32,
}

impl Pos {
    pub fn new(x: i32, y: i32) -> (r: Pos)
        ensures
            r.x == x,
            r.y == y,
    {
        Pos { x, y }
    }
}

pub open spec fn abs_int(v: int) -> int {
    if v < 0 {
        -v
    } else {
        v
    }
}

/// Manhattan distance between two coordinates.
pub open spec fn manhattan(a: Pos, b: Pos) -> int {
    abs_int(a.x - b.x) + abs_int(a.y - b.y)
}

/// The two coordinates are one orthogonal step apart.
pub open spec fn orthogonal_step(a: Pos, b: Pos) -> bool {
    manhattan(a, b) == 1
}

/// The coordinate lies in `[0, size) x [0, size)`.
pub open spec fn in_bounds(p: Pos, size: int) -> bool {
    0 <= p.x < size && 0 <= p.y < size
}

/// Row-major index of an in-bounds coordinate.
pub open spec fn cell_index(p: Pos, size: int) -> int {
    p.y * size + p.x
}

/// Neither component sits at the edge of the `i32` range, so its neighbours exist.
pub open spec fn has_neighbours(p: Pos) -> bool {
    i32::MIN < p.x < i32::MAX && i32::MIN < p.y < i32::MAX
}

/// Coordinate helpers.
pub struct Grid;

impl Grid {
    /// True when the positions touch orthogonally or diagonally.
    pub fn are_adjacent(pos1: Pos, pos2: Pos) -> (r: bool)
        ensures
            r == (manhattan(pos1, pos2) == 1 || (abs_int(pos1.x - pos2.x) == 1 && abs_int(
                pos1.y - pos2.y,
            ) == 1)),
    {
        let dx = abs_i64(pos1.x as i64 - pos2.x as i64);
        let dy = abs_i64(pos1.y as i64 - pos2.y as i64);
        (dx + dy == 1) || (dx == 1 && dy == 1)
    }

    /// The eight surrounding positions, row by row from the lower left.
    pub fn get_adjacent_positions(pos: Pos) -> (r: [Pos; 8])
        requires
            has_neighbours(pos),
        ensures
            r@ == seq![
                Pos { x: (pos.x - 1) as i32, y: (pos.y - 1) as i32 },
                Pos { x: pos.x, y: (pos.y - 1) as i32 },
                Pos { x: (pos.x + 1) as i32, y: (pos.y - 1) as i32 },
                Pos { x: (pos.x - 1) as i32, y: pos.y },
                Pos { x: (pos.x + 1) as i32, y: pos.y },
                Pos { x: (pos.x - 1) as i32, y: (pos.y + 1) as i32 },
                Pos { x: pos.x, y: (pos.y + 1) as i32 },
                Pos { x: (pos.x + 1) as i32, y: (pos.y + 1) as i32 },
            ],
    {
        let r = [
            Pos::new(pos.x - 1, pos.y - 1),
            Pos::new(pos.x, pos.y - 1),
            Pos::new(pos.x + 1, pos.y - 1),
            Pos::new(pos.x - 1, pos.y),
            Pos::new(pos.x + 1, pos.y),
            Pos::new(pos.x - 1, pos.y + 1),
            Pos::new(pos.x, pos.y + 1),
            Pos::new(pos.x + 1, pos.y + 1),
        ];
        assert(r@ =~= seq![r[0], r[1], r[2], r[3], r[4], r[5], r[6], r[7]]);
        r
    }

    /// The four orthogonal neighbours: below, left, right, above.
    pub fn get_orthogonal_positions(pos: Pos) -> (r: [Pos; 4])
        requires
            has_neighbours(pos),
        ensures
            r@ == seq![
                Pos { x: pos.x, y: (pos.y - 1) as i32 },
                Pos { x: (pos.x - 1) as i32, y: pos.y },
                Pos { x: (pos.x + 1) as i32, y: pos.y },
                Pos { x: pos.x, y: (pos.y + 1) as i32 },
            ],
            forall|i: int| 0 <= i < 4 ==> orthogonal_step(pos, #[trigger] r@[i]),
    {
        let r = [
            Pos::new(pos.x, pos.y - 1),
            Pos::new(pos.x - 1, pos.y),
            Pos::new(pos.x + 1, pos.y),
            Pos::new(pos.x, pos.y + 1),
        ];
        assert(r@ =~= seq![r[0], r[1], r[2], r[3]]);
        r
    }

    /// True when `pos` lies in `[0, size) x [0, size)`.
    pub fn is_in_bounds(pos: Pos, size: usize) -> (r: bool)
        ensures
            r == in_bounds(pos, size as int),
    {
        pos.x >= 0 && (pos.x as usize) < size && pos.y >= 0 && (pos.y as usize) < size
    }

    /// Manhattan distance between two positions.
    pub fn manhattan_distance(pos1: Pos, pos2: Pos) -> (r: i32)
        requires
            manhattan(pos1, pos2) <= i32::MAX,
        ensures
            r == manhattan(pos1, pos2),
    {
        let dx = abs_i64(pos1.x as i64 - pos2.x as i64);
        let dy = abs_i64(pos1.y as i64 - pos2.y as i64);
        (dx + dy) as i32
    }
}

fn abs_i64(v: i64) -> (r: i64)
    requires
        v > i64::MIN,
    ensures
        r == abs_int(v as int),
{
    if v < 0 {
        -v
    } else {
        v
    }
}

/// Manhattan distance on any two coordinates, which always fits an `i64`.
pub fn manhattan_wide(a: Pos, b: Pos) -> (r: i64)
    ensures
        r == manhattan(a, b),
{
    abs_i64(a.x as i64 - b.x as i64) + abs_i64(a.y as i64 - b.y as i64)
}

} // verus!
