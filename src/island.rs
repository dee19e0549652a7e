//! The island map: land to buy and towns to found.
use vstd::prelude::*;
use crate::grid::{Grid, Pos, in_bounds};

verus! {

/// Side length of the island map.
pub const ISLAND_GRID_SIZE: usize = 20;

/// Terrain of an island cell.
#[derive(Clone, Copy, Debug, PartialEq, Eq, Structural)]
pub enum IslandCellType {
    Water,
    Land,
    Forest,
    Mountain,
    Town,
}

/// One island cell as shown on the map.
#[derive(Clone, Copy, Debug, PartialEq, Eq, Structural)]
pub struct IslandCell {
    pub position: Pos,
    pub cell_type: IslandCellType,
    pub owned: bool,
}

/// What a click on the island did.
#[derive(Clone, Copy, Debug, PartialEq, Eq, Structural)]
pub enum IslandAction {
    /// Nothing: water, mountain, or off the map.
    Ignored,
    /// The cell was bought.
    Purchased,
    /// A town was founded on an owned cell; its town view opens.
    FoundedTown,
    /// The cell holds a town; its town view opens.
    EnteredTown,
}

/// The island, row by row (`grid[y * ISLAND_GRID_SIZE + x]`).
pub struct Island {
    pub grid: Vec<IslandCellType>,
    pub owned_cells: Vec<Pos>,
    pub towns: Vec<Pos>,
}

/// Terrain of the untouched island at `(x, y)`: water round a ten-by-ten block of land,
/// with forest where `x + y` is a multiple of 7 and mountains where `x * y` is a
/// multiple of 13.
pub open spec fn initial_terrain(x: int, y: int) -> IslandCellType {
    if 5 <= x < 15 && 5 <= y < 15 {
        if (x * y) % 13 == 0 {
            IslandCellType::Mountain
        } else if (x + y) % 7 == 0 {
            IslandCellType::Forest
        } else {
            IslandCellType::Land
        }
    } else {
        IslandCellType::Water
    }
}

fn terrain(x: usize, y: usize) -> (r: IslandCellType)
    requires
        x < ISLAND_GRID_SIZE,
        y < ISLAND_GRID_SIZE,
    ensures
        r == initial_terrain(x as int, y as int),
{
    if 5 <= x && x < 15 && 5 <= y && y < 15 {
        assert(x * y < 400) by (nonlinear_arith)
            requires x < 20, y < 20;
        if (x * y) % 13 == 0 {
            IslandCellType::Mountain
        } else if (x + y) % 7 == 0 {
            IslandCellType::Forest
        } else {
            IslandCellType::Land
        }
    } else {
        IslandCellType::Water
    }
}

fn contains_pos(v: &Vec<Pos>, p: Pos) -> (r: bool)
    ensures
        r == v@.contains(p),
{
    let mut i: usize = 0;
    while i < v.len()
        invariant
            i <= v@.len(),
            forall|k: int| 0 <= k < i ==> v@[k] != p,
        decreases v@.len() - i,
    {
        if v[i] == p {
            return true;
        }
        i = i + 1;
    }
    false
}

impl Island {
    pub open spec fn wf(&self) -> bool {
        self.grid@.len() == ISLAND_GRID_SIZE * ISLAND_GRID_SIZE
    }

    /// Terrain at an in-bounds coordinate.
    pub open spec fn terrain_at(&self, p: Pos) -> IslandCellType {
        self.grid@[p.y * ISLAND_GRID_SIZE + p.x]
    }

    /// The untouched island: nothing owned, no towns.
    pub fn new() -> (r: Island)
        ensures
            r.wf(),
            forall|x: int, y: int|
                0 <= x < ISLAND_GRID_SIZE && 0 <= y < ISLAND_GRID_SIZE ==> #[trigger] r.grid@[y * ISLAND_GRID_SIZE + x]
                    == initial_terrain(x, y),
            r.owned_cells@.len() == 0,
            r.towns@.len() == 0,
    {
        let mut grid: Vec<IslandCellType> = Vec::new();
        let mut y: usize = 0;
        while y < ISLAND_GRID_SIZE
            invariant
                y <= ISLAND_GRID_SIZE,
                grid@.len() == y * ISLAND_GRID_SIZE,
                forall|a: int, b: int|
                    0 <= a < ISLAND_GRID_SIZE && 0 <= b < y ==> #[trigger] grid@[b * ISLAND_GRID_SIZE + a]
                        == initial_terrain(a, b),
            decreases ISLAND_GRID_SIZE - y,
        {
            let mut x: usize = 0;
            while x < ISLAND_GRID_SIZE
                invariant
                    y < ISLAND_GRID_SIZE,
                    x <= ISLAND_GRID_SIZE,
                    grid@.len() == y * ISLAND_GRID_SIZE + x,
                    forall|a: int, b: int|
                        0 <= a < ISLAND_GRID_SIZE && 0 <= b < y ==> #[trigger] grid@[b * ISLAND_GRID_SIZE + a]
                            == initial_terrain(a, b),
                    forall|a: int| 0 <= a < x ==> #[trigger] grid@[y * ISLAND_GRID_SIZE + a] == initial_terrain(a, y as int),
                decreases ISLAND_GRID_SIZE - x,
            {
                let ghost before = grid@;
                grid.push(terrain(x, y));
                proof {
                    assert forall|a: int, b: int|
                        0 <= a < ISLAND_GRID_SIZE && 0 <= b < y implies #[trigger] grid@[b * ISLAND_GRID_SIZE + a]
                            == initial_terrain(a, b) by {
                        assert(b * ISLAND_GRID_SIZE + a < y * ISLAND_GRID_SIZE) by (nonlinear_arith)
                            requires 0 <= a < ISLAND_GRID_SIZE, 0 <= b < y;
                        assert(grid@[b * ISLAND_GRID_SIZE + a] == before[b * ISLAND_GRID_SIZE + a]);
                    }
                }
                x = x + 1;
            }
            y = y + 1;
        }
        Island { grid, owned_cells: Vec::new(), towns: Vec::new() }
    }

    /// A click on the cell at `p`: land or forest that is not owned is bought; owned land
    /// without a town gets one; a town is entered; anything else is ignored.
    pub fn interact(&mut self, p: Pos) -> (r: IslandAction)
        requires
            old(self).wf(),
        ensures
            final(self).wf(),
            !in_bounds(p, ISLAND_GRID_SIZE as int) ==> r == IslandAction::Ignored && final(self).grid@ == old(self).grid@
                && final(self).owned_cells@ == old(self).owned_cells@ && final(self).towns@ == old(self).towns@,
            in_bounds(p, ISLAND_GRID_SIZE as int) ==> {
                let t = old(self).terrain_at(p);
                if t == IslandCellType::Land || t == IslandCellType::Forest {
                    if !old(self).owned_cells@.contains(p) {
                        &&& r == IslandAction::Purchased
                        &&& final(self).owned_cells@ == old(self).owned_cells@.push(p)
                        &&& final(self).towns@ == old(self).towns@
                        &&& final(self).grid@ == old(self).grid@
                    } else if !old(self).towns@.contains(p) {
                        &&& r == IslandAction::FoundedTown
                        &&& final(self).owned_cells@ == old(self).owned_cells@
                        &&& final(self).towns@ == old(self).towns@.push(p)
                        &&& final(self).grid@ == old(self).grid@.update(p.y * ISLAND_GRID_SIZE + p.x, IslandCellType::Town)
                    } else {
                        &&& r == IslandAction::Ignored
                        &&& final(self).owned_cells@ == old(self).owned_cells@
                        &&& final(self).towns@ == old(self).towns@
                        &&& final(self).grid@ == old(self).grid@
                    }
                } else {
                    &&& r == (if t == IslandCellType::Town {
                        IslandAction::EnteredTown
                    } else {
                        IslandAction::Ignored
                    })
                    &&& final(self).owned_cells@ == old(self).owned_cells@
                    &&& final(self).towns@ == old(self).towns@
                    &&& final(self).grid@ == old(self).grid@
                }
            },
    {
        if !Grid::is_in_bounds(p, ISLAND_GRID_SIZE) {
            return IslandAction::Ignored;
        }
        let i = (p.y as usize) * ISLAND_GRID_SIZE + (p.x as usize);
        let t = self.grid[i];
        if t == IslandCellType::Land || t == IslandCellType::Forest {
            if !contains_pos(&self.owned_cells, p) {
                self.owned_cells.push(p);
                IslandAction::Purchased
            } else if !contains_pos(&self.towns, p) {
                self.towns.push(p);
                self.grid.set(i, IslandCellType::Town);
                IslandAction::FoundedTown
            } else {
                IslandAction::Ignored
            }
        } else if t == IslandCellType::Town {
            IslandAction::EnteredTown
        } else {
            IslandAction::Ignored
        }
    }
}

impl Default for Island {
    fn default() -> (r: Island)
        ensures
            r.wf(),
            forall|x: int, y: int|
                0 <= x < ISLAND_GRID_SIZE && 0 <= y < ISLAND_GRID_SIZE ==> #[trigger] r.grid@[y * ISLAND_GRID_SIZE + x]
                    == initial_terrain(x, y),
            r.owned_cells@.len() == 0,
            r.towns@.len() == 0,
    {
        Island::new()
    }
}

} // verus!
