//! The town: a square grid of cells, each with a zone and a building.
use vstd::prelude::*;
use crate::grid::{Grid, Pos, in_bounds, cell_index};
use crate::path::{MAX_GRID_SIZE, pos_at};

verus! {

/// Side length of the town grid that the simulation opens with.
pub const TOWN_GRID_SIZE: usize = 50;

/// Land-use classification of a cell.
#[derive(Clone, Copy, Debug, PartialEq, Eq, Structural)]
pub enum ZoneType {
    Empty,
    Residential,
    Commercial,
    Industrial,
}

/// Structure standing on a cell.
#[derive(Clone, Copy, Debug, PartialEq, Eq, Structural)]
pub enum BuildingType {
    Empty,
    Road,
    TownHall,
    PowerPlant,
    WaterTower,
    Police,
    Fire,
    Hospital,
    School,
    Park,
    LawAndOrder,
    Education,
    Transportation,
    Health,
    Energy,
    Housing,
    SocialServices,
    Upgrade,
}

/// Anything that sits at a grid coordinate.
pub trait GridCell {
    fn position(&self) -> Pos;
}

/// One cell of the town grid.
#[derive(Clone, Copy, Debug, PartialEq, Eq, Structural)]
pub struct TownCell {
    pub position: Pos,
    pub zone: ZoneType,
    pub building: BuildingType,
    pub accessible: bool,
}

impl GridCell for TownCell {
    fn position(&self) -> Pos {
        self.position
    }
}

/// Why a grid access was refused.
#[derive(Clone, Copy, Debug, PartialEq, Eq, Structural)]
pub enum GridError {
    OutOfBounds,
}

/// Accessibility follows the road, and a building other than a road leaves no zone.
pub open spec fn cell_consistent(c: TownCell) -> bool {
    &&& c.accessible == (c.building == BuildingType::Road)
    &&& (c.building != BuildingType::Empty && c.building != BuildingType::Road ==> c.zone
        == ZoneType::Empty)
}

/// Positions of the cells with zone `z`, in grid order.
pub open spec fn zone_cells(cells: Seq<TownCell>, z: ZoneType) -> Seq<Pos>
    decreases cells.len(),
{
    if cells.len() == 0 {
        Seq::empty()
    } else {
        let rest = zone_cells(cells.drop_last(), z);
        if cells.last().zone == z {
            rest.push(cells.last().position)
        } else {
            rest
        }
    }
}

/// Positions of the cells holding building `b`, in grid order.
pub open spec fn building_cells(cells: Seq<TownCell>, b: BuildingType) -> Seq<Pos>
    decreases cells.len(),
{
    if cells.len() == 0 {
        Seq::empty()
    } else {
        let rest = building_cells(cells.drop_last(), b);
        if cells.last().building == b {
            rest.push(cells.last().position)
        } else {
            rest
        }
    }
}

/// Which cells hold a road, cell by cell.
pub open spec fn road_mask_of(cells: Seq<TownCell>) -> Seq<bool> {
    Seq::new(cells.len(), |i: int| cells[i].building == BuildingType::Road)
}

/// The cell that results from zoning `c` as `z`: a road stays, other buildings go.
pub open spec fn zoned(c: TownCell, z: ZoneType) -> TownCell {
    let b = if c.building == BuildingType::Road {
        BuildingType::Road
    } else {
        BuildingType::Empty
    };
    TownCell { position: c.position, zone: z, building: b, accessible: b == BuildingType::Road }
}

/// The cell that results from placing building `b` on `c`: the zone is cleared.
pub open spec fn built(c: TownCell, b: BuildingType) -> TownCell {
    TownCell { position: c.position, zone: ZoneType::Empty, building: b, accessible: b == BuildingType::Road }
}

/// The town's grid and its happiness, in thousandths.
pub struct Town {
    pub size: usize,
    pub grid: Vec<TownCell>,
    pub happiness: u32,
}

impl Town {
    pub open spec fn wf(&self) -> bool {
        &&& 0 < self.size <= MAX_GRID_SIZE
        &&& self.grid@.len() == self.size * self.size
        &&& forall|i: int|
            0 <= i < self.grid@.len() ==> (#[trigger] self.grid@[i]).position == pos_at(i, self.size as int)
                && cell_consistent(self.grid@[i])
        &&& self.happiness <= 1000
    }

    /// A grid of `size` by `size` empty cells.
    pub fn new(size: usize) -> (r: Town)
        requires
            0 < size <= MAX_GRID_SIZE,
        ensures
            r.wf(),
            r.size == size,
            r.happiness == 0,
            forall|i: int| 0 <= i < r.grid@.len() ==> (#[trigger] r.grid@[i]).zone == ZoneType::Empty
                && r.grid@[i].building == BuildingType::Empty,
    {
        proof {
            assert(size * size <= MAX_GRID_SIZE * MAX_GRID_SIZE) by (nonlinear_arith)
                requires 0 < size <= MAX_GRID_SIZE;
        }
        let nn = size * size;
        let mut grid: Vec<TownCell> = Vec::new();
        let mut i: usize = 0;
        while i < nn
            invariant
                0 < size <= MAX_GRID_SIZE,
                nn == size * size,
                i <= nn,
                grid@.len() == i,
                forall|k: int| 0 <= k < i ==> (#[trigger] grid@[k]).position == pos_at(k, size as int)
                    && cell_consistent(grid@[k]) && grid@[k].zone == ZoneType::Empty
                    && grid@[k].building == BuildingType::Empty,
            decreases nn - i,
        {
            let p = crate::path::pos_of(i, size);
            grid.push(TownCell { position: p, zone: ZoneType::Empty, building: BuildingType::Empty, accessible: false });
            i = i + 1;
        }
        Town { size, grid, happiness: 0 }
    }

    /// Side length of the grid.
    pub fn grid_size(&self) -> (r: usize)
        ensures
            r == self.size,
    {
        self.size
    }

    /// The cell at `p`.
    pub fn cell_at(&self, p: Pos) -> (r: Result<TownCell, GridError>)
        requires
            self.wf(),
        ensures
            in_bounds(p, self.size as int) ==> r == Ok::<TownCell, GridError>(self.grid@[cell_index(p, self.size as int)]),
            !in_bounds(p, self.size as int) ==> r == Err::<TownCell, GridError>(GridError::OutOfBounds),
    {
        if !Grid::is_in_bounds(p, self.size) {
            return Err(GridError::OutOfBounds);
        }
        let i = crate::path::index_of(p, self.size);
        Ok(self.grid[i])
    }

    /// Zones the cell at `p` as `zone`; a road on it stays, any other building is removed.
    pub fn set_zone(&mut self, p: Pos, zone: ZoneType) -> (r: Result<(), GridError>)
        requires
            old(self).wf(),
        ensures
            final(self).wf(),
            final(self).size == old(self).size,
            final(self).happiness == old(self).happiness,
            in_bounds(p, old(self).size as int) ==> r is Ok && final(self).grid@ == old(self).grid@.update(
                cell_index(p, old(self).size as int),
                zoned(old(self).grid@[cell_index(p, old(self).size as int)], zone),
            ),
            !in_bounds(p, old(self).size as int) ==> r == Err::<(), GridError>(GridError::OutOfBounds)
                && final(self).grid@ == old(self).grid@,
    {
        if !Grid::is_in_bounds(p, self.size) {
            return Err(GridError::OutOfBounds);
        }
        let i = crate::path::index_of(p, self.size);
        let c = self.grid[i];
        let b = if c.building == BuildingType::Road {
            BuildingType::Road
        } else {
            BuildingType::Empty
        };
        let accessible = b == BuildingType::Road;
        self.grid.set(i, TownCell { position: c.position, zone, building: b, accessible });
        Ok(())
    }

    /// Places `building` on the cell at `p` and clears its zone.
    pub fn set_building(&mut self, p: Pos, building: BuildingType) -> (r: Result<(), GridError>)
        requires
            old(self).wf(),
        ensures
            final(self).wf(),
            final(self).size == old(self).size,
            final(self).happiness == old(self).happiness,
            in_bounds(p, old(self).size as int) ==> r is Ok && final(self).grid@ == old(self).grid@.update(
                cell_index(p, old(self).size as int),
                built(old(self).grid@[cell_index(p, old(self).size as int)], building),
            ),
            !in_bounds(p, old(self).size as int) ==> r == Err::<(), GridError>(GridError::OutOfBounds)
                && final(self).grid@ == old(self).grid@,
    {
        if !Grid::is_in_bounds(p, self.size) {
            return Err(GridError::OutOfBounds);
        }
        let i = crate::path::index_of(p, self.size);
        let c = self.grid[i];
        let accessible = building == BuildingType::Road;
        self.grid.set(i, TownCell { position: c.position, zone: ZoneType::Empty, building, accessible });
        Ok(())
    }

    /// Positions of all cells zoned `zone`, in grid order.
    pub fn cells_with_zone(&self, zone: ZoneType) -> (r: Vec<Pos>)
        ensures
            r@ == zone_cells(self.grid@, zone),
    {
        let n = self.grid.len();
        let mut r: Vec<Pos> = Vec::new();
        let mut i: usize = 0;
        while i < n
            invariant
                n == self.grid@.len(),
                i <= n,
                r@ == zone_cells(self.grid@.subrange(0, i as int), zone),
            decreases n - i,
        {
            proof {
                assert(self.grid@.subrange(0, i + 1).drop_last() =~= self.grid@.subrange(0, i as int));
            }
            if self.grid[i].zone == zone {
                r.push(self.grid[i].position);
            }
            i = i + 1;
        }
        proof {
            assert(self.grid@.subrange(0, n as int) =~= self.grid@);
        }
        r
    }

    /// Positions of all cells holding `building`, in grid order.
    pub fn cells_with_building(&self, building: BuildingType) -> (r: Vec<Pos>)
        ensures
            r@ == building_cells(self.grid@, building),
    {
        let n = self.grid.len();
        let mut r: Vec<Pos> = Vec::new();
        let mut i: usize = 0;
        while i < n
            invariant
                n == self.grid@.len(),
                i <= n,
                r@ == building_cells(self.grid@.subrange(0, i as int), building),
            decreases n - i,
        {
            proof {
                assert(self.grid@.subrange(0, i + 1).drop_last() =~= self.grid@.subrange(0, i as int));
            }
            if self.grid[i].building == building {
                r.push(self.grid[i].position);
            }
            i = i + 1;
        }
        proof {
            assert(self.grid@.subrange(0, n as int) =~= self.grid@);
        }
        r
    }

    /// The accessibility mask of the grid: a cell is admitted when it holds a road.
    pub fn road_mask(&self) -> (r: Vec<bool>)
        ensures
            r@ == road_mask_of(self.grid@),
    {
        let n = self.grid.len();
        let mut r: Vec<bool> = Vec::new();
        let mut i: usize = 0;
        while i < n
            invariant
                n == self.grid@.len(),
                i <= n,
                r@.len() == i,
                forall|k: int| 0 <= k < i ==> #[trigger] r@[k] == (self.grid@[k].building == BuildingType::Road),
            decreases n - i,
        {
            r.push(self.grid[i].building == BuildingType::Road);
            i = i + 1;
        }
        proof {
            assert(r@ =~= road_mask_of(self.grid@));
        }
        r
    }
}

proof fn lemma_zone_cells_from(cells: Seq<TownCell>, z: ZoneType, size: int)
    requires
        forall|i: int| 0 <= i < cells.len() ==> in_bounds(#[trigger] cells[i].position, size),
    ensures
        forall|k: int| 0 <= k < zone_cells(cells, z).len() ==> in_bounds(#[trigger] zone_cells(cells, z)[k], size),
        zone_cells(cells, z).len() <= cells.len(),
    decreases cells.len(),
{
    if cells.len() > 0 {
        let pre = cells.drop_last();
        assert forall|i: int| 0 <= i < pre.len() implies in_bounds(#[trigger] pre[i].position, size) by {
            assert(pre[i] == cells[i]);
        }
        lemma_zone_cells_from(pre, z, size);
        assert(in_bounds(cells[cells.len() - 1].position, size));
    }
}

proof fn lemma_building_cells_from(cells: Seq<TownCell>, b: BuildingType, size: int)
    requires
        forall|i: int| 0 <= i < cells.len() ==> in_bounds(#[trigger] cells[i].position, size),
    ensures
        forall|k: int| 0 <= k < building_cells(cells, b).len() ==> in_bounds(#[trigger] building_cells(cells, b)[k], size),
        building_cells(cells, b).len() <= cells.len(),
    decreases cells.len(),
{
    if cells.len() > 0 {
        let pre = cells.drop_last();
        assert forall|i: int| 0 <= i < pre.len() implies in_bounds(#[trigger] pre[i].position, size) by {
            assert(pre[i] == cells[i]);
        }
        lemma_building_cells_from(pre, b, size);
        assert(in_bounds(cells[cells.len() - 1].position, size));
    }
}

impl Town {
    /// Every position that a scan of a well-formed town hands out lies on the grid.
    pub proof fn lemma_scans_in_bounds(&self, z: ZoneType, b: BuildingType)
        requires
            self.wf(),
        ensures
            forall|k: int| 0 <= k < zone_cells(self.grid@, z).len() ==> in_bounds(#[trigger] zone_cells(self.grid@, z)[k], self.size as int),
            forall|k: int| 0 <= k < building_cells(self.grid@, b).len() ==> in_bounds(#[trigger] building_cells(self.grid@, b)[k], self.size as int),
    {
        assert forall|i: int| 0 <= i < self.grid@.len() implies in_bounds(#[trigger] self.grid@[i].position, self.size as int) by {
            crate::path::lemma_pos_at(i, self.size as int);
        }
        lemma_zone_cells_from(self.grid@, z, self.size as int);
        lemma_building_cells_from(self.grid@, b, self.size as int);
    }
}

} // verus!
