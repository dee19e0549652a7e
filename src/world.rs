//! One simulated town with its residents and vehicles, advanced tick by tick.
use vstd::prelude::*;
use crate::grid::Pos;
use crate::motion::Point;
use crate::citizen::CitizenState;
use crate::path::MAX_GRID_SIZE;
use crate::town::{BuildingType, Town, ZoneType, building_cells, zone_cells};
use crate::town::road_mask_of;
use crate::simulation::{
    Economy, Population, Resources, Demand, ZoneCounts, update_economy, update_happiness,
    update_population, update_resources, lemma_storage_bounds, utility_use, supply_use, grown_total,
    min_int, JOBS_PER_ZONE, income_of, expenses_of, clamp_int, net_income, settled, next_happiness,
    target_happiness,
};
use crate::citizen::{
    Citizen, CitizenDraws, RESIDENTS_PER_ZONE, ROLL_SCALE, after_spawn, spawn_citizens, stepped_all,
    update_citizens,
};
use crate::vehicle::{MAX_VEHICLES, Vehicle, moved_vehicles, spawn_outcome, spawn_vehicles, update_vehicles};
use crate::chance::random_in;

verus! {

/// A new resident may move in every two seconds.
pub const CITIZEN_SPAWN_MS: u64 = 2000;
/// A new vehicle may set out every three seconds.
pub const VEHICLE_SPAWN_MS: u64 = 3000;

/// The town, its aggregates and its agents.
pub struct Simulation {
    pub town: Town,
    pub population: Population,
    pub economy: Economy,
    pub resources: Resources,
    pub demand: Demand,
    pub citizens: Vec<Citizen>,
    pub vehicles: Vec<Vehicle>,
    /// Milliseconds since a resident last could move in.
    pub citizen_clock_ms: u64,
    /// Milliseconds since a vehicle last could set out.
    pub vehicle_clock_ms: u64,
}

/// A repeating timer at `elapsed` fires within the next `dt_ms` milliseconds.
pub open spec fn clock_fires(elapsed: int, dt_ms: int, period: int) -> bool {
    elapsed + dt_ms >= period
}

/// A repeating timer's reading `dt_ms` milliseconds later.
pub open spec fn clock_after(elapsed: int, dt_ms: int, period: int) -> int {
    if clock_fires(elapsed, dt_ms, period) {
        (elapsed + dt_ms) % period
    } else {
        elapsed + dt_ms
    }
}

/// Runs a repeating timer of `period` milliseconds for `dt_ms` more; true when it fires.
pub fn advance_clock(elapsed: &mut u64, dt_ms: u32, period: u64) -> (r: bool)
    requires
        0 < period <= 1_000_000,
        *old(elapsed) < period,
    ensures
        r == clock_fires(*old(elapsed) as int, dt_ms as int, period as int),
        *final(elapsed) == clock_after(*old(elapsed) as int, dt_ms as int, period as int),
        *final(elapsed) < period,
{
    let e = *elapsed + dt_ms as u64;
    if e >= period {
        *elapsed = e % period;
        true
    } else {
        *elapsed = e;
        false
    }
}

/// The random draws that one tick consumes.
pub struct TickDraws {
    /// One set for each resident, in order.
    pub citizens: Vec<CitizenDraws>,
    pub home_pick: u64,
    pub work_pick: u64,
    pub timer_roll: u32,
    pub vehicle_pick: u64,
    pub speed_roll: u32,
}

/// `new` is `old` advanced by one tick of `dt_ms` milliseconds with the given draws:
/// aggregates from the grid, each resident one step, a resident moving in when the
/// resident clock fires, vehicles moved (finished ones gone), and one vehicle more when
/// the vehicle clock fires and `spawn_vehicles` gives one.
pub open spec fn ticked(old: Simulation, new: Simulation, dt_ms: int, draws: TickDraws) -> bool {
    let grid = old.town.grid@;
    let shops = zone_cells(grid, ZoneType::Commercial);
    let stepped = stepped_all(old.citizens@, dt_ms, draws.citizens@, shops);
    let moved = moved_vehicles(old.vehicles@, dt_ms);
    let outcome = |r: Option<Vehicle>|
        spawn_outcome(
            r,
            new.citizens@,
            moved.len() as int,
            building_cells(grid, BuildingType::Road),
            road_mask_of(grid),
            old.town.size as int,
            draws.vehicle_pick,
            draws.speed_roll,
        );
    &&& new.town.size == old.town.size
    &&& new.town.grid@ == grid
    &&& new.population.growth_rate == old.population.growth_rate
    &&& new.population.total == grown_total(
        old.population.growth_rate as int,
        zone_cells(grid, ZoneType::Residential).len() as int,
        old.population.total as int,
        dt_ms,
    )
    &&& new.population.employed == min_int(
        new.population.total as int,
        (zone_cells(grid, ZoneType::Commercial).len() + zone_cells(grid, ZoneType::Industrial).len()) * JOBS_PER_ZONE,
    )
    &&& new.economy.tax_rate == old.economy.tax_rate
    &&& new.economy.income == income_of(new.population.total as int, new.population.employed as int)
    &&& new.economy.expenses == expenses_of(new.population.total as int)
    &&& new.economy.funds == clamp_int(
        old.economy.funds + net_income(new.economy.income as int, new.economy.expenses as int, old.economy.tax_rate as int),
        i64::MIN as int,
        i64::MAX as int,
    )
    &&& new.resources.power == settled(
        old.resources.power,
        (100 * building_cells(grid, BuildingType::PowerPlant).len()) as int,
        utility_use(new.population.total as int),
    )
    &&& new.resources.water == settled(
        old.resources.water,
        (100 * building_cells(grid, BuildingType::WaterTower).len()) as int,
        utility_use(new.population.total as int),
    )
    &&& new.resources.goods == settled(
        old.resources.goods,
        (5 * zone_cells(grid, ZoneType::Industrial).len()) as int,
        supply_use(new.population.total as int),
    )
    &&& new.resources.services == settled(
        old.resources.services,
        (5 * zone_cells(grid, ZoneType::Commercial).len()) as int,
        supply_use(new.population.total as int),
    )
    &&& new.town.happiness == next_happiness(
        old.town.happiness as int,
        target_happiness(
            new.resources.power.storage as int,
            new.resources.water.storage as int,
            new.population.total as int,
            new.population.employed as int,
            old.economy.tax_rate as int,
        ),
        dt_ms,
    )
    &&& new.citizen_clock_ms == clock_after(old.citizen_clock_ms as int, dt_ms, CITIZEN_SPAWN_MS as int)
    &&& new.citizens@ == (if clock_fires(old.citizen_clock_ms as int, dt_ms, CITIZEN_SPAWN_MS as int) {
        after_spawn(
            stepped,
            zone_cells(grid, ZoneType::Residential),
            zone_cells(grid, ZoneType::Commercial) + zone_cells(grid, ZoneType::Industrial),
            draws.home_pick,
            draws.work_pick,
            draws.timer_roll,
        )
    } else {
        stepped
    })
    &&& new.vehicle_clock_ms == clock_after(old.vehicle_clock_ms as int, dt_ms, VEHICLE_SPAWN_MS as int)
    &&& if clock_fires(old.vehicle_clock_ms as int, dt_ms, VEHICLE_SPAWN_MS as int) {
        (new.vehicles@ == moved && outcome(None)) || (new.vehicles@ == moved.push(new.vehicles@.last()) && outcome(
            Some(new.vehicles@.last()),
        ))
    } else {
        new.vehicles@ == moved
    }
}

fn pick_any() -> (r: u64) {
    random_in(0, 0xffff_ffff_ffff_ffff)
}

fn roll() -> (r: u32)
    ensures
        r < ROLL_SCALE,
{
    random_in(0, ROLL_SCALE as u64) as u32
}

impl Simulation {
    pub open spec fn wf(&self) -> bool {
        &&& self.town.wf()
        &&& forall|j: int| 0 <= j < self.citizens@.len() ==> (#[trigger] self.citizens@[j]).wf()
        &&& forall|j: int| 0 <= j < self.vehicles@.len() ==> (#[trigger] self.vehicles@[j]).path@.len() >= 1
        &&& self.citizen_clock_ms < CITIZEN_SPAWN_MS
        &&& self.vehicle_clock_ms < VEHICLE_SPAWN_MS
    }

    /// An empty town of `size` by `size` cells with starting aggregates and no agents.
    pub fn new(size: usize) -> (r: Simulation)
        requires
            0 < size <= MAX_GRID_SIZE,
        ensures
            r.wf(),
            r.town.size == size,
            r.citizens@.len() == 0,
            r.vehicles@.len() == 0,
    {
        Simulation {
            town: Town::new(size),
            population: Population::default(),
            economy: Economy::default(),
            resources: Resources::default(),
            demand: Demand::default(),
            citizens: Vec::new(),
            vehicles: Vec::new(),
            citizen_clock_ms: 0,
            vehicle_clock_ms: 0,
        }
    }

    /// Advances the town by `dt_ms` milliseconds with the given draws: aggregates first,
    /// then the residents and vehicles, then new residents and vehicles when their clocks
    /// fire.
    pub fn tick_with(&mut self, dt_ms: u32, draws: &TickDraws)
        requires
            old(self).wf(),
            draws.citizens@.len() == old(self).citizens@.len(),
        ensures
            final(self).wf(),
            ticked(*old(self), *final(self), dt_ms as int, *draws),
            final(self).town.happiness <= 1000,
            final(self).resources.power.max_storage >= 0 ==> 0 <= final(self).resources.power.storage
                <= final(self).resources.power.max_storage,
            final(self).resources.water.max_storage >= 0 ==> 0 <= final(self).resources.water.storage
                <= final(self).resources.water.max_storage,
            final(self).resources.goods.max_storage >= 0 ==> 0 <= final(self).resources.goods.storage
                <= final(self).resources.goods.max_storage,
            final(self).resources.services.max_storage >= 0 ==> 0 <= final(self).resources.services.storage
                <= final(self).resources.services.max_storage,
            final(self).citizens@.len() > old(self).citizens@.len() ==> final(self).citizens@.len()
                <= RESIDENTS_PER_ZONE * zone_cells(old(self).town.grid@, ZoneType::Residential).len(),
            final(self).vehicles@.len() <= old(self).vehicles@.len() || final(self).vehicles@.len() <= MAX_VEHICLES,
    {
        let counts = ZoneCounts::of(&self.town);
        update_population(&mut self.population, &counts, dt_ms);
        update_economy(&mut self.economy, &self.population);
        let ghost stores = self.resources;
        update_resources(&mut self.resources, &counts, &self.population);
        proof {
            let total = self.population.total as int;
            if stores.power.max_storage >= 0 {
                lemma_storage_bounds(stores.power.storage as int, 100 * counts.power_plants, utility_use(total), stores.power.max_storage as int);
            }
            if stores.water.max_storage >= 0 {
                lemma_storage_bounds(stores.water.storage as int, 100 * counts.water_towers, utility_use(total), stores.water.max_storage as int);
            }
            if stores.goods.max_storage >= 0 {
                lemma_storage_bounds(stores.goods.storage as int, 5 * counts.industrial, supply_use(total), stores.goods.max_storage as int);
            }
            if stores.services.max_storage >= 0 {
                lemma_storage_bounds(stores.services.storage as int, 5 * counts.commercial, supply_use(total), stores.services.max_storage as int);
            }
        }
        update_happiness(&mut self.town, &self.resources, &self.population, &self.economy, dt_ms);

        let shops = self.town.cells_with_zone(ZoneType::Commercial);
        update_citizens(&mut self.citizens, &shops, dt_ms, &draws.citizens);
        let ghost vehicles_before = self.vehicles@;
        update_vehicles(&mut self.vehicles, dt_ms);
        proof {
            crate::vehicle::lemma_moved_vehicles(vehicles_before, dt_ms as int);
        }

        if advance_clock(&mut self.citizen_clock_ms, dt_ms, CITIZEN_SPAWN_MS) {
            let residential = self.town.cells_with_zone(ZoneType::Residential);
            let mut workplaces = self.town.cells_with_zone(ZoneType::Commercial);
            let mut industrial = self.town.cells_with_zone(ZoneType::Industrial);
            workplaces.append(&mut industrial);
            spawn_citizens(&mut self.citizens, &residential, &workplaces, draws.home_pick, draws.work_pick, draws.timer_roll);
        }

        if advance_clock(&mut self.vehicle_clock_ms, dt_ms, VEHICLE_SPAWN_MS) {
            let roads = self.town.cells_with_building(BuildingType::Road);
            let mask = self.town.road_mask();
            proof {
                self.town.lemma_scans_in_bounds(ZoneType::Commercial, BuildingType::Road);
            }
            let spawned = spawn_vehicles(
                &self.citizens,
                self.vehicles.len(),
                &roads,
                &mask,
                self.town.size,
                draws.vehicle_pick,
                draws.speed_roll,
            );
            match spawned {
                Some(v) => {
                    self.vehicles.push(v);
                },
                None => {},
            }
        }
    }

    /// Advances the town by `dt_ms` milliseconds, drawing what the tick needs from the
    /// thread's random source; see `tick_with`.
    pub fn tick(&mut self, dt_ms: u32)
        requires
            old(self).wf(),
        ensures
            final(self).wf(),
            exists|d: TickDraws| #[trigger] ticked(*old(self), *final(self), dt_ms as int, d),
            final(self).town.happiness <= 1000,
            final(self).citizens@.len() > old(self).citizens@.len() ==> final(self).citizens@.len()
                <= RESIDENTS_PER_ZONE * zone_cells(old(self).town.grid@, ZoneType::Residential).len(),
    {
        let n = self.citizens.len();
        let shop_count: u64 = if self.town.cells_with_zone(ZoneType::Commercial).len() > 0 {
            self.town.cells_with_zone(ZoneType::Commercial).len() as u64
        } else {
            1
        };
        let mut citizens: Vec<CitizenDraws> = Vec::new();
        let mut i: usize = 0;
        while i < n
            invariant
                i <= n,
                citizens@.len() == i,
                shop_count > 0,
            decreases n - i,
        {
            citizens.push(CitizenDraws { work_roll: roll(), shop_pick: random_in(0, shop_count), timer_roll: roll() });
            i = i + 1;
        }
        let draws = TickDraws {
            citizens,
            home_pick: pick_any(),
            work_pick: pick_any(),
            timer_roll: roll(),
            vehicle_pick: pick_any(),
            speed_roll: roll(),
        };
        self.tick_with(dt_ms, &draws);
    }

    /// Position and state of every resident, in order.
    pub fn list_residents(&self) -> (r: Vec<(Point, CitizenState)>)
        requires
            self.wf(),
        ensures
            r@.len() == self.citizens@.len(),
            forall|j: int| 0 <= j < r@.len() ==> #[trigger] r@[j] == (self.citizens@[j].location(), self.citizens@[j].state),
    {
        let mut r: Vec<(Point, CitizenState)> = Vec::new();
        let mut i: usize = 0;
        while i < self.citizens.len()
            invariant
                self.wf(),
                i <= self.citizens@.len(),
                r@.len() == i,
                forall|j: int| 0 <= j < i ==> #[trigger] r@[j] == (self.citizens@[j].location(), self.citizens@[j].state),
            decreases self.citizens@.len() - i,
        {
            let c = &self.citizens[i];
            r.push((c.position(), c.state));
            i = i + 1;
        }
        r
    }

    /// Position and heading of every vehicle, in order.
    pub fn list_vehicles(&self) -> (r: Vec<(Point, Point)>)
        requires
            self.wf(),
        ensures
            r@.len() == self.vehicles@.len(),
            forall|j: int| 0 <= j < r@.len() ==> #[trigger] r@[j] == (self.vehicles@[j].location(), self.vehicles@[j].direction()),
    {
        let mut r: Vec<(Point, Point)> = Vec::new();
        let mut i: usize = 0;
        while i < self.vehicles.len()
            invariant
                self.wf(),
                i <= self.vehicles@.len(),
                r@.len() == i,
                forall|j: int| 0 <= j < i ==> #[trigger] r@[j] == (self.vehicles@[j].location(), self.vehicles@[j].direction()),
            decreases self.vehicles@.len() - i,
        {
            let v = &self.vehicles[i];
            r.push((v.position(), v.heading()));
            i = i + 1;
        }
        r
    }

    /// Zones the cell at `p`; see `Town::set_zone`.
    pub fn apply_zone_edit(&mut self, p: Pos, zone: ZoneType) -> (r: Result<(), crate::town::GridError>)
        requires
            old(self).wf(),
        ensures
            final(self).wf(),
            final(self).town.size == old(self).town.size,
            crate::grid::in_bounds(p, old(self).town.size as int) ==> r is Ok && final(self).town.grid@
                == old(self).town.grid@.update(
                crate::grid::cell_index(p, old(self).town.size as int),
                crate::town::zoned(old(self).town.grid@[crate::grid::cell_index(p, old(self).town.size as int)], zone),
            ),
            !crate::grid::in_bounds(p, old(self).town.size as int) ==> r is Err && final(self).town.grid@
                == old(self).town.grid@,
    {
        self.town.set_zone(p, zone)
    }

    /// Places a building on the cell at `p`; see `Town::set_building`.
    pub fn apply_building_edit(&mut self, p: Pos, building: BuildingType) -> (r: Result<(), crate::town::GridError>)
        requires
            old(self).wf(),
        ensures
            final(self).wf(),
            final(self).town.size == old(self).town.size,
            crate::grid::in_bounds(p, old(self).town.size as int) ==> r is Ok && final(self).town.grid@
                == old(self).town.grid@.update(
                crate::grid::cell_index(p, old(self).town.size as int),
                crate::town::built(old(self).town.grid@[crate::grid::cell_index(p, old(self).town.size as int)], building),
            ),
            !crate::grid::in_bounds(p, old(self).town.size as int) ==> r is Err && final(self).town.grid@
                == old(self).town.grid@,
    {
        self.town.set_building(p, building)
    }
}

} // verus!
