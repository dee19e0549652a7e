//! Town-wide aggregates advanced once per tick: population, economy, resources and
//! happiness. Rates and factors are fixed-point integers: a growth rate in millionths,
//! a tax rate and happiness in thousandths; time in milliseconds.
use vstd::prelude::*;
use crate::path::MAX_GRID_SIZE;
use crate::town::{BuildingType, Town, ZoneType, building_cells, zone_cells};

verus! {

/// Yearly-style growth rate a new population starts with: 0.01, in millionths.
pub const BASE_POPULATION_GROWTH: u32 = 10_000;
/// Residents that one commercial or industrial cell employs.
pub const JOBS_PER_ZONE: u64 = 5;
/// rate (millionths) x residential factor (tenths) x elapsed (milliseconds)
pub const GROWTH_DENOM: u128 = 10_000_000_000;
/// Largest number of cells that a grid holds.
pub const MAX_CELLS: u64 = 2_147_395_600;

/// Population counts.
pub struct Population {
    pub total: u32,
    pub employed: u32,
    /// Growth rate in millionths per second.
    pub growth_rate: u32,
}

impl Default for Population {
    fn default() -> (r: Self)
        ensures
            r.total == 0 && r.employed == 0 && r.growth_rate == BASE_POPULATION_GROWTH,
    {
        Population { total: 0, employed: 0, growth_rate: BASE_POPULATION_GROWTH }
    }
}

/// Town finances.
pub struct Economy {
    pub funds: i64,
    pub income: i64,
    pub expenses: i64,
    /// Share of income collected, in thousandths.
    pub tax_rate: u32,
}

impl Default for Economy {
    fn default() -> (r: Self)
        ensures
            r.funds == 10000 && r.income == 0 && r.expenses == 0 && r.tax_rate == 100,
    {
        Economy { funds: 10000, income: 0, expenses: 0, tax_rate: 100 }
    }
}

/// Balance of one resource.
#[derive(Clone, Copy, Debug, PartialEq, Eq, Structural)]
pub struct ResourceInfo {
    pub production: i64,
    pub consumption: i64,
    pub storage: i64,
    pub max_storage: i64,
}

impl ResourceInfo {
    /// An empty store that holds at most `max_storage`.
    pub fn with_capacity(max_storage: i64) -> (r: ResourceInfo)
        ensures
            r == (ResourceInfo { production: 0, consumption: 0, storage: 0, max_storage }),
    {
        ResourceInfo { production: 0, consumption: 0, storage: 0, max_storage }
    }
}

/// The four resource balances.
pub struct Resources {
    pub power: ResourceInfo,
    pub water: ResourceInfo,
    pub goods: ResourceInfo,
    pub services: ResourceInfo,
}

impl Default for Resources {
    fn default() -> (r: Self)
        ensures
            r.power == (ResourceInfo { production: 0, consumption: 0, storage: 0, max_storage: 1000 }),
            r.water == (ResourceInfo { production: 0, consumption: 0, storage: 0, max_storage: 1000 }),
            r.goods == (ResourceInfo { production: 0, consumption: 0, storage: 0, max_storage: 500 }),
            r.services == (ResourceInfo { production: 0, consumption: 0, storage: 0, max_storage: 500 }),
    {
        Resources {
            power: ResourceInfo::with_capacity(1000),
            water: ResourceInfo::with_capacity(1000),
            goods: ResourceInfo::with_capacity(500),
            services: ResourceInfo::with_capacity(500),
        }
    }
}

/// Demand for each zone kind, in thousandths.
pub struct Demand {
    pub residential: u32,
    pub commercial: u32,
    pub industrial: u32,
}

impl Default for Demand {
    fn default() -> (r: Self)
        ensures
            r.residential == 500 && r.commercial == 300 && r.industrial == 200,
    {
        Demand { residential: 500, commercial: 300, industrial: 200 }
    }
}

/// What one scan of the grid finds.
#[derive(Clone, Copy, Debug, PartialEq, Eq, Structural)]
pub struct ZoneCounts {
    pub residential: u64,
    pub commercial: u64,
    pub industrial: u64,
    pub power_plants: u64,
    pub water_towers: u64,
}

impl ZoneCounts {
    /// No count exceeds the number of cells of the largest grid.
    pub open spec fn bounded(&self) -> bool {
        &&& self.residential <= MAX_CELLS
        &&& self.commercial <= MAX_CELLS
        &&& self.industrial <= MAX_CELLS
        &&& self.power_plants <= MAX_CELLS
        &&& self.water_towers <= MAX_CELLS
    }

    /// Counts the zone and building kinds that the aggregates depend on.
    pub fn of(town: &Town) -> (r: ZoneCounts)
        requires
            town.wf(),
        ensures
            r.bounded(),
            r.residential == zone_cells(town.grid@, ZoneType::Residential).len(),
            r.commercial == zone_cells(town.grid@, ZoneType::Commercial).len(),
            r.industrial == zone_cells(town.grid@, ZoneType::Industrial).len(),
            r.power_plants == building_cells(town.grid@, BuildingType::PowerPlant).len(),
            r.water_towers == building_cells(town.grid@, BuildingType::WaterTower).len(),
    {
        proof {
            let s = town.size as int;
            assert(s * s <= MAX_GRID_SIZE * MAX_GRID_SIZE) by (nonlinear_arith)
                requires 0 < s <= MAX_GRID_SIZE;
            lemma_zone_cells_len(town.grid@, ZoneType::Residential);
            lemma_zone_cells_len(town.grid@, ZoneType::Commercial);
            lemma_zone_cells_len(town.grid@, ZoneType::Industrial);
            lemma_building_cells_len(town.grid@, BuildingType::PowerPlant);
            lemma_building_cells_len(town.grid@, BuildingType::WaterTower);
        }
        ZoneCounts {
            residential: town.cells_with_zone(ZoneType::Residential).len() as u64,
            commercial: town.cells_with_zone(ZoneType::Commercial).len() as u64,
            industrial: town.cells_with_zone(ZoneType::Industrial).len() as u64,
            power_plants: town.cells_with_building(BuildingType::PowerPlant).len() as u64,
            water_towers: town.cells_with_building(BuildingType::WaterTower).len() as u64,
        }
    }
}

proof fn lemma_zone_cells_len(cells: Seq<crate::town::TownCell>, z: ZoneType)
    ensures
        zone_cells(cells, z).len() <= cells.len(),
    decreases cells.len(),
{
    if cells.len() > 0 {
        lemma_zone_cells_len(cells.drop_last(), z);
    }
}

proof fn lemma_building_cells_len(cells: Seq<crate::town::TownCell>, b: BuildingType)
    ensures
        building_cells(cells, b).len() <= cells.len(),
    decreases cells.len(),
{
    if cells.len() > 0 {
        lemma_building_cells_len(cells.drop_last(), b);
    }
}

pub open spec fn min_int(a: int, b: int) -> int {
    if a <= b {
        a
    } else {
        b
    }
}

pub open spec fn max_int(a: int, b: int) -> int {
    if a >= b {
        a
    } else {
        b
    }
}

pub open spec fn clamp_int(v: int, lo: int, hi: int) -> int {
    if v < lo {
        lo
    } else if v > hi {
        hi
    } else {
        v
    }
}

/// Division rounding toward zero, as integer division does on machine integers.
pub open spec fn div_trunc(a: int, b: int) -> int {
    if a >= 0 {
        a / b
    } else {
        -((-a) / b)
    }
}

/// `round(rate * min(residential * 0.1, 10) * total * dt)`, with the rate in millionths
/// and `dt` in milliseconds.
pub open spec fn growth_of(rate: int, residential: int, total: int, dt_ms: int) -> int {
    (rate * min_int(residential, 100) * total * dt_ms + GROWTH_DENOM / 2) / (GROWTH_DENOM as int)
}

/// Population after growth, held to what a `u32` counts.
pub open spec fn grown_total(rate: int, residential: int, total: int, dt_ms: int) -> int {
    min_int(total + growth_of(rate, residential, total, dt_ms), u32::MAX as int)
}

/// Grows the population and fills the jobs that commercial and industrial cells offer.
pub fn update_population(population: &mut Population, counts: &ZoneCounts, dt_ms: u32)
    requires
        counts.bounded(),
    ensures
        final(population).growth_rate == old(population).growth_rate,
        final(population).total == grown_total(
            old(population).growth_rate as int,
            counts.residential as int,
            old(population).total as int,
            dt_ms as int,
        ),
        final(population).employed == min_int(
            final(population).total as int,
            (counts.commercial + counts.industrial) * JOBS_PER_ZONE,
        ),
{
    let factor: u64 = if counts.residential < 100 {
        counts.residential
    } else {
        100
    };
    let rate = population.growth_rate as u128;
    let total = population.total as u128;
    let dt = dt_ms as u128;
    proof {
        assert(rate * factor <= 0xffff_ffff * 100) by (nonlinear_arith)
            requires rate <= 0xffff_ffff, factor <= 100;
        assert(rate * factor * total <= 0xffff_ffff * 100 * 0xffff_ffff) by (nonlinear_arith)
            requires rate * factor <= 0xffff_ffff * 100, 0 <= total <= 0xffff_ffff;
        assert(rate * factor * total * dt <= 0xffff_ffff * 100 * 0xffff_ffff * 0xffff_ffff) by (nonlinear_arith)
            requires rate * factor * total <= 0xffff_ffff * 100 * 0xffff_ffff, 0 <= dt <= 0xffff_ffff;
    }
    let scaled = rate * (factor as u128);
    let scaled = scaled * total;
    let scaled = scaled * dt;
    let growth = (scaled + GROWTH_DENOM / 2) / GROWTH_DENOM;
    let grown = total + growth;
    let new_total: u32 = if grown > 0xffff_ffffu128 {
        0xffff_ffffu32
    } else {
        grown as u32
    };
    population.total = new_total;
    let jobs: u64 = (counts.commercial + counts.industrial) * JOBS_PER_ZONE;
    population.employed = if (new_total as u64) < jobs {
        new_total
    } else {
        jobs as u32
    };
}

/// `total * 1 + employed * 2`
pub open spec fn income_of(total: int, employed: int) -> int {
    total + 2 * employed
}

/// `total * 0.5`, rounded toward zero.
pub open spec fn expenses_of(total: int) -> int {
    total / 2
}

/// The change of funds in one tick: the taxed share of income (rounded toward zero)
/// less the expenses; the tax scales income only.
pub open spec fn net_income(income: int, expenses: int, tax_rate: int) -> int {
    income * tax_rate / 1000 - expenses
}

/// Collects taxes and pays the town's running costs.
pub fn update_economy(economy: &mut Economy, population: &Population)
    ensures
        final(economy).tax_rate == old(economy).tax_rate,
        final(economy).income == income_of(population.total as int, population.employed as int),
        final(economy).expenses == expenses_of(population.total as int),
        final(economy).funds == clamp_int(
            old(economy).funds + net_income(
                final(economy).income as int,
                final(economy).expenses as int,
                old(economy).tax_rate as int,
            ),
            i64::MIN as int,
            i64::MAX as int,
        ),
{
    let income = population.total as i64 + 2 * (population.employed as i64);
    let expenses = (population.total / 2) as i64;
    economy.income = income;
    economy.expenses = expenses;
    proof {
        assert(income * economy.tax_rate <= 0x3_0000_0000 * 0xffff_ffff) by (nonlinear_arith)
            requires 0 <= income <= 0x3_0000_0000, economy.tax_rate <= 0xffff_ffff;
    }
    let taxed = ((income as u128) * (economy.tax_rate as u128) / 1000) as i128;
    let funds = economy.funds as i128 + (taxed - expenses as i128);
    economy.funds = if funds < i64::MIN as i128 {
        i64::MIN
    } else if funds > i64::MAX as i128 {
        i64::MAX
    } else {
        funds as i64
    };
}

/// `round(total * 0.1)`: what the population draws of power and of water.
pub open spec fn utility_use(total: int) -> int {
    (total + 5) / 10
}

/// `round(total * 0.05)`: what the population draws of goods and of services.
pub open spec fn supply_use(total: int) -> int {
    (total + 10) / 20
}

/// Storage after one tick: the net change never takes more than what is stored, and
/// the result is capped at the capacity.
pub open spec fn next_storage(storage: int, production: int, consumption: int, max_storage: int) -> int {
    min_int(storage + max_int(production - consumption, -storage), max_storage)
}

/// The balance after one tick with the given production and consumption.
pub open spec fn settled(r: ResourceInfo, production: int, consumption: int) -> ResourceInfo {
    ResourceInfo {
        production: production as i64,
        consumption: consumption as i64,
        storage: next_storage(r.storage as int, production, consumption, r.max_storage as int) as i64,
        max_storage: r.max_storage,
    }
}

fn settle(r: &mut ResourceInfo, production: i64, consumption: i64)
    requires
        0 <= production <= 100 * MAX_CELLS,
        0 <= consumption <= u32::MAX,
    ensures
        *final(r) == settled(*old(r), production as int, consumption as int),
        0 <= next_storage(old(r).storage as int, production as int, consumption as int, old(r).max_storage as int)
            || old(r).max_storage < 0,
{
    let storage = r.storage as i128;
    let delta = production as i128 - consumption as i128;
    let floor = -storage;
    let change = if delta >= floor {
        delta
    } else {
        floor
    };
    let stored = storage + change;
    let capped = if stored <= r.max_storage as i128 {
        stored
    } else {
        r.max_storage as i128
    };
    r.production = production;
    r.consumption = consumption;
    r.storage = capped as i64;
}

/// Sets production from the grid scan and consumption from the population, and moves
/// each store by the difference.
pub fn update_resources(resources: &mut Resources, counts: &ZoneCounts, population: &Population)
    requires
        counts.bounded(),
    ensures
        final(resources).power == settled(
            old(resources).power,
            100 * counts.power_plants,
            utility_use(population.total as int),
        ),
        final(resources).water == settled(
            old(resources).water,
            100 * counts.water_towers,
            utility_use(population.total as int),
        ),
        final(resources).goods == settled(
            old(resources).goods,
            5 * counts.industrial,
            supply_use(population.total as int),
        ),
        final(resources).services == settled(
            old(resources).services,
            5 * counts.commercial,
            supply_use(population.total as int),
        ),
{
    let total = population.total as i64;
    let utility = (total + 5) / 10;
    let supply = (total + 10) / 20;
    settle(&mut resources.power, 100 * counts.power_plants as i64, utility);
    settle(&mut resources.water, 100 * counts.water_towers as i64, utility);
    settle(&mut resources.goods, 5 * counts.industrial as i64, supply);
    settle(&mut resources.services, 5 * counts.commercial as i64, supply);
}

/// 1 when both power and water are in store, else 0.5 (thousandths).
pub open spec fn resource_factor(power_storage: int, water_storage: int) -> int {
    if power_storage > 0 && water_storage > 0 {
        1000
    } else {
        500
    }
}

/// Share of the population that is employed, 1 for an empty town (thousandths).
pub open spec fn employment_factor(total: int, employed: int) -> int {
    if total > 0 {
        employed * 1000 / total
    } else {
        1000
    }
}

/// `resource_factor * employment_factor * (1 - tax_rate)`, in thousandths.
pub open spec fn target_happiness(power_storage: int, water_storage: int, total: int, employed: int, tax_rate: int) -> int {
    div_trunc(
        resource_factor(power_storage, water_storage) * employment_factor(total, employed) * (1000 - tax_rate),
        1_000_000,
    )
}

/// Happiness moves a tenth of the gap to the target per second, and stays in `[0, 1]`.
pub open spec fn next_happiness(happiness: int, target: int, dt_ms: int) -> int {
    clamp_int(happiness + div_trunc((target - happiness) * dt_ms, 10_000), 0, 1000)
}

fn div_trunc_i128(a: i128, b: i128) -> (r: i128)
    requires
        a > i128::MIN,
        b > 0,
    ensures
        r == div_trunc(a as int, b as int),
{
    if a >= 0 {
        a / b
    } else {
        -((-a) / b)
    }
}

/// Smooths the town's happiness toward what resources, jobs and taxes allow.
pub fn update_happiness(town: &mut Town, resources: &Resources, population: &Population, economy: &Economy, dt_ms: u32)
    ensures
        final(town).size == old(town).size,
        final(town).grid == old(town).grid,
        final(town).happiness == next_happiness(
            old(town).happiness as int,
            target_happiness(
                resources.power.storage as int,
                resources.water.storage as int,
                population.total as int,
                population.employed as int,
                economy.tax_rate as int,
            ),
            dt_ms as int,
        ),
        final(town).happiness <= 1000,
{
    let rf: i128 = if resources.power.storage > 0 && resources.water.storage > 0 {
        1000
    } else {
        500
    };
    let ef: i128 = if population.total > 0 {
        (population.employed as i128) * 1000 / (population.total as i128)
    } else {
        1000
    };
    let tf: i128 = 1000 - economy.tax_rate as i128;
    proof {
        assert(0 <= ef <= 0xffff_ffff * 1000) by (nonlinear_arith)
            requires
                population.total > 0 ==> ef == (population.employed as int) * 1000 / (population.total as int),
                population.total == 0 ==> ef == 1000,
                population.employed <= 0xffff_ffff;
        assert(-0x1_0000_0000 * 0x1_0000_0000 * 1000 * 1000 <= rf * ef * tf <= 1000 * 0x1_0000_0000 * 1000 * 1000) by (nonlinear_arith)
            requires 500 <= rf <= 1000, 0 <= ef <= 0xffff_ffff * 1000, -0xffff_ffff <= tf <= 1000;
    }
    let target = div_trunc_i128(rf * ef * tf, 1_000_000);
    let h = town.happiness as i128;
    proof {
        assert(-0x1_0000_0000 * 0x1_0000_0000 * 1000 <= target <= 0x1_0000_0000 * 1000) by (nonlinear_arith)
            requires
                target == div_trunc(rf * ef * tf, 1_000_000),
                -0x1_0000_0000 * 0x1_0000_0000 * 1000 * 1000 <= rf * ef * tf <= 1000 * 0x1_0000_0000 * 1000 * 1000;
        assert(-0x1_0000_0000 * 0x1_0000_0000 * 0x1_0000_0000 * 2000 <= (target - h) * dt_ms <= 0x1_0000_0000 * 0x1_0000_0000 * 2000) by (nonlinear_arith)
            requires
                -0x1_0000_0000 * 0x1_0000_0000 * 1000 <= target <= 0x1_0000_0000 * 1000,
                0 <= h <= 0xffff_ffff,
                0 <= dt_ms <= 0xffff_ffff;
    }
    let next = h + div_trunc_i128((target - h) * (dt_ms as i128), 10_000);
    town.happiness = if next < 0 {
        0
    } else if next > 1000 {
        1000
    } else {
        next as u32
    };
}

/// After any tick, every store lies between empty and its capacity, whatever it held
/// before and whatever was produced and consumed: the net change never takes more than
/// is stored, and the result is capped.
pub proof fn lemma_storage_bounds(storage: int, production: int, consumption: int, max_storage: int)
    requires
        max_storage >= 0,
    ensures
        0 <= next_storage(storage, production, consumption, max_storage) <= max_storage,
{
}

/// After any tick, happiness lies in `[0, 1]` (thousandths), whatever the inputs.
pub proof fn lemma_happiness_bounds(happiness: int, target: int, dt_ms: int)
    ensures
        0 <= next_happiness(happiness, target, dt_ms) <= 1000,
{
}

} // verus!
