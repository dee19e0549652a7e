use town_sim::simulation::{
    update_economy, update_happiness, update_population, update_resources, Economy, Population, ResourceInfo,
    Resources, ZoneCounts,
};
use town_sim::town::{BuildingType, Town, ZoneType};
use town_sim::grid::Pos;

fn counts(residential: u64, commercial: u64, industrial: u64, power_plants: u64, water_towers: u64) -> ZoneCounts {
    ZoneCounts { residential, commercial, industrial, power_plants, water_towers }
}

#[test]
fn economy_scenario() {
    let population = Population { total: 100, employed: 50, growth_rate: 10_000 };
    let mut economy = Economy { funds: 1000, income: 0, expenses: 0, tax_rate: 100 };
    update_economy(&mut economy, &population);
    assert_eq!(economy.income, 200);
    assert_eq!(economy.expenses, 50);
    assert_eq!(economy.funds, 1000 - 30);
}

#[test]
fn defaults() {
    let p = Population::default();
    assert_eq!((p.total, p.employed, p.growth_rate), (0, 0, 10_000));
    let e = Economy::default();
    assert_eq!((e.funds, e.tax_rate), (10000, 100));
    let r = Resources::default();
    assert_eq!(r.power.max_storage, 1000);
    assert_eq!(r.services.max_storage, 500);
}

#[test]
fn population_growth_and_jobs() {
    let mut pop = Population { total: 1000, employed: 0, growth_rate: 10_000 };
    update_population(&mut pop, &counts(10, 2, 1, 0, 0), 1000);
    assert_eq!(pop.total, 1010);
    assert_eq!(pop.employed, 15);

    // the residential factor stops at ten (a hundred tenths)
    let mut pop = Population { total: 1000, employed: 0, growth_rate: 10_000 };
    update_population(&mut pop, &counts(500, 1000, 0, 0, 0), 1000);
    assert_eq!(pop.total, 1100);
    assert_eq!(pop.employed, 1100);

    // rounding to nearest: 0.01 * 0.1 * 50 * 1 = 0.05 -> 0; 0.01 * 1.0 * 50 = 0.5 -> 1
    let mut pop = Population { total: 50, employed: 0, growth_rate: 10_000 };
    update_population(&mut pop, &counts(1, 0, 0, 0, 0), 1000);
    assert_eq!(pop.total, 50);
    let mut pop = Population { total: 50, employed: 0, growth_rate: 10_000 };
    update_population(&mut pop, &counts(10, 0, 0, 0, 0), 1000);
    assert_eq!(pop.total, 51);
}

#[test]
fn empty_town_does_not_grow() {
    let mut pop = Population::default();
    update_population(&mut pop, &counts(30, 3, 3, 0, 0), 60_000);
    assert_eq!((pop.total, pop.employed), (0, 0));
}

#[test]
fn resources_produce_consume_and_cap() {
    let mut res = Resources::default();
    let pop = Population { total: 1000, employed: 0, growth_rate: 0 };
    update_resources(&mut res, &counts(0, 4, 2, 20, 0), &pop);
    assert_eq!((res.power.production, res.power.consumption, res.power.storage), (2000, 100, 1000));
    assert_eq!((res.water.production, res.water.consumption, res.water.storage), (0, 100, 0));
    assert_eq!((res.goods.production, res.goods.consumption, res.goods.storage), (10, 50, 0));
    assert_eq!((res.services.production, res.services.consumption), (20, 50));
}

#[test]
fn storage_never_below_zero_or_above_capacity() {
    let mut res = Resources::default();
    res.water.storage = 10;
    res.goods = ResourceInfo { production: 0, consumption: 0, storage: 499, max_storage: 500 };
    let pop = Population { total: 100_000, employed: 0, growth_rate: 0 };
    update_resources(&mut res, &counts(0, 0, 1000, 0, 0), &pop);
    assert_eq!(res.water.storage, 0);
    // 5000 - 5000: unchanged
    assert_eq!(res.goods.storage, 499);
    for r in [res.power, res.water, res.goods, res.services] {
        assert!(0 <= r.storage && r.storage <= r.max_storage);
    }
}

#[test]
fn consumption_rounds_to_nearest() {
    let mut res = Resources::default();
    let pop = Population { total: 15, employed: 0, growth_rate: 0 };
    update_resources(&mut res, &counts(0, 0, 0, 0, 0), &pop);
    assert_eq!(res.power.consumption, 2);
    assert_eq!(res.goods.consumption, 1);
    let pop = Population { total: 14, employed: 0, growth_rate: 0 };
    update_resources(&mut res, &counts(0, 0, 0, 0, 0), &pop);
    assert_eq!(res.power.consumption, 1);
    assert_eq!(res.goods.consumption, 1);
}

#[test]
fn happiness_moves_toward_target() {
    let mut town = Town::new(3);
    let mut res = Resources::default();
    res.power.storage = 10;
    res.water.storage = 10;
    let pop = Population { total: 100, employed: 50, growth_rate: 0 };
    let eco = Economy { funds: 0, income: 0, expenses: 0, tax_rate: 100 };
    // target = 1 * 0.5 * 0.9 = 0.45; a tenth of the gap per second
    update_happiness(&mut town, &res, &pop, &eco, 1000);
    assert_eq!(town.happiness, 45);
    // without water the resource factor halves: target 0.225
    res.water.storage = 0;
    town.happiness = 500;
    update_happiness(&mut town, &res, &pop, &eco, 1000);
    assert_eq!(town.happiness, 500 - 27);
}

#[test]
fn happiness_stays_in_unit_range() {
    let mut town = Town::new(3);
    let res = Resources::default();
    let pop = Population { total: 0, employed: 0, growth_rate: 0 };
    let eco = Economy { funds: 0, income: 0, expenses: 0, tax_rate: 0 };
    update_happiness(&mut town, &res, &pop, &eco, 1_000_000);
    assert_eq!(town.happiness, 1000);
    let eco = Economy { funds: 0, income: 0, expenses: 0, tax_rate: 5000 };
    update_happiness(&mut town, &res, &pop, &eco, 1_000_000);
    assert_eq!(town.happiness, 0);
}

#[test]
fn counts_come_from_the_grid() {
    let mut town = Town::new(6);
    town.set_zone(Pos::new(0, 0), ZoneType::Residential).unwrap();
    town.set_zone(Pos::new(1, 0), ZoneType::Residential).unwrap();
    town.set_zone(Pos::new(2, 0), ZoneType::Commercial).unwrap();
    town.set_zone(Pos::new(3, 0), ZoneType::Industrial).unwrap();
    town.set_building(Pos::new(4, 0), BuildingType::PowerPlant).unwrap();
    town.set_building(Pos::new(5, 5), BuildingType::WaterTower).unwrap();
    assert_eq!(ZoneCounts::of(&town), counts(2, 1, 1, 1, 1));
}
