use town_sim::citizen::{spawn_citizens, traveling_citizens, Citizen, CitizenDraws, CitizenState};
use town_sim::grid::{Grid, Pos};
use town_sim::island::{Island, IslandAction, IslandCellType, ISLAND_GRID_SIZE};
use town_sim::motion::Point;
use town_sim::world::{Simulation, TickDraws};
use town_sim::town::{BuildingType, Town, ZoneType};
use town_sim::vehicle::{find_nearest_road, spawn_vehicles, update_vehicles, Vehicle};

fn p(x: i32, y: i32) -> Pos {
    Pos::new(x, y)
}

fn draws(work_roll: u32, shop_pick: u64, timer_roll: u32) -> CitizenDraws {
    CitizenDraws { work_roll, shop_pick, timer_roll }
}

fn main_street() -> Town {
    let mut town = Town::new(10);
    for x in 2..=7 {
        town.set_building(p(x, 2), BuildingType::Road).unwrap();
    }
    town.set_zone(p(2, 2), ZoneType::Residential).unwrap();
    town.set_zone(p(7, 2), ZoneType::Commercial).unwrap();
    town
}

#[test]
fn resident_without_work_goes_shopping_along_the_road() {
    let town = main_street();
    let residential = town.cells_with_zone(ZoneType::Residential);
    let shops = town.cells_with_zone(ZoneType::Commercial);
    assert_eq!(residential, vec![p(2, 2)]);
    assert_eq!(shops, vec![p(7, 2)]);

    let mut citizens = Vec::new();
    spawn_citizens(&mut citizens, &residential, &Vec::new(), 0, 0, 0);
    assert_eq!(citizens.len(), 1);
    let mut c = citizens[0];
    assert_eq!((c.home, c.workplace, c.state, c.timer_ms), (p(2, 2), None, CitizenState::AtHome, 5000));

    for _ in 0..4 {
        c.update(1000, draws(0, 0, 0), &shops);
        assert_eq!(c.state, CitizenState::AtHome);
    }
    c.update(1000, draws(0, 0, 0), &shops);
    assert_eq!(c.state, CitizenState::Shopping);
    assert_eq!(c.destination, p(7, 2));

    let before = c.position();
    c.update(1000, draws(0, 0, 0), &shops);
    let after = c.position();
    assert_eq!(before, Point { x: 2400, y: 2400 });
    assert_eq!(after, Point { x: 4400, y: 2400 });

    let path = Grid::find_path(p(2, 2), p(7, 2), &town.road_mask(), 10).unwrap();
    assert_eq!(path, vec![p(2, 2), p(3, 2), p(4, 2), p(5, 2), p(6, 2), p(7, 2)]);
}

#[test]
fn resident_with_work_follows_the_cycle_back_home() {
    let mut c = Citizen::move_in(p(0, 0), Some(p(3, 4)), 500);
    assert_eq!(c.timer_ms, 10_000);
    let shops = vec![p(9, 9)];
    c.update(10_000, draws(699, 0, 0), &shops);
    assert_eq!((c.state, c.destination, c.timer_ms), (CitizenState::GoingToWork, p(3, 4), 5000));
    // five cells to walk: 6000 units at 2000 a second
    let mut ticks = 0;
    while c.state == CitizenState::GoingToWork {
        c.update(1000, draws(0, 0, 0), &shops);
        ticks += 1;
        assert!(ticks < 10);
    }
    assert_eq!(ticks, 3);
    assert_eq!((c.state, c.timer_ms), (CitizenState::AtWork, 20_000));
    assert_eq!(c.position(), Point { x: 3600, y: 4800 });
    c.update(20_000, draws(0, 0, 999), &shops);
    assert_eq!((c.state, c.destination, c.timer_ms), (CitizenState::GoingHome, p(0, 0), 9995));
    let mut ticks = 0;
    while c.state != CitizenState::AtHome {
        c.update(1000, draws(0, 0, 0), &shops);
        ticks += 1;
        assert!(ticks < 10);
    }
    assert_eq!((c.state, c.timer_ms), (CitizenState::AtHome, 10_000));
    assert_eq!(c.position(), Point { x: 0, y: 0 });
}

#[test]
fn unlucky_roll_sends_worker_shopping_or_keeps_them_home() {
    let mut c = Citizen::move_in(p(0, 0), Some(p(3, 4)), 0);
    c.update(5000, draws(700, 3, 0), &vec![p(1, 1), p(2, 2)]);
    assert_eq!((c.state, c.destination), (CitizenState::Shopping, p(2, 2)));

    let mut c = Citizen::move_in(p(0, 0), None, 0);
    c.update(5000, draws(0, 0, 0), &Vec::new());
    assert_eq!((c.state, c.destination, c.timer_ms), (CitizenState::AtHome, p(0, 0), 5000));
}

#[test]
fn shopper_returns_home_after_arriving() {
    let mut c = Citizen::move_in(p(0, 0), None, 0);
    c.update(5000, draws(0, 0, 0), &vec![p(1, 0)]);
    assert_eq!(c.state, CitizenState::Shopping);
    c.update(1000, draws(0, 0, 0), &vec![p(1, 0)]);
    assert_eq!((c.state, c.destination), (CitizenState::GoingHome, p(0, 0)));
    assert_eq!(c.position(), Point { x: 1200, y: 0 });
    c.update(1000, draws(0, 0, 0), &vec![p(1, 0)]);
    assert_eq!(c.state, CitizenState::AtHome);
}

#[test]
fn capacity_is_five_per_residential_cell() {
    let residential = vec![p(1, 1)];
    let mut citizens = Vec::new();
    for k in 0..8 {
        spawn_citizens(&mut citizens, &residential, &vec![p(4, 4)], k, k, 0);
        assert!(citizens.len() <= 5);
    }
    assert_eq!(citizens.len(), 5);
    assert!(citizens.iter().all(|c| c.workplace == Some(p(4, 4))));
    spawn_citizens(&mut citizens, &Vec::new(), &Vec::new(), 0, 0, 0);
    assert_eq!(citizens.len(), 5);
}

#[test]
fn nearest_road_prefers_the_first_of_equals() {
    let roads = vec![p(5, 5), p(0, 0), p(2, 0)];
    assert_eq!(find_nearest_road(&roads, p(1, 0)), Some(p(0, 0)));
    assert_eq!(find_nearest_road(&roads, p(5, 4)), Some(p(5, 5)));
    assert_eq!(find_nearest_road(&Vec::new(), p(1, 0)), None);
}

#[test]
fn vehicle_spawns_for_a_traveller() {
    let town = main_street();
    let shops = town.cells_with_zone(ZoneType::Commercial);
    let roads = town.cells_with_building(BuildingType::Road);
    let mask = town.road_mask();
    let mut c = Citizen::move_in(p(2, 2), None, 0);
    let citizens_home = vec![c];
    assert_eq!(spawn_vehicles(&citizens_home, 0, &roads, &mask, 10, 0, 0).map(|v| v.path.len()), None);
    c.update(5000, draws(0, 0, 0), &shops);
    let citizens = vec![c];
    assert_eq!(traveling_citizens(&citizens).len(), 1);
    let v = spawn_vehicles(&citizens, 0, &roads, &mask, 10, 7, 500).unwrap();
    assert_eq!((v.start, v.destination, v.path_index, v.speed), (p(2, 2), p(7, 2), 0, 4000));
    assert_eq!(v.path.len(), 6);
    assert!(spawn_vehicles(&citizens, 10, &roads, &mask, 10, 0, 0).is_none());
    assert!(spawn_vehicles(&citizens, 0, &Vec::new(), &mask, 10, 0, 0).is_none());
}

#[test]
fn vehicles_advance_and_leave_when_done() {
    let mut v = Vehicle::new(vec![p(0, 0), p(1, 0), p(1, 1)], 3000);
    assert_eq!(v.heading(), Point { x: 1, y: 0 });
    v.update(300);
    assert_eq!((v.path_index, v.travelled), (0, 900));
    assert_eq!(v.position(), Point { x: 900, y: 0 });
    v.update(100);
    assert_eq!((v.path_index, v.travelled), (1, 0));
    assert_eq!(v.heading(), Point { x: 0, y: 1 });
    let mut vehicles = vec![v, Vehicle::new(vec![p(3, 3)], 3000)];
    update_vehicles(&mut vehicles, 400);
    assert_eq!(vehicles.len(), 1);
    assert_eq!(vehicles[0].path_index, 2);
    assert!(vehicles[0].arrived());
    update_vehicles(&mut vehicles, 400);
    assert!(vehicles.is_empty());
}

#[test]
fn simulation_ticks_spawn_residents() {
    let mut sim = Simulation::new(10);
    sim.apply_building_edit(p(3, 3), BuildingType::Road).unwrap();
    sim.apply_zone_edit(p(2, 2), ZoneType::Residential).unwrap();
    assert!(sim.apply_zone_edit(p(20, 2), ZoneType::Residential).is_err());
    sim.tick(1000);
    assert_eq!(sim.citizens.len(), 0);
    sim.tick(1000);
    assert_eq!(sim.citizens.len(), 1);
    let c = sim.citizens[0];
    assert_eq!((c.home, c.workplace, c.state), (p(2, 2), None, CitizenState::AtHome));
    assert!(5000 <= c.timer_ms && c.timer_ms < 15000);
    for _ in 0..40 {
        sim.tick(2000);
        assert!(sim.citizens.len() <= 5);
        assert!(sim.town.happiness <= 1000);
    }
    assert_eq!(sim.citizens.len(), 5);
    let listed = sim.list_residents();
    assert_eq!(listed.len(), 5);
    assert_eq!(listed[0].0, Point { x: 2400, y: 2400 });
    assert!(sim.list_vehicles().is_empty());
}

#[test]
fn island_starts_with_land_in_the_middle() {
    let island = Island::default();
    let at = |x: usize, y: usize| island.grid[y * ISLAND_GRID_SIZE + x];
    assert_eq!(at(0, 0), IslandCellType::Water);
    assert_eq!(at(5, 5), IslandCellType::Land);
    assert_eq!(at(13, 5), IslandCellType::Mountain);
    assert_eq!(at(7, 7), IslandCellType::Forest);
    assert_eq!(at(15, 15), IslandCellType::Water);
}

#[test]
fn island_purchase_then_found_then_enter() {
    let mut island = Island::new();
    assert_eq!(island.interact(p(6, 5)), IslandAction::Purchased);
    assert_eq!(island.owned_cells, vec![p(6, 5)]);
    assert_eq!(island.interact(p(6, 5)), IslandAction::FoundedTown);
    assert_eq!(island.towns, vec![p(6, 5)]);
    assert_eq!(island.interact(p(6, 5)), IslandAction::EnteredTown);
    assert_eq!(island.interact(p(0, 0)), IslandAction::Ignored);
    assert_eq!(island.interact(p(13, 5)), IslandAction::Ignored);
    assert_eq!(island.interact(p(25, 5)), IslandAction::Ignored);
}

#[test]
fn new_residents_get_homes_spread_over_the_residential_cells() {
    let mut sim = Simulation::new(12);
    for x in 0..10 {
        sim.apply_zone_edit(p(x, 0), ZoneType::Residential).unwrap();
    }
    for _ in 0..20 {
        sim.tick(2000);
    }
    assert_eq!(sim.citizens.len(), 20);
    let first = sim.citizens[0].home;
    assert!(sim.citizens.iter().all(|c| c.home.y == 0 && c.home.x < 10));
    assert!(sim.citizens.iter().any(|c| c.home != first));
}

#[test]
fn vehicle_starts_where_the_trip_set_out() {
    let mut town = Town::new(6);
    town.set_building(p(0, 0), BuildingType::Road).unwrap();
    town.set_building(p(1, 0), BuildingType::Road).unwrap();
    town.set_building(p(2, 0), BuildingType::Road).unwrap();
    town.set_building(p(3, 0), BuildingType::Road).unwrap();
    let roads = vec![p(0, 0), p(3, 0)];
    let mask = town.road_mask();
    // at work at (3, 0), then on the way home to (0, 0)
    let mut c = Citizen::move_in(p(0, 0), Some(p(3, 0)), 0);
    c.update(5000, draws(0, 0, 0), &Vec::new());
    while c.state == CitizenState::GoingToWork {
        c.update(1000, draws(0, 0, 0), &Vec::new());
    }
    c.update(40_000, draws(0, 0, 0), &Vec::new());
    assert_eq!((c.state, c.origin, c.destination), (CitizenState::GoingHome, p(3, 0), p(0, 0)));
    let v = spawn_vehicles(&vec![c], 0, &roads, &mask, 6, 0, 0).unwrap();
    assert_eq!((v.start, v.destination), (p(3, 0), p(0, 0)));
    assert_eq!(v.path, vec![p(3, 0), p(2, 0), p(1, 0), p(0, 0)]);
}

#[test]
fn shopper_heading_home_sets_out_from_the_shop() {
    let mut c = Citizen::move_in(p(0, 0), None, 0);
    assert_eq!(c.origin, p(0, 0));
    c.update(5000, draws(0, 0, 0), &vec![p(1, 0)]);
    assert_eq!(c.origin, p(0, 0));
    c.update(1000, draws(0, 0, 0), &vec![p(1, 0)]);
    assert_eq!((c.state, c.origin), (CitizenState::GoingHome, p(1, 0)));
}

#[test]
fn tick_with_given_draws_is_repeatable() {
    let build = || {
        let mut sim = Simulation::new(8);
        for x in 0..4 {
            sim.apply_zone_edit(p(x, 1), ZoneType::Residential).unwrap();
        }
        sim.apply_zone_edit(p(5, 5), ZoneType::Industrial).unwrap();
        sim
    };
    let mut a = build();
    let mut b = build();
    let draws = TickDraws { citizens: Vec::new(), home_pick: 6, work_pick: 3, timer_roll: 500, vehicle_pick: 0, speed_roll: 0 };
    a.tick_with(1000, &draws);
    assert_eq!(a.citizens.len(), 0);
    assert_eq!(a.citizen_clock_ms, 1000);
    let draws = TickDraws { citizens: Vec::new(), home_pick: 6, work_pick: 3, timer_roll: 500, vehicle_pick: 0, speed_roll: 0 };
    a.tick_with(1500, &draws);
    assert_eq!(a.citizen_clock_ms, 500);
    assert_eq!(a.citizens.len(), 1);
    assert_eq!((a.citizens[0].home, a.citizens[0].workplace, a.citizens[0].timer_ms), (p(2, 1), Some(p(5, 5)), 10_000));
    b.tick_with(2500, &draws);
    assert_eq!(b.citizens[0], a.citizens[0]);
}
