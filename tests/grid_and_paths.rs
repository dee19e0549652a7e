use town_sim::grid::{Grid, Pos};
use town_sim::path::MAX_GRID_SIZE;
use town_sim::town::{BuildingType, GridError, Town, ZoneType};

fn p(x: i32, y: i32) -> Pos {
    Pos::new(x, y)
}

fn mask_from(rows: &[&str]) -> (Vec<bool>, usize) {
    let size = rows.len();
    let mut mask = vec![false; size * size];
    for (y, row) in rows.iter().enumerate() {
        for (x, ch) in row.chars().enumerate() {
            mask[y * size + x] = ch == '.';
        }
    }
    (mask, size)
}

fn bfs_len(mask: &[bool], size: usize, start: Pos, goal: Pos) -> Option<usize> {
    let idx = |q: Pos| q.y as usize * size + q.x as usize;
    let mut dist = vec![usize::MAX; size * size];
    let mut queue = std::collections::VecDeque::new();
    dist[idx(start)] = 0;
    queue.push_back(start);
    while let Some(cur) = queue.pop_front() {
        if cur == goal {
            return Some(dist[idx(cur)] + 1);
        }
        for nb in Grid::get_orthogonal_positions(cur) {
            if !Grid::is_in_bounds(nb, size) || !(mask[idx(nb)] || nb == goal) {
                continue;
            }
            if dist[idx(nb)] == usize::MAX {
                dist[idx(nb)] = dist[idx(cur)] + 1;
                queue.push_back(nb);
            }
        }
    }
    None
}

fn assert_route(path: &[Pos], start: Pos, goal: Pos, mask: &[bool], size: usize) {
    assert_eq!(path[0], start);
    assert_eq!(*path.last().unwrap(), goal);
    for w in path.windows(2) {
        assert_eq!(Grid::manhattan_distance(w[0], w[1]), 1);
    }
    for q in &path[1..path.len() - 1] {
        assert!(mask[q.y as usize * size + q.x as usize]);
    }
}

#[test]
fn adjacency_and_distance() {
    assert!(Grid::are_adjacent(p(1, 1), p(1, 2)));
    assert!(Grid::are_adjacent(p(1, 1), p(2, 2)));
    assert!(!Grid::are_adjacent(p(1, 1), p(1, 1)));
    assert!(!Grid::are_adjacent(p(1, 1), p(3, 1)));
    assert_eq!(Grid::manhattan_distance(p(0, 0), p(3, -4)), 7);
    assert!(Grid::is_in_bounds(p(0, 9), 10));
    assert!(!Grid::is_in_bounds(p(10, 0), 10));
    assert!(!Grid::is_in_bounds(p(-1, 0), 10));
}

#[test]
fn neighbour_lists() {
    assert_eq!(Grid::get_orthogonal_positions(p(5, 5)), [p(5, 4), p(4, 5), p(6, 5), p(5, 6)]);
    let adj = Grid::get_adjacent_positions(p(0, 0));
    assert_eq!(adj[0], p(-1, -1));
    assert_eq!(adj[7], p(1, 1));
    assert_eq!(adj.len(), 8);
}

#[test]
fn trivial_path_when_start_is_goal() {
    let mask = vec![false; 16];
    assert_eq!(Grid::find_path(p(1, 1), p(1, 1), &mask, 4), Some(vec![p(1, 1)]));
}

#[test]
fn straight_road_path() {
    let mut town = Town::new(10);
    for x in 2..=7 {
        town.set_building(p(x, 2), BuildingType::Road).unwrap();
    }
    let mask = town.road_mask();
    let path = Grid::find_path(p(2, 2), p(7, 2), &mask, 10).unwrap();
    assert_eq!(path, vec![p(2, 2), p(3, 2), p(4, 2), p(5, 2), p(6, 2), p(7, 2)]);
}

#[test]
fn shortest_around_walls() {
    let (mask, size) = mask_from(&[
        ".......", //
        ".#####.", //
        ".#...#.", //
        ".#.#.#.", //
        ".#.#...", //
        ".###.#.", //
        ".......", //
    ]);
    let pairs = [(p(0, 0), p(2, 2)), (p(0, 0), p(6, 6)), (p(2, 2), p(4, 2)), (p(4, 6), p(0, 3)), (p(6, 0), p(2, 4))];
    for (s, g) in pairs {
        let expected = bfs_len(&mask, size, s, g);
        let found = Grid::find_path(s, g, &mask, size);
        assert_eq!(found.as_ref().map(|v| v.len()), expected, "{:?} -> {:?}", s, g);
        if let Some(path) = found {
            assert_route(&path, s, g, &mask, size);
        }
    }
}

#[test]
fn no_path_when_walled_off() {
    let (mask, size) = mask_from(&[
        "..#..", //
        "..#..", //
        "###..", //
        ".....", //
        ".....", //
    ]);
    assert_eq!(Grid::find_path(p(0, 0), p(4, 4), &mask, size), None);
    assert!(Grid::find_path(p(3, 0), p(0, 4), &mask, size).is_some());
}

#[test]
fn endpoints_need_not_be_accessible() {
    let (mask, size) = mask_from(&[
        "#...#", //
        "#####", //
        "#####", //
        "#####", //
        "#####", //
    ]);
    let path = Grid::find_path(p(0, 0), p(4, 0), &mask, size).unwrap();
    assert_eq!(path.len(), 5);
    assert_route(&path, p(0, 0), p(4, 0), &mask, size);
}

#[test]
fn largest_grid_size_is_accepted() {
    assert_eq!(MAX_GRID_SIZE, 46340);
    let mask = vec![true; 9];
    assert_eq!(Grid::find_path(p(0, 0), p(2, 2), &mask, 3).unwrap().len(), 5);
}

#[test]
fn zone_and_building_edits_stay_exclusive() {
    let mut town = Town::new(5);
    town.set_zone(p(1, 1), ZoneType::Residential).unwrap();
    let c = town.cell_at(p(1, 1)).unwrap();
    assert_eq!((c.zone, c.building, c.accessible), (ZoneType::Residential, BuildingType::Empty, false));

    town.set_building(p(1, 1), BuildingType::PowerPlant).unwrap();
    let c = town.cell_at(p(1, 1)).unwrap();
    assert_eq!((c.zone, c.building), (ZoneType::Empty, BuildingType::PowerPlant));

    town.set_zone(p(1, 1), ZoneType::Commercial).unwrap();
    let c = town.cell_at(p(1, 1)).unwrap();
    assert_eq!((c.zone, c.building), (ZoneType::Commercial, BuildingType::Empty));

    town.set_building(p(2, 2), BuildingType::Road).unwrap();
    town.set_zone(p(2, 2), ZoneType::Industrial).unwrap();
    let c = town.cell_at(p(2, 2)).unwrap();
    assert_eq!((c.zone, c.building, c.accessible), (ZoneType::Industrial, BuildingType::Road, true));
    assert_eq!(c.position, p(2, 2));
}

#[test]
fn out_of_bounds_is_refused() {
    let mut town = Town::new(5);
    assert_eq!(town.cell_at(p(5, 0)), Err(GridError::OutOfBounds));
    assert_eq!(town.set_zone(p(-1, 0), ZoneType::Residential), Err(GridError::OutOfBounds));
    assert_eq!(town.set_building(p(0, 7), BuildingType::Road), Err(GridError::OutOfBounds));
    assert!(town.cells_with_zone(ZoneType::Residential).is_empty());
}

#[test]
fn scans_in_grid_order() {
    let mut town = Town::new(4);
    town.set_zone(p(3, 0), ZoneType::Residential).unwrap();
    town.set_zone(p(0, 2), ZoneType::Residential).unwrap();
    town.set_zone(p(1, 0), ZoneType::Residential).unwrap();
    town.set_building(p(2, 3), BuildingType::WaterTower).unwrap();
    assert_eq!(town.cells_with_zone(ZoneType::Residential), vec![p(1, 0), p(3, 0), p(0, 2)]);
    assert_eq!(town.cells_with_building(BuildingType::WaterTower), vec![p(2, 3)]);
    assert_eq!(town.grid_size(), 4);
}

#[test]
fn ends_outside_the_grid() {
    let mask = vec![true; 16];
    assert_eq!(Grid::find_path(p(7, 7), p(7, 7), &mask, 4), Some(vec![p(7, 7)]));
    assert_eq!(Grid::find_path(p(-1, 0), p(0, 0), &mask, 4), None);
    assert_eq!(Grid::find_path(p(0, 0), p(4, 0), &mask, 4), None);
}
