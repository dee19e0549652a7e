//! Vehicles: they follow a road route one waypoint at a time.
use vstd::prelude::*;
use crate::grid::{Grid, Pos, in_bounds, manhattan, manhattan_wide};
use crate::path::{MAX_GRID_SIZE, is_route};
use crate::citizen::{Citizen, traveling_of, traveling_citizens, ROLL_SCALE};
use crate::motion::{Point, cell_point, leg_len, point_along, cell_center, distance, along};

verus! {

/// Vehicles on the roads at most.
pub const MAX_VEHICLES: usize = 10;
/// Vehicle speeds, in sub-cell units a second (30 to 50 pixels a second).
pub const VEHICLE_SPEED_MIN: u64 = 3000;
pub const VEHICLE_SPEED_MAX: u64 = 5000;
/// A vehicle closer than this to its next waypoint has reached it (2 pixels).
pub const WAYPOINT_RADIUS: u64 = 200;

/// A vehicle on its route. It is `travelled` units past waypoint `path_index`, on the
/// way to the next one.
pub struct Vehicle {
    pub start: Pos,
    pub destination: Pos,
    pub path: Vec<Pos>,
    pub path_index: usize,
    /// Sub-cell units a second.
    pub speed: u64,
    pub travelled: u64,
}

impl Vehicle {
    /// The route is done: the cursor is on the last waypoint.
    pub open spec fn has_arrived(&self) -> bool {
        self.path_index + 1 >= self.path@.len()
    }

    pub open spec fn leg_from(&self) -> Point {
        cell_point(self.path@[self.path_index as int])
    }

    pub open spec fn leg_to(&self) -> Point {
        cell_point(self.path@[self.path_index + 1])
    }

    /// Where the vehicle is: on its current leg, or at the last waypoint.
    pub open spec fn location(&self) -> Point {
        if self.has_arrived() {
            cell_point(self.path@.last())
        } else {
            point_along(
                self.leg_from(),
                self.leg_to(),
                crate::simulation::min_int(self.travelled as int, leg_len(self.leg_from(), self.leg_to())),
                leg_len(self.leg_from(), self.leg_to()),
            )
        }
    }

    /// Direction of travel: the step to the next waypoint; none once the route is done.
    pub open spec fn direction(&self) -> Point {
        if self.has_arrived() {
            Point { x: 0, y: 0 }
        } else {
            Point {
                x: (self.path@[self.path_index + 1].x - self.path@[self.path_index as int].x) as i64,
                y: (self.path@[self.path_index + 1].y - self.path@[self.path_index as int].y) as i64,
            }
        }
    }

    /// The vehicle after `dt_ms` milliseconds more along its route.
    pub open spec fn next(self, dt_ms: int) -> Vehicle {
        let len = leg_len(self.leg_from(), self.leg_to());
        let walked = crate::simulation::min_int(self.travelled + self.speed * dt_ms / 1000, len);
        if len - walked < WAYPOINT_RADIUS {
            Vehicle { path_index: (self.path_index + 1) as usize, travelled: 0, ..self }
        } else {
            Vehicle { travelled: walked as u64, ..self }
        }
    }

    /// A new vehicle at the start of `path`.
    pub fn new(path: Vec<Pos>, speed: u64) -> (r: Vehicle)
        requires
            path@.len() >= 1,
        ensures
            r.start == path@[0],
            r.destination == path@.last(),
            r.path@ == path@,
            r.path_index == 0,
            r.speed == speed,
            r.travelled == 0,
    {
        let start = path[0];
        let destination = path[path.len() - 1];
        Vehicle { start, destination, path, path_index: 0, speed, travelled: 0 }
    }

    /// True when the route is done.
    pub fn arrived(&self) -> (r: bool)
        ensures
            r == self.has_arrived(),
    {
        self.path_index >= self.path.len() || self.path.len() - self.path_index <= 1
    }

    /// Moves the vehicle toward its next waypoint; within reach of it, the cursor moves on.
    pub fn update(&mut self, dt_ms: u32)
        requires
            !old(self).has_arrived(),
        ensures
            *final(self) == old(self).next(dt_ms as int),
    {
        let n = self.path.len();
        let i = self.path_index;
        proof {
            assert(i + 1 < n);
        }
        let a = cell_center(self.path[i]);
        let b = cell_center(self.path[i + 1]);
        let len = distance(a, b);
        proof {
            assert(self.speed * dt_ms <= 0xffff_ffff_ffff_ffff * 0xffff_ffff) by (nonlinear_arith)
                requires self.speed <= 0xffff_ffff_ffff_ffff, dt_ms <= 0xffff_ffff;
        }
        let reach = self.travelled as u128 + (self.speed as u128) * (dt_ms as u128) / 1000;
        let walked: u64 = if reach < len as u128 {
            reach as u64
        } else {
            len
        };
        if len - walked < WAYPOINT_RADIUS {
            self.path_index = self.path_index + 1;
            self.travelled = 0;
        } else {
            self.travelled = walked;
        }
    }

    /// Where the vehicle is now: on its current leg, or at the last waypoint.
    pub fn position(&self) -> (r: Point)
        requires
            self.path@.len() >= 1,
        ensures
            r == self.location(),
    {
        if self.arrived() {
            return cell_center(self.path[self.path.len() - 1]);
        }
        let n = self.path.len();
        let i = self.path_index;
        proof {
            assert(i + 1 < n);
        }
        let a = cell_center(self.path[i]);
        let b = cell_center(self.path[i + 1]);
        let len = distance(a, b);
        let t = if self.travelled <= len {
            self.travelled
        } else {
            len
        };
        along(a, b, t, len)
    }

    /// Direction of travel: the step from the current waypoint to the next; none once
    /// the route is done.
    pub fn heading(&self) -> (r: Point)
        ensures
            r == self.direction(),
    {
        if self.arrived() {
            return Point { x: 0, y: 0 };
        }
        let n = self.path.len();
        let i = self.path_index;
        proof {
            assert(i + 1 < n);
        }
        let a = self.path[i];
        let b = self.path[i + 1];
        Point { x: b.x as i64 - a.x as i64, y: b.y as i64 - a.y as i64 }
    }
}

/// The vehicles after one update: those whose route was done are gone, and the others
/// have moved, in the same order.
pub open spec fn moved_vehicles(vs: Seq<Vehicle>, dt_ms: int) -> Seq<Vehicle>
    decreases vs.len(),
{
    if vs.len() == 0 {
        Seq::empty()
    } else {
        let rest = moved_vehicles(vs.drop_first(), dt_ms);
        if vs[0].has_arrived() {
            rest
        } else {
            seq![vs[0].next(dt_ms)] + rest
        }
    }
}

/// Removes the vehicles whose route is done and moves the others.
pub fn update_vehicles(vehicles: &mut Vec<Vehicle>, dt_ms: u32)
    ensures
        final(vehicles)@ == moved_vehicles(old(vehicles)@, dt_ms as int),
{
    let ghost all = vehicles@;
    let mut pending: Vec<Vehicle> = Vec::new();
    std::mem::swap(vehicles, &mut pending);
    while pending.len() > 0
        invariant
            vehicles@ + moved_vehicles(pending@, dt_ms as int) == moved_vehicles(all, dt_ms as int),
        decreases pending@.len(),
    {
        let ghost before = pending@;
        let mut v = pending.remove(0);
        proof {
            assert(pending@ =~= before.drop_first());
        }
        if !v.arrived() {
            let ghost kept = vehicles@;
            v.update(dt_ms);
            vehicles.push(v);
            proof {
                assert(kept + moved_vehicles(before, dt_ms as int) =~= vehicles@ + moved_vehicles(pending@, dt_ms as int));
            }
        }
    }
    proof {
        assert(vehicles@ + moved_vehicles(pending@, dt_ms as int) =~= vehicles@);
    }
}

/// Index of the first of `roads` nearest to `p` by Manhattan distance.
pub open spec fn first_nearest(roads: Seq<Pos>, p: Pos) -> int
    decreases roads.len(),
{
    if roads.len() <= 1 {
        0
    } else {
        let k = first_nearest(roads.drop_last(), p);
        if manhattan(roads.last(), p) < manhattan(roads[k], p) {
            roads.len() - 1
        } else {
            k
        }
    }
}

proof fn lemma_first_nearest_in_range(roads: Seq<Pos>, p: Pos)
    requires
        roads.len() > 0,
    ensures
        0 <= first_nearest(roads, p) < roads.len(),
    decreases roads.len(),
{
    if roads.len() > 1 {
        lemma_first_nearest_in_range(roads.drop_last(), p);
    }
}

/// The road nearest to `position` by Manhattan distance; of equally near ones, the first.
pub fn find_nearest_road(roads: &Vec<Pos>, position: Pos) -> (r: Option<Pos>)
    ensures
        roads@.len() == 0 ==> r is None,
        roads@.len() > 0 ==> r == Some(roads@[first_nearest(roads@, position)]),
        r is Some ==> forall|j: int| 0 <= j < roads@.len() ==> manhattan(r->0, position) <= manhattan(#[trigger] roads@[j], position),
{
    let n = roads.len();
    if n == 0 {
        return None;
    }
    let mut best: usize = 0;
    let mut best_d = manhattan_wide(roads[0], position);
    let mut i: usize = 1;
    proof {
        assert(roads@.subrange(0, 1).len() == 1);
    }
    while i < n
        invariant
            n == roads@.len(),
            1 <= i <= n,
            best < i,
            best == first_nearest(roads@.subrange(0, i as int), position),
            best_d == manhattan(roads@[best as int], position),
            forall|j: int| 0 <= j < i ==> best_d <= manhattan(#[trigger] roads@[j], position),
        decreases n - i,
    {
        proof {
            let pre = roads@.subrange(0, i + 1);
            assert(pre.drop_last() =~= roads@.subrange(0, i as int));
            assert(pre.last() == roads@[i as int]);
            assert(pre[best as int] == roads@[best as int]);
        }
        let d = manhattan_wide(roads[i], position);
        if d < best_d {
            best = i;
            best_d = d;
        }
        i = i + 1;
    }
    proof {
        assert(roads@.subrange(0, n as int) =~= roads@);
    }
    Some(roads[best])
}

/// A vehicle speed in `[VEHICLE_SPEED_MIN, VEHICLE_SPEED_MAX)` picked by `roll`.
pub open spec fn speed_of(roll: int) -> int {
    crate::citizen::roll_duration(VEHICLE_SPEED_MIN as int, VEHICLE_SPEED_MAX as int, roll)
}

/// What starting a vehicle gives: nothing unless fewer than `MAX_VEHICLES` are out, a
/// resident is travelling and there are roads; then, for the travelling resident at
/// `pick % count`, a vehicle exactly when the roads connect the road nearest where its
/// trip set out from to the road nearest its destination, on a shortest such route.
pub open spec fn spawn_outcome(
    r: Option<Vehicle>,
    citizens: Seq<Citizen>,
    vehicle_count: int,
    roads: Seq<Pos>,
    road_mask: Seq<bool>,
    size: int,
    pick: u64,
    speed_roll: u32,
) -> bool {
    let traveling = traveling_of(citizens);
    if vehicle_count >= MAX_VEHICLES || traveling.len() == 0 || roads.len() == 0 {
        r is None
    } else {
        let c = traveling[(pick % (traveling.len() as u64)) as int];
        let from = roads[first_nearest(roads, c.origin)];
        let to = roads[first_nearest(roads, c.destination)];
        &&& (r is Some <==> exists|q: Seq<Pos>| is_route(q, from, to, road_mask, size))
        &&& r is Some ==> {
            &&& is_route(r->0.path@, from, to, road_mask, size)
            &&& forall|q: Seq<Pos>| #[trigger] is_route(q, from, to, road_mask, size) ==> r->0.path@.len() <= q.len()
            &&& r->0.start == from
            &&& r->0.destination == to
            &&& r->0.path_index == 0
            &&& r->0.travelled == 0
            &&& r->0.speed == speed_of(speed_roll as int)
        }
    }
}

/// Starts a vehicle for a travelling resident, if fewer than `MAX_VEHICLES` are out, a
/// resident is travelling and there are roads. The resident is the travelling one at
/// `pick % count`; the vehicle drives along the roads (`road_mask`) from the road nearest
/// the cell the resident's trip set out from to the road nearest its destination, when such a route is found.
pub fn spawn_vehicles(
    citizens: &Vec<Citizen>,
    vehicle_count: usize,
    roads: &Vec<Pos>,
    road_mask: &Vec<bool>,
    size: usize,
    pick: u64,
    speed_roll: u32,
) -> (r: Option<Vehicle>)
    requires
        0 < size <= MAX_GRID_SIZE,
        road_mask@.len() == size * size,
        forall|j: int| 0 <= j < roads@.len() ==> in_bounds(#[trigger] roads@[j], size as int),
    ensures
        spawn_outcome(r, citizens@, vehicle_count as int, roads@, road_mask@, size as int, pick, speed_roll),
{
    if vehicle_count >= MAX_VEHICLES {
        return None;
    }
    let traveling = traveling_citizens(citizens);
    if traveling.len() == 0 || roads.len() == 0 {
        return None;
    }
    let c = traveling[(pick % (traveling.len() as u64)) as usize];
    proof {
        lemma_first_nearest_in_range(roads@, c.origin);
        lemma_first_nearest_in_range(roads@, c.destination);
    }
    let from = find_nearest_road(roads, c.origin);
    let to = find_nearest_road(roads, c.destination);
    match (from, to) {
        (Some(from), Some(to)) => {
            match Grid::find_path(from, to, road_mask, size) {
                Some(path) => {
                    proof {
                        assert(is_route(path@, from, to, road_mask@, size as int));
                    }
                    let speed = crate::citizen::pick_duration(VEHICLE_SPEED_MIN, VEHICLE_SPEED_MAX, speed_roll);
                    Some(Vehicle::new(path, speed))
                },
                None => {
                    proof {
                        assert(!exists|q: Seq<Pos>| is_route(q, from, to, road_mask@, size as int));
                    }
                    None
                },
            }
        },
        _ => None,
    }
}

/// Updating vehicles never adds one, and keeps every route.
pub proof fn lemma_moved_vehicles(vs: Seq<Vehicle>, dt_ms: int)
    requires
        forall|j: int| 0 <= j < vs.len() ==> (#[trigger] vs[j]).path@.len() >= 1,
    ensures
        moved_vehicles(vs, dt_ms).len() <= vs.len(),
        forall|j: int| 0 <= j < moved_vehicles(vs, dt_ms).len() ==> (#[trigger] moved_vehicles(vs, dt_ms)[j]).path@.len() >= 1,
    decreases vs.len(),
{
    if vs.len() > 0 {
        let rest = vs.drop_first();
        assert forall|j: int| 0 <= j < rest.len() implies (#[trigger] rest[j]).path@.len() >= 1 by {
            assert(rest[j] == vs[j + 1]);
        }
        lemma_moved_vehicles(rest, dt_ms);
        let m = moved_vehicles(vs, dt_ms);
        let mr = moved_vehicles(rest, dt_ms);
        if !vs[0].has_arrived() {
            assert forall|j: int| 0 <= j < m.len() implies (#[trigger] m[j]).path@.len() >= 1 by {
                if j > 0 {
                    assert(m[j] == mr[j - 1]);
                }
            }
        }
    }
}

} // verus!
