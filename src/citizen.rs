//! Residents: their daily cycle between home, work and the shops.
use vstd::prelude::*;
use crate::grid::Pos;
use crate::motion::{Point, cell_point, point_ok, leg_len, point_along, cell_center, distance, along};

verus! {

/// Residents that one residential cell houses.
pub const RESIDENTS_PER_ZONE: usize = 5;
/// Walking speed, in sub-cell units a second (20 pixels a second).
pub const WALK_SPEED: u64 = 2000;
/// A walker closer than this to its destination has arrived (5 pixels).
pub const ARRIVAL_RADIUS: u64 = 500;
/// Random rolls are read in thousandths.
pub const ROLL_SCALE: u32 = 1000;
/// Chance, in thousandths, that a resident with a job leaves home for work.
pub const WORK_CHANCE: u32 = 700;
/// Happiness of a new resident, in thousandths.
pub const INITIAL_HAPPINESS: u32 = 500;

/// Timer ranges, in milliseconds.
pub const FIRST_IDLE_MIN: u64 = 5000;
pub const FIRST_IDLE_MAX: u64 = 15000;
pub const OUTING_MIN: u64 = 5000;
pub const OUTING_MAX: u64 = 10000;
pub const WORK_MIN: u64 = 20000;
pub const WORK_MAX: u64 = 40000;
pub const REST_MIN: u64 = 10000;
pub const REST_MAX: u64 = 30000;

/// What a resident is doing.
#[derive(Clone, Copy, Debug, PartialEq, Eq, Structural)]
pub enum CitizenState {
    AtHome,
    GoingToWork,
    AtWork,
    GoingHome,
    Shopping,
}

pub open spec fn is_traveling(s: CitizenState) -> bool {
    s == CitizenState::GoingToWork || s == CitizenState::GoingHome || s == CitizenState::Shopping
}

/// A resident. While stationary it stands at `leg_start`; while travelling it is
/// `travelled` units along the straight line from `leg_start` to its destination.
#[derive(Clone, Copy, Debug, PartialEq, Eq, Structural)]
pub struct Citizen {
    pub home: Pos,
    pub workplace: Option<Pos>,
    pub destination: Pos,
    pub state: CitizenState,
    /// In thousandths.
    pub happiness: u32,
    /// Milliseconds left on the current timer.
    pub timer_ms: u64,
    pub leg_start: Point,
    pub travelled: u64,
    /// The cell the current or last trip set out from.
    pub origin: Pos,
}

/// The random draws that one update of a resident may consume.
#[derive(Clone, Copy, Debug, PartialEq, Eq, Structural)]
pub struct CitizenDraws {
    /// Work is chosen when `work_roll % ROLL_SCALE < WORK_CHANCE`.
    pub work_roll: u32,
    /// Picks the shop: index `shop_pick % number of shops`.
    pub shop_pick: u64,
    /// Picks a timer duration in its range, in thousandths of the range.
    pub timer_roll: u32,
}

/// A duration in `[lo, hi)` picked by `roll`.
pub open spec fn roll_duration(lo: int, hi: int, roll: int) -> int {
    lo + (hi - lo) * (roll % (ROLL_SCALE as int)) / (ROLL_SCALE as int)
}

/// `timer - dt`, stopping at zero.
pub open spec fn timer_after(timer: int, dt_ms: int) -> int {
    if timer > dt_ms {
        timer - dt_ms
    } else {
        0
    }
}

/// Where a travelling resident is headed.
pub open spec fn travel_target(c: Citizen) -> Pos {
    if c.state == CitizenState::GoingHome {
        c.home
    } else {
        c.destination
    }
}

/// Distance walked in `dt_ms` milliseconds.
pub open spec fn walk_step(dt_ms: int) -> int {
    WALK_SPEED * dt_ms / 1000
}

impl Citizen {
    /// Points are in range and `destination` is the one the state calls for.
    pub open spec fn wf(&self) -> bool {
        &&& point_ok(self.leg_start)
        &&& (self.state == CitizenState::AtHome || self.state == CitizenState::GoingHome)
            ==> self.destination == self.home
        &&& (self.state == CitizenState::GoingToWork || self.state == CitizenState::AtWork)
            ==> self.workplace == Some(self.destination)
    }

    /// Where the resident is now.
    pub open spec fn location(&self) -> Point {
        if is_traveling(self.state) {
            let target = cell_point(travel_target(*self));
            let len = leg_len(self.leg_start, target);
            point_along(self.leg_start, target, if self.travelled <= len { self.travelled as int } else { len }, len)
        } else {
            self.leg_start
        }
    }

    /// A resident who just moved in: at home, with a first idle timer.
    pub open spec fn moved_in(home: Pos, workplace: Option<Pos>, timer_roll: int) -> Citizen {
        Citizen {
            home,
            workplace,
            destination: home,
            state: CitizenState::AtHome,
            happiness: INITIAL_HAPPINESS,
            timer_ms: roll_duration(FIRST_IDLE_MIN as int, FIRST_IDLE_MAX as int, timer_roll) as u64,
            leg_start: cell_point(home),
            travelled: 0,
            origin: home,
        }
    }

    /// The resident after one update of `dt_ms` milliseconds, with the given draws and
    /// the commercial cells `shops`.
    pub open spec fn next(self, dt_ms: int, draws: CitizenDraws, shops: Seq<Pos>) -> Citizen {
        let timer = timer_after(self.timer_ms as int, dt_ms) as u64;
        let outing = roll_duration(OUTING_MIN as int, OUTING_MAX as int, draws.timer_roll as int) as u64;
        match self.state {
            CitizenState::AtHome => {
                if timer == 0 {
                    if self.workplace is Some && draws.work_roll % ROLL_SCALE < WORK_CHANCE {
                        Citizen {
                            destination: self.workplace->0,
                            state: CitizenState::GoingToWork,
                            timer_ms: outing,
                            travelled: 0,
                            origin: self.home,
                            ..self
                        }
                    } else if shops.len() > 0 {
                        Citizen {
                            destination: shops[(draws.shop_pick % (shops.len() as u64)) as int],
                            state: CitizenState::Shopping,
                            timer_ms: outing,
                            travelled: 0,
                            origin: self.home,
                            ..self
                        }
                    } else {
                        Citizen { timer_ms: outing, ..self }
                    }
                } else {
                    Citizen { timer_ms: timer, ..self }
                }
            },
            CitizenState::AtWork => {
                if timer == 0 {
                    Citizen {
                        destination: self.home,
                        state: CitizenState::GoingHome,
                        timer_ms: outing,
                        travelled: 0,
                        origin: self.destination,
                        ..self
                    }
                } else {
                    Citizen { timer_ms: timer, ..self }
                }
            },
            _ => {
                let target = travel_target(self);
                let len = leg_len(self.leg_start, cell_point(target));
                let walked = crate::simulation::min_int(self.travelled + walk_step(dt_ms), len);
                if len - walked < ARRIVAL_RADIUS {
                    let arrived = Citizen { leg_start: cell_point(target), travelled: 0, ..self };
                    if self.state == CitizenState::GoingToWork {
                        Citizen {
                            state: CitizenState::AtWork,
                            timer_ms: roll_duration(WORK_MIN as int, WORK_MAX as int, draws.timer_roll as int) as u64,
                            ..arrived
                        }
                    } else if self.state == CitizenState::GoingHome {
                        Citizen {
                            state: CitizenState::AtHome,
                            timer_ms: roll_duration(REST_MIN as int, REST_MAX as int, draws.timer_roll as int) as u64,
                            ..arrived
                        }
                    } else {
                        Citizen {
                            destination: self.home,
                            state: CitizenState::GoingHome,
                            timer_ms: outing,
                            origin: target,
                            ..arrived
                        }
                    }
                } else {
                    Citizen { travelled: walked as u64, timer_ms: timer, ..self }
                }
            },
        }
    }

    /// A resident who moves into `home` now.
    pub fn move_in(home: Pos, workplace: Option<Pos>, timer_roll: u32) -> (r: Citizen)
        ensures
            r == Citizen::moved_in(home, workplace, timer_roll as int),
            r.wf(),
    {
        Citizen {
            home,
            workplace,
            destination: home,
            state: CitizenState::AtHome,
            happiness: INITIAL_HAPPINESS,
            timer_ms: pick_duration(FIRST_IDLE_MIN, FIRST_IDLE_MAX, timer_roll),
            leg_start: cell_center(home),
            travelled: 0,
            origin: home,
        }
    }

    /// True while the resident is on its way somewhere.
    pub fn traveling(&self) -> (r: bool)
        ensures
            r == is_traveling(self.state),
    {
        self.state == CitizenState::GoingToWork || self.state == CitizenState::GoingHome
            || self.state == CitizenState::Shopping
    }

    /// Where the resident is now.
    pub fn position(&self) -> (r: Point)
        requires
            self.wf(),
        ensures
            r == self.location(),
    {
        if self.traveling() {
            let target = cell_center(self.travel_target_exec());
            let len = distance(self.leg_start, target);
            let t = if self.travelled <= len {
                self.travelled
            } else {
                len
            };
            along(self.leg_start, target, t, len)
        } else {
            self.leg_start
        }
    }

    fn travel_target_exec(&self) -> (r: Pos)
        ensures
            r == travel_target(*self),
    {
        if self.state == CitizenState::GoingHome {
            self.home
        } else {
            self.destination
        }
    }

    /// Advances the resident by `dt_ms` milliseconds: timers run down, travellers walk
    /// toward their destination, and arrivals and expired timers change the state.
    pub fn update(&mut self, dt_ms: u32, draws: CitizenDraws, shops: &Vec<Pos>)
        requires
            old(self).wf(),
        ensures
            *final(self) == old(self).next(dt_ms as int, draws, shops@),
            final(self).wf(),
    {
        let timer: u64 = if self.timer_ms > dt_ms as u64 {
            self.timer_ms - dt_ms as u64
        } else {
            0
        };
        let outing = pick_duration(OUTING_MIN, OUTING_MAX, draws.timer_roll);
        match self.state {
            CitizenState::AtHome => {
                if timer == 0 {
                    if self.workplace.is_some() && draws.work_roll % ROLL_SCALE < WORK_CHANCE {
                        self.destination = self.workplace.unwrap();
                        self.state = CitizenState::GoingToWork;
                        self.travelled = 0;
                        self.origin = self.home;
                    } else if shops.len() > 0 {
                        let k = (draws.shop_pick % (shops.len() as u64)) as usize;
                        self.destination = shops[k];
                        self.state = CitizenState::Shopping;
                        self.travelled = 0;
                        self.origin = self.home;
                    }
                    self.timer_ms = outing;
                } else {
                    self.timer_ms = timer;
                }
            },
            CitizenState::AtWork => {
                if timer == 0 {
                    self.origin = self.destination;
                    self.destination = self.home;
                    self.state = CitizenState::GoingHome;
                    self.travelled = 0;
                    self.timer_ms = outing;
                } else {
                    self.timer_ms = timer;
                }
            },
            _ => {
                let target = self.travel_target_exec();
                let target_point = cell_center(target);
                let len = distance(self.leg_start, target_point);
                let reach = self.travelled as u128 + (WALK_SPEED as u128) * (dt_ms as u128) / 1000;
                let walked: u64 = if reach < len as u128 {
                    reach as u64
                } else {
                    len
                };
                if len - walked < ARRIVAL_RADIUS {
                    self.leg_start = target_point;
                    self.travelled = 0;
                    if self.state == CitizenState::GoingToWork {
                        self.state = CitizenState::AtWork;
                        self.timer_ms = pick_duration(WORK_MIN, WORK_MAX, draws.timer_roll);
                    } else if self.state == CitizenState::GoingHome {
                        self.state = CitizenState::AtHome;
                        self.timer_ms = pick_duration(REST_MIN, REST_MAX, draws.timer_roll);
                    } else {
                        self.origin = target;
                        self.destination = self.home;
                        self.state = CitizenState::GoingHome;
                        self.timer_ms = outing;
                    }
                } else {
                    self.travelled = walked;
                    self.timer_ms = timer;
                }
            },
        }
    }
}

/// A duration in `[lo, hi)` picked by `roll`.
pub fn pick_duration(lo: u64, hi: u64, roll: u32) -> (r: u64)
    requires
        lo < hi <= 1_000_000,
    ensures
        r == roll_duration(lo as int, hi as int, roll as int),
        lo <= r < hi,
{
    let f = (roll % ROLL_SCALE) as u64;
    proof {
        assert((hi - lo) * f <= 1_000_000 * 1000) by (nonlinear_arith)
            requires 0 <= hi - lo <= 1_000_000, 0 <= f < 1000;
        assert(0 <= (hi - lo) * f / 1000 < hi - lo) by (nonlinear_arith)
            requires 0 < hi - lo, 0 <= f < 1000;
    }
    lo + (hi - lo) * f / 1000
}

/// How far a resident is from being back at home, by what it is doing: walking home,
/// then working or shopping, then walking to work.
pub open spec fn phase(s: CitizenState) -> int {
    match s {
        CitizenState::AtHome => 0,
        CitizenState::GoingHome => 1,
        CitizenState::AtWork => 2,
        CitizenState::Shopping => 2,
        CitizenState::GoingToWork => 3,
    }
}

/// What is left of the current activity: the rest of the walk, or the timer.
pub open spec fn work_left(c: Citizen) -> int {
    if is_traveling(c.state) {
        leg_len(c.leg_start, cell_point(travel_target(c))) - c.travelled
    } else {
        c.timer_ms as int
    }
}

/// Every update of at least one millisecond brings a resident who is away from home
/// nearer to it, whatever the draws and the shops: either its phase drops, or the phase
/// stays and what is left of its walk or timer shrinks and stays non-negative. Phases
/// are finitely many and what is left is a natural number, so repeated updates bring
/// every resident back home.
pub proof fn lemma_way_home(c: Citizen, dt_ms: int, draws: CitizenDraws, shops: Seq<Pos>)
    requires
        c.wf(),
        c.state != CitizenState::AtHome,
        1 <= dt_ms <= u32::MAX,
    ensures
        phase(c.next(dt_ms, draws, shops).state) < phase(c.state) || (phase(
            c.next(dt_ms, draws, shops).state,
        ) == phase(c.state) && 0 <= work_left(c.next(dt_ms, draws, shops)) < work_left(c)),
{
    let n = c.next(dt_ms, draws, shops);
    assert(walk_step(dt_ms) >= 2);
    if is_traveling(c.state) {
        let target = travel_target(c);
        let len = leg_len(c.leg_start, cell_point(target));
        let walked = crate::simulation::min_int(c.travelled + walk_step(dt_ms), len);
        crate::motion::lemma_leg_len_bounds(c.leg_start, cell_point(target));
        if len - walked >= ARRIVAL_RADIUS {
            assert(n.state == c.state);
            assert(travel_target(n) == target);
            assert(n.travelled == walked);
            assert(work_left(n) == len - walked);
        }
    }
}

/// The residents after one may move in: below capacity, one more resident lives in
/// `residential[home_pick % len]` and works at `workplaces[work_pick % len]`, if any.
pub open spec fn after_spawn(
    cs: Seq<Citizen>,
    residential: Seq<Pos>,
    workplaces: Seq<Pos>,
    home_pick: u64,
    work_pick: u64,
    timer_roll: u32,
) -> Seq<Citizen> {
    if cs.len() < RESIDENTS_PER_ZONE * residential.len() {
        cs.push(
            Citizen::moved_in(
                residential[(home_pick % (residential.len() as u64)) as int],
                if workplaces.len() > 0 {
                    Some(workplaces[(work_pick % (workplaces.len() as u64)) as int])
                } else {
                    None
                },
                timer_roll as int,
            ),
        )
    } else {
        cs
    }
}

/// Moves a new resident in, unless the town already houses `RESIDENTS_PER_ZONE` per
/// residential cell. The home is `residential[home_pick % len]`; the workplace, if there
/// is any, `workplaces[work_pick % len]`.
pub fn spawn_citizens(
    citizens: &mut Vec<Citizen>,
    residential: &Vec<Pos>,
    workplaces: &Vec<Pos>,
    home_pick: u64,
    work_pick: u64,
    timer_roll: u32,
)
    ensures
        final(citizens)@ == after_spawn(old(citizens)@, residential@, workplaces@, home_pick, work_pick, timer_roll),
        final(citizens)@.len() > old(citizens)@.len() ==> final(citizens)@.len() <= RESIDENTS_PER_ZONE
            * residential@.len(),
{
    let capacity = (residential.len() as u128) * (RESIDENTS_PER_ZONE as u128);
    if citizens.len() as u128 >= capacity {
        return;
    }
    let home = residential[(home_pick % (residential.len() as u64)) as usize];
    let workplace = if workplaces.len() > 0 {
        Some(workplaces[(work_pick % (workplaces.len() as u64)) as usize])
    } else {
        None
    };
    citizens.push(Citizen::move_in(home, workplace, timer_roll));
}

/// The residents that are on their way somewhere, in order.
pub open spec fn traveling_of(cs: Seq<Citizen>) -> Seq<Citizen>
    decreases cs.len(),
{
    if cs.len() == 0 {
        Seq::empty()
    } else {
        let rest = traveling_of(cs.drop_last());
        if is_traveling(cs.last().state) {
            rest.push(cs.last())
        } else {
            rest
        }
    }
}

/// The residents that are on their way somewhere, in order.
pub fn traveling_citizens(citizens: &Vec<Citizen>) -> (r: Vec<Citizen>)
    ensures
        r@ == traveling_of(citizens@),
{
    let n = citizens.len();
    let mut r: Vec<Citizen> = Vec::new();
    let mut i: usize = 0;
    while i < n
        invariant
            n == citizens@.len(),
            i <= n,
            r@ == traveling_of(citizens@.subrange(0, i as int)),
        decreases n - i,
    {
        proof {
            assert(citizens@.subrange(0, i + 1).drop_last() =~= citizens@.subrange(0, i as int));
        }
        if citizens[i].traveling() {
            r.push(citizens[i]);
        }
        i = i + 1;
    }
    proof {
        assert(citizens@.subrange(0, n as int) =~= citizens@);
    }
    r
}

/// The resident after `k` updates of `dt_ms` milliseconds, the `i`-th with `draws[i]`.
pub open spec fn after_updates(c: Citizen, dt_ms: int, draws: Seq<CitizenDraws>, shops: Seq<Pos>, k: nat) -> Citizen
    decreases k,
{
    if k == 0 {
        c
    } else {
        after_updates(c.next(dt_ms, draws[0], shops), dt_ms, draws.drop_first(), shops, (k - 1) as nat)
    }
}

/// A travelling resident arrives in bounded time: if what is left of its walk is less
/// than `n` steps of `dt_ms >= 1` milliseconds plus the arrival radius, then within `n`
/// updates, whatever the draws, it leaves the state it travels in (to work, shopping
/// or home).
pub proof fn lemma_arrives_within(c: Citizen, dt_ms: int, draws: Seq<CitizenDraws>, shops: Seq<Pos>, n: nat) -> (k: nat)
    requires
        c.wf(),
        is_traveling(c.state),
        1 <= dt_ms <= u32::MAX,
        n >= 1,
        draws.len() >= n,
        work_left(c) < n * walk_step(dt_ms) + ARRIVAL_RADIUS,
    ensures
        1 <= k <= n,
        after_updates(c, dt_ms, draws, shops, k).state != c.state,
    decreases n,
{
    let c1 = c.next(dt_ms, draws[0], shops);
    let step = walk_step(dt_ms);
    assert(step >= 2);
    if c1.state != c.state {
        assert(after_updates(c1, dt_ms, draws.drop_first(), shops, 0) == c1);
        1
    } else {
        let target = travel_target(c);
        let len = leg_len(c.leg_start, cell_point(target));
        crate::motion::lemma_leg_len_bounds(c.leg_start, cell_point(target));
        let walked = crate::simulation::min_int(c.travelled + step, len);
        assert(len - walked >= ARRIVAL_RADIUS);
        assert(walked == c.travelled + step);
        assert(travel_target(c1) == target);
        assert(work_left(c1) == work_left(c) - step);
        assert(n >= 2) by {
            if n == 1 {
                assert(n * step == step) by (nonlinear_arith)
                    requires n == 1;
            }
        }
        assert((n - 1) * step == n * step - step) by (nonlinear_arith);
        let k1 = lemma_arrives_within(c1, dt_ms, draws.drop_first(), shops, (n - 1) as nat);
        assert(after_updates(c, dt_ms, draws, shops, k1 + 1) == after_updates(c1, dt_ms, draws.drop_first(), shops, k1));
        k1 + 1
    }
}

/// Updates a travelling resident needs at most before it arrives.
pub open spec fn arrival_bound(c: Citizen, dt_ms: int) -> nat {
    if work_left(c) <= 0 {
        1
    } else {
        (work_left(c) / walk_step(dt_ms) + 1) as nat
    }
}

/// A travelling resident, updated every `dt_ms >= 1` milliseconds, leaves the state it
/// travels in within `arrival_bound` updates, whatever the draws; one already at its
/// destination does so on the first.
pub proof fn lemma_arrival_bound(c: Citizen, dt_ms: int, draws: Seq<CitizenDraws>, shops: Seq<Pos>) -> (k: nat)
    requires
        c.wf(),
        is_traveling(c.state),
        1 <= dt_ms <= u32::MAX,
        draws.len() >= arrival_bound(c, dt_ms),
    ensures
        1 <= k <= arrival_bound(c, dt_ms),
        after_updates(c, dt_ms, draws, shops, k).state != c.state,
{
    let step = walk_step(dt_ms);
    let n = arrival_bound(c, dt_ms);
    assert(step >= 2);
    if work_left(c) > 0 {
        let w = work_left(c);
        vstd::arithmetic::div_mod::lemma_fundamental_div_mod(w, step);
        vstd::arithmetic::div_mod::lemma_mod_bound(w, step);
        assert(w < n * step) by (nonlinear_arith)
            requires w == step * (w / step) + w % step, w % step < step, n == w / step + 1, step > 0;
    } else {
        assert(n * step == step) by (nonlinear_arith)
            requires n == 1;
    }
    lemma_arrives_within(c, dt_ms, draws, shops, n)
}

/// Every resident updated once, each with its own draws.
pub open spec fn stepped_all(cs: Seq<Citizen>, dt_ms: int, draws: Seq<CitizenDraws>, shops: Seq<Pos>) -> Seq<Citizen> {
    Seq::new(cs.len(), |j: int| cs[j].next(dt_ms, draws[j], shops))
}

/// Updates every resident by `dt_ms` milliseconds, resident `j` with `draws[j]`.
pub fn update_citizens(citizens: &mut Vec<Citizen>, shops: &Vec<Pos>, dt_ms: u32, draws: &Vec<CitizenDraws>)
    requires
        forall|j: int| 0 <= j < old(citizens)@.len() ==> (#[trigger] old(citizens)@[j]).wf(),
        draws@.len() == old(citizens)@.len(),
    ensures
        final(citizens)@ == stepped_all(old(citizens)@, dt_ms as int, draws@, shops@),
        forall|j: int| 0 <= j < final(citizens)@.len() ==> (#[trigger] final(citizens)@[j]).wf(),
{
    let ghost before = citizens@;
    let n = citizens.len();
    let mut i: usize = 0;
    while i < n
        invariant
            n == citizens@.len(),
            n == before.len(),
            n == draws@.len(),
            i <= n,
            forall|j: int| 0 <= j < n ==> (#[trigger] citizens@[j]).wf(),
            forall|j: int| i <= j < n ==> #[trigger] citizens@[j] == before[j],
            forall|j: int| 0 <= j < i ==> #[trigger] citizens@[j] == before[j].next(dt_ms as int, draws@[j], shops@),
        decreases n - i,
    {
        let mut c = citizens[i];
        c.update(dt_ms, draws[i], shops);
        citizens.set(i, c);
        i = i + 1;
    }
    proof {
        assert(citizens@ =~= stepped_all(before, dt_ms as int, draws@, shops@));
    }
}

} // verus!
