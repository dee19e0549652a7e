//! Shortest-route search over the grid (A* with a Manhattan-distance estimate).
use vstd::prelude::*;
use crate::grid::{Grid, Pos, manhattan, orthogonal_step, in_bounds, cell_index};

verus! {

/// Largest side length of a square grid: every cell index fits an `i32`.
pub const MAX_GRID_SIZE: usize = 46340;

/// The coordinate stored at a row-major index.
pub open spec fn pos_at(i: int, size: int) -> Pos {
    Pos { x: (i % size) as i32, y: (i / size) as i32 }
}

/// The accessibility mask admits the in-bounds coordinate `p`.
pub open spec fn open_at(open: Seq<bool>, size: int, p: Pos) -> bool {
    open[cell_index(p, size)]
}

/// `path` leads from `start` to `goal` in orthogonal steps inside the grid, and every
/// coordinate on it but the two ends is admitted by the mask.
pub open spec fn is_route(path: Seq<Pos>, start: Pos, goal: Pos, open: Seq<bool>, size: int) -> bool {
    &&& path.len() >= 1
    &&& path[0] == start
    &&& path.last() == goal
    &&& forall|i: int| 0 <= i < path.len() ==> in_bounds(#[trigger] path[i], size)
    &&& forall|i: int| 0 <= i < path.len() - 1 ==> orthogonal_step(#[trigger] path[i], path[i + 1])
    &&& forall|i: int| 1 <= i < path.len() - 1 ==> open_at(open, size, #[trigger] path[i])
}

const UNSEEN: u64 = 0xffff_ffff_ffff_ffff;

proof fn lemma_index(p: Pos, size: int)
    requires
        in_bounds(p, size),
        size <= MAX_GRID_SIZE,
    ensures
        0 <= cell_index(p, size) < size * size,
        size * size <= MAX_GRID_SIZE * MAX_GRID_SIZE,
        pos_at(cell_index(p, size), size) == p,
{
    let i = cell_index(p, size);
    assert(0 <= p.y * size + p.x < size * size) by (nonlinear_arith)
        requires 0 <= p.y < size, 0 <= p.x < size;
    assert(size * size <= MAX_GRID_SIZE * MAX_GRID_SIZE) by (nonlinear_arith)
        requires 0 < size <= MAX_GRID_SIZE;
    vstd::arithmetic::div_mod::lemma_fundamental_div_mod_converse(i, size, p.y as int, p.x as int);
}

pub proof fn lemma_pos_at(i: int, size: int)
    requires
        0 <= i < size * size,
        0 < size <= MAX_GRID_SIZE,
    ensures
        in_bounds(pos_at(i, size), size),
        cell_index(pos_at(i, size), size) == i,
{
    vstd::arithmetic::div_mod::lemma_fundamental_div_mod(i, size);
    vstd::arithmetic::div_mod::lemma_div_pos_is_pos(i, size);
    vstd::arithmetic::div_mod::lemma_div_by_multiple_is_strongly_ordered(i, size * size, size, size);
    vstd::arithmetic::div_mod::lemma_div_multiples_vanish(size, size);
    vstd::arithmetic::div_mod::lemma_mod_bound(i, size);
    assert(size * (i / size) == (i / size) * size) by (nonlinear_arith);
}

pub(crate) fn index_of(p: Pos, size: usize) -> (r: usize)
    requires
        in_bounds(p, size as int),
        size <= MAX_GRID_SIZE,
    ensures
        r == cell_index(p, size as int),
        r < size * size,
        pos_at(r as int, size as int) == p,
{
    proof {
        lemma_index(p, size as int);
    }
    (p.y as usize) * size + (p.x as usize)
}

pub(crate) fn pos_of(i: usize, size: usize) -> (r: Pos)
    requires
        i < size * size,
        0 < size <= MAX_GRID_SIZE,
    ensures
        r == pos_at(i as int, size as int),
        in_bounds(r, size as int),
{
    proof {
        lemma_pos_at(i as int, size as int);
    }
    Pos::new((i % size) as i32, (i / size) as i32)
}

/// `p` may be stepped onto: the mask admits it, or it is the goal.
pub open spec fn admissible(open: Seq<bool>, sz: int, goal: Pos, p: Pos) -> bool {
    open_at(open, sz, p) || p == goal
}

/// `q` leads from `start` in orthogonal steps over in-bounds coordinates, each after the
/// first admissible.
pub open spec fn walk(q: Seq<Pos>, start: Pos, goal: Pos, open: Seq<bool>, sz: int) -> bool {
    &&& q.len() >= 1
    &&& q[0] == start
    &&& forall|k: int| 0 <= k < q.len() ==> in_bounds(#[trigger] q[k], sz)
    &&& forall|k: int| 0 <= k < q.len() - 1 ==> orthogonal_step(#[trigger] q[k], q[k + 1])
    &&& forall|k: int| 1 <= k < q.len() ==> admissible(open, sz, goal, #[trigger] q[k])
}

/// No walk from `start` to the coordinate at index `u` takes fewer than `d` steps.
spec fn no_shorter(d: int, u: int, start: Pos, goal: Pos, open: Seq<bool>, sz: int) -> bool {
    forall|q: Seq<Pos>| #[trigger] walk(q, start, goal, open, sz) && q.last() == pos_at(u, sz) ==> d <= q.len() - 1
}

/// Estimated total cost through index `i`: steps so far plus the Manhattan distance left.
spec fn f_of(g: Seq<u64>, i: int, goal: Pos, sz: int) -> int {
    g[i] + manhattan(pos_at(i, sz), goal)
}

/// Every admissible neighbour of index `u` is expanded, or labelled at most one step past `u`.
spec fn relaxed(g: Seq<u64>, closed: Seq<bool>, u: int, goal: Pos, open: Seq<bool>, sz: int) -> bool {
    forall|v: int|
        0 <= v < sz * sz && orthogonal_step(pos_at(u, sz), #[trigger] pos_at(v, sz)) && admissible(open, sz, goal, pos_at(v, sz))
            ==> closed[v] || g[v] <= g[u] + 1
}

/// What the search knows of the coordinates it has expanded and of its open set.
spec fn frontier(
    g: Seq<u64>,
    closed: Seq<bool>,
    in_open: Seq<bool>,
    start: Pos,
    goal: Pos,
    open: Seq<bool>,
    sz: int,
    s: int,
) -> bool {
    &&& forall|u: int| 0 <= u < sz * sz && closed[u] ==> #[trigger] relaxed(g, closed, u, goal, open, sz)
    &&& forall|u: int| 0 <= u < sz * sz && closed[u] ==> #[trigger] no_shorter(g[u] as int, u, start, goal, open, sz)
    &&& forall|i: int| 0 <= i < sz * sz && g[i] != UNSEEN && !closed[i] ==> #[trigger] in_open[i]
    &&& forall|i: int| 0 <= i < sz * sz && #[trigger] in_open[i] ==> !closed[i]
    &&& closed[s] || in_open[s]
    &&& closed[s] || forall|i: int| 0 <= i < sz * sz && #[trigger] in_open[i] ==> i == s
}

proof fn lemma_relaxed_mono(
    g: Seq<u64>,
    closed: Seq<bool>,
    g2: Seq<u64>,
    closed2: Seq<bool>,
    u: int,
    goal: Pos,
    open: Seq<bool>,
    sz: int,
)
    requires
        relaxed(g, closed, u, goal, open, sz),
        g.len() == sz * sz && g2.len() == sz * sz && closed.len() == sz * sz && closed2.len() == sz * sz,
        g2[u] == g[u],
        forall|i: int| 0 <= i < sz * sz ==> #[trigger] g2[i] <= g[i],
        forall|i: int| 0 <= i < sz * sz && #[trigger] closed[i] ==> closed2[i],
    ensures
        relaxed(g2, closed2, u, goal, open, sz),
{
    assert forall|v: int|
        0 <= v < sz * sz && orthogonal_step(pos_at(u, sz), #[trigger] pos_at(v, sz)) && admissible(open, sz, goal, pos_at(v, sz))
            implies closed2[v] || g2[v] <= g2[u] + 1 by {
        assert(closed[v] || g[v] <= g[u] + 1);
        assert(g2[v] <= g[v]);
    }
}

/// Manhattan distance to the goal drops by at most one per step of a walk.
proof fn lemma_estimate_along(q: Seq<Pos>, k: int, goal: Pos)
    requires
        0 <= k < q.len(),
        forall|i: int| 0 <= i < q.len() - 1 ==> orthogonal_step(#[trigger] q[i], q[i + 1]),
    ensures
        manhattan(q[k], goal) <= (q.len() - 1 - k) + manhattan(q[q.len() - 1], goal),
    decreases q.len() - k,
{
    if k < q.len() - 1 {
        lemma_estimate_along(q, k + 1, goal);
        assert(orthogonal_step(q[k], q[k + 1]));
    }
}

/// A walk that starts expanded and ends unexpanded crosses over somewhere.
proof fn lemma_boundary(q: Seq<Pos>, closed: Seq<bool>, sz: int, i: int) -> (k: int)
    requires
        1 <= i < q.len(),
        closed[cell_index(q[i - 1], sz)],
        !closed[cell_index(q[q.len() - 1], sz)],
    ensures
        i <= k < q.len(),
        closed[cell_index(q[k - 1], sz)],
        !closed[cell_index(q[k], sz)],
    decreases q.len() - i,
{
    if !closed[cell_index(q[i], sz)] {
        i
    } else {
        lemma_boundary(q, closed, sz, i + 1)
    }
}

proof fn lemma_prefix_walk(q: Seq<Pos>, k: int, start: Pos, goal: Pos, open: Seq<bool>, sz: int)
    requires
        walk(q, start, goal, open, sz),
        1 <= k <= q.len(),
    ensures
        walk(q.subrange(0, k), start, goal, open, sz),
        q.subrange(0, k).last() == q[k - 1],
{
    let pre = q.subrange(0, k);
    assert forall|i: int| 0 <= i < pre.len() implies in_bounds(#[trigger] pre[i], sz) by {
        assert(pre[i] == q[i]);
    }
    assert forall|i: int| 0 <= i < pre.len() - 1 implies orthogonal_step(#[trigger] pre[i], pre[i + 1]) by {
        assert(pre[i] == q[i] && pre[i + 1] == q[i + 1]);
    }
    assert forall|i: int| 1 <= i < pre.len() implies admissible(open, sz, goal, #[trigger] pre[i]) by {
        assert(pre[i] == q[i]);
    }
}

proof fn lemma_no_shorter_at(d: int, u: int, start: Pos, goal: Pos, open: Seq<bool>, sz: int, q: Seq<Pos>)
    requires
        no_shorter(d, u, start, goal, open, sz),
        walk(q, start, goal, open, sz),
        q.last() == pos_at(u, sz),
    ensures
        d <= q.len() - 1,
{
}

proof fn lemma_relaxed_at(g: Seq<u64>, closed: Seq<bool>, u: int, v: int, goal: Pos, open: Seq<bool>, sz: int)
    requires
        relaxed(g, closed, u, goal, open, sz),
        0 <= v < sz * sz,
        orthogonal_step(pos_at(u, sz), pos_at(v, sz)),
        admissible(open, sz, goal, pos_at(v, sz)),
    ensures
        closed[v] || g[v] <= g[u] + 1,
{
}

/// Where a walk from the expanded start leaves the expanded coordinates, it reaches an
/// open coordinate labelled no further than its position on the walk.
proof fn lemma_crossing(
    g: Seq<u64>,
    closed: Seq<bool>,
    in_open: Seq<bool>,
    q: Seq<Pos>,
    start: Pos,
    goal: Pos,
    open: Seq<bool>,
    sz: int,
    s: int,
    bound: int,
) -> (k: int)
    requires
        0 < sz <= MAX_GRID_SIZE,
        g.len() == sz * sz && closed.len() == sz * sz && in_open.len() == sz * sz,
        forall|u: int| 0 <= u < sz * sz && closed[u] ==> #[trigger] relaxed(g, closed, u, goal, open, sz),
        forall|u: int| 0 <= u < sz * sz && closed[u] ==> #[trigger] no_shorter(g[u] as int, u, start, goal, open, sz),
        forall|i: int| 0 <= i < sz * sz && g[i] != UNSEEN && !closed[i] ==> #[trigger] in_open[i],
        forall|i: int| 0 <= i < sz * sz && #[trigger] closed[i] ==> g[i] != UNSEEN && g[i] <= bound,
        bound + 1 < UNSEEN,
        walk(q, start, goal, open, sz),
        s == cell_index(start, sz),
        closed[s],
        !closed[cell_index(q.last(), sz)],
    ensures
        1 <= k < q.len(),
        0 <= cell_index(q[k], sz) < sz * sz,
        in_open[cell_index(q[k], sz)],
        g[cell_index(q[k], sz)] <= k,
{
    let k = lemma_boundary(q, closed, sz, 1);
    let p = cell_index(q[k - 1], sz);
    let w = cell_index(q[k], sz);
    lemma_index(q[k - 1], sz);
    lemma_index(q[k], sz);
    lemma_prefix_walk(q, k, start, goal, open, sz);
    lemma_no_shorter_at(g[p] as int, p, start, goal, open, sz, q.subrange(0, k));
    assert(relaxed(g, closed, p, goal, open, sz));
    lemma_relaxed_at(g, closed, p, w, goal, open, sz);
    k
}

/// The open coordinate of least estimated total cost is labelled with its true distance.
proof fn lemma_popped(
    g: Seq<u64>,
    closed: Seq<bool>,
    in_open: Seq<bool>,
    start: Pos,
    goal: Pos,
    open: Seq<bool>,
    sz: int,
    s: int,
    cur: int,
    bound: int,
)
    requires
        0 < sz <= MAX_GRID_SIZE,
        g.len() == sz * sz && closed.len() == sz * sz && in_open.len() == sz * sz,
        frontier(g, closed, in_open, start, goal, open, sz, s),
        forall|i: int| 0 <= i < sz * sz && #[trigger] closed[i] ==> g[i] != UNSEEN && g[i] <= bound,
        bound + 1 < UNSEEN,
        in_bounds(start, sz),
        s == cell_index(start, sz),
        g[s] == 0,
        0 <= cur < sz * sz,
        in_open[cur],
        forall|i: int| 0 <= i < sz * sz && #[trigger] in_open[i] ==> f_of(g, cur, goal, sz) <= f_of(g, i, goal, sz),
    ensures
        no_shorter(g[cur] as int, cur, start, goal, open, sz),
{
    lemma_index(start, sz);
    lemma_pos_at(cur, sz);
    assert forall|q: Seq<Pos>| #[trigger] walk(q, start, goal, open, sz) && q.last() == pos_at(cur, sz) implies g[cur] <= q.len() - 1 by {
        if cur != s {
            assert(closed[s]);
            assert(!closed[cur]);
            assert(cell_index(q.last(), sz) == cur);
            let k = lemma_crossing(g, closed, in_open, q, start, goal, open, sz, s, bound);
            let w = cell_index(q[k], sz);
            lemma_index(q[k], sz);
            assert(f_of(g, cur, goal, sz) <= f_of(g, w, goal, sz));
            lemma_estimate_along(q, k, goal);
        }
    }
}

/// The four orthogonal neighbours are the only coordinates one step away.
proof fn lemma_step_listed(a: Pos, b: Pos)
    requires
        orthogonal_step(a, b),
    ensures
        (b.x == a.x && b.y == a.y - 1) || (b.x == a.x - 1 && b.y == a.y) || (b.x == a.x + 1 && b.y == a.y)
            || (b.x == a.x && b.y == a.y + 1),
{
}

/// Shortest route length that the search has found to every expanded neighbour of `cur`.
spec fn neighbour_done(g: Seq<u64>, closed: Seq<bool>, p: Pos, cur_g: int, goal: Pos, open: Seq<bool>, sz: int) -> bool {
    in_bounds(p, sz) && admissible(open, sz, goal, p) ==> closed[cell_index(p, sz)] || g[cell_index(p, sz)] <= cur_g + 1
}

impl Grid {
    /// Finds a shortest route from `start` to `goal` in orthogonal steps (A* with the
    /// Manhattan distance as estimate), expanding only in-bounds coordinates that the mask
    /// `is_accessible` admits (row-major, `size` by `size`); the two ends need not be
    /// admitted. A start equal to the goal is the one-cell route; otherwise `None` comes
    /// exactly when no route exists, which includes an end outside the grid.
    pub fn find_path(start: Pos, goal: Pos, is_accessible: &Vec<bool>, size: usize) -> (r: Option<Vec<Pos>>)
        requires
            0 < size <= MAX_GRID_SIZE,
            is_accessible@.len() == size * size,
        ensures
            start != goal && r is Some ==> is_route(r->0@, start, goal, is_accessible@, size as int),
            start != goal && !(in_bounds(start, size as int) && in_bounds(goal, size as int)) ==> r is None,
            forall|q: Seq<Pos>|
                #[trigger] is_route(q, start, goal, is_accessible@, size as int) ==> r is Some && r->0@.len() <= q.len(),
            start == goal ==> r is Some && r->0@ == seq![start],
    {
        proof {
            assert(size * size <= MAX_GRID_SIZE * MAX_GRID_SIZE) by (nonlinear_arith)
                requires 0 < size <= MAX_GRID_SIZE;
        }
        let nn = size * size;
        if start == goal {
            let mut only: Vec<Pos> = Vec::new();
            only.push(start);
            proof {
                assert forall|q: Seq<Pos>| #[trigger] is_route(q, start, goal, is_accessible@, size as int) implies only@.len() <= q.len() by {}
            }
            return Some(only);
        }
        if !Grid::is_in_bounds(start, size) || !Grid::is_in_bounds(goal, size) {
            return None;
        }
        let s = index_of(start, size);
        let t = index_of(goal, size);
        let mut g: Vec<u64> = Vec::new();
        let mut pred: Vec<usize> = Vec::new();
        let mut in_open: Vec<bool> = Vec::new();
        let mut closed: Vec<bool> = Vec::new();
        let mut k: usize = 0;
        while k < nn
            invariant
                k <= nn,
                g@.len() == k && pred@.len() == k && in_open@.len() == k && closed@.len() == k,
                forall|i: int| 0 <= i < k ==> g@[i] == UNSEEN && !in_open@[i] && !closed@[i],
            decreases nn - k,
        {
            g.push(UNSEEN);
            pred.push(0);
            in_open.push(false);
            closed.push(false);
            k = k + 1;
        }
        g.set(s, 0);
        in_open.set(s, true);
        let ghost open = is_accessible@;
        let ghost sz = size as int;
        let ghost mut done: Set<int> = Set::empty();
        proof {
            lemma_index(start, sz);
            lemma_index(goal, sz);
            assert(frontier(g@, closed@, in_open@, start, goal, open, sz, s as int));
        }
        let mut expanded: usize = 0;
        while expanded < nn
            invariant
                0 < size <= MAX_GRID_SIZE,
                nn == size * size,
                nn <= MAX_GRID_SIZE * MAX_GRID_SIZE,
                open.len() == nn,
                open == is_accessible@,
                sz == size,
                s < nn && t < nn && s != t,
                s == cell_index(start, sz),
                t == cell_index(goal, sz),
                pos_at(s as int, sz) == start,
                pos_at(t as int, sz) == goal,
                start != goal,
                in_bounds(start, sz),
                in_bounds(goal, sz),
                g@.len() == nn && pred@.len() == nn && in_open@.len() == nn && closed@.len() == nn,
                expanded < nn,
                g@[s as int] == 0,
                !closed@[t as int],
                done.finite(),
                done.len() == expanded,
                forall|i: int| #[trigger] done.contains(i) <==> 0 <= i < nn && closed@[i],
                forall|i: int| 0 <= i < nn && #[trigger] g@[i] != UNSEEN ==> g@[i] <= expanded,
                forall|i: int| 0 <= i < nn && #[trigger] closed@[i] ==> g@[i] != UNSEEN,
                forall|i: int| 0 <= i < nn && #[trigger] in_open@[i] ==> g@[i] != UNSEEN,
                forall|i: int|
                    0 <= i < nn && i != s && g@[i] != UNSEEN ==> #[trigger] search_link(g@, pred@, closed@, open, t as int, sz, i),
                frontier(g@, closed@, in_open@, start, goal, open, sz, s as int),
            decreases nn - expanded,
        {
            // the open coordinate with the least estimated total cost
            let mut best: usize = nn;
            let mut best_f: u64 = 0;
            let mut j: usize = 0;
            while j < nn
                invariant
                    0 < size <= MAX_GRID_SIZE,
                    nn == size * size,
                    nn <= MAX_GRID_SIZE * MAX_GRID_SIZE,
                    sz == size,
                    j <= nn,
                    in_bounds(goal, size as int),
                    g@.len() == nn && in_open@.len() == nn,
                    expanded < nn,
                    forall|i: int| 0 <= i < nn && #[trigger] g@[i] != UNSEEN ==> g@[i] <= expanded,
                    forall|i: int| 0 <= i < nn && #[trigger] in_open@[i] ==> g@[i] != UNSEEN,
                    best == nn || (best < nn && in_open@[best as int] && best_f == f_of(g@, best as int, goal, sz)),
                    forall|i: int| 0 <= i < j && #[trigger] in_open@[i] ==> best < nn && best_f <= f_of(g@, i, goal, sz),
                decreases nn - j,
            {
                if in_open[j] {
                    let p = pos_of(j, size);
                    proof {
                        assert(manhattan(p, goal) <= 2 * MAX_GRID_SIZE);
                        assert(g@[j as int] != UNSEEN);
                        assert(g@[j as int] <= expanded);
                    }
                    let f = g[j] + Grid::manhattan_distance(p, goal) as u64;
                    if best == nn || f < best_f {
                        best = j;
                        best_f = f;
                    }
                }
                j = j + 1;
            }
            if best == nn {
                proof {
                    assert(closed@[s as int]);
                    assert forall|q: Seq<Pos>| #[trigger] is_route(q, start, goal, open, sz) implies false by {
                        assert(walk(q, start, goal, open, sz)) by {
                            assert forall|i: int| 1 <= i < q.len() implies admissible(open, sz, goal, #[trigger] q[i]) by {
                                if i < q.len() - 1 {
                                    assert(open_at(open, sz, q[i]));
                                }
                            }
                        }
                        let k = lemma_crossing(g@, closed@, in_open@, q, start, goal, open, sz, s as int, expanded as int);
                    }
                }
                return None;
            }
            let cur = best;
            proof {
                lemma_popped(g@, closed@, in_open@, start, goal, open, sz, s as int, cur as int, expanded as int);
            }
            if cur == t {
                proof {
                    assert forall|i: int|
                        0 <= i < nn && i != s && g@[i] != UNSEEN implies #[trigger] link_ok(g@, pred@, open, t as int, sz, i) by {
                        assert(search_link(g@, pred@, closed@, open, t as int, sz, i));
                    }
                }
                let path = reconstruct(&g, &pred, s, t, size, Ghost(open));
                proof {
                    assert forall|q: Seq<Pos>| #[trigger] is_route(q, start, goal, open, sz) implies path@.len() <= q.len() by {
                        assert(walk(q, start, goal, open, sz)) by {
                            assert forall|i: int| 1 <= i < q.len() implies admissible(open, sz, goal, #[trigger] q[i]) by {
                                if i < q.len() - 1 {
                                    assert(open_at(open, sz, q[i]));
                                }
                            }
                        }
                    }
                }
                return Some(path);
            }
            let ghost g0 = g@;
            let ghost closed0 = closed@;
            let ghost open0 = in_open@;
            in_open.set(cur, false);
            closed.set(cur, true);
            proof {
                vstd::set::axiom_set_insert_len(done, cur as int);
                done = done.insert(cur as int);
                assert forall|i: int|
                    0 <= i < nn && i != s && g@[i] != UNSEEN implies #[trigger] search_link(g@, pred@, closed@, open, t as int, sz, i) by {
                    assert(search_link(g@, pred@, closed0, open, t as int, sz, i));
                }
                assert forall|u: int| 0 <= u < nn && closed0[u] implies #[trigger] relaxed(g@, closed@, u, goal, open, sz) by {
                    lemma_relaxed_mono(g0, closed0, g@, closed@, u, goal, open, sz);
                }
            }
            let cur_g = g[cur];
            let cur_pos = pos_of(cur, size);
            let nbs = Grid::get_orthogonal_positions(cur_pos);
            let ghost g1 = g@;
            let mut m: usize = 0;
            while m < 4
                invariant
                    0 < size <= MAX_GRID_SIZE,
                    nn == size * size,
                    nn <= MAX_GRID_SIZE * MAX_GRID_SIZE,
                    open.len() == nn,
                    open == is_accessible@,
                    sz == size,
                    s < nn && t < nn && s != t,
                    s == cell_index(start, sz),
                    t == cell_index(goal, sz),
                    pos_at(t as int, sz) == goal,
                    cur < nn,
                    cur != t,
                    cur_pos == pos_at(cur as int, sz),
                    closed@[cur as int],
                    !closed@[t as int],
                    cur_g == g@[cur as int],
                    cur_g == g1[cur as int],
                    cur_g <= expanded,
                    expanded < nn,
                    nbs@ == seq![
                        Pos { x: cur_pos.x, y: (cur_pos.y - 1) as i32 },
                        Pos { x: (cur_pos.x - 1) as i32, y: cur_pos.y },
                        Pos { x: (cur_pos.x + 1) as i32, y: cur_pos.y },
                        Pos { x: cur_pos.x, y: (cur_pos.y + 1) as i32 },
                    ],
                    forall|q: int| 0 <= q < 4 ==> orthogonal_step(cur_pos, #[trigger] nbs@[q]),
                    g@.len() == nn && pred@.len() == nn && in_open@.len() == nn && closed@.len() == nn,
                    g1.len() == nn,
                    m <= 4,
                    g@[s as int] == 0,
                    forall|i: int| 0 <= i < nn ==> #[trigger] g@[i] <= g1[i],
                    forall|i: int| 0 <= i < nn && #[trigger] g@[i] != UNSEEN ==> g@[i] <= expanded + 1,
                    forall|i: int| 0 <= i < nn && #[trigger] closed@[i] ==> g@[i] != UNSEEN && g@[i] == g1[i],
                    forall|i: int| 0 <= i < nn && #[trigger] in_open@[i] ==> g@[i] != UNSEEN,
                    forall|i: int|
                        0 <= i < nn && i != s && g@[i] != UNSEEN ==> #[trigger] search_link(g@, pred@, closed@, open, t as int, sz, i),
                    forall|u: int| 0 <= u < nn && u != cur && closed@[u] ==> #[trigger] relaxed(g@, closed@, u, goal, open, sz),
                    forall|u: int| 0 <= u < nn && closed@[u] ==> #[trigger] no_shorter(g@[u] as int, u, start, goal, open, sz),
                    forall|i: int| 0 <= i < nn && g@[i] != UNSEEN && !closed@[i] ==> #[trigger] in_open@[i],
                    forall|i: int| 0 <= i < nn && #[trigger] in_open@[i] ==> !closed@[i],
                    closed@[s as int],
                    forall|q: int| 0 <= q < m ==> #[trigger] neighbour_done(g@, closed@, nbs@[q], cur_g as int, goal, open, sz),
                decreases 4 - m,
            {
                let nb = nbs[m];
                let ghost g2 = g@;
                if Grid::is_in_bounds(nb, size) {
                    let ni = index_of(nb, size);
                    if !closed[ni] && (is_accessible[ni] || ni == t) {
                        let tentative = cur_g + 1;
                        if tentative < g[ni] {
                            let ghost pred0 = pred@;
                            proof {
                                assert(ni != s);
                            }
                            g.set(ni, tentative);
                            pred.set(ni, cur);
                            in_open.set(ni, true);
                            proof {
                                assert forall|i: int|
                                    0 <= i < nn && i != s && g@[i] != UNSEEN implies #[trigger] search_link(g@, pred@, closed@, open, t as int, sz, i) by {
                                    if i == ni {
                                        assert(nbs@[m as int] == nb);
                                        assert(orthogonal_step(cur_pos, nb));
                                    } else {
                                        assert(search_link(g2, pred0, closed@, open, t as int, sz, i));
                                        assert(pred@[i] == pred0[i]);
                                        assert(pred0[i] != ni);
                                    }
                                }
                                assert forall|u: int| 0 <= u < nn && u != cur && closed@[u] implies #[trigger] relaxed(g@, closed@, u, goal, open, sz) by {
                                    assert(relaxed(g2, closed@, u, goal, open, sz));
                                    lemma_relaxed_mono(g2, closed@, g@, closed@, u, goal, open, sz);
                                }
                                assert forall|u: int| 0 <= u < nn && closed@[u] implies #[trigger] no_shorter(g@[u] as int, u, start, goal, open, sz) by {
                                    assert(no_shorter(g2[u] as int, u, start, goal, open, sz));
                                    assert(g@[u] == g2[u]);
                                }
                            }
                        }
                    }
                }
                proof {
                    assert forall|q: int| 0 <= q <= m implies #[trigger] neighbour_done(g@, closed@, nbs@[q], cur_g as int, goal, open, sz) by {
                        if q < m {
                            assert(neighbour_done(g2, closed@, nbs@[q], cur_g as int, goal, open, sz));
                            let p = nbs@[q];
                            if in_bounds(p, sz) {
                                lemma_index(p, sz);
                                assert(g@[cell_index(p, sz)] <= g2[cell_index(p, sz)]);
                            }
                        } else {
                            let p = nbs@[q];
                            if in_bounds(p, sz) {
                                lemma_index(p, sz);
                            }
                        }
                    }
                }
                m = m + 1;
            }
            proof {
                assert forall|v: int|
                    0 <= v < sz * sz && orthogonal_step(pos_at(cur as int, sz), #[trigger] pos_at(v, sz)) && admissible(open, sz, goal, pos_at(v, sz))
                        implies closed@[v] || g@[v] <= g@[cur as int] + 1 by {
                    lemma_pos_at(v, sz);
                    let pv = pos_at(v, sz);
                    lemma_step_listed(cur_pos, pv);
                    if pv == nbs@[0] {
                        assert(neighbour_done(g@, closed@, nbs@[0], cur_g as int, goal, open, sz));
                    } else if pv == nbs@[1] {
                        assert(neighbour_done(g@, closed@, nbs@[1], cur_g as int, goal, open, sz));
                    } else if pv == nbs@[2] {
                        assert(neighbour_done(g@, closed@, nbs@[2], cur_g as int, goal, open, sz));
                    } else {
                        assert(neighbour_done(g@, closed@, nbs@[3], cur_g as int, goal, open, sz));
                    }
                }
                assert(relaxed(g@, closed@, cur as int, goal, open, sz));
                assert(frontier(g@, closed@, in_open@, start, goal, open, sz, s as int));
                let rest = vstd::set_lib::set_int_range(0, nn as int).remove(t as int);
                vstd::set_lib::lemma_int_range(0, nn as int);
                vstd::set::axiom_set_remove_len(vstd::set_lib::set_int_range(0, nn as int), t as int);
                assert(done.subset_of(rest));
                vstd::set_lib::lemma_len_subset(done, rest);
            }
            expanded = expanded + 1;
        }
        None
    }
}

/// Facts about the search's labels that the walk back from the goal relies on.
spec fn link_ok(g: Seq<u64>, pred: Seq<usize>, open: Seq<bool>, t: int, sz: int, i: int) -> bool {
    &&& pred[i] < sz * sz
    &&& g[pred[i] as int] != UNSEEN
    &&& g[i] == g[pred[i] as int] + 1
    &&& orthogonal_step(pos_at(pred[i] as int, sz), pos_at(i, sz))
    &&& (open[i] || i == t)
}

/// `link_ok`, with the predecessor already expanded.
spec fn search_link(g: Seq<u64>, pred: Seq<usize>, closed: Seq<bool>, open: Seq<bool>, t: int, sz: int, i: int) -> bool {
    &&& link_ok(g, pred, open, t, sz, i)
    &&& closed[pred[i] as int]
}

/// A walk written from its last coordinate back to its first.
spec fn back_walk(back: Seq<Pos>, open: Seq<bool>, sz: int) -> bool {
    &&& forall|i: int| 0 <= i < back.len() ==> in_bounds(#[trigger] back[i], sz)
    &&& forall|i: int| 0 <= i < back.len() - 1 ==> orthogonal_step(#[trigger] back[i + 1], back[i])
    &&& forall|i: int| 1 <= i < back.len() - 1 ==> open_at(open, sz, #[trigger] back[i])
}

fn reconstruct(g: &Vec<u64>, pred: &Vec<usize>, s: usize, t: usize, size: usize, Ghost(open): Ghost<Seq<bool>>) -> (r: Vec<Pos>)
    requires
        0 < size <= MAX_GRID_SIZE,
        open.len() == size * size,
        g@.len() == size * size && pred@.len() == size * size,
        s < size * size && t < size * size && s != t,
        g@[s as int] == 0,
        g@[t as int] != UNSEEN,
        forall|i: int|
            0 <= i < size * size && i != s && g@[i] != UNSEEN ==> #[trigger] link_ok(g@, pred@, open, t as int, size as int, i),
    ensures
        is_route(r@, pos_at(s as int, size as int), pos_at(t as int, size as int), open, size as int),
        r@.len() == g@[t as int] + 1,
{
    let ghost sz = size as int;
    proof {
        assert(size * size <= MAX_GRID_SIZE * MAX_GRID_SIZE) by (nonlinear_arith)
            requires 0 < size <= MAX_GRID_SIZE;
    }
    let nn = size * size;
    // walk the predecessor links back from the goal
    let mut back: Vec<Pos> = Vec::new();
    let mut cur = t;
    back.push(pos_of(t, size));
    while cur != s
        invariant
            0 < size <= MAX_GRID_SIZE,
            sz == size,
            nn == size * size,
            open.len() == nn,
            g@.len() == nn && pred@.len() == nn,
            s < nn && t < nn && s != t,
            cur < nn,
            g@[cur as int] != UNSEEN,
            g@[cur as int] <= g@[t as int],
            cur != t ==> g@[cur as int] < g@[t as int],
            back@.len() >= 1,
            back@.len() == g@[t as int] - g@[cur as int] + 1,
            cur == t ==> back@.len() == 1,
            back@[0] == pos_at(t as int, sz),
            back@.last() == pos_at(cur as int, sz),
            back_walk(back@, open, sz),
            forall|i: int|
                0 <= i < nn && i != s && g@[i] != UNSEEN ==> #[trigger] link_ok(g@, pred@, open, t as int, sz, i),
        decreases g@[cur as int],
    {
        let ghost old_back = back@;
        let ghost old_cur = cur;
        proof {
            assert(link_ok(g@, pred@, open, t as int, sz, cur as int));
            lemma_pos_at(cur as int, sz);
            if cur != t {
                assert(open_at(open, sz, pos_at(cur as int, sz)));
            }
        }
        cur = pred[cur];
        back.push(pos_of(cur, size));
        proof {
            assert(back@[back@.len() - 2] == pos_at(old_cur as int, sz));
            assert forall|i: int| 1 <= i < back@.len() - 1 implies open_at(open, sz, #[trigger] back@[i]) by {
                if i < old_back.len() - 1 {
                    assert(back@[i] == old_back[i]);
                }
            }
            assert forall|i: int| 0 <= i < back@.len() - 1 implies orthogonal_step(#[trigger] back@[i + 1], back@[i]) by {
                if i < old_back.len() - 1 {
                    assert(back@[i] == old_back[i]);
                    assert(back@[i + 1] == old_back[i + 1]);
                }
            }
            assert forall|i: int| 0 <= i < back@.len() implies in_bounds(#[trigger] back@[i], sz) by {
                if i < old_back.len() {
                    assert(back@[i] == old_back[i]);
                }
            }
        }
    }
    let r = reversed(&back);
    proof {
        lemma_reversed_walk(back@, r@, open, sz);
    }
    r
}

proof fn lemma_reversed_walk(back: Seq<Pos>, r: Seq<Pos>, open: Seq<bool>, sz: int)
    requires
        back_walk(back, open, sz),
        back.len() >= 1,
        r.len() == back.len(),
        forall|i: int| 0 <= i < back.len() ==> r[i] == back[back.len() - 1 - i],
    ensures
        forall|i: int| 0 <= i < r.len() ==> in_bounds(#[trigger] r[i], sz),
        forall|i: int| 0 <= i < r.len() - 1 ==> orthogonal_step(#[trigger] r[i], r[i + 1]),
        forall|i: int| 1 <= i < r.len() - 1 ==> open_at(open, sz, #[trigger] r[i]),
        r[0] == back.last(),
        r.last() == back[0],
{
    let n = back.len() as int;
    assert forall|i: int| 0 <= i < r.len() - 1 implies orthogonal_step(#[trigger] r[i], r[i + 1]) by {
        let j = n - 2 - i;
        assert(orthogonal_step(back[j + 1], back[j]));
    }
    assert forall|i: int| 0 <= i < r.len() implies in_bounds(#[trigger] r[i], sz) by {
        assert(in_bounds(back[n - 1 - i], sz));
    }
    assert forall|i: int| 1 <= i < r.len() - 1 implies open_at(open, sz, #[trigger] r[i]) by {
        assert(open_at(open, sz, back[n - 1 - i]));
    }
}

fn reversed(v: &Vec<Pos>) -> (r: Vec<Pos>)
    ensures
        r@.len() == v@.len(),
        forall|i: int| 0 <= i < v@.len() ==> r@[i] == v@[v@.len() - 1 - i],
{
    let n = v.len();
    let mut r: Vec<Pos> = Vec::new();
    let mut k: usize = 0;
    while k < n
        invariant
            n == v@.len(),
            k <= n,
            r@.len() == k,
            forall|i: int| 0 <= i < k ==> r@[i] == v@[n - 1 - i],
        decreases n - k,
    {
        r.push(v[n - 1 - k]);
        k = k + 1;
    }
    r
}

} // verus!
