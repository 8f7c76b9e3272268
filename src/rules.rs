//! The four steering rules, their combination and the update of one agent.
use vstd::prelude::*;
use crate::boid::{
    position_in_range, Boid, WorldSettings, COORD_MAX, MAX_BOIDS,
    MODIFIER_MAX, RADIUS_MAX,
};
use crate::geometry::{
    div_toward_zero, lemma_mul_within, lemma_square_bound, lemma_trunc_div_within,
    limit_speed, limit_speed_exec, trunc_div, Vec2, SPEED_LIMIT, UNIT,
};

verus! {

/// The push of the border rule on an axis, in sub-units.
pub const BORDER_PUSH: i64 = 10_000;

/// The largest magnitude of a time step, in thousandths of a time unit.
pub const DT_MAX: i64 = 1_000_000;

/// Component `k` of an agent: position x and y for 0 and 1, velocity x and y
/// for 2 and 3.
pub open spec fn component(b: Boid, k: int) -> int {
    if k == 0 {
        b.position.x as int
    } else if k == 1 {
        b.position.y as int
    } else if k == 2 {
        b.velocity.x as int
    } else {
        b.velocity.y as int
    }
}

/// The sum of component `k` over a sequence of agents.
pub open spec fn total(s: Seq<Boid>, k: int) -> int
    decreases s.len(),
{
    if s.len() == 0 {
        0
    } else {
        total(s.drop_last(), k) + component(s.last(), k)
    }
}

pub open spec fn all_valid(s: Seq<Boid>) -> bool {
    forall|i: int| 0 <= i < s.len() ==> (#[trigger] s[i]).valid()
}

pub open spec fn axis(p: Vec2, k: int) -> int {
    if k == 0 {
        p.x as int
    } else {
        p.y as int
    }
}

pub open spec fn dist_sq(a: Vec2, b: Vec2) -> int {
    (b.x - a.x) * (b.x - a.x) + (b.y - a.y) * (b.y - a.y)
}

/// Component `c` averaged over the agents other than `i`, minus agent `i`'s
/// own, divided by `d`; zero with fewer than two agents.
pub open spec fn offset_from_average(s: Seq<Boid>, i: int, c: int, d: int) -> int {
    let n = s.len() as int;
    if n < 2 {
        0
    } else {
        let own = component(s[i], c);
        trunc_div(trunc_div(total(s, c) - own, n - 1) - own, d)
    }
}

/// Cohesion on axis `k` (0 or 1) for agent `i`: the average position of the
/// other agents minus the agent's own, over 100.
pub open spec fn cohesion(s: Seq<Boid>, i: int, k: int) -> int {
    offset_from_average(s, i, k, 100)
}

/// Alignment on axis `k` (0 or 1) for agent `i`: the average velocity of the
/// other agents minus the agent's own, over 8.
pub open spec fn alignment(s: Seq<Boid>, i: int, k: int) -> int {
    offset_from_average(s, i, k + 2, 8)
}

/// Separation on axis `k` from position `me`: the sum of `me - p` over every
/// agent position `p` strictly closer than `r`. The agent itself adds zero.
pub open spec fn separation(s: Seq<Boid>, me: Vec2, r: int, k: int) -> int
    decreases s.len(),
{
    if s.len() == 0 {
        0
    } else {
        let p = s.last().position;
        separation(s.drop_last(), me, r, k) + if dist_sq(me, p) < r * r {
            axis(me, k) - axis(p, k)
        } else {
            0
        }
    }
}

/// Border containment on axis `k`: a push into the world from either side.
pub open spec fn border(p: Vec2, world_width: int, world_height: int, k: int) -> int {
    let c = axis(p, k);
    let size = if k == 0 {
        world_width
    } else {
        world_height
    };
    if c < 0 {
        BORDER_PUSH as int
    } else if c > size * UNIT {
        -BORDER_PUSH
    } else {
        0
    }
}

/// A rule's contribution weighted by a modifier in thousandths.
pub open spec fn weighted(c: int, m: int) -> int {
    trunc_div(c * m, UNIT as int)
}

/// The new velocity on axis `k` before the speed limit.
pub open spec fn raw_velocity(s: Seq<Boid>, i: int, w: WorldSettings, k: int) -> int {
    let b = s[i];
    component(b, k + 2) + weighted(cohesion(s, i, k), w.pc.p_center_modifier as int) + weighted(
        separation(s, b.position, w.avoidance.avoidance_range as int, k),
        w.avoidance.avoidance_modifier as int,
    ) + weighted(alignment(s, i, k), w.velocity_matching.velocity_matching_modifier as int)
        + weighted(
        border(b.position, w.world_width as int, w.world_height as int, k),
        w.border_constraint.border_constraint_modifier as int,
    )
}

/// The new velocity of agent `i`: the combined rules under the speed limit.
pub open spec fn next_velocity(s: Seq<Boid>, i: int, w: WorldSettings) -> (int, int) {
    limit_speed((raw_velocity(s, i, w, 0), raw_velocity(s, i, w, 1)))
}

pub open spec fn clamp_coord(c: int) -> int {
    if c < -COORD_MAX {
        -COORD_MAX as int
    } else if c > COORD_MAX {
        COORD_MAX as int
    } else {
        c
    }
}

/// The new position coordinate: old one plus velocity times the time step in
/// thousandths, kept in the representable range.
pub open spec fn next_coord(c: int, v: int, dt: int) -> int {
    clamp_coord(c + trunc_div(v * dt, UNIT as int))
}

/// Agent `i` after one step taken from the snapshot `s`.
pub open spec fn next_boid(s: Seq<Boid>, i: int, w: WorldSettings, dt: int) -> Boid {
    let v = next_velocity(s, i, w);
    let b = s[i];
    Boid {
        position: Vec2 {
            x: next_coord(b.position.x as int, v.0, dt) as i64,
            y: next_coord(b.position.y as int, v.1, dt) as i64,
        },
        velocity: Vec2 { x: v.0 as i64, y: v.1 as i64 },
        id: b.id,
    }
}

fn component_exec(b: &Boid, k: u8) -> (r: i64)
    ensures
        r == component(*b, k as int),
{
    if k == 0 {
        b.position.x
    } else if k == 1 {
        b.position.y
    } else if k == 2 {
        b.velocity.x
    } else {
        b.velocity.y
    }
}

/// Sums component `k` over all agents.
pub fn total_exec(boids: &Vec<Boid>, k: u8) -> (r: i128)
    requires
        all_valid(boids@),
        boids@.len() <= MAX_BOIDS,
    ensures
        r == total(boids@, k as int),
        -(boids@.len() * COORD_MAX) <= r <= boids@.len() * COORD_MAX,
{
    let mut acc: i128 = 0;
    let mut j: usize = 0;
    while j < boids.len()
        invariant
            j <= boids@.len(),
            boids@.len() <= MAX_BOIDS,
            all_valid(boids@),
            acc == total(boids@.take(j as int), k as int),
            -(j * COORD_MAX) <= acc <= j * COORD_MAX,
        decreases boids@.len() - j,
    {
        let c = component_exec(&boids[j], k);
        assert(boids@[j as int].valid());
        assert(boids@.take(j as int + 1).drop_last() =~= boids@.take(j as int));
        acc = acc + c as i128;
        j = j + 1;
    }
    assert(boids@.take(j as int) =~= boids@);
    acc
}

/// The separation rule for position `me` with radius `r`.
pub fn separation_exec(boids: &Vec<Boid>, me: Vec2, r: i64) -> (res: (i128, i128))
    requires
        all_valid(boids@),
        boids@.len() <= MAX_BOIDS,
        position_in_range(me),
        0 <= r <= RADIUS_MAX,
    ensures
        res.0 == separation(boids@, me, r as int, 0),
        res.1 == separation(boids@, me, r as int, 1),
        -(boids@.len() * 2 * COORD_MAX) <= res.0 <= boids@.len() * 2 * COORD_MAX,
        -(boids@.len() * 2 * COORD_MAX) <= res.1 <= boids@.len() * 2 * COORD_MAX,
{
    let mut sx: i128 = 0;
    let mut sy: i128 = 0;
    proof {
        lemma_square_bound(r as int, RADIUS_MAX as int);
    }
    let rr: i128 = r as i128 * r as i128;
    let mut j: usize = 0;
    while j < boids.len()
        invariant
            j <= boids@.len(),
            boids@.len() <= MAX_BOIDS,
            all_valid(boids@),
            position_in_range(me),
            0 <= r <= RADIUS_MAX,
            rr == r * r,
            sx == separation(boids@.take(j as int), me, r as int, 0),
            sy == separation(boids@.take(j as int), me, r as int, 1),
            -(j * 2 * COORD_MAX) <= sx <= j * 2 * COORD_MAX,
            -(j * 2 * COORD_MAX) <= sy <= j * 2 * COORD_MAX,
        decreases boids@.len() - j,
    {
        let p = boids[j].position;
        assert(boids@[j as int].valid());
        assert(boids@.take(j as int + 1).drop_last() =~= boids@.take(j as int));
        let dx: i128 = p.x as i128 - me.x as i128;
        let dy: i128 = p.y as i128 - me.y as i128;
        proof {
            lemma_square_bound(dx as int, 2 * COORD_MAX);
            lemma_square_bound(dy as int, 2 * COORD_MAX);
        }
        if dx * dx + dy * dy < rr {
            sx = sx + (me.x as i128 - p.x as i128);
            sy = sy + (me.y as i128 - p.y as i128);
        }
        j = j + 1;
    }
    assert(boids@.take(j as int) =~= boids@);
    (sx, sy)
}

/// The offset of agent `i` from the average of the others, in component `c`.
pub fn offset_from_average_exec(boids: &Vec<Boid>, i: usize, c: u8, d: i128) -> (r: i128)
    requires
        all_valid(boids@),
        boids@.len() <= MAX_BOIDS,
        i < boids@.len(),
        c <= 3,
        d > 0,
    ensures
        r == offset_from_average(boids@, i as int, c as int, d as int),
        -4 * COORD_MAX <= r <= 4 * COORD_MAX,
{
    let n = boids.len();
    if n < 2 {
        return 0;
    }
    let sum = total_exec(boids, c);
    let own = component_exec(&boids[i], c) as i128;
    assert(boids@[i as int].valid());
    assert(-COORD_MAX <= own <= COORD_MAX);
    let others: i128 = sum - own;
    let m: i128 = (n - 1) as i128;
    proof {
        let cm = COORD_MAX as int;
        assert(n * cm + cm <= 3 * cm * m) by (nonlinear_arith)
            requires
                m == n - 1,
                n >= 2,
                cm > 0,
        ;
        assert(-(3 * cm) * m <= others <= 3 * cm * m);
        lemma_trunc_div_within(others as int, m as int, 3 * cm);
    }
    let avg = div_toward_zero(others, m);
    let off: i128 = avg - own;
    proof {
        let cm = COORD_MAX as int;
        assert(-(4 * cm) * d <= off <= 4 * cm * d) by (nonlinear_arith)
            requires
                -4 * cm <= off <= 4 * cm,
                d >= 1,
                cm > 0,
        ;
        lemma_trunc_div_within(off as int, d as int, 4 * cm);
    }
    div_toward_zero(off, d)
}

/// The border rule on axis `k` for position `p`.
fn border_exec(p: Vec2, world_width: u32, world_height: u32, k: u8) -> (r: i64)
    requires
        world_width * UNIT <= COORD_MAX,
        world_height * UNIT <= COORD_MAX,
    ensures
        r == border(p, world_width as int, world_height as int, k as int),
{
    let c = if k == 0 {
        p.x
    } else {
        p.y
    };
    let size: i64 = if k == 0 {
        world_width as i64
    } else {
        world_height as i64
    };
    if c < 0 {
        BORDER_PUSH
    } else if c > size * UNIT {
        -BORDER_PUSH
    } else {
        0
    }
}

fn weighted_exec(c: i128, m: i64) -> (r: i128)
    requires
        -0x40_0000_0000_0000 <= c <= 0x40_0000_0000_0000,
        -MODIFIER_MAX <= m <= MODIFIER_MAX,
    ensures
        r == weighted(c as int, m as int),
{
    proof {
        lemma_mul_within(c as int, m as int, 0x40_0000_0000_0000, MODIFIER_MAX as int);
    }
    div_toward_zero(c * m as i128, UNIT as i128)
}

/// A weighted contribution is at most a hundred times the contribution.
pub proof fn lemma_weighted_within(c: int, m: int, b: int)
    requires
        -b <= c <= b,
        -MODIFIER_MAX <= m <= MODIFIER_MAX,
    ensures
        -100 * b <= weighted(c, m) <= 100 * b,
{
    lemma_mul_within(c, m, b, MODIFIER_MAX as int);
    assert(b * MODIFIER_MAX == 100 * b * UNIT);
    lemma_trunc_div_within(c * m, UNIT as int, 100 * b);
}

fn next_coord_exec(c: i64, v: i64, dt: i64) -> (r: i64)
    requires
        -COORD_MAX <= c <= COORD_MAX,
        -SPEED_LIMIT <= v <= SPEED_LIMIT,
        -DT_MAX <= dt <= DT_MAX,
    ensures
        r == next_coord(c as int, v as int, dt as int),
        -COORD_MAX <= r <= COORD_MAX,
{
    proof {
        lemma_mul_within(v as int, dt as int, SPEED_LIMIT as int, DT_MAX as int);
    }
    let moved = div_toward_zero(v as i128 * dt as i128, UNIT as i128);
    proof {
        lemma_trunc_div_within((v * dt) as int, UNIT as int, SPEED_LIMIT * DT_MAX);
    }
    let p: i128 = c as i128 + moved;
    if p < -(COORD_MAX as i128) {
        -COORD_MAX
    } else if p > COORD_MAX as i128 {
        COORD_MAX
    } else {
        p as i64
    }
}

/// Agent `i` after one step, computed from the snapshot `boids` alone.
pub fn apply_rules(boids: &Vec<Boid>, i: usize, w: &WorldSettings, dt: i64) -> (r: Boid)
    requires
        all_valid(boids@),
        boids@.len() <= MAX_BOIDS,
        i < boids@.len(),
        w.valid(),
        -DT_MAX <= dt <= DT_MAX,
    ensures
        r == next_boid(boids@, i as int, *w, dt as int),
        r.valid(),
{
    let b = boids[i];
    assert(boids@[i as int].valid());
    let (sx, sy) = separation_exec(boids, b.position, w.avoidance.avoidance_range);
    let cx = offset_from_average_exec(boids, i, 0, 100);
    let cy = offset_from_average_exec(boids, i, 1, 100);
    let ax = offset_from_average_exec(boids, i, 2, 8);
    let ay = offset_from_average_exec(boids, i, 3, 8);
    let bx = border_exec(b.position, w.world_width, w.world_height, 0);
    let by = border_exec(b.position, w.world_width, w.world_height, 1);
    let pc = w.pc.p_center_modifier;
    let am = w.avoidance.avoidance_modifier;
    let vm = w.velocity_matching.velocity_matching_modifier;
    let bm = w.border_constraint.border_constraint_modifier;
    let ghost cm: int = COORD_MAX as int;
    let ghost sb: int = 0x20_0000_0000_0000;
    assert(boids@.len() * 2 * COORD_MAX <= sb) by (nonlinear_arith)
        requires
            boids@.len() <= 65536,
            COORD_MAX == 0x10_0000_0000,
            sb == 0x20_0000_0000_0000,
    ;
    let wcx = weighted_exec(cx, pc);
    let wcy = weighted_exec(cy, pc);
    let wsx = weighted_exec(sx, am);
    let wsy = weighted_exec(sy, am);
    let wax = weighted_exec(ax, vm);
    let way = weighted_exec(ay, vm);
    let wbx = weighted_exec(bx as i128, bm);
    let wby = weighted_exec(by as i128, bm);
    proof {
        lemma_weighted_within(cx as int, pc as int, 4 * cm);
        lemma_weighted_within(cy as int, pc as int, 4 * cm);
        lemma_weighted_within(ax as int, vm as int, 4 * cm);
        lemma_weighted_within(ay as int, vm as int, 4 * cm);
        lemma_weighted_within(sx as int, am as int, sb);
        lemma_weighted_within(sy as int, am as int, sb);
        lemma_weighted_within(bx as int, bm as int, BORDER_PUSH as int);
        lemma_weighted_within(by as int, bm as int, BORDER_PUSH as int);
    }
    let vx: i128 = b.velocity.x as i128 + wcx + wsx + wax + wbx;
    let vy: i128 = b.velocity.y as i128 + wcy + wsy + way + wby;
    let v = limit_speed_exec(vx, vy);
    let px = next_coord_exec(b.position.x, v.x, dt);
    let py = next_coord_exec(b.position.y, v.y, dt);
    Boid { position: Vec2 { x: px, y: py }, velocity: v, id: b.id }
}

} // verus!
