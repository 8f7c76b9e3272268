//! Properties of the flock that relate its rules and operations.
use vstd::prelude::*;
use crate::boid::{Boid, WorldSettings};
use crate::geometry::{lemma_limit_speed_within, trunc_div, Vec2, SPEED_LIMIT, UNIT};
use crate::orchestrator::BoidOrchestrator;
use crate::rules::{alignment, border, cohesion, next_boid, raw_velocity, weighted, BORDER_PUSH};

verus! {

/// Whatever the flock, every agent leaves a step no faster than the speed
/// limit.
pub proof fn lemma_step_within_speed_limit(s: Seq<Boid>, i: int, w: WorldSettings, dt: int)
    requires
        0 <= i < s.len(),
    ensures
        next_boid(s, i, w, dt).velocity.norm_sq() <= SPEED_LIMIT * SPEED_LIMIT,
{
    lemma_limit_speed_within((raw_velocity(s, i, w, 0), raw_velocity(s, i, w, 1)));
}

/// With a single agent, cohesion and alignment contribute nothing on either
/// axis: there is no other agent to average over.
pub proof fn lemma_single_boid_no_cohesion_alignment(s: Seq<Boid>, k: int)
    requires
        s.len() == 1,
    ensures
        cohesion(s, 0, k) == 0,
        alignment(s, 0, k) == 0,
{
}

proof fn lemma_weighted_zero(c: int)
    ensures
        weighted(c, 0) == 0,
{
    assert(c * 0 == 0) by (nonlinear_arith);
}

proof fn lemma_weighted_push(m: int)
    ensures
        weighted(BORDER_PUSH as int, m) == 10 * m,
        weighted(-BORDER_PUSH, m) == -10 * m,
{
    assert(BORDER_PUSH * m == (10 * m) * UNIT) by (nonlinear_arith);
    assert((-BORDER_PUSH) * m == (-10 * m) * UNIT) by (nonlinear_arith);
    if m >= 0 {
        assert(((10 * m) * 1000) / 1000 == 10 * m) by (nonlinear_arith);
        assert(((10 * m) * 1000) == -((-10 * m) * 1000)) by (nonlinear_arith);
    } else {
        assert(((-10 * m) * 1000) / 1000 == -10 * m) by (nonlinear_arith);
        assert(((10 * m) * 1000) == -((-10 * m) * 1000)) by (nonlinear_arith);
    }
}

/// A lone agent outside the world on the x axis, with only the border rule
/// weighted, gains on that axis exactly ten times the border modifier toward
/// the interior, and keeps its y velocity, as long as the speed limit does not
/// cut in.
pub proof fn lemma_border_push_x(s: Seq<Boid>, w: WorldSettings, dt: int)
    requires
        s.len() == 1,
        s[0].valid(),
        w.valid(),
        w.pc.p_center_modifier == 0,
        w.avoidance.avoidance_modifier == 0,
        w.velocity_matching.velocity_matching_modifier == 0,
        s[0].position.x < 0 || s[0].position.x > w.world_width * UNIT,
        0 <= s[0].position.y <= w.world_height * UNIT,
        ({
            let vx = raw_velocity(s, 0, w, 0);
            let vy = raw_velocity(s, 0, w, 1);
            vx * vx + vy * vy <= SPEED_LIMIT * SPEED_LIMIT
        }),
    ensures
        s[0].position.x < 0 ==> next_boid(s, 0, w, dt).velocity.x == s[0].velocity.x + 10
            * w.border_constraint.border_constraint_modifier,
        s[0].position.x > w.world_width * UNIT ==> next_boid(s, 0, w, dt).velocity.x
            == s[0].velocity.x - 10 * w.border_constraint.border_constraint_modifier,
        next_boid(s, 0, w, dt).velocity.y == s[0].velocity.y,
{
    let b = s[0];
    let m = w.border_constraint.border_constraint_modifier as int;
    lemma_single_boid_no_cohesion_alignment(s, 0);
    lemma_single_boid_no_cohesion_alignment(s, 1);
    lemma_weighted_zero(0);
    lemma_weighted_zero(
        crate::rules::separation(s, b.position, w.avoidance.avoidance_range as int, 0),
    );
    lemma_weighted_zero(
        crate::rules::separation(s, b.position, w.avoidance.avoidance_range as int, 1),
    );
    lemma_weighted_push(m);
    assert(border(b.position, w.world_width as int, w.world_height as int, 1) == 0);
    assert(weighted(0, m) == 0) by {
        assert(0 * m == 0);
    }
    assert(trunc_div(0, 1000) == 0);
    if b.position.x < 0 {
        assert(raw_velocity(s, 0, w, 0) == b.velocity.x + 10 * m);
    } else {
        assert(raw_velocity(s, 0, w, 0) == b.velocity.x - 10 * m);
    }
    assert(raw_velocity(s, 0, w, 1) == b.velocity.y);
}

/// The border rule on the y axis, as on the x axis above.
pub proof fn lemma_border_push_y(s: Seq<Boid>, w: WorldSettings, dt: int)
    requires
        s.len() == 1,
        s[0].valid(),
        w.valid(),
        w.pc.p_center_modifier == 0,
        w.avoidance.avoidance_modifier == 0,
        w.velocity_matching.velocity_matching_modifier == 0,
        s[0].position.y < 0 || s[0].position.y > w.world_height * UNIT,
        0 <= s[0].position.x <= w.world_width * UNIT,
        ({
            let vx = raw_velocity(s, 0, w, 0);
            let vy = raw_velocity(s, 0, w, 1);
            vx * vx + vy * vy <= SPEED_LIMIT * SPEED_LIMIT
        }),
    ensures
        s[0].position.y < 0 ==> next_boid(s, 0, w, dt).velocity.y == s[0].velocity.y + 10
            * w.border_constraint.border_constraint_modifier,
        s[0].position.y > w.world_height * UNIT ==> next_boid(s, 0, w, dt).velocity.y
            == s[0].velocity.y - 10 * w.border_constraint.border_constraint_modifier,
        next_boid(s, 0, w, dt).velocity.x == s[0].velocity.x,
{
    let b = s[0];
    let m = w.border_constraint.border_constraint_modifier as int;
    lemma_single_boid_no_cohesion_alignment(s, 0);
    lemma_single_boid_no_cohesion_alignment(s, 1);
    lemma_weighted_zero(0);
    lemma_weighted_zero(
        crate::rules::separation(s, b.position, w.avoidance.avoidance_range as int, 0),
    );
    lemma_weighted_zero(
        crate::rules::separation(s, b.position, w.avoidance.avoidance_range as int, 1),
    );
    lemma_weighted_push(m);
    assert(border(b.position, w.world_width as int, w.world_height as int, 0) == 0);
    assert(weighted(0, m) == 0) by {
        assert(0 * m == 0);
    }
    assert(trunc_div(0, 1000) == 0);
    if b.position.y < 0 {
        assert(raw_velocity(s, 0, w, 1) == b.velocity.y + 10 * m);
    } else {
        assert(raw_velocity(s, 0, w, 1) == b.velocity.y - 10 * m);
    }
    assert(raw_velocity(s, 0, w, 0) == b.velocity.x);
}

/// The buffer holds three entries per agent in every well-formed state.
pub proof fn lemma_buffer_length(f: BoidOrchestrator)
    requires
        f.wf(),
    ensures
        f.spec_items().len() == 3 * f.spec_boids().len(),
{
}

/// Adding an agent and then removing the last one gives back the agents and
/// the buffer as they were.
pub proof fn lemma_add_then_remove(
    before: BoidOrchestrator,
    added: BoidOrchestrator,
    after: BoidOrchestrator,
    position: Vec2,
)
    requires
        before.wf(),
        added.spec_boids() == before.spec_boids().push(
            Boid { position, velocity: Vec2 { x: 0, y: 0 }, id: before.spec_next_id() },
        ),
        added.spec_items().len() == before.spec_items().len() + 3,
        added.spec_items().take(before.spec_items().len() as int) == before.spec_items(),
        after.spec_boids() == added.spec_boids().drop_last(),
        after.spec_items() == added.spec_items().take(added.spec_items().len() - 3),
    ensures
        after.spec_boids() == before.spec_boids(),
        after.spec_items() == before.spec_items(),
{
    assert(before.spec_boids().push(
        Boid { position, velocity: Vec2 { x: 0, y: 0 }, id: before.spec_next_id() },
    ).drop_last() =~= before.spec_boids());
}

} // verus!
