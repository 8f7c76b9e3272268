//! The flock: its agents, its settings and the state buffer handed to a
//! renderer, stride three: x, y and heading of each agent in order.
use vstd::prelude::*;
use crate::boid::{
    position_in_range, velocity_in_range, AvoidanceSettings, Boid, BorderConstraintSettings,
    PerceivedCenterSettings, VelocityMatchingSettings, WorldSettings, MAX_BOIDS,
};
use crate::geometry::{lemma_square_bound, Vec2, SPEED_LIMIT};
use crate::rules::{
    alignment, all_valid, apply_rules, cohesion, next_boid, offset_from_average_exec, separation,
    separation_exec, DT_MAX,
};

verus! {

/// Turns a velocity into the heading that the state buffer shows.
pub trait Compass {
    fn heading(&self, velocity: Vec2) -> i64;
}

pub struct BoidOrchestrator {
    boids: Vec<Boid>,
    transfer_array: Vec<i64>,
    world_settings: WorldSettings,
    next_id: u32,
}

/// Ids grow strictly along the sequence, so no two agents share one.
pub open spec fn ids_increasing(s: Seq<Boid>) -> bool {
    forall|i: int, j: int| 0 <= i < j < s.len() ==> (#[trigger] s[i]).id < (#[trigger] s[j]).id
}

/// The buffer holds three entries per agent, the first two its position.
pub open spec fn buffer_matches(s: Seq<Boid>, buf: Seq<i64>) -> bool {
    &&& buf.len() == 3 * s.len()
    &&& forall|i: int|
        0 <= i < s.len() ==> buf[3 * i] == (#[trigger] s[i]).position.x && buf[3 * i + 1]
            == s[i].position.y
}

/// The agent at `i` carries `id`.
pub open spec fn has_id(s: Seq<Boid>, i: int, id: int) -> bool {
    0 <= i < s.len() && s[i].id as int == id
}

pub open spec fn lacks_id(s: Seq<Boid>, id: int) -> bool {
    forall|i: int| 0 <= i < s.len() ==> (#[trigger] s[i]).id as int != id
}

impl BoidOrchestrator {
    pub closed spec fn spec_boids(&self) -> Seq<Boid> {
        self.boids@
    }

    pub closed spec fn spec_items(&self) -> Seq<i64> {
        self.transfer_array@
    }

    pub closed spec fn spec_settings(&self) -> WorldSettings {
        self.world_settings
    }

    /// The id that the next added agent receives.
    pub closed spec fn spec_next_id(&self) -> u32 {
        self.next_id
    }

    pub open spec fn wf(&self) -> bool {
        let s = self.spec_boids();
        &&& s.len() <= MAX_BOIDS
        &&& all_valid(s)
        &&& ids_increasing(s)
        &&& forall|i: int| 0 <= i < s.len() ==> (#[trigger] s[i]).id < self.spec_next_id()
        &&& self.spec_settings().valid()
        &&& buffer_matches(s, self.spec_items())
    }

    /// A flock of one agent per given position, each at rest, with ids
    /// counted from zero in order. Lengths are in thousandths of a world unit
    /// and modifiers in thousandths.
    pub fn new<C: Compass>(
        world_width: u32,
        world_height: u32,
        positions: Vec<Vec2>,
        pc_modifier: i64,
        avoidance_modifier: i64,
        avoidance_range: i64,
        velocity_matching_modifier: i64,
        border_constraint_modifier: i64,
        compass: &C,
    ) -> (r: BoidOrchestrator)
        requires
            positions@.len() <= MAX_BOIDS,
            forall|i: int| 0 <= i < positions@.len() ==> position_in_range(#[trigger] positions@[i]),
            (WorldSettings {
                world_width,
                world_height,
                avoidance: AvoidanceSettings { avoidance_range, avoidance_modifier },
                pc: PerceivedCenterSettings { p_center_modifier: pc_modifier },
                velocity_matching: VelocityMatchingSettings { velocity_matching_modifier },
                border_constraint: BorderConstraintSettings { border_constraint_modifier },
            }).valid(),
        ensures
            r.wf(),
            r.spec_boids().len() == positions@.len(),
            forall|i: int|
                0 <= i < positions@.len() ==> #[trigger] r.spec_boids()[i] == (Boid {
                    position: positions@[i],
                    velocity: Vec2 { x: 0, y: 0 },
                    id: i as u32,
                }),
            r.spec_next_id() == positions@.len(),
            r.spec_settings() == (WorldSettings {
                world_width,
                world_height,
                avoidance: AvoidanceSettings { avoidance_range, avoidance_modifier },
                pc: PerceivedCenterSettings { p_center_modifier: pc_modifier },
                velocity_matching: VelocityMatchingSettings { velocity_matching_modifier },
                border_constraint: BorderConstraintSettings { border_constraint_modifier },
            }),
    {
        let world_settings = WorldSettings {
            world_width,
            world_height,
            avoidance: AvoidanceSettings { avoidance_range, avoidance_modifier },
            pc: PerceivedCenterSettings { p_center_modifier: pc_modifier },
            velocity_matching: VelocityMatchingSettings { velocity_matching_modifier },
            border_constraint: BorderConstraintSettings { border_constraint_modifier },
        };
        let mut boids: Vec<Boid> = Vec::new();
        let mut transfer_array: Vec<i64> = Vec::new();
        let mut i: usize = 0;
        while i < positions.len()
            invariant
                i <= positions@.len() <= MAX_BOIDS,
                forall|j: int| 0 <= j < positions@.len() ==> position_in_range(#[trigger] positions@[j]),
                boids@.len() == i,
                forall|j: int|
                    0 <= j < i ==> #[trigger] boids@[j] == (Boid {
                        position: positions@[j],
                        velocity: Vec2 { x: 0, y: 0 },
                        id: j as u32,
                    }),
                buffer_matches(boids@, transfer_array@),
            decreases positions@.len() - i,
        {
            let boid = Boid { position: positions[i], velocity: Vec2 { x: 0, y: 0 }, id: i as u32 };
            transfer_array.push(boid.position.x);
            transfer_array.push(boid.position.y);
            transfer_array.push(compass.heading(boid.velocity));
            boids.push(boid);
            i = i + 1;
        }
        let r = BoidOrchestrator { boids, transfer_array, world_settings, next_id: i as u32 };
        assert(all_valid(r.boids@)) by {
            assert forall|j: int| 0 <= j < r.boids@.len() implies (#[trigger] r.boids@[j]).valid() by {
                assert(position_in_range(positions@[j]));
                assert(r.boids@[j].velocity.norm_sq() == 0);
            }
        }
        r
    }

    /// Advances every agent by one step of `dt` thousandths of a time unit.
    /// Each new agent is computed from the agents as they were before the
    /// step; all are committed together and the buffer rewritten.
    pub fn tick<C: Compass>(&mut self, dt: i64, compass: &C)
        requires
            old(self).wf(),
            -DT_MAX <= dt <= DT_MAX,
        ensures
            final(self).wf(),
            final(self).spec_boids().len() == old(self).spec_boids().len(),
            forall|i: int|
                0 <= i < old(self).spec_boids().len() ==> #[trigger] final(self).spec_boids()[i]
                    == next_boid(old(self).spec_boids(), i, old(self).spec_settings(), dt as int),
            forall|i: int|
                0 <= i < final(self).spec_boids().len() ==> velocity_in_range(
                    (#[trigger] final(self).spec_boids()[i]).velocity,
                ),
            final(self).spec_settings() == old(self).spec_settings(),
            final(self).spec_next_id() == old(self).spec_next_id(),
    {
        let n = self.boids.len();
        let mut next: Vec<Boid> = Vec::new();
        let mut buffer: Vec<i64> = Vec::new();
        let mut i: usize = 0;
        while i < n
            invariant
                self.wf(),
                n == self.boids@.len(),
                -DT_MAX <= dt <= DT_MAX,
                i <= n,
                next@.len() == i,
                forall|j: int|
                    0 <= j < i ==> #[trigger] next@[j] == next_boid(
                        self.boids@,
                        j,
                        self.world_settings,
                        dt as int,
                    ) && next@[j].valid(),
                buffer_matches(next@, buffer@),
            decreases n - i,
        {
            let b = apply_rules(&self.boids, i, &self.world_settings, dt);
            buffer.push(b.position.x);
            buffer.push(b.position.y);
            buffer.push(compass.heading(b.velocity));
            next.push(b);
            i = i + 1;
        }
        proof {
            let old_s = self.boids@;
            assert forall|j: int, k: int| 0 <= j < k < next@.len() implies (#[trigger] next@[j]).id
                < (#[trigger] next@[k]).id by {
                assert(next@[j].id == old_s[j].id);
                assert(next@[k].id == old_s[k].id);
                assert(old_s[j].id < old_s[k].id);
            }
            assert forall|j: int| 0 <= j < next@.len() implies (#[trigger] next@[j]).id
                < self.next_id by {
                assert(next@[j].id == old_s[j].id);
                assert(old_s[j].id < self.next_id);
            }
        }
        self.boids = next;
        self.transfer_array = buffer;
    }

    /// The world's width and height, in world units.
    pub fn world_size(&self) -> (r: (u32, u32))
        ensures
            r == (self.spec_settings().world_width, self.spec_settings().world_height),
    {
        (self.world_settings.world_width, self.world_settings.world_height)
    }

    /// The state buffer, for a renderer to read.
    pub fn items(&self) -> (r: &Vec<i64>)
        ensures
            r@ == self.spec_items(),
    {
        &self.transfer_array
    }

    /// The length of the state buffer.
    pub fn length(&self) -> (r: u32)
        requires
            self.wf(),
        ensures
            r == self.spec_items().len(),
            r == 3 * self.spec_boids().len(),
    {
        self.transfer_array.len() as u32
    }

    /// Appends an agent at rest at `position` under the next unused id. Fails,
    /// changing nothing, when the flock is full or the ids are used up.
    pub fn add_boid<C: Compass>(&mut self, position: Vec2, compass: &C) -> (r: bool)
        requires
            old(self).wf(),
            position_in_range(position),
        ensures
            final(self).wf(),
            r == (old(self).spec_boids().len() < MAX_BOIDS && old(self).spec_next_id() < u32::MAX),
            r ==> final(self).spec_boids() == old(self).spec_boids().push(
                Boid { position, velocity: Vec2 { x: 0, y: 0 }, id: old(self).spec_next_id() },
            ),
            r ==> final(self).spec_next_id() == old(self).spec_next_id() + 1,
            r ==> final(self).spec_items().len() == old(self).spec_items().len() + 3,
            r ==> final(self).spec_items().take(old(self).spec_items().len() as int)
                == old(self).spec_items(),
            !r ==> final(self).spec_boids() == old(self).spec_boids(),
            !r ==> final(self).spec_items() == old(self).spec_items(),
            !r ==> final(self).spec_next_id() == old(self).spec_next_id(),
            final(self).spec_settings() == old(self).spec_settings(),
    {
        if self.boids.len() >= MAX_BOIDS || self.next_id == u32::MAX {
            return false;
        }
        let boid = Boid { position, velocity: Vec2 { x: 0, y: 0 }, id: self.next_id };
        let ghost old_items = self.transfer_array@;
        let ghost old_boids = self.boids@;
        self.transfer_array.push(boid.position.x);
        self.transfer_array.push(boid.position.y);
        self.transfer_array.push(compass.heading(boid.velocity));
        self.boids.push(boid);
        self.next_id = self.next_id + 1;
        proof {
            assert(self.transfer_array@.take(old_items.len() as int) =~= old_items);
            assert(boid.velocity.x == 0 && boid.velocity.y == 0);
            assert(boid.velocity.norm_sq() == 0) by (nonlinear_arith)
                requires
                    boid.velocity.x == 0 && boid.velocity.y == 0,
            ;
            let s = self.boids@;
            assert forall|i: int| 0 <= i < s.len() implies (#[trigger] s[i]).valid() by {
                if i < old_boids.len() {
                    assert(s[i] == old_boids[i]);
                }
            }
            assert forall|i: int, j: int| 0 <= i < j < s.len() implies (#[trigger] s[i]).id
                < (#[trigger] s[j]).id by {
                assert(s[i] == old_boids[i]);
                if j < old_boids.len() {
                    assert(s[j] == old_boids[j]);
                }
            }
            assert forall|i: int| 0 <= i < s.len() implies (#[trigger] s[i]).id
                < self.next_id by {
                if i < old_boids.len() {
                    assert(s[i] == old_boids[i]);
                }
            }
            assert forall|i: int| 0 <= i < s.len() implies self.transfer_array@[3 * i]
                == (#[trigger] s[i]).position.x && self.transfer_array@[3 * i + 1]
                == s[i].position.y by {
                if i < old_boids.len() {
                    assert(s[i] == old_boids[i]);
                    assert(self.transfer_array@[3 * i] == old_items[3 * i]);
                    assert(self.transfer_array@[3 * i + 1] == old_items[3 * i + 1]);
                }
            }
        }
        true
    }

    /// Removes the most recently added agent and its buffer entries; with no
    /// agent it changes nothing.
    pub fn remove_last_boid(&mut self)
        requires
            old(self).wf(),
        ensures
            final(self).wf(),
            old(self).spec_boids().len() == 0 ==> final(self).spec_boids() == old(self).spec_boids()
                && final(self).spec_items() == old(self).spec_items(),
            old(self).spec_boids().len() > 0 ==> final(self).spec_boids()
                == old(self).spec_boids().drop_last() && final(self).spec_items()
                == old(self).spec_items().take(old(self).spec_items().len() - 3),
            final(self).spec_settings() == old(self).spec_settings(),
            final(self).spec_next_id() == old(self).spec_next_id(),
    {
        if self.boids.len() == 0 {
            return;
        }
        let ghost old_items = self.transfer_array@;
        let ghost old_boids = self.boids@;
        self.transfer_array.pop();
        self.transfer_array.pop();
        self.transfer_array.pop();
        self.boids.pop();
        proof {
            assert(self.transfer_array@ =~= old_items.take(old_items.len() - 3));
            assert(self.boids@ =~= old_boids.drop_last());
            let s = self.boids@;
            assert forall|i: int| 0 <= i < s.len() implies (#[trigger] s[i]).valid() by {
                assert(s[i] == old_boids[i]);
            }
            assert forall|i: int, j: int| 0 <= i < j < s.len() implies (#[trigger] s[i]).id
                < (#[trigger] s[j]).id by {
                assert(s[i] == old_boids[i]);
                assert(s[j] == old_boids[j]);
            }
            assert forall|i: int| 0 <= i < s.len() implies (#[trigger] s[i]).id
                < self.next_id by {
                assert(s[i] == old_boids[i]);
            }
            assert forall|i: int| 0 <= i < s.len() implies self.transfer_array@[3 * i]
                == (#[trigger] s[i]).position.x && self.transfer_array@[3 * i + 1]
                == s[i].position.y by {
                assert(s[i] == old_boids[i]);
            }
        }
    }

    /// The index of the agent with id `boid_id`, by a scan in order.
    fn find_index(&self, boid_id: usize) -> (r: Option<usize>)
        requires
            self.wf(),
        ensures
            match r {
                Some(i) => has_id(self.spec_boids(), i as int, boid_id as int),
                None => lacks_id(self.spec_boids(), boid_id as int),
            },
    {
        let mut i: usize = 0;
        while i < self.boids.len()
            invariant
                i <= self.boids@.len(),
                forall|j: int| 0 <= j < i ==> (#[trigger] self.boids@[j]).id as int != boid_id as int,
            decreases self.boids@.len() - i,
        {
            if self.boids[i].id as usize == boid_id {
                return Some(i);
            }
            i = i + 1;
        }
        None
    }

    /// The agent with id `boid_id`, or `None` where no agent carries it.
    pub fn get_boid(&self, boid_id: usize) -> (r: Option<Boid>)
        requires
            self.wf(),
        ensures
            match r {
                Some(b) => exists|i: int|
                    has_id(self.spec_boids(), i, boid_id as int) && b == self.spec_boids()[i],
                None => lacks_id(self.spec_boids(), boid_id as int),
            },
    {
        match self.find_index(boid_id) {
            Some(i) => Some(self.boids[i]),
            None => None,
        }
    }

    /// Sets the position and velocity of the agent with id `boid_id` and its
    /// buffer entry. Fails, changing nothing, where no agent carries the id or
    /// the velocity is over the speed limit.
    pub fn place_boid<C: Compass>(
        &mut self,
        boid_id: usize,
        position: Vec2,
        velocity: Vec2,
        compass: &C,
    ) -> (r: bool)
        requires
            old(self).wf(),
            position_in_range(position),
        ensures
            final(self).wf(),
            r == (velocity_in_range(velocity) && !lacks_id(old(self).spec_boids(), boid_id as int)),
            r ==> exists|i: int|
                has_id(old(self).spec_boids(), i, boid_id as int) && final(self).spec_boids()
                    == old(self).spec_boids().update(
                    i,
                    Boid { position, velocity, id: old(self).spec_boids()[i].id },
                ),
            !r ==> final(self).spec_boids() == old(self).spec_boids(),
            final(self).spec_items().len() == old(self).spec_items().len(),
            final(self).spec_settings() == old(self).spec_settings(),
            final(self).spec_next_id() == old(self).spec_next_id(),
    {
        let l = SPEED_LIMIT;
        if velocity.x < -l || velocity.x > l || velocity.y < -l || velocity.y > l {
            return false;
        }
        proof {
            lemma_square_bound(velocity.x as int, l as int);
            lemma_square_bound(velocity.y as int, l as int);
        }
        if velocity.x * velocity.x + velocity.y * velocity.y > l * l {
            return false;
        }
        let found = self.find_index(boid_id);
        match found {
            None => false,
            Some(i) => {
                let ghost old_boids = self.boids@;
                let ghost old_items = self.transfer_array@;
                let id = self.boids[i].id;
                self.boids.set(i, Boid { position, velocity, id });
                self.transfer_array.set(3 * i, position.x);
                self.transfer_array.set(3 * i + 1, position.y);
                self.transfer_array.set(3 * i + 2, compass.heading(velocity));
                proof {
                    let s = self.boids@;
                    assert forall|j: int| 0 <= j < s.len() implies (#[trigger] s[j]).valid() by {
                        if j != i {
                            assert(s[j] == old_boids[j]);
                        }
                    }
                    assert forall|j: int, k: int| 0 <= j < k < s.len() implies (#[trigger] s[j]).id
                        < (#[trigger] s[k]).id by {
                        assert(s[j].id == old_boids[j].id);
                        assert(s[k].id == old_boids[k].id);
                    }
                    assert forall|j: int| 0 <= j < s.len() implies (#[trigger] s[j]).id
                        < self.next_id by {
                        assert(s[j].id == old_boids[j].id);
                    }
                    assert forall|j: int| 0 <= j < s.len() implies self.transfer_array@[3 * j]
                        == (#[trigger] s[j]).position.x && self.transfer_array@[3 * j + 1]
                        == s[j].position.y by {
                        if j != i {
                            assert(s[j] == old_boids[j]);
                            assert(self.transfer_array@[3 * j] == old_items[3 * j]);
                            assert(self.transfer_array@[3 * j + 1] == old_items[3 * j + 1]);
                        }
                    }
                }
                true
            },
        }
    }

    /// The cohesion rule's x contribution for the agent with id `boid_id`.
    pub fn get_velocity_to_percived_center_x(&self, boid_id: usize) -> (r: Option<i64>)
        requires
            self.wf(),
        ensures
            match r {
                Some(c) => exists|i: int|
                    has_id(self.spec_boids(), i, boid_id as int) && c == cohesion(self.spec_boids(), i, 0),
                None => lacks_id(self.spec_boids(), boid_id as int),
            },
    {
        match self.find_index(boid_id) {
            Some(i) => {
                assert(self.boids@[i as int].valid());
                Some(offset_from_average_exec(&self.boids, i, 0, 100) as i64)
            },
            None => None,
        }
    }

    /// The cohesion rule's y contribution for the agent with id `boid_id`.
    pub fn get_velocity_to_percived_center_y(&self, boid_id: usize) -> (r: Option<i64>)
        requires
            self.wf(),
        ensures
            match r {
                Some(c) => exists|i: int|
                    has_id(self.spec_boids(), i, boid_id as int) && c == cohesion(self.spec_boids(), i, 1),
                None => lacks_id(self.spec_boids(), boid_id as int),
            },
    {
        match self.find_index(boid_id) {
            Some(i) => {
                assert(self.boids@[i as int].valid());
                Some(offset_from_average_exec(&self.boids, i, 1, 100) as i64)
            },
            None => None,
        }
    }

    /// The separation rule's x contribution for the agent with id `boid_id`.
    pub fn get_avoidance_velocity_x(&self, boid_id: usize) -> (r: Option<i64>)
        requires
            self.wf(),
        ensures
            match r {
                Some(c) => exists|i: int|
                    has_id(self.spec_boids(), i, boid_id as int) && c == separation(self.spec_boids(), self.spec_boids()[i].position, self.spec_settings().avoidance.avoidance_range as int, 0),
                None => lacks_id(self.spec_boids(), boid_id as int),
            },
    {
        match self.find_index(boid_id) {
            Some(i) => {
                assert(self.boids@[i as int].valid());
                Some(separation_exec(&self.boids, self.boids[i].position, self.world_settings.avoidance.avoidance_range).0 as i64)
            },
            None => None,
        }
    }

    /// The separation rule's y contribution for the agent with id `boid_id`.
    pub fn get_avoidance_velocity_y(&self, boid_id: usize) -> (r: Option<i64>)
        requires
            self.wf(),
        ensures
            match r {
                Some(c) => exists|i: int|
                    has_id(self.spec_boids(), i, boid_id as int) && c == separation(self.spec_boids(), self.spec_boids()[i].position, self.spec_settings().avoidance.avoidance_range as int, 1),
                None => lacks_id(self.spec_boids(), boid_id as int),
            },
    {
        match self.find_index(boid_id) {
            Some(i) => {
                assert(self.boids@[i as int].valid());
                Some(separation_exec(&self.boids, self.boids[i].position, self.world_settings.avoidance.avoidance_range).1 as i64)
            },
            None => None,
        }
    }

    /// The alignment rule's x contribution for the agent with id `boid_id`.
    pub fn get_match_percived_velocity_x(&self, boid_id: usize) -> (r: Option<i64>)
        requires
            self.wf(),
        ensures
            match r {
                Some(c) => exists|i: int|
                    has_id(self.spec_boids(), i, boid_id as int) && c == alignment(self.spec_boids(), i, 0),
                None => lacks_id(self.spec_boids(), boid_id as int),
            },
    {
        match self.find_index(boid_id) {
            Some(i) => {
                assert(self.boids@[i as int].valid());
                Some(offset_from_average_exec(&self.boids, i, 2, 8) as i64)
            },
            None => None,
        }
    }

    /// The alignment rule's y contribution for the agent with id `boid_id`.
    pub fn get_match_percived_velocity_y(&self, boid_id: usize) -> (r: Option<i64>)
        requires
            self.wf(),
        ensures
            match r {
                Some(c) => exists|i: int|
                    has_id(self.spec_boids(), i, boid_id as int) && c == alignment(self.spec_boids(), i, 1),
                None => lacks_id(self.spec_boids(), boid_id as int),
            },
    {
        match self.find_index(boid_id) {
            Some(i) => {
                assert(self.boids@[i as int].valid());
                Some(offset_from_average_exec(&self.boids, i, 3, 8) as i64)
            },
            None => None,
        }
    }

    /// The x velocity of the agent with id `boid_id`.
    pub fn get_velocity_x(&self, boid_id: usize) -> (r: Option<i64>)
        requires
            self.wf(),
        ensures
            match r {
                Some(c) => exists|i: int|
                    has_id(self.spec_boids(), i, boid_id as int) && c == self.spec_boids()[i].velocity.x,
                None => lacks_id(self.spec_boids(), boid_id as int),
            },
    {
        match self.find_index(boid_id) {
            Some(i) => {
                assert(self.boids@[i as int].valid());
                Some(self.boids[i].velocity.x)
            },
            None => None,
        }
    }

    /// The y velocity of the agent with id `boid_id`.
    pub fn get_velocity_y(&self, boid_id: usize) -> (r: Option<i64>)
        requires
            self.wf(),
        ensures
            match r {
                Some(c) => exists|i: int|
                    has_id(self.spec_boids(), i, boid_id as int) && c == self.spec_boids()[i].velocity.y,
                None => lacks_id(self.spec_boids(), boid_id as int),
            },
    {
        match self.find_index(boid_id) {
            Some(i) => {
                assert(self.boids@[i as int].valid());
                Some(self.boids[i].velocity.y)
            },
            None => None,
        }
    }
}

} // verus!
