use vstd::prelude::*;
use rand::rngs::StdRng;
use crate::collection::{collect_resource, collect_spec, events_of};
use crate::common::{sum_points, update_score, Collider, ResourceCollectedEvent, Score};
use crate::angle::FULL_TURN;
use crate::geometry::Point;
use crate::resources::{clear_of, obstacles_wf, PlacedResource};
use crate::robot::{
    in_bounds, is_avoidance_step, is_locomotion_step, in_range, is_nearest, resources_wf, steer_spec, Agent,
    Bounds, Direction, SensorState, MAX_DT,
};

verus! {

/// The state of a run: the world's extents, its obstacles, the resources still
/// lying in it, the robots, where each robot stood when the tick began, the
/// score, and the collection events not yet counted.
pub struct World {
    pub bounds: Bounds,
    pub obstacles: Vec<Collider>,
    pub resources: Vec<PlacedResource>,
    pub agents: Vec<Agent>,
    pub tick_start: Vec<Point>,
    pub score: Score,
    pub events: Vec<ResourceCollectedEvent>,
}

impl World {
    /// Every robot fits the world, and where it stood when the tick began is a
    /// valid point.
    pub open spec fn wf(&self) -> bool {
        &&& self.bounds.wf()
        &&& obstacles_wf(self.obstacles@)
        &&& resources_wf(self.resources@)
        &&& self.tick_start@.len() == self.agents@.len()
        &&& forall|i: int|
            0 <= i < self.agents@.len() ==> {
                &&& (#[trigger] self.agents@[i]).fits(self.bounds)
                &&& self.tick_start@[i].wf()
            }
    }

    /// Every robot lies inside the world, one radius off each edge.
    pub open spec fn agents_in_bounds(&self) -> bool {
        forall|i: int|
            0 <= i < self.agents@.len() ==> in_bounds(
                (#[trigger] self.agents@[i]).position,
                self.agents@[i].robot.radius as int,
                self.bounds,
            )
    }

    /// Every robot lay inside the world where it stood when the tick began.
    pub open spec fn start_in_bounds(&self) -> bool {
        forall|i: int|
            0 <= i < self.agents@.len() ==> in_bounds(
                #[trigger] self.tick_start@[i],
                self.agents@[i].robot.radius as int,
                self.bounds,
            )
    }

    /// No robot's disc meets an obstacle.
    pub open spec fn agents_clear(&self) -> bool {
        forall|i: int|
            0 <= i < self.agents@.len() ==> clear_of(
                self.obstacles@,
                (#[trigger] self.agents@[i]).position,
                self.agents@[i].robot.radius as int,
            )
    }

    /// No robot's disc met an obstacle where it stood when the tick began.
    pub open spec fn start_clear(&self) -> bool {
        forall|i: int|
            0 <= i < self.agents@.len() ==> clear_of(
                self.obstacles@,
                #[trigger] self.tick_start@[i],
                self.agents@[i].robot.radius as int,
            )
    }

    /// A world with a score of zero and no pending event.
    pub fn new(
        bounds: Bounds,
        obstacles: Vec<Collider>,
        resources: Vec<PlacedResource>,
        agents: Vec<Agent>,
    ) -> (r: World)
        requires
            bounds.wf(),
            obstacles_wf(obstacles@),
            resources_wf(resources@),
            forall|i: int| 0 <= i < agents@.len() ==> (#[trigger] agents@[i]).fits(bounds),
        ensures
            r.wf(),
            r.bounds == bounds,
            r.obstacles@ == obstacles@,
            r.resources@ == resources@,
            r.agents@ == agents@,
            r.score == Score(0),
            r.events@.len() == 0,
    {
        let mut tick_start: Vec<Point> = Vec::new();
        let mut i: usize = 0;
        while i < agents.len()
            invariant
                i <= agents@.len(),
                forall|k: int| 0 <= k < agents@.len() ==> (#[trigger] agents@[k]).fits(bounds),
                tick_start@.len() == i,
                forall|k: int| 0 <= k < i ==> #[trigger] tick_start@[k] == agents@[k].position,
            decreases agents@.len() - i,
        {
            tick_start.push(agents[i].position);
            i = i + 1;
        }
        World { bounds, obstacles, resources, agents, tick_start, score: Score(0), events: Vec::new() }
    }

    /// Locomotion for every robot, given the unit vector of each robot's
    /// heading. Where each robot stood is kept as the tick's start. Every
    /// robot ends inside the world.
    pub fn locomotion(&mut self, dirs: &Vec<Direction>, dt: u64, rng: &mut StdRng)
        requires
            old(self).wf(),
            dirs@.len() == old(self).agents@.len(),
            forall|i: int| 0 <= i < dirs@.len() ==> (#[trigger] dirs@[i]).wf(),
            dt <= MAX_DT,
        ensures
            final(self).wf(),
            final(self).agents@.len() == old(self).agents@.len(),
            forall|i: int|
                0 <= i < final(self).agents@.len() ==> is_locomotion_step(
                    #[trigger] final(self).agents@[i],
                    old(self).agents@[i],
                    dirs@[i],
                    dt as int,
                    old(self).bounds,
                ),
            forall|i: int|
                0 <= i < final(self).agents@.len() ==> #[trigger] final(self).tick_start@[i]
                    == old(self).agents@[i].position,
            old(self).agents_clear() ==> final(self).start_clear(),
            final(self).agents_in_bounds(),
            old(self).agents_in_bounds() ==> final(self).start_in_bounds(),
            final(self).bounds == old(self).bounds,
            final(self).obstacles@ == old(self).obstacles@,
            final(self).resources@ == old(self).resources@,
            final(self).score == old(self).score,
            final(self).events@ == old(self).events@,
    {
        let n = self.agents.len();
        let mut i: usize = 0;
        while i < n
            invariant
                n == self.agents@.len(),
                n == old(self).agents@.len(),
                dirs@.len() == n,
                forall|k: int| 0 <= k < dirs@.len() ==> (#[trigger] dirs@[k]).wf(),
                dt <= MAX_DT,
                i <= n,
                self.wf(),
                self.bounds == old(self).bounds,
                self.obstacles@ == old(self).obstacles@,
                self.resources@ == old(self).resources@,
                self.score == old(self).score,
                self.events@ == old(self).events@,
                forall|k: int| i <= k < n ==> #[trigger] self.agents@[k] == old(self).agents@[k],
                forall|k: int|
                    0 <= k < i ==> is_locomotion_step(
                    #[trigger] self.agents@[k],
                    old(self).agents@[k],
                    dirs@[k],
                    dt as int,
                    old(self).bounds,
                ),
                forall|k: int| 0 <= k < i ==> #[trigger] self.tick_start@[k] == old(self).agents@[k].position,
                forall|k: int| 0 <= k < n ==> (#[trigger] self.agents@[k]).robot.radius == old(self).agents@[k].robot.radius,
                forall|k: int|
                    0 <= k < i ==> in_bounds(
                        (#[trigger] self.agents@[k]).position,
                        self.agents@[k].robot.radius as int,
                        self.bounds,
                    ),
            decreases n - i,
        {
            let mut a = self.agents[i];
            let start = a.position;
            a.seek(dirs[i], dt, self.bounds, rng);
            self.agents.set(i, a);
            self.tick_start.set(i, start);
            i = i + 1;
        }
    }

    /// Collision avoidance for every robot: one whose disc meets an obstacle
    /// goes back to where it stood when the tick began and turns by a random
    /// angle within its maximum deviation. The position tested is the one that
    /// locomotion reached this tick, not a look-ahead one step further: that
    /// way no robot is ever left inside an obstacle. When every robot stood
    /// clear of the obstacles at the tick's start, every robot is clear of them
    /// afterwards.
    pub fn avoid_obstacles(&mut self, rng: &mut StdRng)
        requires
            old(self).wf(),
        ensures
            final(self).wf(),
            final(self).agents@.len() == old(self).agents@.len(),
            forall|i: int|
                0 <= i < final(self).agents@.len() ==> is_avoidance_step(
                    #[trigger] final(self).agents@[i],
                    old(self).agents@[i],
                    old(self).tick_start@[i],
                    old(self).obstacles@,
                ),
            old(self).start_clear() ==> final(self).agents_clear(),
            old(self).agents_in_bounds() && old(self).start_in_bounds() ==> final(self).agents_in_bounds(),
            final(self).bounds == old(self).bounds,
            final(self).obstacles@ == old(self).obstacles@,
            final(self).resources@ == old(self).resources@,
            final(self).tick_start@ == old(self).tick_start@,
            final(self).score == old(self).score,
            final(self).events@ == old(self).events@,
    {
        let n = self.agents.len();
        let mut i: usize = 0;
        while i < n
            invariant
                n == self.agents@.len(),
                n == old(self).agents@.len(),
                i <= n,
                self.wf(),
                self.bounds == old(self).bounds,
                self.obstacles@ == old(self).obstacles@,
                self.resources@ == old(self).resources@,
                self.tick_start@ == old(self).tick_start@,
                self.score == old(self).score,
                self.events@ == old(self).events@,
                forall|k: int| i <= k < n ==> #[trigger] self.agents@[k] == old(self).agents@[k],
                forall|k: int|
                    0 <= k < i ==> is_avoidance_step(
                    #[trigger] self.agents@[k],
                    old(self).agents@[k],
                    old(self).tick_start@[k],
                    old(self).obstacles@,
                ),
                old(self).start_clear() ==> forall|k: int|
                    0 <= k < i ==> clear_of(
                        self.obstacles@,
                        (#[trigger] self.agents@[k]).position,
                        self.agents@[k].robot.radius as int,
                    ),
                forall|k: int| 0 <= k < n ==> (#[trigger] self.agents@[k]).robot.radius == old(self).agents@[k].robot.radius,
                old(self).agents_in_bounds() && old(self).start_in_bounds() ==> forall|k: int|
                    0 <= k < i ==> in_bounds(
                        (#[trigger] self.agents@[k]).position,
                        self.agents@[k].robot.radius as int,
                        self.bounds,
                    ),
            decreases n - i,
        {
            let mut a = self.agents[i];
            assert(a.fits(self.bounds));
            proof {
                if old(self).agents_in_bounds() && old(self).start_in_bounds() {
                    assert(in_bounds(old(self).agents@[i as int].position, a.robot.radius as int, self.bounds));
                    assert(in_bounds(self.tick_start@[i as int], a.robot.radius as int, self.bounds));
                }
            }
            a.check_collisions(self.tick_start[i], &self.obstacles, rng);
            assert(in_bounds(self.tick_start@[i as int], a.robot.radius as int, self.bounds) && in_bounds(
                old(self).agents@[i as int].position, a.robot.radius as int, self.bounds) ==> in_bounds(a.position, a.robot.radius as int, self.bounds));
            self.agents.set(i, a);
            i = i + 1;
        }
    }

    /// Sensing for every robot: the nearest resource within its sensor's
    /// range, if any, with its sensor set to `Tracking` or `Idle` to match.
    pub fn sense(&mut self) -> (r: Vec<Option<usize>>)
        requires
            old(self).wf(),
        ensures
            final(self).wf(),
            r@.len() == old(self).agents@.len(),
            final(self).agents@.len() == old(self).agents@.len(),
            forall|i: int|
                0 <= i < r@.len() ==> {
                    &&& (#[trigger] r@[i]) matches Some(j) ==> is_nearest(
                        old(self).agents@[i].position,
                        old(self).agents@[i].sensor.range as int,
                        old(self).resources@,
                        j as int,
                    )
                    &&& r@[i] is None ==> forall|m: int|
                        0 <= m < old(self).resources@.len() ==> !in_range(
                            old(self).agents@[i].position,
                            old(self).agents@[i].sensor.range as int,
                            #[trigger] old(self).resources@[m],
                        )
                    &&& final(self).agents@[i].sensor.state == (if r@[i] is Some {
                        SensorState::Tracking
                    } else {
                        SensorState::Idle
                    })
                    &&& final(self).agents@[i].position == old(self).agents@[i].position
                    &&& final(self).agents@[i].robot == old(self).agents@[i].robot
                    &&& final(self).agents@[i].role == old(self).agents@[i].role
                    &&& final(self).agents@[i].sensor.range == old(self).agents@[i].sensor.range
                },
            old(self).agents_clear() ==> final(self).agents_clear(),
            old(self).agents_in_bounds() ==> final(self).agents_in_bounds(),
            final(self).bounds == old(self).bounds,
            final(self).obstacles@ == old(self).obstacles@,
            final(self).resources@ == old(self).resources@,
            final(self).tick_start@ == old(self).tick_start@,
            final(self).score == old(self).score,
            final(self).events@ == old(self).events@,
    {
        let n = self.agents.len();
        let mut found: Vec<Option<usize>> = Vec::new();
        let mut i: usize = 0;
        while i < n
            invariant
                n == self.agents@.len(),
                n == old(self).agents@.len(),
                i <= n,
                found@.len() == i,
                self.wf(),
                self.bounds == old(self).bounds,
                self.obstacles@ == old(self).obstacles@,
                self.resources@ == old(self).resources@,
                self.tick_start@ == old(self).tick_start@,
                self.score == old(self).score,
                self.events@ == old(self).events@,
                forall|k: int| i <= k < n ==> #[trigger] self.agents@[k] == old(self).agents@[k],
                forall|k: int|
                    0 <= k < i ==> {
                        &&& (#[trigger] found@[k]) matches Some(j) ==> is_nearest(
                            old(self).agents@[k].position,
                            old(self).agents@[k].sensor.range as int,
                            old(self).resources@,
                            j as int,
                        )
                        &&& found@[k] is None ==> forall|m: int|
                            0 <= m < old(self).resources@.len() ==> !in_range(
                                old(self).agents@[k].position,
                                old(self).agents@[k].sensor.range as int,
                                #[trigger] old(self).resources@[m],
                            )
                        &&& self.agents@[k].sensor.state == (if found@[k] is Some {
                            SensorState::Tracking
                        } else {
                            SensorState::Idle
                        })
                        &&& self.agents@[k].position == old(self).agents@[k].position
                        &&& self.agents@[k].robot == old(self).agents@[k].robot
                        &&& self.agents@[k].role == old(self).agents@[k].role
                        &&& self.agents@[k].sensor.range == old(self).agents@[k].sensor.range
                    },
            decreases n - i,
        {
            let mut a = self.agents[i];
            let f = a.sense_resource(&self.resources);
            self.agents.set(i, a);
            found.push(f);
            i = i + 1;
        }
        proof {
            if old(self).agents_clear() {
                assert forall|k: int| 0 <= k < self.agents@.len() implies clear_of(
                    self.obstacles@,
                    (#[trigger] self.agents@[k]).position,
                    self.agents@[k].robot.radius as int,
                ) by {
                    assert(clear_of(
                        old(self).obstacles@,
                        old(self).agents@[k].position,
                        old(self).agents@[k].robot.radius as int,
                    ));
                    assert(found@[k] is Some || found@[k] is None);
                    assert(self.agents@[k].position == old(self).agents@[k].position);
                }
            }
            if old(self).agents_in_bounds() {
                assert forall|k: int| 0 <= k < self.agents@.len() implies in_bounds(
                    (#[trigger] self.agents@[k]).position,
                    self.agents@[k].robot.radius as int,
                    self.bounds,
                ) by {
                    assert(in_bounds(
                        old(self).agents@[k].position,
                        old(self).agents@[k].robot.radius as int,
                        self.bounds,
                    ));
                    assert(found@[k] is Some || found@[k] is None);
                    assert(self.agents@[k].position == old(self).agents@[k].position);
                }
            }
        }
        found
    }

    /// Seeking for every robot: a collector given a target heading turns toward
    /// it (see `Agent::steer_toward`); the other robots keep their heading.
    pub fn steer(&mut self, targets: &Vec<Option<i64>>, dt: u64)
        requires
            old(self).wf(),
            targets@.len() == old(self).agents@.len(),
            forall|i: int|
                0 <= i < targets@.len() ==> (#[trigger] targets@[i] matches Some(t) ==> 0 <= t
                    < FULL_TURN),
            dt <= MAX_DT,
        ensures
            final(self).wf(),
            final(self).agents@.len() == old(self).agents@.len(),
            forall|i: int|
                0 <= i < final(self).agents@.len() ==> #[trigger] final(self).agents@[i] == match targets@[i] {
                    Some(t) => steer_spec(old(self).agents@[i], t as int, dt as int),
                    None => old(self).agents@[i],
                },
            old(self).agents_clear() ==> final(self).agents_clear(),
            old(self).agents_in_bounds() ==> final(self).agents_in_bounds(),
            final(self).bounds == old(self).bounds,
            final(self).obstacles@ == old(self).obstacles@,
            final(self).resources@ == old(self).resources@,
            final(self).tick_start@ == old(self).tick_start@,
            final(self).score == old(self).score,
            final(self).events@ == old(self).events@,
    {
        let n = self.agents.len();
        let mut i: usize = 0;
        while i < n
            invariant
                n == self.agents@.len(),
                n == old(self).agents@.len(),
                targets@.len() == n,
                forall|k: int|
                    0 <= k < targets@.len() ==> (#[trigger] targets@[k] matches Some(t) ==> 0 <= t
                        < FULL_TURN),
                dt <= MAX_DT,
                i <= n,
                self.wf(),
                self.bounds == old(self).bounds,
                self.obstacles@ == old(self).obstacles@,
                self.resources@ == old(self).resources@,
                self.tick_start@ == old(self).tick_start@,
                self.score == old(self).score,
                self.events@ == old(self).events@,
                forall|k: int| i <= k < n ==> #[trigger] self.agents@[k] == old(self).agents@[k],
                forall|k: int|
                    0 <= k < i ==> #[trigger] self.agents@[k] == match targets@[k] {
                        Some(t) => steer_spec(old(self).agents@[k], t as int, dt as int),
                        None => old(self).agents@[k],
                    },
            decreases n - i,
        {
            match targets[i] {
                Some(t) => {
                    let mut a = self.agents[i];
                    a.steer_toward(t, dt);
                    self.agents.set(i, a);
                },
                None => {},
            }
            i = i + 1;
        }
        proof {
            if old(self).agents_clear() {
                assert forall|k: int| 0 <= k < self.agents@.len() implies clear_of(
                    self.obstacles@,
                    (#[trigger] self.agents@[k]).position,
                    self.agents@[k].robot.radius as int,
                ) by {
                    assert(clear_of(
                        old(self).obstacles@,
                        old(self).agents@[k].position,
                        old(self).agents@[k].robot.radius as int,
                    ));
                    assert(self.agents@[k].position == old(self).agents@[k].position);
                }
            }
            if old(self).agents_in_bounds() {
                assert forall|k: int| 0 <= k < self.agents@.len() implies in_bounds(
                    (#[trigger] self.agents@[k]).position,
                    self.agents@[k].robot.radius as int,
                    self.bounds,
                ) by {
                    assert(in_bounds(
                        old(self).agents@[k].position,
                        old(self).agents@[k].robot.radius as int,
                        self.bounds,
                    ));
                    assert(self.agents@[k].position == old(self).agents@[k].position);
                }
            }
        }
    }

    /// Collection by every collector, in order (see `collect_resource`); the
    /// events raised are appended to the pending ones.
    pub fn collect(&mut self)
        requires
            old(self).wf(),
        ensures
            final(self).wf(),
            final(self).resources@ == collect_spec(old(self).agents@, old(self).resources@).0,
            final(self).events@ == old(self).events@ + events_of(
                collect_spec(old(self).agents@, old(self).resources@).1,
            ),
            final(self).agents@ == old(self).agents@,
            final(self).bounds == old(self).bounds,
            final(self).obstacles@ == old(self).obstacles@,
            final(self).tick_start@ == old(self).tick_start@,
            final(self).score == old(self).score,
    {
        proof {
            assert forall|k: int| 0 <= k < self.agents@.len() implies (#[trigger] self.agents@[k]).wf() by {
                assert(self.agents@[k].fits(self.bounds));
            }
        }
        collect_resource(&self.agents, &mut self.resources, &mut self.events);
    }

    /// Scoring: adds the points of every pending event, in order, to the
    /// score, and clears the pending events.
    pub fn update_score(&mut self)
        requires
            old(self).wf(),
            old(self).score.0 + sum_points(old(self).events@) <= u32::MAX,
        ensures
            final(self).wf(),
            final(self).score.0 == old(self).score.0 + sum_points(old(self).events@),
            final(self).score.0 >= old(self).score.0,
            final(self).events@.len() == 0,
            final(self).agents@ == old(self).agents@,
            final(self).bounds == old(self).bounds,
            final(self).obstacles@ == old(self).obstacles@,
            final(self).resources@ == old(self).resources@,
            final(self).tick_start@ == old(self).tick_start@,
    {
        update_score(&mut self.score, &self.events);
        self.events = Vec::new();
    }
}

} // verus!
