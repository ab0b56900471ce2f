use vstd::prelude::*;
use rand::rngs::StdRng;
use crate::angle::{
    angle_diff, mul_div_trunc, scale_trunc, shortest_turn, wrap, wrap_angle, FULL_TURN, HALF_TURN,
};
use crate::common::Collider;
use crate::geometry::{clamp, dist_sq, Point, MAX_COORD};
use crate::random::draw_in;
use crate::resources::{clear_of, disc_is_clear, obstacles_wf, PlacedResource};

verus! {

/// Microseconds in a second.
pub const MICROS_PER_SECOND: u64 = 1_000_000;

/// Scale of the components of a `Direction`: a unit vector has length `UNIT`.
pub const UNIT: i64 = 1_000_000;

/// Largest speed, in thousandths of a world unit per second.
pub const MAX_SPEED: i64 = 1_000_000_000;

/// Largest turn rate, in angle units per second.
pub const MAX_TURN_RATE: i64 = 100_000_000_000;

/// Largest duration of a tick, in microseconds.
pub const MAX_DT: u64 = 1_000_000_000;

/// How fast a collector turns toward the resource it tracks, in angle units
/// per second (about two radians per second).
pub const ROTATION_SPEED: i64 = 636_620;

/// The kinematic state of a robot. Angles are in angle units (see `HALF_TURN`),
/// lengths in thousandths of a world unit.
#[derive(Clone, Copy, PartialEq, Eq, Structural, Debug)]
pub struct Robot {
    /// Heading, in `[0, FULL_TURN)`.
    pub direction: i64,
    pub radius: i64,
    /// Distance covered in a second.
    pub speed: i64,
    /// Bound of the random change of heading per second.
    pub max_turn_rate: i64,
    /// Bound of the random change of heading after a collision.
    pub max_deviation: i64,
}

/// What a robot does besides wandering.
#[derive(Clone, Copy, PartialEq, Eq, Structural, Debug)]
pub enum Role {
    /// Wanders and senses, never collects.
    Explorer,
    /// Wanders, steers toward the resource it senses, and collects.
    Collector,
}

/// Whether a sensor currently sees a resource.
#[derive(Clone, Copy, PartialEq, Eq, Structural, Debug)]
pub enum SensorState {
    Idle,
    Tracking,
}

/// A detection disc around a robot, of radius `range`.
#[derive(Clone, Copy, PartialEq, Eq, Structural, Debug)]
pub struct Sensor {
    pub range: u32,
    pub state: SensorState,
}

/// A robot with its position, role and sensor.
#[derive(Clone, Copy, PartialEq, Eq, Structural, Debug)]
pub struct Agent {
    pub position: Point,
    pub robot: Robot,
    pub role: Role,
    pub sensor: Sensor,
}

/// The unit vector of a heading, each component scaled by `UNIT`.
#[derive(Clone, Copy, PartialEq, Eq, Structural, Debug)]
pub struct Direction {
    pub cos: i64,
    pub sin: i64,
}

/// The extents of the world, in thousandths of a world unit.
#[derive(Clone, Copy, PartialEq, Eq, Structural, Debug)]
pub struct Bounds {
    pub width: i64,
    pub height: i64,
}

impl Robot {
    pub open spec fn wf(self) -> bool {
        &&& 0 <= self.direction < FULL_TURN
        &&& 0 < self.radius <= MAX_COORD
        &&& 0 <= self.speed <= MAX_SPEED
        &&& 0 <= self.max_turn_rate <= MAX_TURN_RATE
        &&& 0 <= self.max_deviation <= HALF_TURN
    }
}

impl Direction {
    pub open spec fn wf(self) -> bool {
        -UNIT <= self.cos <= UNIT && -UNIT <= self.sin <= UNIT
    }
}

impl Bounds {
    pub open spec fn wf(self) -> bool {
        0 < self.width <= MAX_COORD && 0 < self.height <= MAX_COORD
    }
}

/// Whether the disc of a robot lies inside the world, one radius off each edge.
pub open spec fn in_bounds(p: Point, radius: int, b: Bounds) -> bool {
    radius <= p.x <= b.width - radius && radius <= p.y <= b.height - radius
}

/// The distance covered along one axis: `c * speed * dt`, with `c` scaled by
/// `UNIT` and `dt` in microseconds, rounded toward zero.
pub open spec fn axis_step(c: int, speed: int, dt: int) -> int {
    mul_div_trunc(c, speed * dt, UNIT * MICROS_PER_SECOND)
}

/// The change of heading from a turn rate `sample` over `dt` microseconds.
pub open spec fn turn_of(sample: int, dt: int) -> int {
    mul_div_trunc(sample, dt, MICROS_PER_SECOND as int)
}

/// One step of locomotion: move along the heading, turn by the random
/// `sample` (a rate per second), then bounce off the edges of the world. A
/// bounce clamps the coordinate to the edge and reflects the heading: off a
/// vertical edge it becomes `π - heading`, off a horizontal one `-heading`.
pub open spec fn advance_spec(a: Agent, d: Direction, dt: int, sample: int, b: Bounds) -> Agent {
    let r = a.robot.radius as int;
    let px = a.position.x + axis_step(d.cos as int, a.robot.speed as int, dt);
    let py = a.position.y + axis_step(d.sin as int, a.robot.speed as int, dt);
    let h0 = wrap(a.robot.direction + turn_of(sample, dt));
    let h1 = if px < r || px > b.width - r {
        wrap(HALF_TURN - h0)
    } else {
        h0
    };
    let h2 = if py < r || py > b.height - r {
        wrap(-h1)
    } else {
        h1
    };
    Agent {
        position: Point { x: clamp(px, r, b.width - r) as i64, y: clamp(py, r, b.height - r) as i64 },
        robot: Robot { direction: h2 as i64, ..a.robot },
        ..a
    }
}

/// Collision avoidance with the random `deviation`: when the robot's disc
/// meets an obstacle, it goes back to `prev` and its heading turns by
/// `deviation`; otherwise nothing changes.
pub open spec fn avoid_spec(a: Agent, prev: Point, obstacles: Seq<Collider>, deviation: int) -> Agent {
    if clear_of(obstacles, a.position, a.robot.radius as int) {
        a
    } else {
        Agent {
            position: prev,
            robot: Robot { direction: wrap(a.robot.direction + deviation) as i64, ..a.robot },
            ..a
        }
    }
}

/// Whether a resource lies strictly within `range` of `p`.
pub open spec fn in_range(p: Point, range: int, res: PlacedResource) -> bool {
    dist_sq(p, res.position()) < range * range
}

/// Whether `i` is the first resource at the least distance from `p` among
/// those strictly within `range`.
pub open spec fn is_nearest(p: Point, range: int, rs: Seq<PlacedResource>, i: int) -> bool {
    &&& 0 <= i < rs.len()
    &&& in_range(p, range, rs[i])
    &&& forall|j: int|
        0 <= j < rs.len() && in_range(p, range, #[trigger] rs[j]) ==> dist_sq(p, rs[i].position())
            <= dist_sq(p, rs[j].position())
    &&& forall|j: int|
        0 <= j < i && in_range(p, range, #[trigger] rs[j]) ==> dist_sq(p, rs[i].position())
            < dist_sq(p, rs[j].position())
}

pub open spec fn resources_wf(rs: Seq<PlacedResource>) -> bool {
    forall|k: int| 0 <= k < rs.len() ==> (#[trigger] rs[k]).wf()
}

/// Heading after steering toward `target` for `dt` microseconds: a collector
/// turns toward it along the shorter way, by at most `ROTATION_SPEED` per
/// second, never past it; an explorer keeps its heading.
pub open spec fn steer_spec(a: Agent, target: int, dt: int) -> Agent {
    if a.role == Role::Collector {
        let max = turn_of(ROTATION_SPEED as int, dt);
        let step = clamp(angle_diff(a.robot.direction as int, target), -max, max);
        Agent { robot: Robot { direction: wrap(a.robot.direction + step) as i64, ..a.robot }, ..a }
    } else {
        a
    }
}

fn dist_sq_exec(a: Point, b: Point) -> (r: i128)
    requires
        a.wf(),
        b.wf(),
    ensures
        r == dist_sq(a, b),
        r >= 0,
{
    let dx = a.x as i128 - b.x as i128;
    let dy = a.y as i128 - b.y as i128;
    assert(dx * dx <= 4 * MAX_COORD * MAX_COORD) by (nonlinear_arith)
        requires -2 * MAX_COORD <= dx <= 2 * MAX_COORD;
    assert(dy * dy <= 4 * MAX_COORD * MAX_COORD) by (nonlinear_arith)
        requires -2 * MAX_COORD <= dy <= 2 * MAX_COORD;
    assert(0 <= dx * dx && 0 <= dy * dy) by (nonlinear_arith);
    dx * dx + dy * dy
}

/// The first resource at the least distance from `p` among those strictly
/// within `range`, or `None` when no resource is within `range`.
pub fn nearest_in_range(p: Point, range: u32, resources: &Vec<PlacedResource>) -> (r: Option<usize>)
    requires
        p.wf(),
        resources_wf(resources@),
    ensures
        r matches Some(i) ==> is_nearest(p, range as int, resources@, i as int),
        r is None ==> forall|j: int|
            0 <= j < resources@.len() ==> !in_range(p, range as int, #[trigger] resources@[j]),
{
    assert(range * range <= u64::MAX) by (nonlinear_arith)
        requires range <= u32::MAX;
    let rr: i128 = range as i128 * range as i128;
    let mut best: Option<usize> = None;
    let mut best_d: i128 = 0;
    let mut i: usize = 0;
    while i < resources.len()
        invariant
            p.wf(),
            resources_wf(resources@),
            rr == range * range,
            i <= resources@.len(),
            best matches Some(b) ==> {
                &&& b < i
                &&& best_d == dist_sq(p, resources@[b as int].position())
                &&& in_range(p, range as int, resources@[b as int])
                &&& forall|j: int|
                    0 <= j < i && in_range(p, range as int, #[trigger] resources@[j]) ==> best_d
                        <= dist_sq(p, resources@[j].position())
                &&& forall|j: int|
                    0 <= j < b && in_range(p, range as int, #[trigger] resources@[j]) ==> best_d
                        < dist_sq(p, resources@[j].position())
            },
            best is None ==> forall|j: int|
                0 <= j < i ==> !in_range(p, range as int, #[trigger] resources@[j]),
        decreases resources@.len() - i,
    {
        let d = dist_sq_exec(p, resources[i].collider.bounding_box.center);
        if d < rr {
            match best {
                None => {
                    best = Some(i);
                    best_d = d;
                },
                Some(_) => {
                    if d < best_d {
                        best = Some(i);
                        best_d = d;
                    }
                },
            }
        }
        i = i + 1;
    }
    best
}

/// Whether `after` is `before` after one step of locomotion with some turn
/// rate within its bound.
pub open spec fn is_locomotion_step(after: Agent, before: Agent, d: Direction, dt: int, b: Bounds) -> bool {
    exists|sample: int|
        -before.robot.max_turn_rate <= sample <= before.robot.max_turn_rate && after == advance_spec(
            before,
            d,
            dt,
            sample,
            b,
        )
}

/// Whether `after` is `before` after collision avoidance with some deviation
/// within its bound.
pub open spec fn is_avoidance_step(after: Agent, before: Agent, prev: Point, obstacles: Seq<Collider>) -> bool {
    exists|deviation: int|
        -before.robot.max_deviation <= deviation <= before.robot.max_deviation && after == avoid_spec(
            before,
            prev,
            obstacles,
            deviation,
        )
}

/// One step of locomotion keeps a robot fit for the world and leaves it inside
/// the world, one radius off each edge, from any starting position.
pub proof fn lemma_locomotion_step_in_bounds(a: Agent, d: Direction, dt: int, sample: int, b: Bounds)
    requires
        a.fits(b),
        d.wf(),
        0 <= dt <= MAX_DT,
        -a.robot.max_turn_rate <= sample <= a.robot.max_turn_rate,
    ensures
        advance_spec(a, d, dt, sample, b).fits(b),
        in_bounds(
            advance_spec(a, d, dt, sample, b).position,
            advance_spec(a, d, dt, sample, b).robot.radius as int,
            b,
        ),
{
}

/// After any number of locomotion ticks, a robot that fitted the world at the
/// start lies inside it, one radius off each edge: `states[i + 1]` is
/// `states[i]` after a tick with heading vector `dirs[i]` and duration `dts[i]`.
pub proof fn lemma_locomotion_ticks_in_bounds(
    states: Seq<Agent>,
    dirs: Seq<Direction>,
    dts: Seq<u64>,
    b: Bounds,
)
    requires
        states.len() >= 1,
        dirs.len() == states.len() - 1,
        dts.len() == states.len() - 1,
        states[0].fits(b),
        forall|i: int| 0 <= i < dirs.len() ==> (#[trigger] dirs[i]).wf(),
        forall|i: int| 0 <= i < dts.len() ==> #[trigger] dts[i] <= MAX_DT,
        forall|i: int|
            0 <= i < states.len() - 1 ==> is_locomotion_step(
                #[trigger] states[i + 1],
                states[i],
                dirs[i],
                dts[i] as int,
                b,
            ),
    ensures
        forall|i: int| 0 <= i < states.len() ==> (#[trigger] states[i]).fits(b),
        forall|i: int|
            1 <= i < states.len() ==> in_bounds(
                (#[trigger] states[i]).position,
                states[i].robot.radius as int,
                b,
            ),
    decreases states.len(),
{
    if states.len() > 1 {
        let n = states.len() - 1;
        lemma_locomotion_ticks_in_bounds(states.drop_last(), dirs.drop_last(), dts.drop_last(), b);
        assert(states.drop_last()[n - 1] == states[n - 1]);
        assert(states[n - 1].fits(b));
        assert(is_locomotion_step(states[n - 1 + 1], states[n - 1], dirs[n - 1], dts[n - 1] as int, b));
        let sample = choose|sample: int|
            -states[n - 1].robot.max_turn_rate <= sample <= states[n - 1].robot.max_turn_rate
                && states[n] == #[trigger] advance_spec(states[n - 1], dirs[n - 1], dts[n - 1] as int, sample, b);
        lemma_locomotion_step_in_bounds(states[n - 1], dirs[n - 1], dts[n - 1] as int, sample, b);
        assert forall|i: int| 0 <= i < states.len() implies (#[trigger] states[i]).fits(b) by {
            if i < n {
                assert(states.drop_last()[i] == states[i]);
            }
        }
        assert forall|i: int| 1 <= i < states.len() implies in_bounds(
            (#[trigger] states[i]).position,
            states[i].robot.radius as int,
            b,
        ) by {
            if i < n {
                assert(states.drop_last()[i] == states[i]);
            }
        }
    }
}

impl Agent {
    pub open spec fn wf(self) -> bool {
        &&& self.position.wf()
        &&& self.robot.wf()
    }

    /// A robot's fit for a world: well formed, and narrow enough to fit in it.
    pub open spec fn fits(self, b: Bounds) -> bool {
        &&& self.wf()
        &&& b.wf()
        &&& 2 * self.robot.radius <= b.width
        &&& 2 * self.robot.radius <= b.height
    }

    /// One step of locomotion, with the random turn rate given as `sample`.
    pub fn advance(&mut self, d: Direction, dt: u64, sample: i64, b: Bounds)
        requires
            old(self).fits(b),
            d.wf(),
            dt <= MAX_DT,
            -old(self).robot.max_turn_rate <= sample <= old(self).robot.max_turn_rate,
        ensures
            *final(self) == advance_spec(*old(self), d, dt as int, sample as int, b),
            final(self).fits(b),
            in_bounds(final(self).position, final(self).robot.radius as int, b),
    {
        let r = self.robot.radius;
        let speed = self.robot.speed as u64;
        assert(speed * dt <= MAX_SPEED * MAX_DT) by (nonlinear_arith)
            requires speed <= MAX_SPEED, dt <= MAX_DT;
        let sd: u64 = speed * dt;
        assert((if d.cos >= 0 { d.cos as int } else { -d.cos }) * (sd as int) / (1_000_000_000_000int)
            <= 1_000_000_000_000) by (nonlinear_arith)
            requires -UNIT <= d.cos <= UNIT, sd <= MAX_SPEED * MAX_DT;
        assert((if d.sin >= 0 { d.sin as int } else { -d.sin }) * (sd as int) / (1_000_000_000_000int)
            <= 1_000_000_000_000) by (nonlinear_arith)
            requires -UNIT <= d.sin <= UNIT, sd <= MAX_SPEED * MAX_DT;
        let step_x = scale_trunc(d.cos, sd, 1_000_000_000_000);
        let step_y = scale_trunc(d.sin, sd, 1_000_000_000_000);
        assert((if sample >= 0 { sample as int } else { -sample }) * (dt as int) / (MICROS_PER_SECOND as int)
            <= 100_000_000_000_000) by (nonlinear_arith)
            requires -MAX_TURN_RATE <= sample <= MAX_TURN_RATE, dt <= MAX_DT;
        let turn = scale_trunc(sample, dt, MICROS_PER_SECOND);
        let px = self.position.x + step_x;
        let py = self.position.y + step_y;
        let mut h = wrap_angle(self.robot.direction + turn);
        let mut x = px;
        if px < r {
            x = r;
            h = wrap_angle(HALF_TURN - h);
        } else if px > b.width - r {
            x = b.width - r;
            h = wrap_angle(HALF_TURN - h);
        }
        let mut y = py;
        if py < r {
            y = r;
            h = wrap_angle(-h);
        } else if py > b.height - r {
            y = b.height - r;
            h = wrap_angle(-h);
        }
        self.position = Point { x, y };
        self.robot.direction = h;
    }

    /// One step of locomotion: the robot moves along its heading for `dt`
    /// microseconds, its heading changes at a random rate within its turn
    /// rate, and it bounces off the edges of the world.
    pub fn seek(&mut self, d: Direction, dt: u64, b: Bounds, rng: &mut StdRng)
        requires
            old(self).fits(b),
            d.wf(),
            dt <= MAX_DT,
        ensures
            is_locomotion_step(*final(self), *old(self), d, dt as int, b),
            final(self).fits(b),
            in_bounds(final(self).position, final(self).robot.radius as int, b),
    {
        let rate = self.robot.max_turn_rate;
        let sample = if rate > 0 {
            draw_in(rng, -rate, rate)
        } else {
            0
        };
        self.advance(d, dt, sample, b);
    }

    /// Collision avoidance with the random deviation given as `deviation`.
    pub fn avoid(&mut self, prev: Point, obstacles: &Vec<Collider>, deviation: i64)
        requires
            old(self).wf(),
            prev.wf(),
            obstacles_wf(obstacles@),
            -old(self).robot.max_deviation <= deviation <= old(self).robot.max_deviation,
        ensures
            *final(self) == avoid_spec(*old(self), prev, obstacles@, deviation as int),
            final(self).wf(),
    {
        if !disc_is_clear(obstacles, self.position, self.robot.radius) {
            self.position = prev;
            self.robot.direction = wrap_angle(self.robot.direction + deviation);
        }
    }

    /// Collision avoidance: when the robot's disc meets an obstacle, the move
    /// of this tick is undone (the robot goes back to `prev`, where it stood
    /// before) and its heading turns by a random angle within its maximum
    /// deviation, drawn only then. The position tested is the one reached this
    /// tick rather than a look-ahead one step further, so that a robot is never
    /// left inside an obstacle: one that stood clear of every obstacle at
    /// `prev` stands clear of every obstacle afterwards, and one that stood
    /// inside the world at `prev` and after moving stays inside it.
    pub fn check_collisions(&mut self, prev: Point, obstacles: &Vec<Collider>, rng: &mut StdRng)
        requires
            old(self).wf(),
            prev.wf(),
            obstacles_wf(obstacles@),
        ensures
            is_avoidance_step(*final(self), *old(self), prev, obstacles@),
            final(self).wf(),
            final(self).robot.radius == old(self).robot.radius,
            clear_of(obstacles@, prev, old(self).robot.radius as int) ==> clear_of(
                obstacles@,
                final(self).position,
                final(self).robot.radius as int,
            ),
            forall|b: Bounds|
                in_bounds(prev, old(self).robot.radius as int, b) && in_bounds(
                    old(self).position,
                    old(self).robot.radius as int,
                    b,
                ) ==> #[trigger] in_bounds(final(self).position, final(self).robot.radius as int, b),
    {
        if disc_is_clear(obstacles, self.position, self.robot.radius) {
            assert(*self == avoid_spec(*self, prev, obstacles@, 0));
            return;
        }
        let dev = self.robot.max_deviation;
        let deviation = if dev > 0 {
            draw_in(rng, -dev, dev)
        } else {
            0
        };
        self.avoid(prev, obstacles, deviation);
    }

    /// Sensing: finds the first resource at the least distance among those
    /// strictly within the sensor's range, and sets the sensor to `Tracking`
    /// when there is one, to `Idle` otherwise. Nothing else changes.
    pub fn sense_resource(&mut self, resources: &Vec<PlacedResource>) -> (r: Option<usize>)
        requires
            old(self).wf(),
            resources_wf(resources@),
        ensures
            r matches Some(i) ==> is_nearest(
                old(self).position,
                old(self).sensor.range as int,
                resources@,
                i as int,
            ),
            r is None ==> forall|j: int|
                0 <= j < resources@.len() ==> !in_range(
                    old(self).position,
                    old(self).sensor.range as int,
                    #[trigger] resources@[j],
                ),
            *final(self) == (Agent {
                sensor: Sensor {
                    state: if r is Some {
                        SensorState::Tracking
                    } else {
                        SensorState::Idle
                    },
                    ..old(self).sensor
                },
                ..*old(self)
            }),
    {
        let found = nearest_in_range(self.position, self.sensor.range, resources);
        if found.is_some() {
            self.sensor.state = SensorState::Tracking;
        } else {
            self.sensor.state = SensorState::Idle;
        }
        found
    }

    /// Seeking: a collector turns toward the heading `target` for `dt`
    /// microseconds, along the shorter way, by at most `ROTATION_SPEED` per
    /// second and never past it. An explorer is left as it is.
    pub fn steer_toward(&mut self, target: i64, dt: u64)
        requires
            old(self).wf(),
            0 <= target < FULL_TURN,
            dt <= MAX_DT,
        ensures
            *final(self) == steer_spec(*old(self), target as int, dt as int),
            final(self).wf(),
    {
        if self.role == Role::Collector {
            assert(ROTATION_SPEED * (dt as int) / (MICROS_PER_SECOND as int) <= 1_000_000_000_000) by (nonlinear_arith)
                requires dt <= MAX_DT;
            let max = scale_trunc(ROTATION_SPEED, dt, MICROS_PER_SECOND);
            let diff = shortest_turn(self.robot.direction, target);
            let step = if diff < -max {
                -max
            } else if diff > max {
                max
            } else {
                diff
            };
            self.robot.direction = wrap_angle(self.robot.direction + step);
        }
    }
}

} // verus!
