use vstd::prelude::*;
use crate::angle::HALF_TURN;
use crate::geometry::{Point, MAX_COORD};
use crate::robot::{Agent, Robot, Role, Sensor, SensorState, MAX_SPEED, MAX_TURN_RATE};

verus! {

/// Why robots could not be set up.
#[derive(Clone, Copy, PartialEq, Eq, Structural, Debug)]
pub enum SetupError {
    /// A sensor's range is zero.
    ZeroSensorRange,
    /// A radius is not positive, or a radius, speed, turn rate or deviation is
    /// out of its range.
    InvalidRobot,
}

/// How many robots of a role to create, and their parameters.
#[derive(Clone, Copy, PartialEq, Eq, Structural, Debug)]
pub struct RoleConfig {
    pub count: usize,
    pub radius: i64,
    pub speed: i64,
    pub max_turn_rate: i64,
    pub max_deviation: i64,
    pub sensor_range: u32,
}

impl RoleConfig {
    pub open spec fn explorers_spec() -> RoleConfig {
        RoleConfig {
            count: 2,
            radius: 5_000,
            speed: 70_000,
            max_turn_rate: 1_591_549,
            max_deviation: 500_000,
            sensor_range: 200_000,
        }
    }

    pub open spec fn collectors_spec() -> RoleConfig {
        RoleConfig {
            count: 2,
            radius: 10_000,
            speed: 50_000,
            max_turn_rate: 6_366_198,
            max_deviation: 500_000,
            sensor_range: 100_000,
        }
    }

    pub open spec fn robot_ok(self) -> bool {
        &&& 0 < self.radius <= MAX_COORD
        &&& 0 <= self.speed <= MAX_SPEED
        &&& 0 <= self.max_turn_rate <= MAX_TURN_RATE
        &&& 0 <= self.max_deviation <= HALF_TURN
    }

    /// Explorers: two robots of radius 5 moving at 70 units per second,
    /// turning at up to 5 radians per second, deviating by up to a quarter
    /// turn, with a sensor range of 200.
    pub fn explorers() -> (r: RoleConfig)
        ensures
            r == (RoleConfig {
                count: 2,
                radius: 5_000,
                speed: 70_000,
                max_turn_rate: 1_591_549,
                max_deviation: 500_000,
                sensor_range: 200_000,
            }),
            r.robot_ok(),
            r.sensor_range > 0,
    {
        RoleConfig {
            count: 2,
            radius: 5_000,
            speed: 70_000,
            max_turn_rate: 1_591_549,
            max_deviation: 500_000,
            sensor_range: 200_000,
        }
    }

    /// Collectors: two robots of radius 10 moving at 50 units per second,
    /// turning at up to 20 radians per second, deviating by up to a quarter
    /// turn, with a sensor range of 100.
    pub fn collectors() -> (r: RoleConfig)
        ensures
            r == (RoleConfig {
                count: 2,
                radius: 10_000,
                speed: 50_000,
                max_turn_rate: 6_366_198,
                max_deviation: 500_000,
                sensor_range: 100_000,
            }),
            r.robot_ok(),
            r.sensor_range > 0,
    {
        RoleConfig {
            count: 2,
            radius: 10_000,
            speed: 50_000,
            max_turn_rate: 6_366_198,
            max_deviation: 500_000,
            sensor_range: 100_000,
        }
    }
}

/// A new robot of the given role: at the origin, heading along x, its sensor
/// idle.
pub open spec fn spawned(c: RoleConfig, role: Role) -> Agent {
    Agent {
        position: Point { x: 0, y: 0 },
        robot: Robot {
            direction: 0,
            radius: c.radius,
            speed: c.speed,
            max_turn_rate: c.max_turn_rate,
            max_deviation: c.max_deviation,
        },
        role,
        sensor: Sensor { range: c.sensor_range, state: SensorState::Idle },
    }
}

fn push_robots(out: &mut Vec<Agent>, c: RoleConfig, role: Role)
    requires
        old(out)@.len() + c.count <= usize::MAX,
    ensures
        final(out)@ == old(out)@ + Seq::new(c.count as nat, |i: int| spawned(c, role)),
{
    let ghost start = out@;
    let mut i: usize = 0;
    while i < c.count
        invariant
            i <= c.count,
            out@ == start + Seq::new(i as nat, |k: int| spawned(c, role)),
        decreases c.count - i,
    {
        let a = Agent {
            position: Point { x: 0, y: 0 },
            robot: Robot {
                direction: 0,
                radius: c.radius,
                speed: c.speed,
                max_turn_rate: c.max_turn_rate,
                max_deviation: c.max_deviation,
            },
            role,
            sensor: Sensor { range: c.sensor_range, state: SensorState::Idle },
        };
        out.push(a);
        i = i + 1;
        assert(out@ =~= start + Seq::new(i as nat, |k: int| spawned(c, role)));
    }
}

/// Creates the explorers, then the collectors. A zero sensor range, or a
/// parameter out of its range, is refused.
pub fn spawn_robots(explorers: RoleConfig, collectors: RoleConfig) -> (r: Result<Vec<Agent>, SetupError>)
    requires
        explorers.count + collectors.count <= usize::MAX,
    ensures
        explorers.sensor_range == 0 || collectors.sensor_range == 0 ==> r == Err::<Vec<Agent>, SetupError>(
            SetupError::ZeroSensorRange,
        ),
        explorers.sensor_range > 0 && collectors.sensor_range > 0 && !(explorers.robot_ok()
            && collectors.robot_ok()) ==> r == Err::<Vec<Agent>, SetupError>(SetupError::InvalidRobot),
        explorers.sensor_range > 0 && collectors.sensor_range > 0 && explorers.robot_ok()
            && collectors.robot_ok() ==> (r matches Ok(v) && v@ == Seq::new(
            explorers.count as nat,
            |i: int| spawned(explorers, Role::Explorer),
        ) + Seq::new(collectors.count as nat, |i: int| spawned(collectors, Role::Collector))),
{
    if explorers.sensor_range == 0 || collectors.sensor_range == 0 {
        return Err(SetupError::ZeroSensorRange);
    }
    if !role_ok(&explorers) || !role_ok(&collectors) {
        return Err(SetupError::InvalidRobot);
    }
    let mut out: Vec<Agent> = Vec::new();
    push_robots(&mut out, explorers, Role::Explorer);
    push_robots(&mut out, collectors, Role::Collector);
    assert(out@ =~= Seq::new(explorers.count as nat, |i: int| spawned(explorers, Role::Explorer))
        + Seq::new(collectors.count as nat, |i: int| spawned(collectors, Role::Collector)));
    Ok(out)
}

/// The fixed setup: two explorers, then two collectors, each with its role's
/// parameters, idle sensors, at the origin.
pub fn spawn_default_robots() -> (r: Vec<Agent>)
    ensures
        r@.len() == 4,
        r@[0] == spawned(RoleConfig::explorers_spec(), Role::Explorer),
        r@[1] == spawned(RoleConfig::explorers_spec(), Role::Explorer),
        r@[2] == spawned(RoleConfig::collectors_spec(), Role::Collector),
        r@[3] == spawned(RoleConfig::collectors_spec(), Role::Collector),
        forall|i: int|
            0 <= i < r@.len() ==> {
                &&& (#[trigger] r@[i]).robot.radius > 0
                &&& r@[i].robot.max_turn_rate > 0
                &&& r@[i].robot.speed >= 0
                &&& r@[i].sensor.range > 0
                &&& r@[i].sensor.state == SensorState::Idle
            },
{
    let robots = spawn_robots(RoleConfig::explorers(), RoleConfig::collectors());
    // Both fixed configurations are valid, so setup cannot fail here.
    match robots {
        Ok(v) => v,
        Err(_) => Vec::new(),
    }
}

fn role_ok(c: &RoleConfig) -> (r: bool)
    ensures
        r == c.robot_ok(),
{
    0 < c.radius && c.radius <= MAX_COORD && 0 <= c.speed && c.speed <= MAX_SPEED && 0 <= c.max_turn_rate
        && c.max_turn_rate <= MAX_TURN_RATE && 0 <= c.max_deviation && c.max_deviation <= HALF_TURN
}

} // verus!
