use noise::{NoiseFn, Perlin};
use rand::rngs::StdRng;
use rand::SeedableRng;
use robots_exploration::{
    circle_intersects_box, collect_resource, disc_is_clear, nearest_in_range, place_resources,
    shortest_turn, spawn_resources, spawn_robots, tile_band, update_score, wrap_angle, Aabb, Agent,
    Bounds, Candidate, Collider, Direction, GameResource, PlacedResource, Point,
    ResourceCollectedEvent, ResourceType, Robot, Role, RoleConfig, Score, Sensor, SensorState,
    SetupError, spawn_default_robots, Terrain, TerrainError, World, FULL_TURN, HALF_TURN, PLACEMENT_ATTEMPTS, UNIT,
};

fn perlin_samples(width: u32, height: u32, seed: u32, scale: f64) -> Vec<i32> {
    let perlin = Perlin::new(seed);
    let mut out = Vec::new();
    for y in 0..height {
        for x in 0..width {
            let nx = (x as f64 / width as f64) * scale;
            let ny = (y as f64 / height as f64) * scale;
            out.push((perlin.get([nx, ny]) * 1_000_000.0).ceil() as i32);
        }
    }
    out
}

fn agent(x: i64, y: i64, radius: i64, role: Role, range: u32) -> Agent {
    Agent {
        position: Point { x, y },
        robot: Robot {
            direction: 0,
            radius,
            speed: 70_000,
            max_turn_rate: 1_000_000,
            max_deviation: 500_000,
        },
        role,
        sensor: Sensor { range, state: SensorState::Idle },
    }
}

fn resource_at(x: i64, y: i64, kind: ResourceType) -> PlacedResource {
    PlacedResource {
        resource: GameResource::new(kind),
        collider: Collider { bounding_box: Aabb::new(Point::new(x, y), 8_000, 8_000) },
    }
}

fn cell_obstacle(cx: i64, cy: i64, half: i64) -> Collider {
    Collider { bounding_box: Aabb::new(Point::new(cx, cy), half, half) }
}

#[test]
fn terrain_generation_is_reproducible() {
    let a = Terrain::from_noise_samples(10, 10, 16, perlin_samples(10, 10, 5, 25.0)).unwrap();
    let b = Terrain::from_noise_samples(10, 10, 16, perlin_samples(10, 10, 5, 25.0)).unwrap();
    assert_eq!(a.noise_map.len(), 100);
    assert_eq!(a.noise_map, b.noise_map);
    assert_eq!(a.obstacle_colliders(), b.obstacle_colliders());
    assert_eq!(a.noise_map[0], 0);
}

#[test]
fn terrain_origin_is_forced_to_zero() {
    let t = Terrain::from_noise_samples(2, 2, 16, vec![300_000, 1, 2, 3]).unwrap();
    assert_eq!(t.noise_map, vec![0, 1, 2, 3]);
    assert!(t.obstacle_colliders().is_empty());
}

#[test]
fn terrain_obstacles_follow_the_band() {
    let samples = vec![500_000, 300_000, 350_000, 200_000, 350_001, 250_000];
    let t = Terrain::from_noise_samples(3, 2, 16, samples).unwrap();
    let obstacles = t.obstacle_colliders();
    assert_eq!(
        obstacles,
        vec![
            cell_obstacle(16_000, 0, 8_000),
            cell_obstacle(32_000, 0, 8_000),
            cell_obstacle(32_000, 16_000, 8_000),
        ]
    );
    assert_eq!(t.noise_at(2, 1), 250_000);
}

#[test]
fn terrain_rejects_bad_dimensions() {
    assert_eq!(
        Terrain::from_noise_samples(0, 5, 16, vec![]).err(),
        Some(TerrainError::InvalidDimensions)
    );
    assert_eq!(
        Terrain::from_noise_samples(2, 2, 0, vec![0, 0, 0, 0]).err(),
        Some(TerrainError::InvalidDimensions)
    );
    assert_eq!(
        Terrain::from_noise_samples(2, 2, 16, vec![0, 0, 0]).err(),
        Some(TerrainError::SampleCountMismatch)
    );
}

#[test]
fn terrain_new_is_flat() {
    let t = Terrain::new(4, 3, 16);
    assert_eq!(t.noise_map, vec![0; 12]);
    assert_eq!(t.world_width_exec(), 64_000);
    assert_eq!(t.world_height_exec(), 48_000);
}

#[test]
fn tile_bands() {
    assert_eq!(tile_band(800_000), 4);
    assert_eq!(tile_band(750_000), 3);
    assert_eq!(tile_band(650_001), 3);
    assert_eq!(tile_band(650_000), 2);
    assert_eq!(tile_band(350_000), 1);
    assert_eq!(tile_band(200_001), 1);
    assert_eq!(tile_band(200_000), 0);
    assert_eq!(tile_band(-900_000), 0);
}

#[test]
fn circle_box_touching_counts_as_intersecting() {
    let b = Aabb::new(Point::new(15, 0), 5, 5);
    assert!(circle_intersects_box(Point::new(0, 0), 10, b));
    assert!(!circle_intersects_box(Point::new(0, 0), 9, b));
    let corner = Aabb::new(Point::new(10, 10), 5, 5);
    assert!(circle_intersects_box(Point::new(0, 0), 8, corner));
    assert!(!circle_intersects_box(Point::new(0, 0), 7, corner));
    assert!(circle_intersects_box(Point::new(10, 10), 1, corner));
}

#[test]
fn resource_points_by_kind() {
    assert_eq!(GameResource::new(ResourceType::Energy).points, 10);
    assert_eq!(GameResource::new(ResourceType::Mineral).points, 5);
    assert_eq!(GameResource::new(ResourceType::Scientific).points, 1);
}

#[test]
fn score_adds_event_points_in_order() {
    let mut score = Score(4);
    let events = vec![
        ResourceCollectedEvent { points: 10 },
        ResourceCollectedEvent { points: 5 },
        ResourceCollectedEvent { points: 1 },
    ];
    update_score(&mut score, &events);
    assert_eq!(score, Score(20));
    update_score(&mut score, &vec![]);
    assert_eq!(score, Score(20));
}

#[test]
fn angles_wrap_into_one_turn() {
    assert_eq!(wrap_angle(0), 0);
    assert_eq!(wrap_angle(FULL_TURN), 0);
    assert_eq!(wrap_angle(-1), FULL_TURN - 1);
    assert_eq!(wrap_angle(-FULL_TURN), 0);
    assert_eq!(wrap_angle(2_150_000), 150_000);
    assert_eq!(wrap_angle(-4_500_000), 1_500_000);
    assert_eq!(shortest_turn(0, 1_500_000), -500_000);
    assert_eq!(shortest_turn(1_900_000, 100_000), 200_000);
    assert_eq!(shortest_turn(0, HALF_TURN), HALF_TURN);
}

#[test]
fn locomotion_moves_along_heading() {
    let b = Bounds { width: 4_000_000, height: 4_000_000 };
    let mut a = agent(100_000, 100_000, 5_000, Role::Explorer, 200_000);
    a.advance(Direction { cos: UNIT, sin: 0 }, 1_000_000, 0, b);
    assert_eq!(a.position, Point::new(170_000, 100_000));
    assert_eq!(a.robot.direction, 0);
    a.advance(Direction { cos: 0, sin: UNIT }, 500_000, 1_000_000, b);
    assert_eq!(a.position, Point::new(170_000, 135_000));
    assert_eq!(a.robot.direction, 500_000);
    a.advance(Direction { cos: 0, sin: UNIT }, 1_000, -1_000_000, b);
    assert_eq!(a.robot.direction, 499_000);
}

#[test]
fn locomotion_bounces_off_edges() {
    let b = Bounds { width: 4_000_000, height: 4_000_000 };
    let mut a = agent(6_000, 100_000, 5_000, Role::Explorer, 200_000);
    a.advance(Direction { cos: -UNIT, sin: 0 }, 1_000_000, 0, b);
    assert_eq!(a.position, Point::new(5_000, 100_000));
    assert_eq!(a.robot.direction, HALF_TURN);

    let mut c = agent(100_000, 3_990_000, 5_000, Role::Collector, 100_000);
    c.robot.direction = 500_000;
    c.advance(Direction { cos: 0, sin: UNIT }, 1_000_000, 0, b);
    assert_eq!(c.position, Point::new(100_000, 3_995_000));
    assert_eq!(c.robot.direction, 1_500_000);

    let mut corner = agent(6_000, 6_000, 5_000, Role::Explorer, 200_000);
    corner.robot.direction = 1_250_000;
    corner.advance(Direction { cos: -707_107, sin: -707_107 }, 1_000_000, 0, b);
    assert_eq!(corner.position, Point::new(5_000, 5_000));
    assert_eq!(corner.robot.direction, 250_000);
}

#[test]
fn locomotion_with_random_turn_stays_in_bounds() {
    let b = Bounds { width: 200_000, height: 150_000 };
    let mut rng = StdRng::seed_from_u64(11);
    let mut a = agent(100_000, 75_000, 10_000, Role::Collector, 100_000);
    a.robot.speed = 500_000;
    a.robot.max_turn_rate = 6_366_198;
    for _ in 0..500 {
        let h = a.robot.direction as f64 / HALF_TURN as f64 * std::f64::consts::PI;
        let d = Direction { cos: (h.cos() * UNIT as f64) as i64, sin: (h.sin() * UNIT as f64) as i64 };
        a.seek(d, 16_000, b, &mut rng);
        assert!(a.position.x >= 10_000 && a.position.x <= 190_000);
        assert!(a.position.y >= 10_000 && a.position.y <= 140_000);
        assert!(a.robot.direction >= 0 && a.robot.direction < FULL_TURN);
    }
}

#[test]
fn avoidance_reverts_a_colliding_move() {
    let obstacles = vec![cell_obstacle(50_000, 50_000, 8_000)];
    let mut a = agent(45_000, 50_000, 5_000, Role::Explorer, 200_000);
    a.robot.direction = 1_900_000;
    a.avoid(Point::new(10_000, 10_000), &obstacles, 250_000);
    assert_eq!(a.position, Point::new(10_000, 10_000));
    assert_eq!(a.robot.direction, 150_000);

    let mut clear = agent(20_000, 20_000, 5_000, Role::Explorer, 200_000);
    clear.avoid(Point::new(10_000, 10_000), &obstacles, 250_000);
    assert_eq!(clear.position, Point::new(20_000, 20_000));
    assert_eq!(clear.robot.direction, 0);

    let mut untouched = agent(20_000, 20_000, 5_000, Role::Explorer, 200_000);
    let mut rng_a = StdRng::seed_from_u64(5);
    let rng_b = StdRng::seed_from_u64(5);
    untouched.check_collisions(Point::new(10_000, 10_000), &obstacles, &mut rng_a);
    assert_eq!(untouched.position, Point::new(20_000, 20_000));
    assert_eq!(untouched.robot.direction, 0);
    assert_eq!(rng_a, rng_b);

    let mut rng = StdRng::seed_from_u64(3);
    let mut b = agent(45_000, 50_000, 5_000, Role::Explorer, 200_000);
    b.check_collisions(Point::new(10_000, 10_000), &obstacles, &mut rng);
    assert_eq!(b.position, Point::new(10_000, 10_000));
    assert!(b.robot.direction <= 500_000 || b.robot.direction >= 1_500_000);
}

#[test]
fn sensing_picks_the_nearest_in_range() {
    let mut a = agent(100_000, 100_000, 10_000, Role::Collector, 50_000);
    let resources = vec![
        resource_at(180_000, 100_000, ResourceType::Energy),
        resource_at(100_000, 130_000, ResourceType::Mineral),
    ];
    assert_eq!(a.sense_resource(&resources), Some(1));
    assert_eq!(a.sensor.state, SensorState::Tracking);
}

#[test]
fn sensing_nothing_in_range_goes_idle() {
    let mut a = agent(100_000, 100_000, 10_000, Role::Explorer, 50_000);
    a.sensor.state = SensorState::Tracking;
    let resources = vec![
        resource_at(180_000, 100_000, ResourceType::Energy),
        resource_at(100_000, 150_000, ResourceType::Mineral),
    ];
    assert_eq!(a.sense_resource(&resources), None);
    assert_eq!(a.sensor.state, SensorState::Idle);
    assert_eq!(a.sense_resource(&vec![]), None);
}

#[test]
fn sensing_ties_go_to_the_first() {
    let p = Point::new(0, 0);
    let resources = vec![
        resource_at(90, 0, ResourceType::Energy),
        resource_at(0, 30, ResourceType::Mineral),
        resource_at(-30, 0, ResourceType::Scientific),
        resource_at(0, -30, ResourceType::Energy),
    ];
    assert_eq!(nearest_in_range(p, 100, &resources), Some(1));
    assert_eq!(nearest_in_range(p, 30, &resources), None);
}

#[test]
fn steering_turns_collectors_only() {
    let mut c = agent(0, 0, 10_000, Role::Collector, 100_000);
    c.steer_toward(1_500_000, 100_000);
    assert_eq!(c.robot.direction, 1_936_338);
    c.steer_toward(1_936_000, 1_000_000);
    assert_eq!(c.robot.direction, 1_936_000);

    let mut e = agent(0, 0, 5_000, Role::Explorer, 200_000);
    e.steer_toward(1_500_000, 100_000);
    assert_eq!(e.robot.direction, 0);
}

#[test]
fn collection_scores_a_reached_resource() {
    let agents = vec![agent(0, 0, 10_000, Role::Collector, 100_000)];
    let mut resources = vec![resource_at(5_000, 5_000, ResourceType::Energy)];
    let mut events = Vec::new();
    collect_resource(&agents, &mut resources, &mut events);
    assert!(resources.is_empty());
    assert_eq!(events, vec![ResourceCollectedEvent { points: 10 }]);
    let mut score = Score(0);
    update_score(&mut score, &events);
    assert_eq!(score, Score(10));
}

#[test]
fn collection_takes_each_resource_once() {
    let agents = vec![
        agent(100_000, 100_000, 10_000, Role::Collector, 100_000),
        agent(104_000, 100_000, 10_000, Role::Collector, 100_000),
        agent(300_000, 300_000, 10_000, Role::Explorer, 100_000),
    ];
    let mut resources = vec![
        resource_at(110_000, 100_000, ResourceType::Mineral),
        resource_at(300_000, 300_000, ResourceType::Energy),
        resource_at(90_000, 95_000, ResourceType::Scientific),
    ];
    let mut events = vec![ResourceCollectedEvent { points: 7 }];
    collect_resource(&agents, &mut resources, &mut events);
    assert_eq!(resources, vec![resource_at(300_000, 300_000, ResourceType::Energy)]);
    assert_eq!(
        events,
        vec![
            ResourceCollectedEvent { points: 7 },
            ResourceCollectedEvent { points: 5 },
            ResourceCollectedEvent { points: 1 },
        ]
    );
}

#[test]
fn placement_keeps_clear_candidates_in_order() {
    let obstacles = vec![cell_obstacle(50_000, 50_000, 8_000)];
    let candidates = vec![
        Candidate { position: Point::new(20_000, 20_000), kind: ResourceType::Energy },
        Candidate { position: Point::new(50_000, 62_000), kind: ResourceType::Mineral },
        Candidate { position: Point::new(50_000, 70_000), kind: ResourceType::Scientific },
        Candidate { position: Point::new(90_000, 90_000), kind: ResourceType::Mineral },
    ];
    let p = place_resources(&obstacles, 8_000, 2, &candidates);
    assert_eq!(
        p.resources,
        vec![
            resource_at(20_000, 20_000, ResourceType::Energy),
            resource_at(50_000, 70_000, ResourceType::Scientific),
        ]
    );
    assert_eq!(p.placed_count(), 2);
    assert_eq!(p.shortfall(), 0);
    let q = place_resources(&obstacles, 8_000, 5, &candidates);
    assert_eq!(q.placed_count(), 3);
    assert_eq!(q.shortfall(), 2);
    assert!(!disc_is_clear(&obstacles, Point::new(50_000, 62_000), 8_000));
    assert!(disc_is_clear(&obstacles, Point::new(50_000, 66_001), 8_000));
}

#[test]
fn placement_avoids_obstacles() {
    let samples = perlin_samples(40, 40, 5, 25.0);
    let t = Terrain::from_noise_samples(40, 40, 16, samples).unwrap();
    let obstacles = t.obstacle_colliders();
    let mut rng = StdRng::seed_from_u64(42);
    let p = spawn_resources(&t, &obstacles, 300, 8_000, &mut rng);
    assert_eq!(p.requested, 300);
    assert!(p.placed_count() <= 300);
    for r in &p.resources {
        let c = r.collider.bounding_box.center;
        assert!(disc_is_clear(&obstacles, c, 8_000));
        assert!(c.x >= 8_000 && c.x < 640_000 - 8_000);
        assert!(c.y >= 8_000 && c.y < 640_000 - 8_000);
        assert_eq!(r.resource.points, GameResource::new(r.resource.kind).points);
    }
}

#[test]
fn placement_stops_at_the_attempt_budget() {
    let mut samples = vec![300_000; 1600];
    for s in samples.iter_mut().take(80) {
        *s = 0;
    }
    let t = Terrain::from_noise_samples(40, 40, 16, samples).unwrap();
    let obstacles = t.obstacle_colliders();
    assert_eq!(obstacles.len(), 1520);
    let mut rng = StdRng::seed_from_u64(7);
    let p = spawn_resources(&t, &obstacles, 300, 8_000, &mut rng);
    assert!(p.placed_count() < 300);
    assert_eq!(p.shortfall(), 300 - p.placed_count());
    assert_eq!(PLACEMENT_ATTEMPTS, 1000);
}

#[test]
fn robots_spawn_by_role() {
    let agents = spawn_robots(RoleConfig::explorers(), RoleConfig::collectors()).unwrap();
    assert_eq!(agents.len(), 4);
    assert_eq!(agents[0].role, Role::Explorer);
    assert_eq!(agents[1].role, Role::Explorer);
    assert_eq!(agents[2].role, Role::Collector);
    assert_eq!(agents[0].position, Point::new(0, 0));
    assert_eq!(agents[3].position, Point::new(0, 0));
    assert_eq!(agents[3].sensor, Sensor { range: 100_000, state: SensorState::Idle });
    assert_eq!(agents[0].robot.speed, 70_000);
}

#[test]
fn robots_setup_rejects_bad_parameters() {
    let mut e = RoleConfig::explorers();
    e.sensor_range = 0;
    assert_eq!(spawn_robots(e, RoleConfig::collectors()).err(), Some(SetupError::ZeroSensorRange));
    let mut c = RoleConfig::collectors();
    c.radius = 0;
    assert_eq!(spawn_robots(RoleConfig::explorers(), c).err(), Some(SetupError::InvalidRobot));
}

#[test]
fn world_ticks_keep_robots_inside_and_clear() {
    let samples = perlin_samples(20, 20, 5, 25.0);
    let t = Terrain::from_noise_samples(20, 20, 16, samples).unwrap();
    let obstacles = t.obstacle_colliders();
    let bounds = Bounds { width: t.world_width_exec(), height: t.world_height_exec() };
    let agents: Vec<Agent> = spawn_robots(RoleConfig::explorers(), RoleConfig::collectors())
        .unwrap()
        .into_iter()
        .filter(|a| disc_is_clear(&obstacles, a.position, a.robot.radius))
        .collect();
    let mut rng = StdRng::seed_from_u64(1);
    let placement = spawn_resources(&t, &obstacles, 30, 8_000, &mut rng);
    let mut world = World::new(bounds, obstacles.clone(), placement.resources, agents);
    let mut last_score = 0;
    for _ in 0..300 {
        let dirs: Vec<Direction> = world
            .agents
            .iter()
            .map(|a| {
                let h = a.robot.direction as f64 / HALF_TURN as f64 * std::f64::consts::PI;
                Direction { cos: (h.cos() * UNIT as f64) as i64, sin: (h.sin() * UNIT as f64) as i64 }
            })
            .collect();
        world.locomotion(&dirs, 16_000, &mut rng);
        for a in &world.agents {
            assert!(a.position.x >= a.robot.radius && a.position.x <= bounds.width - a.robot.radius);
            assert!(a.position.y >= a.robot.radius && a.position.y <= bounds.height - a.robot.radius);
        }
        world.avoid_obstacles(&mut rng);
        for a in &world.agents {
            assert!(disc_is_clear(&obstacles, a.position, a.robot.radius));
        }
        let found = world.sense();
        let targets: Vec<Option<i64>> = found
            .iter()
            .zip(world.agents.iter())
            .map(|(f, a)| {
                f.map(|i| {
                    let c = world.resources[i].collider.bounding_box.center;
                    let ang = ((c.y - a.position.y) as f64).atan2((c.x - a.position.x) as f64);
                    wrap_angle((ang / std::f64::consts::PI * HALF_TURN as f64) as i64)
                })
            })
            .collect();
        world.steer(&targets, 16_000);
        let before = world.resources.len();
        world.collect();
        let pending: u32 = world.events.iter().map(|e| e.points).sum();
        assert_eq!(world.events.len(), before - world.resources.len());
        world.update_score();
        assert_eq!(world.score.0, last_score + pending);
        assert!(world.events.is_empty());
        last_score = world.score.0;
    }
}

#[test]
fn default_robots_setup() {
    let agents = spawn_default_robots();
    assert_eq!(agents.len(), 4);
    assert_eq!(agents[0].role, Role::Explorer);
    assert_eq!(agents[1].role, Role::Explorer);
    assert_eq!(agents[2].role, Role::Collector);
    assert_eq!(agents[3].role, Role::Collector);
    assert_eq!(agents[1].robot.radius, 5_000);
    assert_eq!(agents[1].robot.max_turn_rate, 1_591_549);
    assert_eq!(agents[2].robot.radius, 10_000);
    assert_eq!(agents[2].robot.speed, 50_000);
    assert_eq!(agents[2].robot.max_turn_rate, 6_366_198);
    for a in &agents {
        assert_eq!(a.position, Point::new(0, 0));
        assert_eq!(a.robot.direction, 0);
        assert_eq!(a.robot.max_deviation, 500_000);
        assert_eq!(a.sensor.state, SensorState::Idle);
    }
    assert_eq!(agents[0].sensor.range, 200_000);
    assert_eq!(agents[3].sensor.range, 100_000);
}

#[test]
fn placement_with_zero_radius() {
    let t = Terrain::new(4, 4, 16);
    let mut rng = StdRng::seed_from_u64(9);
    let p = spawn_resources(&t, &vec![], 5, 0, &mut rng);
    assert_eq!(p.placed_count(), 5);
    assert_eq!(p.shortfall(), 0);
}

#[test]
fn placement_stops_once_the_count_is_placed() {
    let t = Terrain::new(4, 4, 16);
    let mut rng = StdRng::seed_from_u64(21);
    let p = spawn_resources(&t, &vec![], 3, 8_000, &mut rng);
    assert_eq!(p.placed_count(), 3);
    let mut fresh = StdRng::seed_from_u64(21);
    for _ in 0..3 {
        let _ = rand::Rng::gen_range(&mut fresh, 8_000i64..56_000);
        let _ = rand::Rng::gen_range(&mut fresh, 8_000i64..56_000);
        let _ = rand::Rng::gen_range(&mut fresh, 0i64..3);
    }
    assert_eq!(rng, fresh);
}
