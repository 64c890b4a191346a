use duck_lake::agent::Agent;
use duck_lake::boid::Boid;
use duck_lake::duck::{Duck, Pose, DEAD_ZONE, GRAVITY, TICK};
use duck_lake::fixed::{LIMIT, SCALE};
use duck_lake::notice::Notice;
use duck_lake::physics::{
    accelerate_ducks, apply_gravity_to_ducks, damp_velocity, handle_duck_jump_messages, integrate,
    jump_duck, move_duck_heads, propagate_duck_physics, update_ducks_above_sea_level, DuckJump,
};
use duck_lake::steering::control_boids;
use duck_lake::vec3::Vec3;

fn units(x: i64) -> i64 {
    x * SCALE
}

fn still_duck() -> Duck {
    Duck {
        is_kicking: false,
        is_boosting: false,
        speed_mod: SCALE,
        velocity: Vec3::zero(),
        angular_acceleration: 0,
        angular_velocity: 0,
        target_head_angle: 0,
        actual_head_angle: 0,
        above_sea_level: 0,
    }
}

fn agent(id: u64, transform: Pose, duck: Duck) -> Agent {
    Agent {
        id,
        is_player: false,
        is_duckling: false,
        transform,
        duck,
        target: None,
        boid: Some(Boid::new()),
        true_parent: None,
        following: None,
        done: false,
    }
}

/// A pose turned a quarter to the left about the up axis: forward along +x.
fn facing_x(translation: Vec3) -> Pose {
    Pose {
        translation,
        right: Vec3::new(0, 0, -SCALE),
        up: Vec3::new(0, SCALE, 0),
        forward: Vec3::new(SCALE, 0, 0),
    }
}

#[test]
fn submerged_duck_thrust_and_buoyancy() {
    let duck = Duck { is_kicking: true, above_sea_level: -units(2), ..still_duck() };
    assert!(duck.is_in_water());
    assert_eq!(duck.body_fixed_acceleration(), Vec3::new(0, units(200), units(10)));
}

#[test]
fn boost_adds_thirty_and_speed_multiplies_the_kick() {
    let duck = Duck {
        is_kicking: true,
        is_boosting: true,
        speed_mod: 1_500_000,
        above_sea_level: -1,
        ..still_duck()
    };
    assert_eq!(duck.body_fixed_acceleration(), Vec3::new(0, 100, units(45)));
    let unboosted = Duck { is_boosting: false, ..duck };
    assert_eq!(unboosted.body_fixed_acceleration(), Vec3::new(0, 100, units(15)));
    let coasting = Duck { is_kicking: false, ..duck };
    assert_eq!(coasting.body_fixed_acceleration(), Vec3::new(0, 100, 0));
    let deep = Duck {
        is_kicking: true,
        is_boosting: true,
        speed_mod: units(2),
        above_sea_level: -units(1),
        ..still_duck()
    };
    assert_eq!(deep.body_fixed_acceleration(), Vec3::new(0, units(100), units(50)));
    let odd = Duck { speed_mod: 1_234_567, ..deep };
    assert_eq!(odd.body_fixed_acceleration(), Vec3::new(0, units(100), 42_345_670));
}

#[test]
fn airborne_duck_has_neither_thrust_nor_buoyancy() {
    let duck =
        Duck { is_kicking: true, is_boosting: true, above_sea_level: units(1), ..still_duck() };
    assert!(!duck.is_in_water());
    assert_eq!(duck.body_fixed_acceleration(), Vec3::zero());
    let just_above = Duck { above_sea_level: 1, ..duck };
    assert!(!just_above.is_in_water());
    assert_eq!(just_above.body_fixed_acceleration(), Vec3::zero());
}

#[test]
fn duck_at_the_surface_is_in_the_water() {
    let duck =
        Duck { is_kicking: true, is_boosting: false, above_sea_level: 0, ..still_duck() };
    assert!(duck.is_in_water());
    assert_eq!(duck.body_fixed_acceleration(), Vec3::new(0, 0, units(10)));
    let boosting = Duck { is_boosting: true, ..duck };
    assert_eq!(boosting.body_fixed_acceleration(), Vec3::new(0, 0, units(40)));
    let just_below = Duck { above_sea_level: -1, ..duck };
    assert!(just_below.is_in_water());
    assert_eq!(just_below.body_fixed_acceleration(), Vec3::new(0, 100, units(10)));
}

#[test]
fn defaults_are_at_rest() {
    let duck = Duck::default();
    assert_eq!(duck, Duck { speed_mod: 0, ..still_duck() });
    assert_eq!(Boid::default(), Boid::new());
    assert_eq!(Boid::default().total_force(), Vec3::zero());
    assert_eq!(duck_lake::target::TargetPosition::default().pos, Vec3::zero());
}

#[test]
fn force_inside_the_dead_zone_lets_the_duck_coast() {
    let mut duck = Duck { is_kicking: true, angular_acceleration: 123, ..still_duck() };
    let tf = Pose::upright(Vec3::zero());
    for _ in 0..5 {
        duck.move_with_force(tf, Vec3::new(1_499_999, 0, 0), DEAD_ZONE, 1_570_796);
        assert!(!duck.is_kicking);
        assert_eq!(duck.angular_acceleration, 0);
    }
    duck.move_with_force(tf, Vec3::new(900_000, 700_000, 900_000), DEAD_ZONE, 300_000);
    assert!(!duck.is_kicking);
    assert_eq!(duck.angular_acceleration, 0);
}

#[test]
fn force_on_the_edge_of_the_dead_zone_steers() {
    let mut duck = still_duck();
    let tf = Pose::upright(Vec3::zero());
    duck.move_with_force(tf, Vec3::new(0, 0, DEAD_ZONE), DEAD_ZONE, 0);
    assert!(duck.is_kicking);
    assert_eq!(duck.angular_acceleration, 0);
}

#[test]
fn steering_turns_toward_the_force() {
    let tf = Pose::upright(Vec3::zero());
    let mut duck = still_duck();
    // Ahead and to the right, at half a radian.
    duck.move_with_force(tf, Vec3::new(units(1), 0, units(2)), DEAD_ZONE, 500_000);
    assert!(duck.is_kicking);
    assert_eq!(duck.angular_acceleration, 3_500_000);
    // Ahead and to the left.
    duck.move_with_force(tf, Vec3::new(-units(1), 0, units(2)), DEAD_ZONE, 500_000);
    assert!(duck.is_kicking);
    assert_eq!(duck.angular_acceleration, -3_500_000);
    // Behind and to the right: turn, but do not paddle.
    duck.move_with_force(tf, Vec3::new(units(1), 0, -units(2)), DEAD_ZONE, 2_600_000);
    assert!(!duck.is_kicking);
    assert_eq!(duck.angular_acceleration, 18_200_000);
    // Straight behind counts as left.
    duck.move_with_force(tf, Vec3::new(0, 0, -units(2)), DEAD_ZONE, 3_141_593);
    assert!(!duck.is_kicking);
    assert_eq!(duck.angular_acceleration, -21_991_151);
    // Exactly abeam: no paddling.
    duck.move_with_force(tf, Vec3::new(units(2), 0, 0), DEAD_ZONE, 1_570_796);
    assert!(!duck.is_kicking);
    assert_eq!(duck.angular_acceleration, 10_995_572);
    // A negative bearing is taken by its magnitude.
    duck.move_with_force(tf, Vec3::new(units(1), 0, units(2)), DEAD_ZONE, -500_000);
    assert_eq!(duck.angular_acceleration, 3_500_000);
}

#[test]
fn steering_reads_the_axes_of_the_pose() {
    let tf = facing_x(Vec3::zero());
    let mut duck = still_duck();
    // The world's +z is to the left of a body that faces +x.
    duck.move_with_force(tf, Vec3::new(units(2), 0, units(1)), DEAD_ZONE, 400_000);
    assert!(duck.is_kicking);
    assert_eq!(duck.angular_acceleration, -2_800_000);
    duck.move_with_force(tf, Vec3::new(-units(2), 0, -units(1)), DEAD_ZONE, 2_700_000);
    assert!(!duck.is_kicking);
    assert_eq!(duck.angular_acceleration, 18_900_000);
}

#[test]
fn radius_of_zero_never_coasts() {
    let tf = Pose::upright(Vec3::zero());
    let mut duck = Duck { is_kicking: true, ..still_duck() };
    duck.move_with_force(tf, Vec3::zero(), 0, 1_000_000);
    assert!(!duck.is_kicking);
    assert_eq!(duck.angular_acceleration, -7_000_000);
}

#[test]
fn control_pass_reports_changes_of_thrust() {
    let ahead = Boid { separation: Vec3::zero(), seek_target: Vec3::new(0, 0, units(5)) };
    let faint = Boid { separation: Vec3::new(10, 0, 0), seek_target: Vec3::new(0, 0, units(1)) };
    let mut starts = agent(1, Pose::upright(Vec3::zero()), still_duck());
    starts.boid = Some(ahead);
    let mut stops =
        agent(2, Pose::upright(Vec3::zero()), Duck { is_kicking: true, ..still_duck() });
    stops.boid = Some(faint);
    let mut keeps =
        agent(3, Pose::upright(Vec3::zero()), Duck { is_kicking: true, ..still_duck() });
    keeps.boid = Some(ahead);
    let mut player =
        agent(4, Pose::upright(Vec3::zero()), Duck { is_kicking: true, ..still_duck() });
    player.is_player = true;
    player.boid = None;
    let mut table = vec![starts, stops, keeps, player];
    let notices = control_boids(&mut table, &vec![0, 0, 100_000, 0]);
    assert_eq!(
        notices,
        vec![Notice::ThrustBegan { duck: 1 }, Notice::ThrustEnded { duck: 2 }]
    );
    assert!(table[0].duck.is_kicking);
    assert!(!table[1].duck.is_kicking);
    assert!(table[2].duck.is_kicking);
    assert_eq!(table[2].duck.angular_acceleration, -700_000);
    assert_eq!(table[3], player);
}

#[test]
fn gravity_acts_above_the_water_only() {
    let mut above = still_duck();
    above.apply_gravity(Pose::upright(Vec3::new(0, 1, 0)), TICK);
    assert_eq!(above.velocity, Vec3::new(0, -196_200, 0));
    above.apply_gravity(Pose::upright(Vec3::new(0, units(3), 0)), TICK);
    assert_eq!(above.velocity, Vec3::new(0, -392_400, 0));
    let mut at_surface = still_duck();
    at_surface.apply_gravity(Pose::upright(Vec3::zero()), TICK);
    assert_eq!(at_surface.velocity, Vec3::zero());
    let mut below = still_duck();
    below.apply_gravity(Pose::upright(Vec3::new(0, -units(1), 0)), TICK);
    assert_eq!(below.velocity, Vec3::zero());
    assert_eq!(GRAVITY, -9_810_000);
}

#[test]
fn drag_factors() {
    let mut duck = Duck {
        velocity: Vec3::new(units(1), units(1), -units(1)),
        angular_velocity: units(2),
        above_sea_level: 0,
        ..still_duck()
    };
    duck.damp();
    assert_eq!(duck.velocity, Vec3::new(950_000, 800_000, -950_000));
    assert_eq!(duck.angular_velocity, 1_900_000);
    let mut airborne = Duck {
        velocity: Vec3::new(units(1), units(1), -units(1)),
        angular_velocity: -units(2),
        above_sea_level: 1,
        ..still_duck()
    };
    airborne.damp();
    assert_eq!(airborne.velocity, Vec3::new(units(1), units(1), -units(1)));
    assert_eq!(airborne.angular_velocity, -1_900_000);
    let mut slow = Duck { velocity: Vec3::new(1, -1, 19), angular_velocity: -19, ..still_duck() };
    slow.damp();
    assert_eq!(slow.velocity, Vec3::new(0, 0, 18));
    assert_eq!(slow.angular_velocity, -18);
}

#[test]
fn drag_alone_brings_a_duck_to_rest() {
    let mut duck = Duck {
        velocity: Vec3::new(LIMIT, -LIMIT, LIMIT),
        angular_velocity: -LIMIT,
        above_sea_level: -units(1),
        ..still_duck()
    };
    let mut ticks = 0;
    while duck.velocity != Vec3::zero() || duck.angular_velocity != 0 {
        let before = duck;
        duck.damp();
        assert!(duck.velocity.x.abs() < before.velocity.x.abs() || before.velocity.x == 0);
        assert!(duck.velocity.y.abs() < before.velocity.y.abs() || before.velocity.y == 0);
        assert!(duck.velocity.z.abs() < before.velocity.z.abs() || before.velocity.z == 0);
        assert!(
            duck.angular_velocity.abs() < before.angular_velocity.abs()
                || before.angular_velocity == 0
        );
        ticks += 1;
        assert!(ticks <= 560);
    }
    duck.damp();
    assert_eq!(duck.velocity, Vec3::zero());
    assert_eq!(duck.angular_velocity, 0);
}

#[test]
fn drag_alone_brings_the_fastest_duck_to_rest() {
    let slack = duck_lake::duck::SLACK;
    let mut duck = Duck {
        velocity: Vec3::new(-slack, slack, slack),
        angular_velocity: slack,
        above_sea_level: 0,
        ..still_duck()
    };
    for _ in 0..798 {
        let before = duck;
        duck.damp();
        assert!(duck.velocity.x.abs() <= before.velocity.x.abs());
        assert!(duck.velocity.y.abs() <= before.velocity.y.abs());
        assert!(duck.velocity.z.abs() <= before.velocity.z.abs());
        assert!(duck.angular_velocity.abs() <= before.angular_velocity.abs());
    }
    assert_eq!(duck.velocity, Vec3::zero());
    assert_eq!(duck.angular_velocity, 0);
    // Above the water only the yaw rate is damped.
    let mut airborne =
        Duck { velocity: Vec3::new(7, 7, 7), angular_velocity: -slack, above_sea_level: 1, ..still_duck() };
    for _ in 0..798 {
        airborne.damp();
    }
    assert_eq!(airborne.velocity, Vec3::new(7, 7, 7));
    assert_eq!(airborne.angular_velocity, 0);
}

#[test]
fn acceleration_follows_the_axes_of_the_pose() {
    let mut duck = Duck {
        is_kicking: true,
        above_sea_level: -units(1),
        angular_acceleration: units(7),
        ..still_duck()
    };
    duck.accelerate(facing_x(Vec3::new(0, -units(1), 0)), TICK);
    // Thrust 10 along +x, buoyancy 100 along +y, for a fiftieth of a second.
    assert_eq!(duck.velocity, Vec3::new(200_000, units(2), 0));
    assert_eq!(duck.angular_velocity, 140_000);
    duck.accelerate(Pose::upright(Vec3::new(0, -units(1), 0)), TICK);
    assert_eq!(duck.velocity, Vec3::new(200_000, units(4), 200_000));
    assert_eq!(duck.angular_velocity, 280_000);
}

#[test]
fn motion_advances_the_pose_and_reports_the_yaw() {
    let duck = Duck {
        velocity: Vec3::new(units(1), -units(2), 500_000),
        angular_velocity: -units(3),
        ..still_duck()
    };
    let mut tf = facing_x(Vec3::new(units(10), units(10), units(10)));
    let yaw = duck.propagate(&mut tf, TICK);
    assert_eq!(tf.translation, Vec3::new(10_020_000, 9_960_000, 10_010_000));
    assert_eq!(tf.forward, Vec3::new(SCALE, 0, 0));
    assert_eq!(yaw, -60_000);
}

#[test]
fn head_steps_toward_its_target() {
    let mut duck = Duck { target_head_angle: units(1), ..still_duck() };
    duck.turn_head(None);
    assert_eq!(duck.actual_head_angle, 60_000);
    duck.turn_head(Some(-units(2)));
    assert_eq!(duck.target_head_angle, -units(2));
    assert_eq!(duck.actual_head_angle, 0);
    duck.turn_head(Some(20_000));
    assert_eq!(duck.actual_head_angle, 20_000);
    duck.turn_head(None);
    assert_eq!(duck.actual_head_angle, 20_000);
}

#[test]
fn one_tick_of_a_floating_duck() {
    // A duck half a unit under water, at rest, paddling forward along +z.
    let start = agent(
        1,
        Pose::upright(Vec3::new(0, -500_000, 0)),
        Duck { is_kicking: true, angular_acceleration: units(1), ..still_duck() },
    );
    let (after, yaw) = integrate(start, TICK);
    // Sampled height.
    assert_eq!(after.duck.above_sea_level, -500_000);
    // Buoyancy 50 and thrust 10 for a fiftieth of a second, then drag.
    assert_eq!(after.duck.velocity, Vec3::new(0, 800_000, 190_000));
    assert_eq!(after.duck.angular_velocity, 19_000);
    assert_eq!(after.transform.translation, Vec3::new(0, -484_000, 3_800));
    assert_eq!(yaw, 380);
    assert_eq!(after.duck.is_kicking, true);
    assert_eq!(after.boid, start.boid);
}

#[test]
fn one_tick_of_a_falling_duck() {
    let start = agent(
        1,
        Pose::upright(Vec3::new(0, units(5), 0)),
        Duck { is_kicking: true, velocity: Vec3::new(units(1), 0, 0), ..still_duck() },
    );
    let (after, yaw) = integrate(start, TICK);
    assert_eq!(after.duck.above_sea_level, units(5));
    assert_eq!(after.duck.velocity, Vec3::new(units(1), -196_200, 0));
    assert_eq!(after.transform.translation, Vec3::new(20_000, 4_996_076, 0));
    assert_eq!(yaw, 0);
}

#[test]
fn physics_passes_agree_with_the_integrator() {
    let start = agent(
        1,
        facing_x(Vec3::new(units(3), -units(1), 0)),
        Duck {
            is_kicking: true,
            is_boosting: true,
            speed_mod: 1_100_000,
            velocity: Vec3::new(5, -700_000, 12_345),
            angular_acceleration: -units(2),
            angular_velocity: 33,
            ..still_duck()
        },
    );
    let (expected, expected_yaw) = integrate(start, TICK);
    let mut table = vec![start];
    update_ducks_above_sea_level(&mut table);
    apply_gravity_to_ducks(&mut table, TICK);
    accelerate_ducks(&mut table, TICK);
    damp_velocity(&mut table);
    let yaws = propagate_duck_physics(&mut table, TICK);
    assert_eq!(table, vec![expected]);
    assert_eq!(yaws, vec![expected_yaw]);
}

#[test]
fn heads_move_within_their_swing() {
    let mut table: Vec<Agent> =
        (0..50).map(|id| agent(id, Pose::upright(Vec3::zero()), still_duck())).collect();
    for _ in 0..400 {
        let before = table.clone();
        move_duck_heads(&mut table);
        for (b, a) in before.iter().zip(table.iter()) {
            assert!(a.duck.target_head_angle.abs() <= 2 * SCALE);
            let step = a.duck.actual_head_angle - b.duck.actual_head_angle;
            assert!(step.abs() <= 60_000);
            let expected = (a.duck.target_head_angle - b.duck.actual_head_angle).clamp(-60_000, 60_000);
            assert_eq!(step, expected);
            assert_eq!(a.duck.velocity, b.duck.velocity);
            assert_eq!(a.transform, b.transform);
        }
    }
    assert!(table.iter().any(|a| a.duck.target_head_angle != 0));
}

#[test]
fn jump_adds_an_upward_impulse() {
    let mut table = vec![
        agent(1, Pose::upright(Vec3::zero()), still_duck()),
        agent(2, Pose::upright(Vec3::zero()), still_duck()),
    ];
    assert!(jump_duck(&mut table, 2, units(5)));
    assert_eq!(table[0].duck.velocity, Vec3::zero());
    assert_eq!(table[1].duck.velocity, Vec3::new(0, units(5), 0));
    assert!(!jump_duck(&mut table, 3, units(5)));
    assert_eq!(table[1].duck.velocity, Vec3::new(0, units(5), 0));
}

#[test]
fn jump_messages_skip_a_missing_duck() {
    for _ in 0..50 {
        let mut table = vec![
            agent(1, Pose::upright(Vec3::zero()), still_duck()),
            agent(2, Pose::upright(Vec3::zero()), still_duck()),
            agent(3, Pose::upright(Vec3::zero()), still_duck()),
        ];
        let before = table.clone();
        let messages =
            vec![DuckJump { duck: 9 }, DuckJump { duck: 2 }, DuckJump { duck: 2 }, DuckJump { duck: 9 }, DuckJump { duck: 1 }];
        handle_duck_jump_messages(&mut table, &messages);
        let once = table[0].duck.velocity.y;
        assert!(units(4) <= once && once <= units(11));
        let twice = table[1].duck.velocity.y;
        assert!(units(8) <= twice && twice <= units(22));
        assert_eq!(table[2], before[2]);
        for (b, a) in before.iter().zip(table.iter()) {
            let mut expected = *b;
            expected.duck.velocity.y = a.duck.velocity.y;
            assert_eq!(*a, expected);
        }
    }
    let mut table = vec![agent(1, Pose::upright(Vec3::zero()), still_duck())];
    let before = table.clone();
    handle_duck_jump_messages(&mut table, &Vec::new());
    assert_eq!(table, before);
    handle_duck_jump_messages(&mut table, &vec![DuckJump { duck: 7 }, DuckJump { duck: 8 }]);
    assert_eq!(table, before);
}

#[test]
fn limits_are_checked() {
    let ok = agent(1, Pose::upright(Vec3::new(LIMIT, -LIMIT, 0)), still_duck());
    assert!(ok.is_within_limits());
    let far = agent(1, Pose::upright(Vec3::new(LIMIT + 1, 0, 0)), still_duck());
    assert!(!far.is_within_limits());
    let fast = agent(
        1,
        Pose::upright(Vec3::zero()),
        Duck { velocity: Vec3::new(0, 0, -LIMIT - 1), ..still_duck() },
    );
    assert!(!fast.is_within_limits());
    let skewed = Pose { forward: Vec3::new(0, 0, SCALE + 1), ..Pose::upright(Vec3::zero()) };
    assert!(!skewed.is_within_limits());
    let other = agent(2, Pose::upright(Vec3::zero()), still_duck());
    let far_other = agent(2, Pose::upright(Vec3::new(LIMIT + 1, 0, 0)), still_duck());
    assert!(duck_lake::agent::is_table_within_limits(&vec![ok, other]));
    assert!(!duck_lake::agent::is_table_within_limits(&vec![ok, far_other]));
    assert!(duck_lake::agent::is_table_within_limits(&Vec::new()));
}

#[test]
fn identities_must_be_distinct() {
    let a = agent(1, Pose::upright(Vec3::zero()), still_duck());
    let b = agent(2, Pose::upright(Vec3::new(5, 0, 0)), still_duck());
    let c = agent(3, Pose::upright(Vec3::new(0, 0, 5)), still_duck());
    let twin = agent(1, Pose::upright(Vec3::new(7, 0, 7)), still_duck());
    assert!(duck_lake::agent::has_distinct_ids(&vec![a, b, c]));
    assert!(duck_lake::agent::has_distinct_ids(&vec![a]));
    assert!(duck_lake::agent::has_distinct_ids(&Vec::new()));
    assert!(!duck_lake::agent::has_distinct_ids(&vec![a, b, twin]));
    assert!(!duck_lake::agent::has_distinct_ids(&vec![b, c, c]));
    assert!(!duck_lake::agent::has_distinct_ids(&vec![a, twin]));
    assert!(duck_lake::agent::is_table_within_limits(&vec![a, b, c]));
    assert!(!duck_lake::agent::is_table_within_limits(&vec![a, b, twin]));
    assert!(duck_lake::agent::is_table_within_slack(&vec![c, b, a]));
    assert!(!duck_lake::agent::is_table_within_slack(&vec![twin, b, a]));
}
