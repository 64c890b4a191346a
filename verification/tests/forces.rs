use duck_lake::agent::Agent;
use duck_lake::boid::{repulsion, seek_force, separation_weight, Boid, SEEK_CAP};
use duck_lake::duck::{Duck, Pose};
use duck_lake::fixed::{isqrt, mul_fixed, SCALE};
use duck_lake::steering::{
    separation_force, update_separation_force, update_tracking_force_for_target_seekers,
};
use duck_lake::target::TargetPosition;
use duck_lake::vec3::Vec3;

fn units(x: i64) -> i64 {
    x * SCALE
}

fn still_duck() -> Duck {
    Duck {
        is_kicking: false,
        is_boosting: false,
        speed_mod: SCALE,
        velocity: Vec3::zero(),
        angular_acceleration: 0,
        angular_velocity: 0,
        target_head_angle: 0,
        actual_head_angle: 0,
        above_sea_level: 0,
    }
}

fn agent_at(id: u64, is_duckling: bool, x: i64, z: i64) -> Agent {
    Agent {
        id,
        is_player: false,
        is_duckling,
        transform: Pose::upright(Vec3::new(x, 0, z)),
        duck: still_duck(),
        target: Some(TargetPosition { pos: Vec3::new(x, 0, z) }),
        boid: Some(Boid::new()),
        true_parent: None,
        following: None,
        done: false,
    }
}

fn norm_sq(v: Vec3) -> i128 {
    (v.x as i128) * (v.x as i128) + (v.y as i128) * (v.y as i128) + (v.z as i128) * (v.z as i128)
}

#[test]
fn integer_square_root_rounds_down() {
    assert_eq!(isqrt(0), 0);
    assert_eq!(isqrt(1), 1);
    assert_eq!(isqrt(3), 1);
    assert_eq!(isqrt(4), 2);
    assert_eq!(isqrt(24), 4);
    assert_eq!(isqrt(25), 5);
    assert_eq!(isqrt(1_000_000_000_000), 1_000_000);
    assert_eq!(isqrt(999_999_999_999), 999_999);
    assert_eq!(isqrt(u128::MAX), 18_446_744_073_709_551_615);
}

#[test]
fn fixed_point_product_rounds_toward_zero() {
    assert_eq!(mul_fixed(units(3), units(2)), units(6));
    assert_eq!(mul_fixed(1_500_000, 1_500_000), 2_250_000);
    assert_eq!(mul_fixed(1, 999_999), 0);
    assert_eq!(mul_fixed(-1, 999_999), 0);
    assert_eq!(mul_fixed(-3, 500_000), -1);
    assert_eq!(mul_fixed(3, 500_000), 1);
    assert_eq!(mul_fixed(-9_810_000, 20_000), -196_200);
}

#[test]
fn vector_arithmetic() {
    let a = Vec3::new(1, 2, 3);
    let b = Vec3::new(10, 20, 30);
    assert_eq!(a.plus(b), Vec3::new(11, 22, 33));
    assert_eq!(b.minus(a), Vec3::new(9, 18, 27));
    assert_eq!(a.dot(b), 140);
    assert_eq!(a.length_squared(), 14);
    assert_eq!(Vec3::new(3, 4, 12).length(), 13);
    assert_eq!(Vec3::new(1, 1, 1).length(), 1);
    assert_eq!(a.with_y(0), Vec3::new(1, 0, 3));
}

#[test]
fn seek_equals_offset_within_the_cap() {
    let near = Vec3::new(units(3), 0, units(4));
    assert_eq!(seek_force(near), near);
    let edge = Vec3::new(units(6), 0, units(8));
    assert_eq!(seek_force(edge), edge);
    assert_eq!(seek_force(Vec3::zero()), Vec3::zero());
    let tiny = Vec3::new(-1, 0, 0);
    assert_eq!(seek_force(tiny), tiny);
}

#[test]
fn seek_is_capped_beyond_the_cap() {
    assert_eq!(seek_force(Vec3::new(units(20), 0, 0)), Vec3::new(units(10), 0, 0));
    assert_eq!(seek_force(Vec3::new(0, 0, -units(1000))), Vec3::new(0, 0, -units(10)));
    assert_eq!(
        seek_force(Vec3::new(units(30), 0, units(40))),
        Vec3::new(units(6), 0, units(8))
    );
    assert_eq!(seek_force(Vec3::new(SEEK_CAP + 1, 0, 0)), Vec3::new(SEEK_CAP, 0, 0));
}

#[test]
fn seek_length_stays_just_under_the_cap() {
    let cap = SEEK_CAP as i128;
    let far = [
        Vec3::new(units(123), units(7), -units(456)),
        Vec3::new(10_000_001, 1, 1),
        Vec3::new(-units(999_999), units(999_999), units(999_999)),
        Vec3::new(7_071_068, 0, 7_071_068),
        Vec3::new(2_000_000_000_000, -2_000_000_000_000, 2_000_000_000_000),
    ];
    for delta in far {
        let f = seek_force(delta);
        let n = norm_sq(f);
        assert!(n <= cap * cap, "{:?} gives {:?}", delta, f);
        assert!(n >= (cap - 4) * (cap - 4), "{:?} gives {:?}", delta, f);
        assert_eq!(f.x.signum() * delta.x.signum() >= 0, true);
        assert_eq!(f.y.signum() * delta.y.signum() >= 0, true);
        assert_eq!(f.z.signum() * delta.z.signum() >= 0, true);
    }
}

#[test]
fn class_weights() {
    assert_eq!(separation_weight(true, true), 200);
    assert_eq!(separation_weight(true, false), 0);
    assert_eq!(separation_weight(false, true), 10);
    assert_eq!(separation_weight(false, false), 1);
}

#[test]
fn repulsion_between_two_adults_one_unit_apart() {
    let a = agent_at(1, false, 0, 0);
    let b = agent_at(2, false, units(1), 0);
    let delta = a.transform.translation.minus(b.transform.translation);
    assert_eq!(repulsion(delta), Vec3::new(-500_000, 0, 0));
    let table = vec![a, b];
    assert_eq!(separation_force(&a, &table), Vec3::new(-units(100), 0, 0));
    assert_eq!(separation_force(&b, &table), Vec3::new(units(100), 0, 0));
}

#[test]
fn repulsion_values() {
    assert_eq!(repulsion(Vec3::zero()), Vec3::zero());
    // At distance 2 the strength is 1 / (1 + 4).
    assert_eq!(repulsion(Vec3::new(0, 0, units(2))), Vec3::new(0, 0, 200_000));
    // At distance 5 along (3, 4) it is 1 / 26, split 3 : 4.
    assert_eq!(
        repulsion(Vec3::new(units(3), 0, units(4))),
        Vec3::new(23_076, 0, 30_769)
    );
    // One raw unit apart: all but full strength.
    assert_eq!(repulsion(Vec3::new(1, 0, 0)), Vec3::new(999_999, 0, 0));
}

#[test]
fn repulsion_is_antisymmetric() {
    let offsets = [
        Vec3::new(units(1), 0, 0),
        Vec3::new(units(3), units(1), -units(4)),
        Vec3::new(17, -23, 900_001),
        Vec3::new(-2_000_000_000_000, 1, 2_000_000_000_000),
    ];
    for d in offsets {
        let e = Vec3::new(-d.x, -d.y, -d.z);
        let f = repulsion(d);
        let g = repulsion(e);
        assert_eq!((g.x, g.y, g.z), (-f.x, -f.y, -f.z));
    }
}

#[test]
fn adults_ignore_ducklings_and_ducklings_avoid_adults() {
    let adult = agent_at(1, false, 0, 0);
    let child = agent_at(2, true, units(1), 0);
    let sibling = agent_at(3, true, units(2), 0);
    let table = vec![adult, child, sibling];
    assert_eq!(separation_force(&adult, &table), Vec3::zero());
    // From the adult: 10 * 0.5 along +x; from the sibling: 1 * 0.5 along -x.
    assert_eq!(separation_force(&child, &table), Vec3::new(4_500_000, 0, 0));
    // From the adult at distance 2: 10 * 0.2; from the child: 1 * 0.5.
    assert_eq!(separation_force(&sibling, &table), Vec3::new(2_500_000, 0, 0));
}

#[test]
fn an_agent_is_pushed_by_every_agent_but_itself() {
    let a = agent_at(1, false, units(3), units(3));
    let close = agent_at(2, false, units(3), units(3));
    let near = agent_at(3, false, units(4), units(3));
    assert_eq!(separation_force(&a, &vec![a]), Vec3::zero());
    assert_eq!(separation_force(&a, &Vec::new()), Vec3::zero());
    // An agent at the very same place pushes in no direction.
    assert_eq!(separation_force(&a, &vec![a, close]), Vec3::zero());
    assert_eq!(separation_force(&a, &vec![near, a, close]), Vec3::new(-units(100), 0, 0));
    assert_eq!(separation_force(&near, &vec![near, a, close]), Vec3::new(units(200), 0, 0));
}

#[test]
fn separation_pass_overwrites_the_old_force() {
    let mut a = agent_at(1, false, 0, 0);
    a.boid = Some(Boid { separation: Vec3::new(5, 5, 5), seek_target: Vec3::new(7, 0, 0) });
    let mut player = agent_at(2, false, 0, units(1));
    player.is_player = true;
    player.boid = None;
    let mut table = vec![a, player];
    update_separation_force(&mut table);
    assert_eq!(
        table[0].boid,
        Some(Boid { separation: Vec3::new(0, 0, -units(100)), seek_target: Vec3::new(7, 0, 0) })
    );
    assert_eq!(table[1], player);
}

#[test]
fn seek_pass_points_at_the_target() {
    let mut a = agent_at(1, false, units(1), 0);
    a.target = Some(TargetPosition { pos: Vec3::new(units(4), 0, units(4)) });
    a.boid = Some(Boid { separation: Vec3::new(1, 2, 3), seek_target: Vec3::zero() });
    let mut far = agent_at(2, true, 0, 0);
    far.target = Some(TargetPosition { pos: Vec3::new(0, 0, -units(50)) });
    let mut no_target = agent_at(3, false, 0, 0);
    no_target.target = None;
    let mut table = vec![a, far, no_target];
    update_tracking_force_for_target_seekers(&mut table);
    assert_eq!(
        table[0].boid,
        Some(Boid { separation: Vec3::new(1, 2, 3), seek_target: Vec3::new(units(3), 0, units(4)) })
    );
    assert_eq!(table[1].boid.unwrap().seek_target, Vec3::new(0, 0, -units(10)));
    assert_eq!(table[2], no_target);
}

#[test]
fn total_force_is_the_sum() {
    let b = Boid { separation: Vec3::new(1, 2, 3), seek_target: Vec3::new(10, 20, 30) };
    assert_eq!(b.total_force(), Vec3::new(11, 22, 33));
    assert_eq!(Boid::new().total_force(), Vec3::zero());
}
