use billard_balls::arith::{div_toward_zero, isqrt};
use billard_balls::body::{clamp_to_coord, Body, Vec2, COORD_LIMIT};
use billard_balls::collide::{handle_billard_collisions, resolve_pair};
use billard_balls::integrate::{euler_step, symplectic_euler};
use billard_balls::sim::{BillardsPlugin, SimConfig};
use billard_balls::walls::{handle_wall_collisions, resolve_walls};

// Lengths in units of 1e-4 of a simulation unit, times in the matching unit.
const SCALE: i64 = 10_000;
const SIM_WIDTH: i64 = 35_556;
const SIM_HEIGHT: i64 = 2 * SCALE;

fn body(px: i64, py: i64, vx: i64, vy: i64, r: i64) -> Body {
    Body::new(Vec2::new(px, py), Vec2::new(vx, vy), r)
}

fn dist_sq(a: &Body, b: &Body) -> i64 {
    let dx = b.position.x - a.position.x;
    let dy = b.position.y - a.position.y;
    dx * dx + dy * dy
}

#[test]
fn head_on_equal_masses_separate_and_swap() {
    let mut a = body(15 * SCALE / 100, SCALE / 2, -SCALE, 0, SCALE / 10);
    let mut b = body(0, SCALE / 2, SCALE, 0, SCALE / 10);
    assert_eq!(a.mass, b.mass);
    resolve_pair(&mut a, &mut b, 100);
    assert_eq!(dist_sq(&a, &b), (2 * SCALE / 10) * (2 * SCALE / 10));
    assert_eq!(a.position, Vec2::new(1750, 5000));
    assert_eq!(b.position, Vec2::new(-250, 5000));
    assert_eq!(a.velocity, Vec2::new(SCALE, 0));
    assert_eq!(b.velocity, Vec2::new(-SCALE, 0));
}

#[test]
fn left_wall_bounce() {
    let mut b = body(SCALE / 20, SCALE, -2 * SCALE, 0, SCALE / 10);
    resolve_walls(&mut b, SIM_WIDTH, SIM_HEIGHT);
    assert_eq!(b.position, Vec2::new(SCALE / 10, SCALE));
    assert_eq!(b.velocity, Vec2::new(2 * SCALE, 0));
}

#[test]
fn right_top_corner_bounce() {
    let mut b = body(SIM_WIDTH - 10, SIM_HEIGHT + 50, 300, 400, 100);
    resolve_walls(&mut b, SIM_WIDTH, SIM_HEIGHT);
    assert_eq!(b.position, Vec2::new(SIM_WIDTH - 100, SIM_HEIGHT - 100));
    assert_eq!(b.velocity, Vec2::new(-300, -400));
}

#[test]
fn body_inside_walls_untouched() {
    let mut b = body(5000, 5000, 300, -400, 100);
    let before = b;
    resolve_walls(&mut b, SIM_WIDTH, SIM_HEIGHT);
    assert_eq!(b, before);
}

#[test]
fn wall_containment_for_many_bodies() {
    let mut bodies = vec![
        body(-5000, -5000, 1, 2, 700),
        body(SIM_WIDTH + 9000, 100, -3, 4, 1200),
        body(20, SIM_HEIGHT, 5, -6, 300),
        body(SIM_WIDTH / 2, SIM_HEIGHT / 2, 7, 8, 500),
    ];
    handle_wall_collisions(&mut bodies, SIM_WIDTH, SIM_HEIGHT);
    for b in &bodies {
        assert!(b.radius <= b.position.x && b.position.x <= SIM_WIDTH - b.radius);
        assert!(b.radius <= b.position.y && b.position.y <= SIM_HEIGHT - b.radius);
    }
    assert_eq!(bodies[0].velocity, Vec2::new(-1, -2));
    assert_eq!(bodies[3].velocity, Vec2::new(7, 8));
}

#[test]
fn reflection_keeps_speed() {
    let mut b = body(SIM_WIDTH - 1, 5000, 1234, 0, 100);
    resolve_walls(&mut b, SIM_WIDTH, SIM_HEIGHT);
    assert_eq!(b.velocity.x, -1234);
    assert_eq!(b.position.x, SIM_WIDTH - 100);
}

#[test]
fn vertical_overlap_separates_exactly() {
    let mut a = body(3000, 3000, 0, 0, 400);
    let mut b = body(3000, 3301, 0, 0, 250);
    resolve_pair(&mut a, &mut b, 100);
    assert_eq!(dist_sq(&a, &b), 650 * 650);
    assert_eq!(a.position.x, 3000);
    assert_eq!(b.position.x, 3000);
}

#[test]
fn diagonal_overlap_separates_approximately() {
    let mut a = body(3000, 3000, 0, 0, 400);
    let mut b = body(3300, 3400, 0, 0, 400);
    resolve_pair(&mut a, &mut b, 100);
    // 3-4-5 triangle: the separation is exact here.
    assert_eq!(dist_sq(&a, &b), 800 * 800);
}

#[test]
fn momentum_conserved_for_unequal_masses() {
    let mut a = body(1000, 1000, 500, 120, 300);
    let mut b = body(1400, 1300, -200, 40, 200);
    let (ma, mb) = (a.mass, b.mass);
    let before_x = ma * a.velocity.x + mb * b.velocity.x;
    let before_y = ma * a.velocity.y + mb * b.velocity.y;
    let e_before = ma * (a.velocity.x * a.velocity.x + a.velocity.y * a.velocity.y)
        + mb * (b.velocity.x * b.velocity.x + b.velocity.y * b.velocity.y);
    resolve_pair(&mut a, &mut b, 100);
    let after_x = ma * a.velocity.x + mb * b.velocity.x;
    let after_y = ma * a.velocity.y + mb * b.velocity.y;
    assert!((after_x - before_x).abs() < ma + mb);
    assert!((after_y - before_y).abs() < ma + mb);
    let e_after = ma * (a.velocity.x * a.velocity.x + a.velocity.y * a.velocity.y)
        + mb * (b.velocity.x * b.velocity.x + b.velocity.y * b.velocity.y);
    let rel = ((e_after - e_before) as f64 / e_before as f64).abs();
    assert!(rel < 0.01);
    assert_ne!(a.velocity, Vec2::new(500, 120));
}

#[test]
fn coincident_centres_left_alone() {
    let mut a = body(2000, 2000, 10, -20, 300);
    let mut b = body(2000, 2000, -30, 40, 200);
    let (a0, b0) = (a, b);
    resolve_pair(&mut a, &mut b, 100);
    assert_eq!(a, a0);
    assert_eq!(b, b0);
}

#[test]
fn distant_bodies_left_alone() {
    let mut a = body(2000, 2000, 10, -20, 300);
    let mut b = body(2501, 2000, -30, 40, 200);
    let (a0, b0) = (a, b);
    resolve_pair(&mut a, &mut b, 100);
    assert_eq!(a, a0);
    assert_eq!(b, b0);
}

#[test]
fn touching_bodies_exchange_velocity() {
    let mut a = body(2000, 2000, 100, 0, 250);
    let mut b = body(2500, 2000, 0, 0, 250);
    resolve_pair(&mut a, &mut b, 100);
    assert_eq!(a.position.x, 2000);
    assert_eq!(b.position.x, 2500);
    assert_eq!(a.velocity, Vec2::new(0, 0));
    assert_eq!(b.velocity, Vec2::new(100, 0));
}

#[test]
fn tangential_velocity_untouched() {
    let mut a = body(2000, 2000, 100, 77, 250);
    let mut b = body(2400, 2000, -100, -33, 250);
    resolve_pair(&mut a, &mut b, 100);
    assert_eq!(a.velocity, Vec2::new(-100, 77));
    assert_eq!(b.velocity, Vec2::new(100, -33));
}

#[test]
fn every_pair_is_visited() {
    let mut bodies = vec![
        body(1000, 1000, 0, 0, 100),
        body(1150, 1000, 0, 0, 100),
        body(5000, 5000, 0, 0, 100),
        body(5000, 5100, 0, 0, 100),
    ];
    handle_billard_collisions(&mut bodies, 100);
    assert_eq!(dist_sq(&bodies[0], &bodies[1]), 200 * 200);
    assert_eq!(dist_sq(&bodies[2], &bodies[3]), 200 * 200);
}

#[test]
fn integrator_updates_velocity_first() {
    let mut b = body(1000, 2000, 30, -40, 100);
    euler_step(&mut b, Vec2::new(0, -5), 10);
    assert_eq!(b.velocity, Vec2::new(30, -90));
    assert_eq!(b.position, Vec2::new(1300, 1100));
}

#[test]
fn integrator_without_gravity() {
    let mut bodies = vec![body(1000, 2000, 30, -40, 100), body(0, 0, 0, 0, 1)];
    symplectic_euler(&mut bodies, Vec2::new(0, 0), 7);
    assert_eq!(bodies[0].velocity, Vec2::new(30, -40));
    assert_eq!(bodies[0].position, Vec2::new(1210, 1720));
    assert_eq!(bodies[1].position, Vec2::new(0, 0));
}

#[test]
fn integrator_clamps_to_range() {
    let mut b = body(COORD_LIMIT - 5, 0, 10, 0, 100);
    euler_step(&mut b, Vec2::new(0, 0), 1);
    assert_eq!(b.position.x, COORD_LIMIT);
}

#[test]
fn free_body_tick_with_gravity() {
    let cfg = SimConfig { width: SIM_WIDTH, height: SIM_HEIGHT, gravity: Vec2::new(0, -10), restitution: 100 };
    let mut sim = BillardsPlugin::new(cfg, vec![body(10_000, 10_000, 100, 50, 500)]).unwrap();
    sim.tick(4);
    assert_eq!(sim.bodies[0].velocity, Vec2::new(100, 10));
    assert_eq!(sim.position(0), Vec2::new(10_400, 10_040));
}

#[test]
fn free_body_tick_without_gravity() {
    let cfg = SimConfig { width: SIM_WIDTH, height: SIM_HEIGHT, gravity: Vec2::new(0, 0), restitution: 100 };
    let mut sim = BillardsPlugin::new(cfg, vec![body(10_000, 10_000, 100, 50, 500)]).unwrap();
    sim.tick(4);
    assert_eq!(sim.bodies[0].velocity, Vec2::new(100, 50));
    assert_eq!(sim.position(0), Vec2::new(10_400, 10_200));
    assert_eq!(sim.len(), 1);
}

#[test]
fn tick_runs_collisions_then_walls_then_motion() {
    let cfg = SimConfig { width: SIM_WIDTH, height: SIM_HEIGHT, gravity: Vec2::new(0, 0), restitution: 100 };
    let bodies = vec![body(1500, 5000, -SCALE, 0, 1000), body(0, 5000, SCALE, 0, 1000)];
    let mut sim = BillardsPlugin::new(cfg, bodies).unwrap();
    sim.tick(1);
    // Separated to 1750 and -250, the second body is pushed back to x = 1000
    // by the wall with its velocity reversed again, then both move.
    assert_eq!(sim.bodies[0].velocity, Vec2::new(SCALE, 0));
    assert_eq!(sim.bodies[1].velocity, Vec2::new(SCALE, 0));
    assert_eq!(sim.position(0), Vec2::new(1750 + SCALE, 5000));
    assert_eq!(sim.position(1), Vec2::new(1000 + SCALE, 5000));
}

#[test]
fn constructor_rejects_out_of_range() {
    let good = SimConfig { width: SIM_WIDTH, height: SIM_HEIGHT, gravity: Vec2::new(0, -10), restitution: 100 };
    assert!(BillardsPlugin::new(good, vec![]).is_some());
    let wide = SimConfig { width: COORD_LIMIT + 1, height: SIM_HEIGHT, gravity: Vec2::new(0, 0), restitution: 100 };
    assert!(BillardsPlugin::new(wide, vec![]).is_none());
    let flat = SimConfig { width: SIM_WIDTH, height: 0, gravity: Vec2::new(0, 0), restitution: 100 };
    assert!(BillardsPlugin::new(flat, vec![]).is_none());
    let mut zero_mass = body(1, 1, 1, 1, 1);
    zero_mass.mass = 0;
    assert!(!zero_mass.in_range());
    assert!(body(1, 1, 1, 1, 1).in_range());
    assert!(BillardsPlugin::new(good, vec![body(1, 1, 1, 1, 1), zero_mass]).is_none());
    let springy = SimConfig { width: SIM_WIDTH, height: SIM_HEIGHT, gravity: Vec2::new(0, 0), restitution: 101 };
    assert!(BillardsPlugin::new(springy, vec![]).is_none());
    let far = body(COORD_LIMIT + 1, 0, 0, 0, 1);
    assert!(BillardsPlugin::new(good, vec![far]).is_none());
}

#[test]
fn arithmetic_helpers() {
    assert_eq!(isqrt(0), 0);
    assert_eq!(isqrt(24), 4);
    assert_eq!(isqrt(25), 5);
    assert_eq!(isqrt(1 << 50), 1 << 25);
    assert_eq!(div_toward_zero(-7, 2), -3);
    assert_eq!(div_toward_zero(7, 2), 3);
    assert_eq!(clamp_to_coord(i128::from(COORD_LIMIT) * 3), COORD_LIMIT);
    assert_eq!(clamp_to_coord(-i128::from(COORD_LIMIT) * 3), -COORD_LIMIT);
    assert_eq!(clamp_to_coord(-12), -12);
}

#[test]
fn inelastic_contact_shares_normal_velocity() {
    let mut a = body(2000, 2000, 100, 30, 250);
    let mut b = body(2500, 2000, 0, -20, 250);
    resolve_pair(&mut a, &mut b, 0);
    assert_eq!(a.velocity, Vec2::new(50, 30));
    assert_eq!(b.velocity, Vec2::new(50, -20));
}

#[test]
fn half_restitution_contact() {
    let mut a = body(2000, 2000, 100, 0, 250);
    let mut b = body(2500, 2000, 0, 0, 250);
    resolve_pair(&mut a, &mut b, 50);
    // Normal velocities (100, 0) become (25, 75).
    assert_eq!(a.velocity, Vec2::new(25, 0));
    assert_eq!(b.velocity, Vec2::new(75, 0));
}
