use nbody::simulation::{accumulate, advance};
use nbody::{ConfigError, Simulation};
use rand::rngs::StdRng;
use rand::{Rng, SeedableRng};

const G: f64 = 6.674e-11;
const SOFTENING: f64 = 1e-4;

#[derive(Clone, Copy, Debug, PartialEq)]
struct Body {
    x: f64,
    y: f64,
    vx: f64,
    vy: f64,
    m: f64,
}

fn body(x: f64, y: f64, vx: f64, vy: f64, m: f64) -> Body {
    Body { x, y, vx, vy, m }
}

fn pull_with(k: f64) -> impl Fn(Body, Body) -> (f64, f64) {
    move |a: Body, b: Body| {
        let cx = b.x - a.x;
        let cy = b.y - a.y;
        let inv = 1.0 / (cx * cx + cy * cy + SOFTENING).sqrt();
        let f = G * a.m * b.m * inv * inv;
        (cx * f * k, cy * f * k)
    }
}

fn apply(a: Body, d: (f64, f64)) -> Body {
    Body { vx: a.vx + d.0, vy: a.vy + d.1, ..a }
}

fn step(a: Body) -> Body {
    Body { x: a.x + a.vx * 1.0, y: a.y + a.vy * 1.0, ..a }
}

fn run(sim: &mut Simulation<Body>, ticks: usize, k: f64) {
    let pull = pull_with(k);
    for _ in 0..ticks {
        sim.tick(&pull, &apply, &step);
    }
}

fn pair() -> Vec<Body> {
    vec![body(-100.0, 0.0, 0.0, 0.0, 5.0e10), body(100.0, 0.0, 0.0, 0.0, 5.0e10)]
}

fn momentum(bodies: &[Body]) -> (f64, f64) {
    bodies.iter().fold((0.0, 0.0), |acc, b| (acc.0 + b.m * b.vx, acc.1 + b.m * b.vy))
}

#[test]
fn empty_simulation_is_refused() {
    let r = Simulation::<Body>::new(Vec::new());
    assert!(matches!(r, Err(ConfigError::NoBodies)));
}

#[test]
fn two_bodies_one_tick() {
    let mut sim = Simulation::new(pair()).unwrap();
    run(&mut sim, 1, 1.0);
    let a = sim.body(0);
    let b = sim.body(1);
    let m = 5.0e10;
    let expected = 200.0 * G * m * m / (40000.0 + SOFTENING);
    assert!(a.vx > 0.0 && b.vx < 0.0);
    assert_eq!(a.vy, 0.0);
    assert_eq!(b.vy, 0.0);
    assert!((a.vx - expected).abs() <= expected * 1e-12);
    assert!((a.vx + b.vx).abs() <= expected * 1e-12);
    // positions advance by this tick's velocity once all pulls are in
    assert_eq!(a.x, -100.0 + a.vx);
    assert_eq!(b.x, 100.0 + b.vx);
}

#[test]
fn pulls_are_symmetric() {
    let bodies = vec![body(-3.0, 7.0, 0.5, 0.0, 2.0e9), body(11.0, -4.0, 0.0, -1.0, 2.0e9)];
    let pulled = accumulate(&bodies, &pull_with(1.0), &apply);
    let da = (pulled[0].vx - bodies[0].vx, pulled[0].vy - bodies[0].vy);
    let db = (pulled[1].vx - bodies[1].vx, pulled[1].vy - bodies[1].vy);
    let tol = 1e-9 * (da.0.abs() + da.1.abs());
    assert!((da.0 + db.0).abs() <= tol);
    assert!((da.1 + db.1).abs() <= tol);
    assert!(da.0 > 0.0 && da.1 < 0.0);
}

#[test]
fn momentum_is_kept() {
    let bodies = vec![
        body(0.0, 0.0, 0.0, 0.0, 5.0e10),
        body(300.0, 40.0, 0.0, 0.1, 5.0e10),
        body(-120.0, 250.0, 0.2, 0.0, 5.0e10),
    ];
    let mut sim = Simulation::new(bodies).unwrap();
    let before = momentum(sim.bodies());
    run(&mut sim, 200, 1e-10);
    let after = momentum(sim.bodies());
    let scale = sim.bodies().iter().map(|b| b.m * (b.vx.abs() + b.vy.abs())).sum::<f64>();
    assert!((after.0 - before.0).abs() <= 1e-9 * scale);
    assert!((after.1 - before.1).abs() <= 1e-9 * scale);
}

#[test]
fn lone_body_keeps_velocity() {
    let mut sim = Simulation::new(vec![body(5.0, -2.0, 1.5, -0.5, 5.0e15)]).unwrap();
    run(&mut sim, 50, 5.0);
    let b = sim.body(0);
    assert_eq!((b.vx, b.vy), (1.5, -0.5));
    assert_eq!((b.x, b.y), (5.0 + 50.0 * 1.5, -2.0 - 50.0 * 0.5));
}

fn cloud(seed: u64, n: usize) -> Vec<Body> {
    let mut rng = StdRng::seed_from_u64(seed);
    (0..n)
        .map(|_| {
            let x = rng.gen_range(-1.0, 1.0) * 1.0e4;
            let y = rng.gen_range(-1.0, 1.0) * 1.0e4;
            let vx = rng.gen_range(-1.0, 1.0);
            let vy = rng.gen_range(-1.0, 1.0);
            body(x, y, vx, vy, 5.0e10)
        })
        .collect()
}

#[test]
fn seeded_runs_agree() {
    let mut first = Simulation::new(cloud(42, 30)).unwrap();
    let mut second = Simulation::new(cloud(42, 30)).unwrap();
    run(&mut first, 20, 1e-3);
    run(&mut second, 20, 1e-3);
    assert_eq!(first.bodies(), second.bodies());
}

#[test]
fn paused_tick_changes_nothing() {
    let mut sim = Simulation::new(pair()).unwrap();
    sim.toggle_pause();
    assert!(sim.is_paused());
    run(&mut sim, 10, 1.0);
    assert_eq!(sim.bodies(), &pair());
    sim.toggle_pause();
    assert!(!sim.is_paused());
    run(&mut sim, 1, 1.0);
    assert_ne!(sim.bodies(), &pair());
}

#[test]
fn body_count_is_fixed() {
    let mut sim = Simulation::new(cloud(7, 12)).unwrap();
    run(&mut sim, 3, 1.0);
    assert_eq!(sim.len(), 12);
    assert_eq!(sim.bodies().len(), 12);
}

#[test]
fn coincident_bodies_stay_finite() {
    let mut sim =
        Simulation::new(vec![body(1.0, 1.0, 0.0, 0.0, 1.0), body(1.0, 1.0, 0.0, 0.0, 1.0)]).unwrap();
    run(&mut sim, 1, 1.0);
    assert_eq!(sim.first_invalid(&|b: Body| b.x.is_finite() && b.vx.is_finite()), None);
    assert_eq!(sim.body(0).vx, 0.0);
}

#[test]
fn first_invalid_finds_earliest() {
    let bodies = vec![
        body(0.0, 0.0, 0.0, 0.0, 1.0),
        body(f64::NAN, 0.0, 0.0, 0.0, 1.0),
        body(0.0, f64::INFINITY, 0.0, 0.0, 1.0),
    ];
    let sim = Simulation::new(bodies).unwrap();
    assert_eq!(sim.first_invalid(&|b: Body| b.x.is_finite() && b.y.is_finite()), Some(1));
}

#[test]
fn accumulate_skips_self_and_keeps_order() {
    // integer stand-in: a pull records the other body, applying adds it
    let bodies: Vec<u64> = vec![1, 10, 100];
    let r = accumulate(&bodies, &|_a: u64, b: u64| b, &|a: u64, t: u64| a * 1000 + t);
    assert_eq!(r, vec![(1 * 1000 + 10) * 1000 + 100, (10 * 1000 + 1) * 1000 + 100, (100 * 1000 + 1) * 1000 + 10]);
}

#[test]
fn advance_moves_each_body() {
    let r = advance(&vec![body(1.0, 2.0, 3.0, 4.0, 1.0)], &step);
    assert_eq!((r[0].x, r[0].y), (4.0, 6.0));
}
