use planet_sim::fp::Scalar;
use planet_sim::physics::{Force, Planet, Position, SimError, Velocity};
use planet_sim::system::{simulate_configuration, System};

fn sc(x: f32) -> Scalar {
    Scalar(x.to_bits())
}

fn fl(s: Scalar) -> f32 {
    f32::from_bits(s.0)
}

fn body(id: &str, mass: f32, x: f32, y: f32) -> Planet {
    Planet::new(
        String::from(id),
        sc(mass),
        sc(1.0),
        Position::new(sc(x), sc(y)),
        Velocity(sc(0.0), sc(0.0)),
    )
    .unwrap()
}

#[test]
fn newton_third_law_on_force_table() {
    let a = body("a", 5.0e8, 1.0, 2.0);
    let b = body("b", 3.0e8, -4.0, 7.5);
    let system = System::new(vec![a, b]).unwrap();
    let table = system.build_force_dict();
    assert_eq!(table.len(), 2);
    let fa = table.get("a").unwrap();
    let fb = table.get("b").unwrap();
    assert!(fl(fa.0) != 0.0 && fl(fa.1) != 0.0);
    assert_eq!(fl(fb.0), -fl(fa.0));
    assert_eq!(fl(fb.1), -fl(fa.1));
    assert_eq!(fb.0 .0, fa.0 .0 ^ 0x8000_0000);
    assert_eq!(fb.1 .0, fa.1 .0 ^ 0x8000_0000);
}

#[test]
fn coincident_points_have_zero_distance_and_force() {
    let p = Position::new(sc(2.5), sc(-3.75));
    let q = Position::new(sc(2.5), sc(-3.75));
    assert_eq!(fl(p.distance_squared_from_point(&q)), 0.0);
    let a = body("a", 1.0e9, 2.5, -3.75);
    let b = body("b", 2.0e9, 2.5, -3.75);
    assert_eq!(fl(a.calculate_gravitational_force_abs(&b)), 0.0);
    let f = a.calculate_gravitational_force(&b);
    assert_eq!(fl(f.0), 0.0);
    assert_eq!(fl(f.1), 0.0);
}

#[test]
fn distance_squared_exact_value() {
    let p = Position::new(sc(0.0), sc(0.0));
    let q = Position::new(sc(3.0), sc(4.0));
    assert_eq!(fl(p.distance_squared_from_point(&q)), 25.0);
    assert_eq!(fl(q.distance_squared_from_point(&p)), 25.0);
}

#[test]
fn force_table_builder_is_idempotent() {
    let system = System::new(vec![
        body("planet_0", 6.0e5, 0.0, 0.0),
        body("planet_2", 7.0e5, -10.0, 3.0),
        body("planet_3", 8.0e5, 8.0, 4.0),
    ])
    .unwrap();
    let t1 = system.build_force_dict();
    let t2 = system.build_force_dict();
    assert_eq!(t1.len(), t2.len());
    for id in ["planet_0", "planet_2", "planet_3"] {
        let f1 = t1.get(id).unwrap();
        let f2 = t2.get(id).unwrap();
        assert_eq!(f1.0 .0, f2.0 .0);
        assert_eq!(f1.1 .0, f2.1 .0);
    }
}

#[test]
fn force_table_has_one_entry_per_body() {
    let system = System::new(vec![
        body("planet_0", 6.0e5, 0.0, 0.0),
        body("planet_2", 7.0e5, -10.0, 3.0),
        body("planet_3", 8.0e5, 8.0, 4.0),
    ])
    .unwrap();
    let table = system.build_force_dict();
    assert_eq!(table.len(), 3);
    assert!(table.get("planet_0").is_some());
    assert!(table.get("planet_2").is_some());
    assert!(table.get("planet_3").is_some());
    assert!(table.get("planet_9").is_none());
}

#[test]
fn simulation_snapshots_start_at_time_zero() {
    let mut system = System::new(vec![
        body("planet_0", 6.0e5, 0.0, 0.0),
        body("planet_2", 7.0e5, -10.0, 3.0),
        body("planet_3", 8.0e5, 8.0, 4.0),
    ])
    .unwrap();
    let snapshots = system.simulate_movement(sc(2.0), sc(1.0));
    // exact multiple: ceil(total / step) + 1 snapshots
    assert_eq!(snapshots.len(), 3);
    assert_eq!(fl(snapshots[0].time), 0.0);
    let first = &snapshots[0].positions;
    assert_eq!(first.len(), 3);
    let p0 = first.get("planet_0").unwrap();
    assert_eq!(fl(p0.x), 0.0);
    assert_eq!(fl(p0.y), 0.0);
    let p2 = first.get("planet_2").unwrap();
    assert_eq!(fl(p2.x), -10.0);
    assert_eq!(fl(p2.y), 3.0);
    let p3 = first.get("planet_3").unwrap();
    assert_eq!(fl(p3.x), 8.0);
    assert_eq!(fl(p3.y), 4.0);
    assert_eq!(fl(snapshots[1].time), 1.0);
    assert_eq!(fl(snapshots[2].time), 2.0);
}

#[test]
fn simulation_overshoots_inexact_multiple() {
    let mut system = System::new(vec![
        body("planet_0", 6.0e5, 0.0, 0.0),
        body("planet_2", 7.0e5, -10.0, 3.0),
    ])
    .unwrap();
    let snapshots = system.simulate_movement(sc(2.5), sc(1.0));
    // the loop runs while elapsed < total, so the last time may overshoot
    assert_eq!(snapshots.len(), 4);
    assert_eq!(fl(snapshots[3].time), 3.0);
}

#[test]
fn invalid_mass_is_rejected() {
    for mass in [0.0f32, -1.0, -0.0, f32::NAN, f32::INFINITY, f32::NEG_INFINITY] {
        let r = Planet::new(
            String::from("a"),
            sc(mass),
            sc(1.0),
            Position::new(sc(0.0), sc(0.0)),
            Velocity(sc(0.0), sc(0.0)),
        );
        assert_eq!(r.unwrap_err(), SimError::InvalidMass);
    }
}

#[test]
fn non_finite_values_are_rejected() {
    let r = Planet::new(
        String::from("a"),
        sc(1.0),
        sc(f32::INFINITY),
        Position::new(sc(0.0), sc(0.0)),
        Velocity(sc(0.0), sc(0.0)),
    );
    assert_eq!(r.unwrap_err(), SimError::NonFiniteValue);
    let r = Planet::new(
        String::from("a"),
        sc(1.0),
        sc(1.0),
        Position::new(sc(f32::NAN), sc(0.0)),
        Velocity(sc(0.0), sc(0.0)),
    );
    assert_eq!(r.unwrap_err(), SimError::NonFiniteValue);
    let r = Planet::new(
        String::from("a"),
        sc(1.0),
        sc(1.0),
        Position::new(sc(0.0), sc(0.0)),
        Velocity(sc(0.0), sc(f32::NEG_INFINITY)),
    );
    assert_eq!(r.unwrap_err(), SimError::NonFiniteValue);
}

#[test]
fn duplicate_identifiers_are_rejected() {
    let r = System::new(vec![
        body("twin", 1.0e5, 0.0, 0.0),
        body("other", 1.0e5, 1.0, 1.0),
        body("twin", 2.0e5, 2.0, 2.0),
    ]);
    assert!(matches!(r, Err(SimError::DuplicateId)));
}

#[test]
fn integration_moves_bodies() {
    // a body under a known force for one step: velocity u + a t, position
    // moved by u t + 0.5 a t^2
    let mut planet = Planet::new(
        String::from("b"),
        sc(4.0),
        sc(1.0),
        Position::new(sc(1.0), sc(2.0)),
        Velocity(sc(3.0), sc(-1.0)),
    )
    .unwrap();
    planet.apply_force(&Force(sc(8.0), sc(16.0)), sc(0.5));
    // a = (2.0, 4.0); s = (1.5 + 0.25, -0.5 + 0.5); v = (4.0, 1.0)
    assert_eq!(fl(planet.position.x), 2.75);
    assert_eq!(fl(planet.position.y), 2.0);
    assert_eq!(fl(planet.velocity.0), 4.0);
    assert_eq!(fl(planet.velocity.1), 1.0);
}

#[test]
fn configuration_entry_point_matches_engine() {
    let planets = vec![
        body("planet_0", 6.0e5, 0.0, 0.0),
        body("planet_2", 7.0e5, -10.0, 3.0),
        body("planet_3", 8.0e5, 8.0, 4.0),
    ];
    let snaps = simulate_configuration(planets, sc(2.0), sc(1.0)).unwrap();
    let mut system = System::new(vec![
        body("planet_0", 6.0e5, 0.0, 0.0),
        body("planet_2", 7.0e5, -10.0, 3.0),
        body("planet_3", 8.0e5, 8.0, 4.0),
    ])
    .unwrap();
    let reference = system.simulate_movement(sc(2.0), sc(1.0));
    assert_eq!(snaps.len(), reference.len());
    for (s, r) in snaps.iter().zip(reference.iter()) {
        assert_eq!(s.time, r.time);
        for id in ["planet_0", "planet_2", "planet_3"] {
            assert_eq!(s.positions.get(id), r.positions.get(id));
        }
    }
    let twins = vec![body("twin", 1.0e5, 0.0, 0.0), body("twin", 2.0e5, 1.0, 1.0)];
    assert!(simulate_configuration(twins, sc(1.0), sc(1.0)).is_err());
}

#[test]
fn single_body_drifts_at_constant_velocity() {
    // a lone body has a zero-force table entry and moves by u * t each step
    let mut system = System::new(vec![Planet::new(
        String::from("lonely"),
        sc(2.0),
        sc(1.0),
        Position::new(sc(1.0), sc(2.0)),
        Velocity(sc(3.0), sc(-4.0)),
    )
    .unwrap()])
    .unwrap();
    let table = system.build_force_dict();
    assert_eq!(table.len(), 1);
    let f = table.get("lonely").unwrap();
    assert_eq!(f.0 .0, 0u32);
    assert_eq!(f.1 .0, 0u32);
    let snapshots = system.simulate_movement(sc(2.0), sc(1.0));
    assert_eq!(snapshots.len(), 3);
    assert_eq!(fl(snapshots[0].time), 0.0);
    let expected = [(1.0f32, 2.0f32), (4.0, -2.0), (7.0, -6.0)];
    for (snap, (x, y)) in snapshots.iter().zip(expected.iter()) {
        assert_eq!(snap.positions.len(), 1);
        let p = snap.positions.get("lonely").unwrap();
        assert_eq!(fl(p.x), *x);
        assert_eq!(fl(p.y), *y);
    }
    let one = vec![Planet::new(
        String::from("lonely"),
        sc(2.0),
        sc(1.0),
        Position::new(sc(1.0), sc(2.0)),
        Velocity(sc(3.0), sc(-4.0)),
    )
    .unwrap()];
    let snaps = simulate_configuration(one, sc(2.0), sc(1.0)).unwrap();
    assert_eq!(snaps.len(), 3);
    assert_eq!(fl(snaps[2].positions.get("lonely").unwrap().x), 7.0);
}
