use planet_sim::fp::Scalar;
use planet_sim::physics::{Acceleration, Force, Planet, Position, Velocity};
use planet_sim::system::System;

fn sc(x: f32) -> Scalar {
    Scalar(x.to_bits())
}

fn fl(s: Scalar) -> f32 {
    f32::from_bits(s.0)
}

fn point_factory(i: i32) -> Position {
    match i {
        0 => Position::new(sc(0.0), sc(0.0)),
        1 => Position::new(sc(3.0), sc(4.0)),
        2 => Position::new(sc(-3.0), sc(4.0)),
        3 => Position::new(sc(3.0), sc(-4.0)),
        4 => Position::new(sc(-3.0), sc(-4.0)),
        5 => Position::new(sc(0.0), sc(6.0)),
        6 => Position::new(sc(0.0), sc(-7.0)),
        7 => Position::new(sc(3.0), sc(0.0)),
        8 => Position::new(sc(-4.0), sc(0.0)),
        9 => Position::new(sc(-2.0), sc(8.0)),
        10 => Position::new(sc(4.0), sc(5.0)),
        _ => panic!("Unknown point id"),
    }
}

#[test]
fn test_angle_to_point() {
    let config = [
        (0, 0, 0.0),
        (0, 1, 0.9272952),
        (0, 5, std::f32::consts::PI / 2.0),
        (0, 6, -1.0 * std::f32::consts::PI / 2.0),
        (0, 7, 0.0),
        (0, 8, -1.0 * std::f32::consts::PI),
        (0, 2, 2.2142975),
        (0, 3, -0.9272952),
        (0, 4, -2.2142975),
        (9, 10, -0.4636476),
        (10, 9, 2.6779451),
    ];
    for tup in config.iter() {
        let point_1 = point_factory(tup.0);
        let point_2 = point_factory(tup.1);
        let expected_angle = tup.2;
        assert_eq!(fl(point_1.angle_to_point(&point_2)), expected_angle);
    }
}

#[test]
fn test_to_acceleration() {
    let f = Force(sc(4.0), sc(6.2));
    let a = f.to_acceleration(sc(2.0));
    assert_eq!(a, Acceleration(sc(2.0), sc(3.1)));
}

#[test]
fn test_add() {
    let force_1 = Force(sc(1.0), sc(4.2));
    let force_2 = Force(sc(-5.2), sc(7.4));
    assert_eq!(force_1.add(&force_2), Force(sc(-4.2), sc(11.6)))
}

#[test]
fn test_mul() {
    let force_1 = Force(sc(1.0), sc(4.2)).mul(sc(-2.0));
    assert_eq!(force_1, Force(sc(-2.0), sc(-8.4)));
}

#[test]
fn test_append_force() {
    let mut force_1 = Force(sc(1.0), sc(4.2));
    let force_2 = Force(sc(-2.0), sc(2.0));
    force_1.append_force(&force_2);
    assert_eq!(force_1, Force(sc(-1.0), sc(6.2)));
}

fn planet_factory(i: i32) -> Planet {
    match i {
        0 => Planet::new(
            String::from("planet_0"),
            sc(6.0),
            sc(5.0),
            Position::new(sc(0.0), sc(0.0)),
            Velocity(sc(23.0), sc(43.0)),
        )
        .unwrap(),
        1 => Planet::new(
            String::from("planet_1"),
            sc(8.0e10),
            sc(10.0),
            Position::new(sc(3.0), sc(-4.0)),
            Velocity(sc(-3.0), sc(8.0)),
        )
        .unwrap(),
        2 => Planet::new(
            String::from("planet_2"),
            sc(7.0e2),
            sc(5.0),
            Position::new(sc(-2.0), sc(3.0)),
            Velocity(sc(-3.0), sc(8.0)),
        )
        .unwrap(),
        3 => Planet::new(
            String::from("planet_3"),
            sc(6.0e2),
            sc(5.0),
            Position::new(sc(8.0), sc(4.0)),
            Velocity(sc(-3.0), sc(8.0)),
        )
        .unwrap(),
        4 => Planet::new(
            String::from("planet_1"),
            sc(8.0),
            sc(10.0),
            Position::new(sc(6.5), sc(-4.0)),
            Velocity(sc(-3.0), sc(8.0)),
        )
        .unwrap(),
        _ => panic!("Unknown point id"),
    }
}

#[test]
fn test_new() {
    let planet = planet_factory(0);
    assert_eq!(planet.id, "planet_0");
    assert_eq!(fl(planet.mass), 6.0);
    assert_eq!(fl(planet.radius), 5.0);
    assert_eq!(planet.position, Position::new(sc(0.0), sc(0.0)));
    assert_eq!(planet.velocity, Velocity(sc(23.0), sc(43.0)));
}

#[test]
fn test_calculate_gravitational_force_abs() {
    let parameters = [
        (1, 2, 50.475674),
        (2, 1, 50.475674),
        (1, 3, 35.973034),
        (3, 1, 35.973034),
    ];
    for param in parameters.iter() {
        let planet_a = planet_factory(param.0);
        let planet_b: Planet = planet_factory(param.1);
        assert_eq!(fl(planet_a.calculate_gravitational_force_abs(&planet_b)), param.2);
    }
}

#[test]
fn test_calculate_gravitational_force() {
    let parameters = [
        (1, 2, (-29.338387, 41.073746)),
        (2, 1, (29.338387, -41.073746)),
        (2, 2, (0.0, 0.0)),
        (1, 3, (19.06567, 30.505072)),
    ];
    for param in parameters.iter() {
        let planet_a = planet_factory(param.0);
        let planet_b: Planet = planet_factory(param.1);
        let force = planet_a.calculate_gravitational_force(&planet_b);
        assert_eq!(fl(force.0), param.2.0);
        assert_eq!(fl(force.1), param.2.1);
    }
}

#[test]
fn test_apply_force() {
    let mut planet_1 = planet_factory(4);
    planet_1.apply_force(&Force(sc(10.0), sc(-50.0)), sc(2.0));
    assert_eq!(planet_1.velocity, Velocity(sc(-0.5), sc(-4.5)));
    assert_eq!(planet_1.position, Position::new(sc(3.0), sc(-0.5)));
}

fn system_planet_factory(i: i32) -> Planet {
    match i {
        0 => Planet::new(
            String::from("planet_0"),
            sc(6.0e5),
            sc(5.0),
            Position::new(sc(0.0), sc(0.0)),
            Velocity(sc(23.0), sc(43.0)),
        )
        .unwrap(),
        1 => Planet::new(
            String::from("planet_2"),
            sc(7.0e5),
            sc(5.0),
            Position::new(sc(-10.0), sc(3.0)),
            Velocity(sc(-3.0), sc(8.0)),
        )
        .unwrap(),
        2 => Planet::new(
            String::from("planet_3"),
            sc(8.0e5),
            sc(5.0),
            Position::new(sc(8.0), sc(4.0)),
            Velocity(sc(-3.0), sc(8.0)),
        )
        .unwrap(),
        _ => panic!("Unknown point id"),
    }
}

fn get_test_system() -> System {
    let planets: Vec<Planet> = vec![0, 1, 2].into_iter().map(|x| system_planet_factory(x)).collect();
    System::new(planets).unwrap()
}

#[test]
fn test_build_force_dict() {
    let system = get_test_system();
    let force_dict = system.build_force_dict();
    assert_eq!(force_dict.len(), 3);
    let f = force_dict.get("planet_0").unwrap();
    assert_eq!(fl(f.0), 0.11177966);
    assert_eq!(fl(f.1), 0.25282595);
}

#[test]
fn test_mocking() {}
