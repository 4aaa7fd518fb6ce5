use braitenberg::fixed::MICRO;
use braitenberg::geom::Point;
use braitenberg::light::Light;
use braitenberg::replenish::{replace_lights_on_collision, RELOCATE_RANGE};
use braitenberg::scene::{Scene, Scenes};
use braitenberg::sensor::field_activation;
use braitenberg::trig::{cos_fx, sin_fx, wrap_angle_fx, HALF_PI_MICRO, PI_MICRO, TWO_PI_MICRO};
use braitenberg::vehicle::{Vehicle, VehicleType, SPEED_CAP};

const DT: i64 = 16_000;

fn light_at(x: i64, y: i64, intensity: i64) -> Light {
    Light::new(Point { x, y }, 0xffffff, intensity)
}

#[test]
fn scene_names() {
    assert_eq!(Scenes::Scene1.to_str(), "Scene 1");
    assert_eq!(Scenes::Scene2.to_str(), "Scene 2");
    assert_eq!(Scenes::Scene3.to_str(), "Scene 3");
    assert_eq!(Scenes::Scene4.to_str(), "Scene 4");
    assert_eq!(Scenes::Scene5.to_str(), "Scene 5");
    assert_eq!(Scenes::Scene6.to_str(), "Scene 6");
}

#[test]
fn wiring_direct_excitatory_passes_through() {
    let (l, r) = VehicleType::TwoA.effective_pair(300_000, 700_000);
    assert_eq!((l, r), (300_000, 700_000));
}

#[test]
fn wiring_crossed_excitatory_mirrors() {
    let (l, r) = VehicleType::TwoB.effective_pair(300_000, 700_000);
    assert_eq!((l, r), (700_000, 300_000));
}

#[test]
fn wiring_direct_inhibitory_complements() {
    let (l, r) = VehicleType::ThreeA.effective_pair(300_000, 700_000);
    assert_eq!((l, r), (700_000, 300_000));
}

#[test]
fn wiring_crossed_inhibitory_complements_mirrored() {
    let (l, r) = VehicleType::ThreeB.effective_pair(300_000, 700_000);
    assert_eq!((l, r), (300_000, 700_000));
}

#[test]
fn wiring_inhibitory_clamps_at_zero() {
    let (l, r) = VehicleType::ThreeA.effective_pair(MICRO, 0);
    assert_eq!((l, r), (0, MICRO));
}

#[test]
fn speed_below_cap_is_exact_gained_sum() {
    let mut v = Vehicle::new(VehicleType::TwoA, Point { x: 0, y: 0 });
    v.two_sensor_vehicle(DT, 100_000, 100_000);
    assert_eq!(v.velocity, 200_000 * 1_600);
}

#[test]
fn speed_large_sum_is_exactly_cap() {
    let mut v = Vehicle::new(VehicleType::TwoA, Point { x: 0, y: 0 });
    v.two_sensor_vehicle(DT, 200_000, 200_000);
    assert_eq!(400_000i64 * 1_600, 640_000_000);
    assert_eq!(v.velocity, SPEED_CAP);
}

#[test]
fn rotation_antisymmetric() {
    let v = Vehicle::new(VehicleType::TwoA, Point { x: 0, y: 0 });
    let a = v.calc_rotation(800_000, 200_000, MICRO);
    let b = v.calc_rotation(200_000, 800_000, MICRO);
    assert!(a < 0);
    assert_eq!(a, -b);
}

#[test]
fn rotation_zero_on_zero_right() {
    let v = Vehicle::new(VehicleType::TwoA, Point { x: 0, y: 0 });
    assert_eq!(v.calc_rotation(900_000, 0, MICRO), 0);
    assert_eq!(v.calc_rotation(0, 0, 0), 0);
}

#[test]
fn rotation_zero_on_equal_pair() {
    let v = Vehicle::new(VehicleType::TwoA, Point { x: 0, y: 0 });
    assert_eq!(v.calc_rotation(400_000, 400_000, MICRO), 0);
    assert_eq!(v.calc_rotation(MICRO, MICRO, MICRO), 0);
}

#[test]
fn sensor_empty_field_reads_zero() {
    let lights: Vec<Light> = Vec::new();
    assert_eq!(field_activation(&lights, 123, -456), 0);
}

#[test]
fn sensor_bounded_by_one_unit() {
    let lights = vec![
        light_at(0, 0, 100_000_000),
        light_at(1_000_000, 0, 100_000_000),
        light_at(0, 1_000_000, 100_000_000),
    ];
    let a = field_activation(&lights, 500_000, 500_000);
    assert!(0 <= a && a <= MICRO);
    assert_eq!(a, MICRO);
}

#[test]
fn sensor_coincident_source_saturates() {
    let v = Vehicle::new(VehicleType::TwoA, Point { x: 0, y: 0 });
    let lights = vec![light_at(-30_000_000, 50_000_000, 700_000)];
    let a = v.read_sensor(Point { x: -30_000_000, y: 50_000_000 }, &lights);
    assert_eq!(a, MICRO);
}

#[test]
fn sensor_monotone_in_intensity() {
    let weak = vec![light_at(0, 1_000_000_000, 400_000), light_at(0, -1_000_000_000, 500_000)];
    let strong = vec![light_at(0, 1_000_000_000, 800_000), light_at(0, -1_000_000_000, 500_000)];
    let a = field_activation(&weak, 0, 0);
    let b = field_activation(&strong, 0, 0);
    assert!(b >= a);
    assert!(b > a);
}

#[test]
fn sensor_inverse_square_exact_value() {
    // One source of intensity 0.7 units at (0, 1000) units, sampled at the
    // origin-facing vehicle's left mount (-30, 50): distance^2 is
    // 970^2 + 950^2 in units, and the activation is
    // gain * intensity / distance^2, floored, in micro-units.
    let v = Vehicle::new(VehicleType::TwoA, Point { x: 0, y: 0 });
    let lights = vec![light_at(0, 1_000_000_000, 700_000)];
    let a = v.read_sensor(Point { x: -30_000_000, y: 50_000_000 }, &lights);
    let d2: u128 = 30_000_000u128 * 30_000_000 + 950_000_000u128 * 950_000_000;
    let expected = (20_000_000_000_000_000u128 * 700_000 / d2) as i64;
    assert_eq!(a, expected);
}

#[test]
fn trig_exact_at_quadrants() {
    assert_eq!(sin_fx(0), 0);
    assert_eq!(sin_fx(HALF_PI_MICRO), MICRO);
    assert_eq!(sin_fx(PI_MICRO), 0);
    assert_eq!(sin_fx(PI_MICRO + HALF_PI_MICRO), -MICRO);
    assert_eq!(cos_fx(0), MICRO);
    assert_eq!(cos_fx(PI_MICRO), -MICRO);
}

#[test]
fn angle_wrap() {
    assert_eq!(wrap_angle_fx(TWO_PI_MICRO), 0);
    assert_eq!(wrap_angle_fx(-1), TWO_PI_MICRO - 1);
    assert_eq!(wrap_angle_fx(TWO_PI_MICRO + 17), 17);
    assert_eq!(wrap_angle_fx(42), 42);
}

#[test]
fn centerline_source_drives_straight() {
    // One vehicle with direct excitatory wiring at the origin, orientation 0,
    // one source of 0.7 units at (0, 1000) units on the centerline: both raw
    // activations are equal, the vehicle keeps its heading and moves straight
    // forward at exactly min(2 * activation * 1600, cap).
    let mut v = Vehicle::new(VehicleType::TwoA, Point { x: 0, y: 0 });
    let lights = vec![light_at(0, 1_000_000_000, 700_000)];
    let left = v.read_sensor(Point { x: -30_000_000, y: 50_000_000 }, &lights);
    let right = v.read_sensor(Point { x: 30_000_000, y: 50_000_000 }, &lights);
    assert_eq!(left, right);

    let d2: u128 = 30_000_000u128 * 30_000_000 + 950_000_000u128 * 950_000_000;
    let act = (20_000_000_000_000_000u128 * 700_000 / d2) as i64;
    assert_eq!(left, act);

    v.update(&lights, DT);
    let vel = 2 * act * 1_600;
    assert!(vel < SPEED_CAP);
    assert_eq!(v.velocity, vel);
    assert_eq!(v.orientation, 0);
    assert_eq!(v.position.x, 0);
    let dy = (1_000_000u128 * vel as u128 * DT as u128 / 1_000_000_000_000u128) as i64;
    assert_eq!(v.position.y, dy);
    assert!(v.position.y > 0);
}

#[test]
fn left_biased_source_turns_opposite_ways_per_wiring() {
    // The same vehicle with the source moved to (-1000, 1000) units: the left
    // raw activation exceeds the right one, the direct excitatory wiring
    // turns one way and the crossed excitatory wiring exactly the other way.
    let lights = vec![light_at(-1_000_000_000, 1_000_000_000, 700_000)];
    let va = Vehicle::new(VehicleType::TwoA, Point { x: 0, y: 0 });
    let left = va.read_sensor(Point { x: -30_000_000, y: 50_000_000 }, &lights);
    let right = va.read_sensor(Point { x: 30_000_000, y: 50_000_000 }, &lights);
    assert!(left > right);

    let mut a = Vehicle::new(VehicleType::TwoA, Point { x: 0, y: 0 });
    a.update(&lights, DT);
    let mut b = Vehicle::new(VehicleType::TwoB, Point { x: 0, y: 0 });
    b.update(&lights, DT);
    // Direct wiring: negative turn, wrapped just below a full turn. Crossed
    // wiring: the mirrored positive turn of the same magnitude.
    assert!(a.orientation > PI_MICRO);
    assert!(b.orientation < PI_MICRO);
    assert!(b.orientation > 0);
    assert_eq!(TWO_PI_MICRO - a.orientation, b.orientation);
}

#[test]
fn empty_field_stops_excitatory_vehicles() {
    let lights: Vec<Light> = Vec::new();
    for t in [VehicleType::TwoA, VehicleType::TwoB] {
        let mut v = Vehicle::new(t, Point { x: 5_000_000, y: -7_000_000 });
        v.orientation = 123_456;
        v.velocity = 10_000_000;
        v.update(&lights, DT);
        assert_eq!(v.velocity, 0);
        assert_eq!(v.orientation, 123_456);
        assert_eq!(v.position, Point { x: 5_000_000, y: -7_000_000 });
    }
}

#[test]
fn empty_field_keeps_headings_and_caps_inhibitory_speed() {
    let lights: Vec<Light> = Vec::new();
    for t in [VehicleType::ThreeA, VehicleType::ThreeB] {
        let mut v = Vehicle::new(t, Point { x: 0, y: 0 });
        v.orientation = 654_321;
        v.update(&lights, DT);
        assert_eq!(v.velocity, SPEED_CAP);
        assert_eq!(v.orientation, 654_321);
    }
}

#[test]
fn captured_light_relocates_within_box() {
    let vehicles = vec![Vehicle::new(VehicleType::TwoA, Point { x: 1_000_000, y: 2_000_000 })];
    let mut lights = vec![light_at(0, 0, 700_000)];
    replace_lights_on_collision(&mut lights, &vehicles, 0);
    let p = lights[0].position;
    assert!((p.x - 1_000_000).abs() <= RELOCATE_RANGE);
    assert!((p.y - 2_000_000).abs() <= RELOCATE_RANGE);
    assert_eq!(lights[0].intensity, 700_000);
    assert_eq!(lights[0].tag, 0xffffff);
}

#[test]
fn distant_light_stays_put() {
    let vehicles = vec![Vehicle::new(VehicleType::TwoA, Point { x: 0, y: 0 })];
    let mut lights = vec![light_at(1_000_000_000, 1_000_000_000, 700_000)];
    replace_lights_on_collision(&mut lights, &vehicles, 0);
    assert_eq!(lights[0].position, Point { x: 1_000_000_000, y: 1_000_000_000 });
}

#[test]
fn skipped_light_is_exempt_from_relocation() {
    let vehicles = vec![Vehicle::new(VehicleType::TwoA, Point { x: 0, y: 0 })];
    let mut lights = vec![light_at(1_000, 1_000, 700_000), light_at(2_000, -3_000, 500_000)];
    replace_lights_on_collision(&mut lights, &vehicles, 1);
    assert_eq!(lights[0].position, Point { x: 1_000, y: 1_000 });
    assert!((lights[1].position.x).abs() <= RELOCATE_RANGE);
    assert!((lights[1].position.y).abs() <= RELOCATE_RANGE);
}

#[test]
fn no_vehicles_means_no_relocation() {
    let vehicles: Vec<Vehicle> = Vec::new();
    let mut lights = vec![light_at(0, 0, 700_000)];
    replace_lights_on_collision(&mut lights, &vehicles, 0);
    assert_eq!(lights[0].position, Point { x: 0, y: 0 });
}

#[test]
fn tick_moves_vehicle_and_keeps_distant_light() {
    let mut scene = Scene {
        vehicles: vec![Vehicle::new(VehicleType::TwoA, Point { x: 0, y: 0 })],
        lights: vec![light_at(0, 1_000_000_000, 700_000)],
    };
    scene.tick(DT, 0, 0);
    assert!(scene.vehicles[0].position.y > 0);
    assert_eq!(scene.vehicles[0].position.x, 0);
    assert_eq!(scene.lights[0].position, Point { x: 0, y: 1_000_000_000 });
}

#[test]
fn advance_runs_several_ticks() {
    let mut scene = Scene {
        vehicles: vec![Vehicle::new(VehicleType::TwoA, Point { x: 0, y: 0 })],
        lights: vec![light_at(0, 1_000_000_000, 700_000)],
    };
    scene.advance(3, DT, 0, 0);
    let one_tick = {
        let mut s = Scene {
            vehicles: vec![Vehicle::new(VehicleType::TwoA, Point { x: 0, y: 0 })],
            lights: vec![light_at(0, 1_000_000_000, 700_000)],
        };
        s.tick(DT, 0, 0);
        s.vehicles[0].position.y
    };
    assert!(scene.vehicles[0].position.y > one_tick);
}

#[test]
fn tick_with_skip_ignores_mouse_light_for_sensing() {
    // The only light is hidden from sensing: the vehicles see an empty
    // field, so an excitatory vehicle stops even with a bright light nearby.
    // The hidden light itself is still subject to relocation, and it sits
    // within the capture radius of the resting vehicle.
    let mut scene = Scene {
        vehicles: vec![Vehicle::new(VehicleType::TwoA, Point { x: 0, y: 0 })],
        lights: vec![light_at(0, 1_000_000, 700_000)],
    };
    scene.tick(DT, 1, 0);
    assert_eq!(scene.vehicles[0].velocity, 0);
    assert_eq!(scene.vehicles[0].position, Point { x: 0, y: 0 });
    assert!((scene.lights[0].position.x).abs() <= RELOCATE_RANGE);
    assert!((scene.lights[0].position.y).abs() <= RELOCATE_RANGE);
}

#[test]
fn new_vehicle_starts_at_rest() {
    let v = Vehicle::new(VehicleType::ThreeB, Point { x: 42, y: -42 });
    assert_eq!(v.position, Point { x: 42, y: -42 });
    assert_eq!(v.orientation, 0);
    assert_eq!(v.velocity, 0);
    assert_eq!(v.vehicle_type, VehicleType::ThreeB);
}

#[test]
fn new_light_keeps_fields() {
    let l = Light::new(Point { x: 7, y: 8 }, 9, 10);
    assert_eq!(l.position, Point { x: 7, y: 8 });
    assert_eq!(l.tag, 9);
    assert_eq!(l.intensity, 10);
}
