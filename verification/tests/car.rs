use bumper_core::car::Car;
use bumper_core::car::CarConfig;
use bumper_core::car::CarPosition;
use bumper_core::car::CarView;
use bumper_core::car::DEFAULT_ACCELERATION;
use bumper_core::car::DEFAULT_FRICTION;
use bumper_core::car::DEFAULT_MAX_SPEED;
use bumper_core::fixed::FX_ONE;
use bumper_core::fixed::FX_TWO_PI;

fn fx(v: f64) -> i64 {
    (v * FX_ONE as f64) as i64
}

#[test]
fn test_car_update_works() {
    let mut car = Car::new(fx(100.), fx(100.), fx(60.), fx(80.));

    assert_eq!(car.config.speed, 0);

    car.set_forward(true);
    car.update();

    assert!(car.config.speed != 0);

    car.set_forward(false);
    car.set_reverse(true);

    car.update();
    car.update();

    assert!(car.config.speed != 0);
}

#[test]
fn test_collides() {
    let car1 = Car::new(fx(100.), fx(100.), fx(60.), fx(80.)).with_angle(fx(-9.3));
    let car2 = Car::new(fx(100.), fx(100.), fx(60.), fx(80.)).with_angle(fx(-3.14));
    assert!(car1.collides(&car2));
}

#[test]
fn forward_tick_has_exact_speed() {
    // One tick from rest: acceleration, clamp (no-op), friction.
    let mut car = Car::new(0, 0, fx(60.), fx(80.));
    car.set_forward(true);
    car.update();
    assert_eq!(car.config.speed, DEFAULT_ACCELERATION - DEFAULT_FRICTION);
    // Angle zero means "up": the car moved along negative y only.
    assert_eq!(car.x, 0);
    assert!(car.y < 0);
}

#[test]
fn speed_never_leaves_clamp_range() {
    let mut car = Car::new(0, 0, fx(60.), fx(80.));
    car.set_forward(true);
    for _ in 0..200 {
        car.update();
        assert!(car.config.speed <= car.config.max_speed);
        assert!(car.config.speed >= -car.config.max_speed / 2);
    }
    assert_eq!(car.config.speed, DEFAULT_MAX_SPEED - DEFAULT_FRICTION);
    car.set_forward(false);
    car.set_reverse(true);
    for _ in 0..200 {
        car.update();
        assert!(car.config.speed <= car.config.max_speed);
        assert!(car.config.speed >= -car.config.max_speed / 2);
    }
    assert_eq!(car.config.speed, -DEFAULT_MAX_SPEED / 2 + DEFAULT_FRICTION);
}

#[test]
fn angle_is_normalized_every_tick() {
    let mut car = Car::new(0, 0, fx(60.), fx(80.)).with_angle(fx(-123.456));
    car.set_forward(true);
    car.set_right(true);
    for _ in 0..500 {
        car.update();
        assert!(car.config.angle >= 0);
        assert!(car.config.angle < FX_TWO_PI);
    }
}

#[test]
fn friction_converges_to_rest_without_sign_flip() {
    let mut car = Car::new(0, 0, fx(60.), fx(80.));
    let initial = fx(7.5);
    car = car.with_config(CarConfig {
        speed: initial,
        ..CarConfig::default()
    });
    // ceil(7.5 / 0.05) in fixed point: friction 3277 per tick.
    let ticks = (initial + DEFAULT_FRICTION - 1) / DEFAULT_FRICTION;
    for _ in 0..ticks {
        assert!(car.config.speed >= 0);
        car.update();
    }
    assert_eq!(car.config.speed, 0);
    car.update();
    assert_eq!(car.config.speed, 0);
}

#[test]
fn forward_and_reverse_cancel() {
    let mut car = Car::new(0, 0, fx(60.), fx(80.));
    car.set_forward(true);
    car.set_reverse(true);
    car.update();
    assert_eq!(car.config.speed, 0);
    assert_eq!(car.x, 0);
    assert_eq!(car.y, 0);
}

#[test]
fn steering_flips_in_reverse() {
    let mut forward_car = Car::new(0, 0, fx(60.), fx(80.));
    forward_car.set_forward(true);
    forward_car.set_left(true);
    forward_car.update();
    forward_car.update();
    let mut reverse_car = Car::new(0, 0, fx(60.), fx(80.));
    reverse_car.set_reverse(true);
    reverse_car.set_left(true);
    reverse_car.update();
    reverse_car.update();
    // Forward-left increases the heading, reverse-left wraps below a
    // full turn.
    assert!(forward_car.config.angle > 0 && forward_car.config.angle < FX_TWO_PI / 2);
    assert!(reverse_car.config.angle > FX_TWO_PI / 2);
}

#[test]
fn stationary_car_does_not_steer() {
    let mut car = Car::new(0, 0, fx(60.), fx(80.));
    car.set_left(true);
    car.update();
    assert_eq!(car.config.angle, 0);
}

#[test]
fn collides_car_view_matches_payload_placement() {
    let car = Car::new(0, 0, fx(10.), fx(10.));
    let near = CarView::new(
        fx(5.),
        fx(5.),
        fx(10.),
        fx(10.),
        CarConfig::default(),
        false,
        false,
        false,
        false,
    );
    let far = CarView::new(
        fx(100.),
        fx(100.),
        fx(10.),
        fx(10.),
        CarConfig::default(),
        false,
        false,
        false,
        false,
    );
    assert!(car.collides_car_view(&near));
    assert!(!car.collides_car_view(&far));
}

#[test]
fn collides_position_matches_placement() {
    let car = Car::new(0, 0, fx(10.), fx(10.));
    let near = CarPosition::new(fx(8.), 0, fx(10.), fx(10.), fx(0.7));
    let far = CarPosition::new(fx(50.), 0, fx(10.), fx(10.), fx(0.7));
    assert!(car.collides_position(&near));
    assert!(!car.collides_position(&far));
}

#[test]
fn control_accessors_round_trip() {
    let mut car = Car::new(0, 0, fx(60.), fx(80.));
    assert!(!car.get_forward() && !car.get_left() && !car.get_right() && !car.get_reverse());
    car.set_forward(true);
    car.set_left(true);
    car.set_right(true);
    car.set_reverse(true);
    assert!(car.get_forward() && car.get_left() && car.get_right() && car.get_reverse());
    assert!(car.control.get_forward());
    assert!(car.control.get_left());
    assert!(car.control.get_right());
    assert!(car.control.get_reverse());
}
