use bumper_core::car::CarConfig;
use bumper_core::car::CarView;
use bumper_core::fixed::FX_ONE;
use bumper_core::game::BumperCars;
use bumper_core::game::GameError;
use bumper_core::game::Player;
use bumper_core::game::SPAWN_HEIGHT;
use bumper_core::game::SPAWN_WIDTH;
use bumper_core::game::SPAWN_X;
use bumper_core::game::SPAWN_Y;

fn fx(v: f64) -> i64 {
    (v * FX_ONE as f64) as i64
}

fn payload(x: i64, y: i64, speed: i64, forward: bool) -> CarView {
    CarView::new(
        x,
        y,
        fx(60.),
        fx(80.),
        CarConfig {
            speed,
            ..CarConfig::default()
        },
        false,
        false,
        forward,
        false,
    )
}

#[test]
fn create_registers_the_spawn_car() {
    let mut game = BumperCars::new();
    let player = game.create_player(7);
    assert_eq!(player.id, 7);
    assert_eq!(player.car.x, SPAWN_X);
    assert_eq!(player.car.y, SPAWN_Y);
    assert_eq!(player.car.width, SPAWN_WIDTH);
    assert_eq!(player.car.height, SPAWN_HEIGHT);
    assert_eq!(game.len(), 1);
    assert_eq!(game.get_player(7), Ok(player));
}

#[test]
fn get_unknown_id_is_not_found() {
    let mut game = BumperCars::new();
    game.create_player(1);
    assert_eq!(game.get_player(2), Err(GameError::NotFound(2)));
}

#[test]
fn create_remove_get_yields_not_found() {
    let mut game = BumperCars::new();
    let created = game.create_player(3);
    let removed = game.remove_player(3);
    assert_eq!(removed, Some(created));
    assert_eq!(game.get_player(3), Err(GameError::NotFound(3)));
    assert_eq!(game.len(), 0);
}

#[test]
fn remove_unknown_id_signals_absence() {
    let mut game = BumperCars::new();
    game.create_player(1);
    assert_eq!(game.remove_player(2), None);
    assert_eq!(game.len(), 1);
}

#[test]
fn update_unknown_id_is_a_no_op() {
    let mut game = BumperCars::new();
    game.create_player(1);
    let before = game.get_player(1);
    game.update_player(99, payload(fx(5.), fx(5.), fx(1.), true));
    assert_eq!(game.len(), 1);
    assert_eq!(game.get_player(1), before);
    assert_eq!(game.get_player(99), Err(GameError::NotFound(99)));
}

#[test]
fn update_overwrites_position_controls_and_config() {
    let mut game = BumperCars::new();
    game.create_player(4);
    game.update_player(4, payload(fx(1.), fx(2.), fx(3.), true));
    let p = game.get_player(4).unwrap();
    assert_eq!(p.car.x, fx(1.));
    assert_eq!(p.car.y, fx(2.));
    assert_eq!(p.car.config.speed, fx(3.));
    assert!(p.car.control.forward);
    // Extents are not taken from the payload.
    assert_eq!(p.car.width, SPAWN_WIDTH);
    assert_eq!(p.car.height, SPAWN_HEIGHT);
}

#[test]
fn later_update_fully_replaces_earlier_one() {
    let mut game = BumperCars::new();
    game.create_player(4);
    game.update_player(4, payload(fx(1.), fx(2.), fx(3.), true));
    game.update_player(4, payload(fx(9.), fx(8.), fx(7.), false));
    let p = game.get_player(4).unwrap();
    // Every payload-carried field comes from the second payload; no
    // field of the first survives.
    assert_eq!(p.car.x, fx(9.));
    assert_eq!(p.car.y, fx(8.));
    assert_eq!(p.car.config.speed, fx(7.));
    assert!(!p.car.control.forward);
}

#[test]
fn updates_do_not_touch_other_entries() {
    let mut game = BumperCars::new();
    game.create_player(1);
    game.create_player(2);
    game.update_player(1, payload(fx(5.), fx(6.), fx(1.), true));
    let untouched = game.get_player(2).unwrap();
    assert_eq!(untouched.car.x, SPAWN_X);
    assert_eq!(untouched.car.y, SPAWN_Y);
    assert!(!untouched.car.control.forward);
}

#[test]
fn snapshot_excluding_skips_only_the_caller() {
    let mut game = BumperCars::new();
    game.create_player(1);
    game.create_player(2);
    game.create_player(3);
    let snapshot = game.snapshot_excluding(2);
    let ids: Vec<u64> = snapshot.iter().map(|p| p.id).collect();
    assert_eq!(ids, vec![1, 3]);
}

#[test]
fn snapshot_for_returns_own_entry() {
    let mut game = BumperCars::new();
    let created = game.create_player(5);
    assert_eq!(game.snapshot_for(5), Some(created));
    assert_eq!(game.snapshot_for(6), None);
}

#[test]
fn add_player_overwrites_silently() {
    let mut game = BumperCars::new();
    let first = game.create_player(1);
    let replacement = Player::new(1, first.car.with_angle(fx(1.5)));
    game.add_player(1, replacement);
    assert_eq!(game.len(), 1);
    assert_eq!(game.get_player(1), Ok(replacement));
}
