use road_rush::contact::{Collision, Entity};
use road_rush::dice::{ContactDraw, Draws};
use road_rush::game::{Game, Input, Report};
use road_rush::session::{Key, KeyEvent, Session};
use road_rush::world::{Band, Position, Readout, World};

const SECOND: u64 = 1_000_000_000;
const FRAME: u64 = 10_000_000;

fn at(x: i64, y: i64) -> Position {
    Position { x, y }
}

fn fresh() -> Game {
    Game::new(World::arrange(
        vec![at(900_000, 1), at(1_000_000, 2), at(1_100_000, 3)],
        vec![at(2_000_000, 4), at(2_100_000, 5), at(2_200_000, 6), at(2_300_000, 7)],
        at(3_000_000, 8),
    ))
}

fn quiet(delta: u64) -> Input {
    Input { delta, keys: vec![], up: false, down: false, collisions: vec![] }
}

fn hit(index: usize) -> Collision {
    Collision { first: Entity::Player, second: Entity::Obstacle(index), begins: true }
}

fn pick(index: usize) -> Collision {
    Collision { first: Entity::Player, second: Entity::Collectible(index), begins: true }
}

fn buff() -> Collision {
    Collision { first: Entity::Buff, second: Entity::Player, begins: true }
}

fn down(key: Key) -> KeyEvent {
    KeyEvent { key, pressed: true }
}

fn draws_for(game: &Game, input: &Input, roll: u32) -> Draws {
    Draws {
        obstacles: vec![at(1_234_000, 56_000); game.world.obstacles.len()],
        collectibles: vec![at(2_345_000, -67_000); game.world.collectibles.len()],
        buff: at(3_100_000, 78_000),
        contacts: vec![ContactDraw { roll, spot: at(2_500_000, -123_000) }; input.collisions.len()],
    }
}

fn step(game: &mut Game, input: &Input) -> Report {
    let draws = draws_for(game, input, 0);
    game.update_with(input, &draws)
}

#[test]
fn obstacle_collision_takes_one_health_from_a_fresh_session() {
    let mut game = fresh();
    assert_eq!(game.session.health, 5);
    assert_eq!(game.session.score, 0);
    assert_eq!(game.session.road_speed, 400_000);
    let mut input = quiet(FRAME);
    input.collisions = vec![hit(0)];
    let report = step(&mut game, &input);
    assert_eq!(report, Report { active: true, impacts: 1, game_over: false });
    assert_eq!(game.session.health, 4);
    assert!(!game.session.lost);
}

#[test]
fn five_collectible_collisions_score_five() {
    let mut game = fresh();
    for index in [0, 1, 2, 3, 0] {
        let mut input = quiet(FRAME);
        input.collisions = vec![pick(index)];
        let report = step(&mut game, &input);
        assert_eq!(report, Report { active: true, impacts: 0, game_over: false });
    }
    assert_eq!(game.session.score, 5);
    assert_eq!(game.session.health, 5);
    assert!(!game.session.lost);
}

#[test]
fn five_collectible_collisions_in_one_frame_score_five() {
    let mut game = fresh();
    let mut input = quiet(FRAME);
    input.collisions = vec![pick(0), pick(1), pick(1), pick(2), pick(3)];
    step(&mut game, &input);
    assert_eq!(game.session.score, 5);
    assert_eq!(game.session.health, 5);
    assert_eq!(game.world.readout.score, 0);
    step(&mut game, &quiet(FRAME));
    assert_eq!(game.world.readout.score, 5);
}

#[test]
fn fifth_obstacle_collision_loses_the_session() {
    let mut game = fresh();
    for round in 1..=4 {
        let mut input = quiet(FRAME);
        input.collisions = vec![hit(round % 3)];
        let report = step(&mut game, &input);
        assert_eq!(report, Report { active: true, impacts: 1, game_over: false });
        assert_eq!(game.session.health, 5 - round as u8);
        assert!(!game.session.lost);
    }
    let mut input = quiet(FRAME);
    input.collisions = vec![hit(0), hit(1)];
    let report = step(&mut game, &input);
    assert_eq!(report, Report { active: true, impacts: 1, game_over: true });
    assert_eq!(game.session.health, 0);
    assert!(game.session.lost);

    let ended = game.clone();
    let mut input = quiet(FRAME);
    input.collisions = vec![hit(2)];
    let report = step(&mut game, &input);
    assert_eq!(report, Report { active: false, impacts: 0, game_over: false });
    assert_eq!(game, ended);
}

#[test]
fn six_obstacle_collisions_in_one_frame_take_five_health() {
    let mut game = fresh();
    let mut input = quiet(FRAME);
    input.collisions = vec![hit(0), hit(1), hit(2), hit(0), hit(1), hit(2)];
    let report = step(&mut game, &input);
    assert_eq!(report, Report { active: true, impacts: 5, game_over: true });
    assert_eq!(game.session.health, 0);
    assert!(game.session.lost);
    assert!(game.session.is_wf());
}

#[test]
fn game_over_is_reported_once() {
    let mut game = fresh();
    let mut input = quiet(FRAME);
    input.up = true;
    input.delta = 2 * SECOND;
    let report = step(&mut game, &input);
    assert!(report.game_over);
    let ended = game.clone();
    for _ in 0..10 {
        let mut input = quiet(FRAME);
        input.collisions = vec![hit(0), pick(1), buff()];
        input.down = true;
        let report = step(&mut game, &input);
        assert_eq!(report, Report { active: false, impacts: 0, game_over: false });
        assert_eq!(game, ended);
    }
}

#[test]
fn paused_frame_changes_nothing() {
    let mut game = fresh();
    step(&mut game, &quiet(FRAME));
    let mut input = quiet(FRAME);
    input.keys = vec![down(Key::Pause)];
    input.up = true;
    input.collisions = vec![hit(0), pick(0), buff()];
    let before = game.clone();
    let report = step(&mut game, &input);
    assert_eq!(report, Report { active: false, impacts: 0, game_over: false });
    assert!(game.session.paused);
    assert_eq!(game.world, before.world);
    assert_eq!(game.session, Session { paused: true, ..before.session });

    let paused = game.clone();
    let mut input = quiet(7 * SECOND);
    input.down = true;
    input.collisions = vec![hit(1)];
    let report = step(&mut game, &input);
    assert_eq!(report, Report { active: false, impacts: 0, game_over: false });
    assert_eq!(game, paused);
}

#[test]
fn second_pause_key_resumes_the_game() {
    let mut game = fresh();
    let mut input = quiet(FRAME);
    input.keys = vec![down(Key::Pause)];
    step(&mut game, &input);
    let report = step(&mut game, &input);
    assert!(report.active);
    assert!(!game.session.paused);
    assert_eq!(game.session.difficulty_timer.elapsed, FRAME);
}

#[test]
fn restart_is_the_way_out_of_a_lost_session() {
    let mut game = fresh();
    let mut input = quiet(SECOND);
    input.collisions = vec![hit(0), hit(0), hit(0), hit(0), hit(0), pick(2)];
    let report = step(&mut game, &input);
    assert!(report.game_over);
    assert!(game.session.lost);
    let world = game.world.clone();

    let mut input = quiet(0);
    input.keys = vec![down(Key::Restart), down(Key::Pause)];
    let report = step(&mut game, &input);
    assert!(!report.active);
    assert_eq!(game.session, Session { paused: true, ..Session::new() });
    assert_eq!(game.world, world);

    let mut input = quiet(FRAME);
    input.keys = vec![down(Key::Pause)];
    let report = step(&mut game, &input);
    assert_eq!(report, Report { active: true, impacts: 0, game_over: false });
    assert_eq!(game.session.health, 5);
    assert_eq!(game.session.score, 0);
    assert_eq!(game.session.road_speed, 400_000);
    assert_eq!(game.world.readout, Readout { score: 0, health: 5, speed: 400_000 });
}

#[test]
fn restart_shrinks_an_enlarged_player_on_the_next_frame() {
    let mut game = fresh();
    let mut input = quiet(FRAME);
    input.collisions = vec![buff()];
    let draws = draws_for(&game, &input, 1_999);
    game.update_with(&input, &draws);
    assert!(game.session.invulnerable);
    assert_eq!(game.world.player.scale, 1_000);

    let mut input = quiet(FRAME);
    input.keys = vec![down(Key::Restart)];
    step(&mut game, &input);
    assert!(!game.session.invulnerable);
    assert_eq!(game.world.player.scale, 800);
}

#[test]
fn leaving_the_track_loses_at_once_even_when_invulnerable() {
    let mut game = fresh();
    let mut input = quiet(FRAME);
    input.collisions = vec![buff()];
    let draws = draws_for(&game, &input, 1_500);
    game.update_with(&input, &draws);
    assert!(game.session.invulnerable);

    let mut input = quiet(1_200_000_000);
    input.up = true;
    let report = step(&mut game, &input);
    assert_eq!(game.world.player.position.y, 360_000);
    assert_eq!(report, Report { active: true, impacts: 0, game_over: false });
    assert_eq!(game.session.health, 5);

    let mut input = quiet(FRAME);
    input.up = true;
    let report = step(&mut game, &input);
    assert_eq!(game.world.player.position.y, 363_000);
    assert_eq!(report, Report { active: true, impacts: 0, game_over: true });
    assert_eq!(game.session.health, 0);
    assert!(game.session.lost);
    assert_eq!(game.world.readout.health, 0);
}

#[test]
fn collisions_still_score_in_the_frame_that_leaves_the_track() {
    let mut game = fresh();
    let mut input = quiet(2 * SECOND);
    input.down = true;
    input.collisions = vec![hit(0), pick(1)];
    let report = step(&mut game, &input);
    assert_eq!(report, Report { active: true, impacts: 0, game_over: true });
    assert_eq!(game.session.score, 1);
    assert_eq!(game.session.health, 0);
}

#[test]
fn running_frame_moves_player_and_road() {
    let mut game = fresh();
    let mut input = quiet(500_000_000);
    input.up = true;
    let report = step(&mut game, &input);
    assert_eq!(report, Report { active: true, impacts: 0, game_over: false });
    assert_eq!(game.world.player.position, at(-500_000, 150_000));
    assert_eq!(game.world.player.rotation, 200);
    assert_eq!(game.world.obstacles, vec![at(700_000, 1), at(800_000, 2), at(900_000, 3)]);
    assert_eq!(
        game.world.collectibles,
        vec![at(1_750_000, 4), at(1_850_000, 5), at(1_950_000, 6), at(2_050_000, 7)]
    );
    assert_eq!(game.world.buff, at(2_750_000, 8));
    assert_eq!(game.world.road_markers[0], at(700_000, 0));
    assert_eq!(game.world.road_markers[1], at(-650_000, 0));
    assert_eq!(game.session.difficulty_timer.elapsed, 500_000_000);
}

#[test]
fn frame_scrolls_at_the_speed_the_timers_leave() {
    let mut game = fresh();
    let report = step(&mut game, &quiet(5 * SECOND));
    assert!(report.active);
    assert_eq!(game.session.road_speed, 440_000);
    assert_eq!(game.world.readout.speed, 440_000);
    assert_eq!(game.world.road_markers[9], at(750_000 - 2_200_000 + 1_500_000, 0));
    assert_eq!(game.world.obstacles, vec![at(1_234_000, 56_000); 3]);
    assert_eq!(game.world.collectibles[3], at(2_300_000 - 2_750_000, 7));
    assert_eq!(game.world.collectibles[0], at(2_000_000 - 2_750_000, 4));
    assert_eq!(game.world.buff, at(250_000, 8));
}

#[test]
fn many_small_frames_accelerate_like_one_long_frame() {
    let mut slow = fresh();
    for _ in 0..500 {
        step(&mut slow, &quiet(FRAME));
    }
    let mut fast = fresh();
    step(&mut fast, &quiet(5 * SECOND));
    assert_eq!(slow.session.road_speed, 440_000);
    assert_eq!(fast.session.road_speed, 440_000);
    assert_eq!(slow.session, fast.session);
    assert_eq!(slow.world.readout, fast.world.readout);
}

#[test]
fn quiet_frame_of_ten_seconds_accelerates_twice() {
    let mut whole = fresh();
    let report = step(&mut whole, &quiet(10 * SECOND));
    assert_eq!(report, Report { active: true, impacts: 0, game_over: false });
    assert_eq!(whole.session.road_speed, 484_000);
    assert_eq!(whole.world.readout.speed, 484_000);
    assert_eq!(whole.session.difficulty_timer.elapsed, 0);

    let mut split = fresh();
    step(&mut split, &quiet(5 * SECOND));
    step(&mut split, &quiet(5 * SECOND));
    assert_eq!(split.session, whole.session);
    assert_eq!(split.world.readout, whole.world.readout);
}

#[test]
fn speed_readout_follows_the_difficulty_timer_only() {
    let mut game = fresh();
    step(&mut game, &quiet(4 * SECOND));
    assert_eq!(game.world.readout.speed, 400_000);
    step(&mut game, &quiet(SECOND));
    assert_eq!(game.world.readout.speed, 440_000);
    let mut input = quiet(FRAME);
    input.keys = vec![down(Key::Restart)];
    step(&mut game, &input);
    assert_eq!(game.session.road_speed, 400_000);
    assert_eq!(game.world.readout.speed, 440_000);
    step(&mut game, &quiet(5 * SECOND));
    assert_eq!(game.world.readout.speed, 440_000);
    step(&mut game, &quiet(5 * SECOND));
    assert_eq!(game.world.readout.speed, 484_000);
}

#[test]
fn invulnerability_lasts_ten_seconds_of_running_frames() {
    let mut game = fresh();
    let mut input = quiet(FRAME);
    input.collisions = vec![buff(), hit(0)];
    let draws = draws_for(&game, &input, 1_200);
    let report = game.update_with(&input, &draws);
    assert_eq!(report.impacts, 0);
    assert!(game.session.invulnerable);
    assert_eq!(game.world.buff, at(2_500_000, -123_000));

    let mut input = quiet(10 * SECOND - 1);
    input.collisions = vec![hit(0)];
    let report = step(&mut game, &input);
    assert_eq!(report.impacts, 0);
    assert!(game.session.invulnerable);
    assert_eq!(game.world.player.scale, 1_000);

    let mut input = quiet(1);
    input.collisions = vec![hit(0)];
    let report = step(&mut game, &input);
    assert_eq!(report.impacts, 1);
    assert!(!game.session.invulnerable);
    assert_eq!(game.world.player.scale, 800);
    assert_eq!(game.session.health, 4);
}

#[test]
fn slow_mode_lasts_ten_seconds_of_running_frames() {
    let mut game = fresh();
    let mut input = quiet(FRAME);
    input.collisions = vec![buff()];
    let draws = draws_for(&game, &input, 1_000);
    game.update_with(&input, &draws);
    assert_eq!(game.session.speed_multiplier, 500);
    let marker = game.world.road_markers[5];
    step(&mut game, &quiet(SECOND));
    assert_eq!(game.world.road_markers[5], at(marker.x - 200_000, 0));
    step(&mut game, &quiet(9 * SECOND));
    assert_eq!(game.session.speed_multiplier, 1_000);
    assert_eq!(game.session.road_speed, 484_000);
    let marker = game.world.road_markers[5];
    assert_eq!(marker, at(150_000 - 4_000 - 200_000 - 4_356_000 + 1_500_000, 0));
    step(&mut game, &quiet(FRAME));
    assert_eq!(game.world.road_markers[5], at(marker.x - 4_840 + 1_500_000, 0));
}

#[test]
fn pause_stops_the_timers() {
    let mut game = fresh();
    step(&mut game, &quiet(4 * SECOND));
    let mut input = quiet(60 * SECOND);
    input.keys = vec![down(Key::Pause)];
    step(&mut game, &input);
    step(&mut game, &quiet(60 * SECOND));
    assert_eq!(game.session.road_speed, 400_000);
    let mut input = quiet(SECOND);
    input.keys = vec![down(Key::Pause)];
    step(&mut game, &input);
    assert_eq!(game.session.road_speed, 440_000);
}

#[test]
fn frames_with_dice_keep_items_in_their_bands() {
    let mut game = Game::start();
    for round in 0..400 {
        let mut input = quiet(50_000_000);
        if round % 7 == 0 {
            input.collisions = vec![pick(round % 4)];
        }
        assert!(game.admits(&input));
        let report = game.update(&input);
        assert!(report.active);
        for obstacle in &game.world.obstacles {
            assert!(obstacle.x >= -800_000 && obstacle.x < 1_600_000);
            assert!(obstacle.y >= -300_000 && obstacle.y < 300_000);
        }
        for collectible in &game.world.collectibles {
            assert!(collectible.x >= -800_000 && collectible.x < 3_200_000);
            assert!(collectible.y >= -300_000 && collectible.y < 300_000);
        }
        if round % 7 == 0 {
            assert!(Band::Far.contains(game.world.collectibles[round % 4]));
        }
    }
    assert_eq!(game.session.score, 58);
    assert_eq!(game.session.health, 5);
    assert_eq!(game.session.road_speed, 585_640);
    assert!(game.session.is_wf());
}

#[test]
fn buff_with_dice_gives_one_of_its_two_effects() {
    let mut seen_invulnerable = false;
    let mut seen_slow = false;
    for _ in 0..200 {
        let mut game = Game::start();
        let mut input = quiet(FRAME);
        input.collisions = vec![buff()];
        let report = game.update(&input);
        assert_eq!(report, Report { active: true, impacts: 0, game_over: false });
        assert!(Band::Far.contains(game.world.buff));
        assert_ne!(game.session.invulnerable, game.session.speed_multiplier == 500);
        assert_eq!(game.world.player.scale == 1_000, game.session.invulnerable);
        seen_invulnerable = seen_invulnerable || game.session.invulnerable;
        seen_slow = seen_slow || game.session.speed_multiplier == 500;
    }
    assert!(seen_invulnerable);
    assert!(seen_slow);
}
