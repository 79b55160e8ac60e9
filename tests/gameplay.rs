use fruit_drop::fruit::{
    fall_speed, fruit_fate, fruit_movement, spawn_fruit, Fate, Fruit, TickEvents, CATCH_Y,
    FLOOR_Y, FRUIT_START_Y, NUM_FRUIT, SPAWN_HALF_WIDTH,
};
use fruit_drop::game::{Game, GameState};
use fruit_drop::player::{player_movement, Player, PlayerInput, PLAYER_BOUND, PLAYER_STEP};
use fruit_drop::score::{format_score, Score};

fn fruit(x: i64, y: i64) -> Fruit {
    Fruit { x, y, variant: 1 }
}

#[test]
fn player_held_keys_stay_near_bounds() {
    let combos = [(false, false), (true, false), (false, true), (true, true)];
    for &(left, right) in combos.iter() {
        let mut p = Player::new();
        let input = PlayerInput { move_left: left, move_right: right };
        for _ in 0..200 {
            player_movement(&mut p, &input);
            assert!(p.x >= -(PLAYER_BOUND + PLAYER_STEP) && p.x <= PLAYER_BOUND + PLAYER_STEP);
        }
    }
}

#[test]
fn player_left_wall_last_step() {
    // 7.5 units at a time from the middle: the last step starts at -337.5
    let mut p = Player::new();
    let input = PlayerInput { move_left: true, move_right: false };
    for _ in 0..45 {
        player_movement(&mut p, &input);
    }
    assert_eq!(p.x, -33750);
    player_movement(&mut p, &input);
    assert_eq!(p.x, -34500);
    player_movement(&mut p, &input);
    assert_eq!(p.x, -34500);
}

#[test]
fn player_steps_inside_bounds() {
    let mut p = Player { x: -34000, y: -10000 };
    player_movement(&mut p, &PlayerInput { move_left: true, move_right: false });
    assert_eq!(p.x, -34000);
    let mut p = Player { x: 34000, y: -10000 };
    player_movement(&mut p, &PlayerInput { move_left: false, move_right: true });
    assert_eq!(p.x, 34000);
    let mut p = Player { x: 1500, y: -10000 };
    player_movement(&mut p, &PlayerInput { move_left: false, move_right: true });
    assert_eq!(p.x, 2250);
}

#[test]
fn player_both_keys_cancel() {
    let mut p = Player::new();
    player_movement(&mut p, &PlayerInput { move_left: true, move_right: true });
    assert_eq!(p.x, 0);
    let mut p = Player { x: -34000, y: -10000 };
    player_movement(&mut p, &PlayerInput { move_left: true, move_right: true });
    assert_eq!(p.x, -33250);
}

#[test]
fn input_sampling() {
    let mut input = PlayerInput::default();
    assert!(!input.move_left && !input.move_right);
    input.get_input(true, false);
    assert!(input.move_left && !input.move_right);
    input.get_input(false, true);
    assert!(!input.move_left && input.move_right);
}

#[test]
fn fall_speed_values() {
    assert_eq!(fall_speed(0), 200);
    assert_eq!(fall_speed(1), 203);
    assert_eq!(fall_speed(100), 500);
    assert_eq!(fall_speed(u32::MAX), 200 + 3 * (u32::MAX as i64));
    let mut last = fall_speed(0);
    for s in 1..1000u32 {
        let v = fall_speed(s);
        assert!(v >= last);
        last = v;
    }
}

#[test]
fn fruit_out_of_reach_falls_on() {
    let p = Player::new();
    let mut fruits = vec![fruit(6000, -8000), fruit(-5001, -9999)];
    let ev = fruit_movement(&mut fruits, &p, 0);
    assert_eq!(ev, TickEvents { score_events: 0, game_over_events: 0 });
    assert_eq!(fruits, vec![fruit(6000, -8200), fruit(-5001, -10199)]);
}

#[test]
fn fruit_above_band_falls_on() {
    let p = Player::new();
    let mut fruits = vec![fruit(0, CATCH_Y)];
    let ev = fruit_movement(&mut fruits, &p, 10);
    assert_eq!(ev.score_events, 0);
    assert_eq!(fruits, vec![fruit(0, CATCH_Y - 230)]);
}

#[test]
fn fruit_in_band_caught() {
    let p = Player { x: 1000, y: -10000 };
    assert_eq!(fruit_fate(&fruit(6000, -6000), p.x), Fate::Caught);
    assert_eq!(fruit_fate(&fruit(-4000, -6000), p.x), Fate::Caught);
    assert_eq!(fruit_fate(&fruit(6001, -6000), p.x), Fate::Falls);
    let mut fruits = vec![fruit(1000, -6000), fruit(30000, 0), fruit(1200, FLOOR_Y)];
    let ev = fruit_movement(&mut fruits, &p, 0);
    assert_eq!(ev, TickEvents { score_events: 2, game_over_events: 0 });
    assert_eq!(fruits, vec![fruit(30000, -200)]);
}

#[test]
fn fruit_below_floor_signals_game_over() {
    let p = Player::new();
    let mut fruits = vec![fruit(0, FLOOR_Y - 1), fruit(20000, -20000), fruit(0, 100)];
    let ev = fruit_movement(&mut fruits, &p, 0);
    assert_eq!(ev, TickEvents { score_events: 0, game_over_events: 2 });
    assert_eq!(fruits, vec![fruit(0, FLOOR_Y - 201), fruit(20000, -20200), fruit(0, -100)]);
    assert_eq!(fruit_fate(&fruit(0, FLOOR_Y - 1), 0), Fate::Lands);
}

#[test]
fn score_text_values() {
    assert_eq!(format_score(0), "Score: 0");
    assert_eq!(format_score(7), "Score: 7");
    assert_eq!(format_score(10), "Score: 10");
    assert_eq!(format_score(1203), "Score: 1203");
    assert_eq!(format_score(u32::MAX), "Score: 4294967295");
}

#[test]
fn score_increase_collapses_and_idles() {
    let mut s = Score::default();
    assert_eq!(s.score, 0);
    assert_eq!(s.text, "Score: 0");
    s.score_increase(false);
    assert_eq!(s.score, 0);
    assert_eq!(s.text, "Score: 0");
    s.score_increase(true);
    assert_eq!(s.score, 1);
    assert_eq!(s.text, "Score: 1");
}

#[test]
fn catch_scores_one_and_speeds_up() {
    let mut g = Game::setup();
    assert_eq!(g.score.text, "Score: 0");
    g.fruits.push(fruit(0, -5600));
    let ev = g.fixed_update();
    assert_eq!(ev.score_events, 1);
    g.update(ev);
    assert_eq!(g.score.score, 1);
    assert_eq!(g.score.text, "Score: 1");
    assert_eq!(fall_speed(g.score.score), 203);
    assert!(g.fruits.is_empty());
    assert_eq!(g.state, GameState::Running);
}

#[test]
fn simultaneous_catches_score_one() {
    let mut g = Game::setup();
    g.fruits.push(fruit(0, -5600));
    g.fruits.push(fruit(100, -9000));
    g.fruits.push(fruit(-4999, -6000));
    let ev = g.fixed_update();
    assert_eq!(ev.score_events, 3);
    g.update(ev);
    assert_eq!(g.score.score, 1);
    assert_eq!(g.score.text, "Score: 1");
}

#[test]
fn update_without_events_changes_nothing() {
    let mut g = Game::setup();
    g.fruits.push(fruit(0, 100));
    g.update(TickEvents::none());
    assert_eq!(g.score.score, 0);
    assert_eq!(g.score.text, "Score: 0");
    assert_eq!(g.state, GameState::Running);
    assert_eq!(g.fruits, vec![fruit(0, 100)]);
}

#[test]
fn spawn_each_firing_adds_one_fruit() {
    let mut g = Game::setup();
    for n in 1..=3usize {
        g.spawn_fruit();
        assert_eq!(g.fruits.len(), n);
        let f = g.fruits[n - 1];
        assert_eq!(f.y, FRUIT_START_Y);
        assert!(f.x >= -SPAWN_HALF_WIDTH && f.x <= SPAWN_HALF_WIDTH);
        assert!(f.variant >= 1 && f.variant <= NUM_FRUIT);
    }
}

#[test]
fn spawned_fruit_is_random() {
    let mut xs = Vec::new();
    let mut variants = Vec::new();
    for _ in 0..300 {
        let f = spawn_fruit();
        assert_eq!(f.y, FRUIT_START_Y);
        assert!(f.x >= -SPAWN_HALF_WIDTH && f.x <= SPAWN_HALF_WIDTH);
        assert!(f.variant >= 1 && f.variant <= NUM_FRUIT);
        xs.push(f.x);
        variants.push(f.variant);
    }
    assert!(xs.iter().any(|&x| x != xs[0]));
    assert!(variants.iter().any(|&v| v != variants[0]));
}

#[test]
fn fruit_reaching_floor_ends_game() {
    let mut g = Game::setup();
    g.fruits.push(fruit(30000, -9900));
    let ev = g.fixed_update();
    assert_eq!(ev.game_over_events, 0);
    g.update(ev);
    assert_eq!(g.state, GameState::Running);
    let ev = g.fixed_update();
    assert_eq!(ev.game_over_events, 1);
    g.update(ev);
    assert!(g.is_over());
    // nothing moves once the game is over
    g.get_input(true, false);
    let fruits_before = g.fruits.clone();
    let ev = g.fixed_update();
    assert_eq!(ev, TickEvents::none());
    assert_eq!(g.player.x, 0);
    assert_eq!(g.fruits, fruits_before);
    g.spawn_fruit();
    assert_eq!(g.fruits, fruits_before);
    g.update(TickEvents::none());
    assert_eq!(g.state, GameState::Over);
}

#[test]
fn game_moves_player_before_fruit() {
    let mut g = Game::setup();
    g.fruits.push(fruit(-5500, -6000));
    g.get_input(true, false);
    let ev = g.fixed_update();
    assert_eq!(g.player.x, -750);
    assert_eq!(ev.score_events, 1);
}

#[test]
fn tick_fits_near_lowest_height() {
    let mut g = Game::setup();
    assert!(g.tick_fits());
    g.fruits.push(fruit(0, i64::MIN + 200));
    assert!(g.tick_fits());
    g.fruits.push(fruit(0, i64::MIN + 199));
    assert!(!g.tick_fits());
}
