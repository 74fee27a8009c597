use shooter_game::command::{Command, Reading};
use shooter_game::rules::FrameEnd;
use shooter_game::entities::{Bullet, Target};
use shooter_game::game::GameState;

fn spawn_for(g: &GameState, xst: i64, now: u64) -> Option<Target> {
    if g.targets().is_empty() {
        Some(Target::spawned_at(xst, now))
    } else {
        None
    }
}

fn frame(g: &mut GameState, now: u64, reading: Reading) -> bool {
    assert!(g.counters_fit());
    let spawn = spawn_for(g, 100_000, now);
    g.advance(now, reading, spawn) == FrameEnd::Caught
}

fn stick(joy_y: i32, fire: u16) -> Reading {
    Reading::Steer(Command { joy_x: 600, joy_y, fire })
}

#[test]
fn new_game_is_empty() {
    let g = GameState::new(9);
    assert_eq!(g.pos_x(), 0);
    assert_eq!(g.pos_y(), 0);
    assert_eq!(g.is_fire_on(), 0);
    assert!(g.bullets().is_empty());
    assert!(g.targets().is_empty());
    assert_eq!(g.earned_points(), 0);
    assert_eq!(g.destroyed_enemies(), 0);
    assert!(g.first_target().is_still_alive);
    assert_eq!(g.first_target().elapsed_time, 9);
    assert!(g.counters_fit());
}

#[test]
fn first_frame_brings_an_enemy_and_fires() {
    let mut g = GameState::new(0);
    let quit = frame(&mut g, 0, stick(500, 1));
    assert!(!quit);
    assert_eq!(g.targets(), &vec![Target::spawned_at(100_000, 0)]);
    assert_eq!(g.bullets(), &vec![Bullet::new(0)]);
    assert_eq!(g.is_fire_on(), 1);
    assert_eq!(g.pos_x(), 0);
}

#[test]
fn stick_moves_and_edges_stop() {
    let mut g = GameState::new(0);
    frame(&mut g, 0, stick(100, 0));
    assert_eq!(g.pos_x(), 0, "left edge stops the player");
    frame(&mut g, 0, stick(900, 0));
    assert_eq!(g.pos_x(), 140_000);
    frame(&mut g, 0, stick(250, 0));
    assert_eq!(g.pos_x(), 280_000, "readings between 200 and 300 slide right");
    frame(&mut g, 0, stick(199, 0));
    assert_eq!(g.pos_x(), 140_000);
    frame(&mut g, 0, stick(300, 0));
    frame(&mut g, 0, stick(800, 0));
    assert_eq!(g.pos_x(), 140_000);
    for _ in 0..60 {
        frame(&mut g, 0, stick(1023, 0));
    }
    assert_eq!(g.pos_x(), 5_880_000, "right edge stops the player one step past it");
    assert_eq!(g.pos_x() % 140_000, 0);
    frame(&mut g, 0, Reading::Idle);
    assert_eq!(g.pos_x(), 5_880_000, "no command, no movement");
    frame(&mut g, 0, stick(0, 0));
    assert_eq!(g.pos_x(), 5_740_000);
}

#[test]
fn enemy_falls_with_the_square_of_its_age() {
    let mut g = GameState::new(0);
    frame(&mut g, 0, Reading::Idle);
    assert_eq!(g.targets()[0].yst, -1_920_000);
    frame(&mut g, 1_000, Reading::Idle);
    assert_eq!(g.targets()[0].yst, -1_920_000 + 4_900);
    frame(&mut g, 2_000, Reading::Idle);
    assert_eq!(g.targets()[0].yst, -1_920_000 + 4_900 + 19_600);
}

#[test]
fn one_bullet_strikes_twice_then_leaves() {
    let mut g = GameState::new(0);
    frame(&mut g, 0, stick(900, 0));
    frame(&mut g, 0, stick(500, 1));
    assert_eq!(g.bullets().len(), 1);
    for _ in 0..48 {
        frame(&mut g, 0, Reading::Idle);
    }
    assert_eq!(g.bullets()[0].y_pos, -400_000);
    assert_eq!(g.targets()[0].hp, 40);
    frame(&mut g, 0, Reading::Idle);
    assert_eq!(g.bullets()[0].y_pos, -500_000);
    assert!(g.bullets()[0].is_animated);
    assert_eq!(g.targets()[0].hp, 39);
    frame(&mut g, 0, Reading::Idle);
    assert!(g.bullets().is_empty());
    assert_eq!(g.targets()[0].hp, 38);
}

#[test]
fn destroyed_enemy_scores_ten() {
    let mut g = GameState::new(0);
    frame(&mut g, 0, stick(900, 0));
    let mut frames = 0;
    while g.destroyed_enemies() == 0 {
        frame(&mut g, 0, stick(500, 1));
        frames += 1;
        assert!(frames < 500);
        assert!(g.targets().len() <= 1);
        assert_eq!(g.earned_points(), 10 * g.destroyed_enemies());
    }
    assert_eq!(g.earned_points(), 10);
    assert_eq!(g.destroyed_enemies(), 1);
    assert!(g.targets().is_empty());
    frame(&mut g, 0, Reading::Idle);
    assert_eq!(g.targets().len(), 1);
    assert_eq!(g.targets()[0].xst, 100_000);
    assert_eq!(g.targets()[0].yst, -1_920_000);
    // The fresh enemy meets the three bullets still in flight at its height:
    // two enter its body, one explodes below it.
    assert_eq!(g.targets()[0].hp, 37);
}

#[test]
fn dying_enemy_glows() {
    let mut g = GameState::new(0);
    frame(&mut g, 0, stick(900, 0));
    while g.targets()[0].hp > 2 {
        frame(&mut g, 0, stick(500, 1));
    }
    assert!(!g.targets()[0].is_animated || g.targets()[0].animation_start_time.is_some());
    frame(&mut g, 7, Reading::Idle);
    if g.targets().len() == 1 && g.targets()[0].hp > 0 {
        assert!(g.targets()[0].is_animated);
        assert_eq!(g.targets()[0].animation_start_time, Some(7));
    }
}

#[test]
fn enemy_on_the_ground_catches_the_player() {
    let mut g = GameState::new(0);
    assert!(!frame(&mut g, 0, stick(500, 0)));
    assert!(!frame(&mut g, 20_000, stick(500, 0)));
    assert_eq!(g.targets()[0].yst, 40_000);
    assert!(!frame(&mut g, 20_000, stick(500, 0)));
    assert_eq!(g.targets()[0].yst, 2_000_000);
    assert!(frame(&mut g, 20_000, stick(500, 0)));
    assert_eq!(g.targets()[0].yst, 3_960_000);
    assert!(!frame(&mut g, 20_000, stick(500, 0)));
    assert!(g.targets().is_empty(), "the enemy fell past the ground");
    assert_eq!(g.destroyed_enemies(), 0);
}

#[test]
fn enemy_far_away_does_not_catch() {
    let mut g = GameState::new(0);
    for _ in 0..40 {
        frame(&mut g, 0, stick(900, 0));
    }
    assert_eq!(g.pos_x(), 5_600_000);
    assert!(!frame(&mut g, 20_000, stick(500, 0)));
    assert!(!frame(&mut g, 20_000, stick(500, 0)));
    assert!(!frame(&mut g, 20_000, stick(500, 0)));
    assert_eq!(g.targets()[0].yst, 3_960_000);
}

#[test]
fn idle_frames_keep_player_and_still_catch() {
    let mut g = GameState::new(0);
    frame(&mut g, 0, stick(900, 1));
    for _ in 0..2 {
        assert!(!frame(&mut g, 20_000, Reading::Idle));
        assert_eq!(g.pos_x(), 140_000);
        assert_eq!(g.is_fire_on(), 1);
    }
    // The enemy reaches the ground over the player on a frame without a command.
    assert!(frame(&mut g, 20_000, Reading::Idle));
    assert_eq!(g.pos_x(), 140_000);
}

#[test]
fn enemy_touching_on_an_idle_frame_ends_the_game() {
    let mut g = GameState::new(0);
    assert_eq!(g.advance(0, Reading::Idle, Some(Target::spawned_at(100_000, 0))), FrameEnd::Play);
    assert_eq!(g.advance(33_000, Reading::Idle, None), FrameEnd::Caught);
    assert_eq!(g.targets()[0].yst, -1_920_000 + 5_336_100);
}

#[test]
fn malformed_line_moves_the_field_then_halts() {
    let mut g = GameState::new(0);
    frame(&mut g, 0, stick(900, 1));
    let mut h = GameState::new(0);
    frame(&mut h, 0, stick(900, 1));
    assert_eq!(g.advance(1_000, Reading::Malformed, None), FrameEnd::Halt);
    assert_eq!(h.advance(1_000, Reading::Idle, None), FrameEnd::Play);
    assert_eq!(g.targets(), h.targets());
    assert_eq!(g.bullets(), h.bullets());
    assert_eq!(g.targets()[0].yst, -1_920_000 + 4_900);
    assert_eq!(g.bullets()[0].y_pos, 4_300_000);
    assert_eq!(g.pos_x(), 140_000);
    assert_eq!(g.is_fire_on(), 1);
}

#[test]
fn first_stick_value_changes_nothing() {
    let mut g = GameState::new(0);
    let mut h = GameState::new(0);
    g.advance(0, Reading::Steer(Command { joy_x: -5, joy_y: 900, fire: 1 }), Some(Target::spawned_at(100_000, 0)));
    h.advance(0, Reading::Steer(Command { joy_x: 1023, joy_y: 900, fire: 1 }), Some(Target::spawned_at(100_000, 0)));
    assert_eq!((g.pos_x(), g.bullets(), g.is_fire_on()), (h.pos_x(), h.bullets(), h.is_fire_on()));
}

#[test]
fn crowded_field_drops_bullets_above_the_top() {
    let mut g = GameState::new(0);
    for _ in 0..30 {
        frame(&mut g, 0, stick(100, 0));
    }
    // The player stays at column 0, the enemy at column 100000: no bullet hits.
    for _ in 0..70 {
        frame(&mut g, 0, stick(100, 1));
    }
    assert_eq!(g.bullets().len(), 70);
    frame(&mut g, 0, stick(100, 0));
    // 70 bullets in play: those past the top leave, the 44 youngest remain.
    assert_eq!(g.bullets().len(), 44);
    assert!(g.bullets().iter().all(|b| b.y_pos >= 0));
}

#[test]
fn many_frames_keep_the_invariant() {
    let mut g = GameState::new(0);
    let mut now = 0u64;
    for i in 0..400u64 {
        now += 37;
        let joy_y = [100, 500, 900][(i % 3) as usize];
        let fire = (i % 2) as u16;
        frame(&mut g, now, stick(joy_y, fire));
        assert!(g.targets().len() <= 1);
        assert!(0 <= g.pos_x() && g.pos_x() <= 5_880_000 && g.pos_x() % 140_000 == 0);
        assert_eq!(g.earned_points(), 10 * g.destroyed_enemies());
        assert!(g.bullets().iter().all(|b| !b.is_hit_target && b.y_pos <= 4_400_000));
        for t in g.targets() {
            assert!(t.is_still_alive);
            assert_eq!(t.width, 1_700_000);
            assert!(t.yst <= 4_400_000);
        }
    }
}

#[test]
fn update_spawns_at_a_random_column() {
    let mut g = GameState::new(0);
    assert_eq!(g.update(0, Reading::Idle), FrameEnd::Play);
    assert_eq!(g.targets().len(), 1);
    let t = g.targets()[0];
    assert!(100_000 <= t.xst && t.xst < 5_750_000);
    assert_eq!(t, Target::spawned_at(t.xst, 0));
}

#[test]
fn leader_and_height_never_change() {
    let mut g = GameState::new(3);
    let leader = g.first_target();
    for i in 0..50u64 {
        frame(&mut g, i * 100, stick(900, 1));
        assert_eq!(g.first_target(), leader);
        assert_eq!(g.pos_y(), 0);
    }
}

#[test]
fn bullets_climb_one_step_per_frame() {
    let mut g = GameState::new(0);
    frame(&mut g, 0, stick(100, 1));
    frame(&mut g, 0, stick(100, 1));
    assert_eq!(g.bullets().iter().map(|b| (b.x_pos, b.y_pos)).collect::<Vec<_>>(), vec![(0, 4_300_000), (0, 4_400_000)]);
    frame(&mut g, 0, Reading::Idle);
    assert_eq!(g.bullets().iter().map(|b| (b.x_pos, b.y_pos)).collect::<Vec<_>>(), vec![(0, 4_200_000), (0, 4_300_000)]);
}
