use shooter_game::command::{parse_i32, parse_u16, Command, Reading};
use shooter_game::entities::Target;
use shooter_game::game::GameState;
use shooter_game::scene::{Caption, CaptionKind, Cue, DrawCommand, Paint};

fn labels(g: &GameState) -> Vec<DrawCommand> {
    vec![
        DrawCommand::Label { x: 200_000, y: 30_000, caption: Caption { kind: CaptionKind::Score, value: g.earned_points() } },
        DrawCommand::Label { x: 4_000_000, y: 30_000, caption: Caption { kind: CaptionKind::Destroyed, value: g.destroyed_enemies() } },
    ]
}

#[test]
fn caption_texts() {
    assert_eq!(Caption { kind: CaptionKind::Score, value: 0 }.text(), "Score: 0");
    assert_eq!(Caption { kind: CaptionKind::Score, value: 30 }.text(), "Score: 30");
    assert_eq!(Caption { kind: CaptionKind::Destroyed, value: 7 }.text(), "Destroyed Enemies: 7");
    assert_eq!(Caption { kind: CaptionKind::Score, value: i32::MIN }.text(), "Score: -2147483648");
    assert_eq!(Caption { kind: CaptionKind::Score, value: i32::MAX }.text(), "Score: 2147483647");
    for v in [0, 9, 10, 99, 100, 12345, -1, -10] {
        assert_eq!(Caption { kind: CaptionKind::Destroyed, value: v }.text(), format!("Destroyed Enemies: {}", v));
    }
}

#[test]
fn caption_number_reads_back() {
    for v in [0, 1, -1, 42, -42, 1_000_000, i32::MIN, i32::MAX] {
        let text = Caption { kind: CaptionKind::Score, value: v }.text();
        let number: Vec<char> = text["Score: ".len()..].chars().collect();
        assert_eq!(parse_i32(&number), Some(v));
    }
}

#[test]
fn empty_field_picture() {
    let g = GameState::new(0);
    let mut expected = vec![DrawCommand::Quad { x: 0, y: 4_400_000, w: 1_750_000, h: 1_300_000, paint: Paint::White }];
    expected.extend(labels(&g));
    assert_eq!(g.picture(), expected);
}

#[test]
fn firing_picture() {
    let mut g = GameState::new(0);
    g.advance(0, Reading::Steer(Command { joy_x: 0, joy_y: 500, fire: 1 }), Some(Target::spawned_at(100_000, 0)));
    let mut expected = vec![
        DrawCommand::Quad { x: 100_000, y: -1_920_000, w: 1_700_000, h: 1_320_000, paint: Paint::White },
        DrawCommand::Sound(Cue::Fire),
        DrawCommand::Quad { x: 0, y: 4_400_000, w: 1_750_000, h: 1_300_000, paint: Paint::Black },
        DrawCommand::Circle { x: 0, y: 4_381_000, radius: 50_000, tolerance: 2_000, paint: Paint::Red },
    ];
    expected.extend(labels(&g));
    assert_eq!(g.picture(), expected);
}

#[test]
fn exploding_bullet_and_glowing_enemy_picture() {
    let mut g = GameState::new(0);
    g.advance(0, Reading::Steer(Command { joy_x: 0, joy_y: 900, fire: 0 }), Some(Target::spawned_at(100_000, 0)));
    g.advance(0, Reading::Steer(Command { joy_x: 0, joy_y: 500, fire: 1 }), None);
    for _ in 0..49 {
        g.advance(0, Reading::Idle, None);
    }
    let p = g.picture();
    assert_eq!(p[0], DrawCommand::Quad { x: 100_000, y: -1_920_000, w: 1_700_000, h: 1_320_000, paint: Paint::White });
    assert_eq!(p[1], DrawCommand::Sound(Cue::Fire));
    assert_eq!(p[3], DrawCommand::Circle { x: 140_000, y: -500_000, radius: 300_000, tolerance: 2_000, paint: Paint::Ember });
    assert_eq!(p[4], DrawCommand::Sound(Cue::Hit));
    // Bring the enemy down to its last points: it glows at its centre.
    while g.targets()[0].hp > 2 {
        g.advance(0, Reading::Steer(Command { joy_x: 0, joy_y: 500, fire: 1 }), None);
    }
    g.advance(0, Reading::Idle, None);
    if g.targets().len() == 1 && g.targets()[0].is_animated {
        assert_eq!(g.picture()[0], DrawCommand::Circle { x: 950_000, y: -1_260_000, radius: 170_000, tolerance: 1_000, paint: Paint::Ember });
    }
}

#[test]
fn trigger_value_reads_back() {
    for v in [0u16, 1, 9, 10, 65535] {
        let text = Caption { kind: CaptionKind::Destroyed, value: v as i32 }.text();
        let number: Vec<char> = text["Destroyed Enemies: ".len()..].chars().collect();
        assert_eq!(parse_u16(&number), Some(v));
    }
}
