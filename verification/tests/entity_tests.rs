use shooter_game::entities::{
    Bullet, FirstTarget, Target, GROUND_Y, LEADER_HP, SPAWN_X_END, SPAWN_X_MIN, SPAWN_Y,
    TARGET_HEIGHT, TARGET_HP, TARGET_MASS, TARGET_WIDTH,
};

#[test]
fn bullet_starts_on_the_ground() {
    let b = Bullet::new(140_000);
    assert_eq!(b, Bullet { x_pos: 140_000, y_pos: 4_400_000, is_hit_target: false, is_animated: false });
    assert_eq!(GROUND_Y, 4_400_000);
}

#[test]
fn spawned_enemy_fields() {
    let t = Target::spawned_at(250_000, 77);
    assert_eq!(t.width, 1_700_000);
    assert_eq!(t.height, 1_320_000);
    assert_eq!(t.mass, 100);
    assert_eq!(t.hp, 40);
    assert_eq!(t.xst, 250_000);
    assert_eq!(t.yst, -1_920_000);
    assert!(t.is_still_alive);
    assert!(!t.is_animated);
    assert_eq!(t.animation_start_time, None);
    assert_eq!(t.elapsed_time, 77);
    assert_eq!((TARGET_WIDTH, TARGET_HEIGHT, TARGET_MASS, TARGET_HP, SPAWN_Y), (1_700_000, 1_320_000, 100, 40, -1_920_000));
}

#[test]
fn random_enemy_column_in_range_and_varies() {
    let mut columns = Vec::new();
    for now in 0..64u64 {
        let t = Target::new(now);
        assert!(SPAWN_X_MIN <= t.xst && t.xst < SPAWN_X_END);
        assert_eq!(t, Target::spawned_at(t.xst, now));
        columns.push(t.xst);
    }
    assert!(columns.iter().any(|&x| x != SPAWN_X_MIN));
    assert!(columns.iter().any(|&x| x != columns[0]));
}

#[test]
fn leading_enemy() {
    let t = FirstTarget::new(5);
    assert_eq!(
        t,
        FirstTarget {
            width: 1_700_000,
            height: 1_320_000,
            hp: 360,
            xst: 100_000,
            yst: 100_000,
            is_still_alive: true,
            is_accurate_hit: false,
            elapsed_time: 5,
        }
    );
    assert_eq!(LEADER_HP, 360);
}
