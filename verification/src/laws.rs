//! Properties of the game that hold over whole frames.
use vstd::prelude::*;

use crate::command::{
    all_digits, decimal_value, digit_value, digits_value, i32_of, is_digit, u16_of, Command,
    Reading,
};
use crate::entities::{Bullet, Target};
use crate::proofs::{
    blasts, lemma_fall_nonnegative, lemma_frame, lemma_survivor_indices, lemma_volley_single,
    survivor_indices,
};
use crate::rules::{
    aloft, bounded_speed, bullet_survives, crowded, defeated, fallen, frame_bullets, frame_field,
    climbed, frame_volley, in_body, landing_y, lowered, player_caught, player_in_band, since, spawn_fits, stays_aloft, step,
    stick_speed, FrameEnd, World, BULLET_STEP, KILL_POINTS, PLAYER_SPEED, RIGHT_EDGE,
};
use crate::rules::meet;
use crate::scene::{decimal, digit_char, digits_of, picture, Caption, CaptionKind, DrawCommand};

verus! {

/// Every frame keeps the game well formed: at most one enemy falls at a time,
/// every enemy on the field is alive, whole and inside the field, no bullet in
/// play is marked as a hit, the player stays on whole steps between the left
/// edge and one step past the right edge, and the score is always ten points
/// per destroyed enemy.
pub proof fn law_frame_keeps_invariant(w: World, now: u64, reading: Reading, spawn: Option<Target>)
    requires
        w.wf(),
        w.counters_fit(),
        spawn_fits(w, spawn, now),
    ensures
        step(w, now, reading, spawn).0.wf(),
{
    lemma_frame(w, now, spawn);
    let kept = frame_bullets(w, now, spawn);
    let next = step(w, now, reading, spawn).0;
    match reading {
        Reading::Steer(c) => {
            crate::proofs::lemma_player_band(w.pos_x, c.joy_y);
            if c.fire == 1 {
                assert forall|i: int| 0 <= i < next.bullets.len() implies crate::rules::bullet_settled(
                    #[trigger] next.bullets[i],
                ) by {
                    if i < kept.len() {
                        assert(next.bullets[i] == kept[i]);
                    }
                }
            }
        },
        _ => {},
    }
}

/// An enemy that reaches the player ends the game: on every frame whose line
/// was read without a bad number, the frame ends with the player caught
/// exactly when, after the bullets, some enemy has reached the ground over the
/// player's column (taken before the player moves).
pub proof fn law_touch_ends_game(w: World, now: u64, reading: Reading, spawn: Option<Target>)
    requires
        reading != Reading::Malformed,
    ensures
        (step(w, now, reading, spawn).1 == FrameEnd::Caught) == player_caught(
            step(w, now, reading, spawn).0.targets,
            w.pos_x,
        ),
        step(w, now, reading, spawn).1 != FrameEnd::Halt,
{
}

/// A line with three fields and a bad number halts the game after the frame's
/// enemies and bullets moved; the player neither moves nor fires.
pub proof fn law_bad_number_halts(w: World, now: u64, spawn: Option<Target>)
    ensures
        step(w, now, Reading::Malformed, spawn).1 == FrameEnd::Halt,
        step(w, now, Reading::Malformed, spawn).0 == step(w, now, Reading::Idle, spawn).0,
        step(w, now, Reading::Malformed, spawn).0.pos_x == w.pos_x,
        step(w, now, Reading::Malformed, spawn).0.is_fire_on == w.is_fire_on,
        step(w, now, Reading::Malformed, spawn).0.bullets == frame_bullets(w, now, spawn),
{
}

/// A frame without a command leaves the player, its trigger state and the
/// bullets fired so far where they were: nothing is fired.
pub proof fn law_idle_frame_keeps_player(w: World, now: u64, spawn: Option<Target>)
    ensures
        step(w, now, Reading::Idle, spawn).0.pos_x == w.pos_x,
        step(w, now, Reading::Idle, spawn).0.is_fire_on == w.is_fire_on,
        step(w, now, Reading::Idle, spawn).0.bullets == frame_bullets(w, now, spawn),
{
}

/// A command moves the player by the speed that its second stick value asks
/// for, stopped at the edges, and keeps its trigger value; the first stick
/// value changes nothing.
pub proof fn law_steering(w: World, now: u64, c: Command, joy_x: i32, spawn: Option<Target>)
    ensures
        step(w, now, Reading::Steer(c), spawn).0.pos_x == w.pos_x + bounded_speed(
            w.pos_x,
            stick_speed(c.joy_y),
        ),
        step(w, now, Reading::Steer(c), spawn).0.is_fire_on == c.fire,
        step(w, now, Reading::Steer(c), spawn) == step(
            w,
            now,
            Reading::Steer(Command { joy_x, ..c }),
            spawn,
        ),
{
}

/// A frame scores exactly the enemies that had no hit points left: ten points
/// and one destroyed enemy for each, so neither counter ever goes down.
pub proof fn law_score_counts_kills(w: World, now: u64, reading: Reading, spawn: Option<Target>)
    requires
        w.wf(),
        w.counters_fit(),
        spawn_fits(w, spawn, now),
    ensures
        step(w, now, reading, spawn).0.destroyed_enemies == w.destroyed_enemies + defeated(
            w.targets,
        ),
        step(w, now, reading, spawn).0.earned_points == w.earned_points + KILL_POINTS * defeated(
            w.targets,
        ),
        step(w, now, reading, spawn).0.earned_points >= w.earned_points,
        step(w, now, reading, spawn).0.destroyed_enemies >= w.destroyed_enemies,
{
    lemma_frame(w, now, spawn);
}

/// An enemy left without hit points is gone after the next frame, and is
/// counted as destroyed.
pub proof fn law_defeated_enemy_leaves(w: World, now: u64, reading: Reading, spawn: Option<Target>)
    requires
        w.wf(),
        spawn_fits(w, spawn, now),
        w.targets.len() == 1,
        w.targets[0].hp <= 0,
    ensures
        step(w, now, reading, spawn).0.targets.len() == 0,
        step(w, now, reading, spawn).0.destroyed_enemies == w.destroyed_enemies + 1,
{
    lemma_frame(w, now, spawn);
    let field = frame_field(w, spawn);
    assert(field == w.targets);
    assert(field.drop_last() =~= Seq::<Target>::empty());
    assert(aloft(field, now) == aloft(field.drop_last(), now));
    assert(defeated(field.drop_last()) == 0);
    assert(field.last().hp <= 0);
    assert(defeated(field) == 1);
}

/// The player slides at most one step per frame, never further left once at
/// the left edge, and never further right once at or past the right edge.
pub proof fn law_player_speed(w: World, now: u64, c: Command, spawn: Option<Target>)
    requires
        w.wf(),
    ensures
        w.pos_x - PLAYER_SPEED <= step(w, now, Reading::Steer(c), spawn).0.pos_x <= w.pos_x
            + PLAYER_SPEED,
        w.pos_x <= 0 ==> step(w, now, Reading::Steer(c), spawn).0.pos_x >= w.pos_x,
        w.pos_x >= RIGHT_EDGE ==> step(w, now, Reading::Steer(c), spawn).0.pos_x <= w.pos_x,
        player_in_band(step(w, now, Reading::Steer(c), spawn).0.pos_x),
{
    crate::proofs::lemma_player_band(w.pos_x, c.joy_y);
}

/// Pulling the trigger puts exactly one new bullet in play, at the player's
/// column before it moves; otherwise no bullet is added.
pub proof fn law_trigger_fires_one_bullet(w: World, now: u64, c: Command, spawn: Option<Target>)
    requires
        w.wf(),
        spawn_fits(w, spawn, now),
    ensures
        c.fire == 1 ==> step(w, now, Reading::Steer(c), spawn).0.bullets == frame_bullets(
            w,
            now,
            spawn,
        ).push(Bullet::fired_from(w.pos_x)),
        c.fire != 1 ==> step(w, now, Reading::Steer(c), spawn).0.bullets == frame_bullets(
            w,
            now,
            spawn,
        ),
        step(w, now, Reading::Steer(c), spawn).0.bullets.len() <= w.bullets.len() + 1,
{
    lemma_frame(w, now, spawn);
}

/// The leading enemy and the player's height never change.
pub proof fn law_leader_stays(w: World, now: u64, reading: Reading, spawn: Option<Target>)
    ensures
        step(w, now, reading, spawn).0.first_target == w.first_target,
        step(w, now, reading, spawn).0.pos_y == w.pos_y,
{
}

/// An enemy that is still on the field after a frame kept its column, did not
/// rise, and did not gain hit points.
pub proof fn law_enemy_only_falls(w: World, now: u64, reading: Reading, spawn: Option<Target>)
    requires
        w.wf(),
        spawn_fits(w, spawn, now),
        w.targets.len() == 1,
        step(w, now, reading, spawn).0.targets.len() == 1,
    ensures
        step(w, now, reading, spawn).0.targets[0].xst == w.targets[0].xst,
        step(w, now, reading, spawn).0.targets[0].yst >= w.targets[0].yst,
        step(w, now, reading, spawn).0.targets[0].hp <= w.targets[0].hp,
{
    lemma_frame(w, now, spawn);
    let field = frame_field(w, spawn);
    let t = w.targets[0];
    assert(field == w.targets);
    assert(field.drop_last() =~= Seq::<Target>::empty());
    assert(field.last() == t);
    let up = aloft(field, now);
    assert(up.len() == 1);
    assert(aloft(field.drop_last(), now).len() == 0);
    assert(stays_aloft(t, now));
    assert(up[0] == fallen(t, now));
    lemma_fall_nonnegative(since(now, t.elapsed_time));
}

/// The bullets in play after a frame are, in their order, exactly the bullets
/// that were in play and survived the frame, each one step higher in its own
/// column, followed by the one just fired if the trigger was pulled.  A bullet
/// survives when it is not inside an enemy's body; from 70 bullets on it must
/// also not have left the top; below 70 no bullet leaves for its height.
pub proof fn law_bullets_kept_in_order(
    w: World,
    now: u64,
    reading: Reading,
    spawn: Option<Target>,
)
    requires
        w.wf(),
        spawn_fits(w, spawn, now),
    ensures
        ({
            let moved = frame_volley(w, now, spawn).0;
            let kept = frame_bullets(w, now, spawn);
            let idx = survivor_indices(moved, crowded(w));
            &&& moved.len() == w.bullets.len()
            &&& forall|j: int|
                0 <= j < w.bullets.len() ==> (#[trigger] moved[j]).x_pos == w.bullets[j].x_pos
                    && moved[j].y_pos == lowered(w.bullets[j].y_pos, BULLET_STEP)
            &&& idx.len() == kept.len()
            &&& forall|k: int|
                0 <= k < idx.len() ==> 0 <= #[trigger] idx[k] < moved.len() && kept[k]
                    == moved[idx[k]]
            &&& forall|k: int, l: int| 0 <= k < l < idx.len() ==> #[trigger] idx[k] < #[trigger] idx[l]
            &&& forall|j: int|
                0 <= j < moved.len() ==> (idx.contains(j) <==> bullet_survives(
                    #[trigger] moved[j],
                    crowded(w),
                ))
            &&& crowded(w) ==> forall|k: int| 0 <= k < kept.len() ==> (#[trigger] kept[k]).y_pos >= 0
            &&& !crowded(w) ==> forall|j: int|
                0 <= j < moved.len() ==> (idx.contains(j) <==> !(#[trigger] moved[j]).is_hit_target)
            &&& step(w, now, reading, spawn).0.bullets == match reading {
                Reading::Steer(c) => if c.fire == 1 {
                    kept.push(Bullet::fired_from(w.pos_x))
                } else {
                    kept
                },
                _ => kept,
            }
        }),
{
    lemma_frame(w, now, spawn);
    let moved = frame_volley(w, now, spawn).0;
    let kept = frame_bullets(w, now, spawn);
    lemma_survivor_indices(moved, crowded(w));
    let idx = survivor_indices(moved, crowded(w));
    if crowded(w) {
        assert forall|k: int| 0 <= k < kept.len() implies (#[trigger] kept[k]).y_pos >= 0 by {
            assert(kept[k] == moved[idx[k]]);
            assert(idx.contains(idx[k]));
            assert(bullet_survives(moved[idx[k]], crowded(w)));
        }
    }
}

/// The digits of `n` are digits, at least one, and write `n`.
proof fn lemma_digits_of(n: nat)
    ensures
        digits_of(n).len() >= 1,
        all_digits(digits_of(n)),
        digits_value(digits_of(n)) == n,
    decreases n,
{
    if n < 10 {
        let s = digits_of(n);
        assert(digit_value(digit_char(n as int)) == n);
        assert(s.drop_last() =~= Seq::<char>::empty());
        assert(s.last() == digit_char(n as int));
        assert(digits_value(s) == digits_value(s.drop_last()) * 10 + digit_value(s.last()));
        assert(is_digit(s[0]));
    } else {
        lemma_digits_of(n / 10);
        let before = digits_of(n / 10);
        let d = digit_char((n % 10) as int);
        assert(digit_value(d) == n % 10);
        assert(before.push(d).drop_last() =~= before);
        assert(before.push(d).last() == d);
        assert(digits_value(before.push(d)) == digits_value(before) * 10 + digit_value(d));
        assert((n / 10) * 10 + n % 10 == n);
        assert forall|i: int| 0 <= i < before.push(d).len() implies #[trigger] is_digit(
            before.push(d)[i],
        ) by {
            if i < before.len() {
                assert(before.push(d)[i] == before[i]);
            }
        }
    }
}

/// A number written in decimal, as the score captions write it, reads back
/// as the same number with the joystick's number reader.
pub proof fn law_decimal_reads_back(v: i32)
    ensures
        i32_of(decimal(v as int)) == Some(v),
{
    if v < 0 {
        let n = (-v) as nat;
        lemma_digits_of(n);
        let s = decimal(v as int);
        assert(s.drop_first() =~= digits_of(n));
        assert(s[0] == '-');
        assert(decimal_value(s, true) == Some(-digits_value(digits_of(n))));
    } else {
        let n = v as nat;
        lemma_digits_of(n);
        let s = decimal(v as int);
        assert(is_digit(s[0]));
        assert(decimal_value(s, true) == Some(digits_value(s)));
    }
}

/// Trigger values written in decimal read back as the same value.
pub proof fn law_trigger_decimal_reads_back(v: u16)
    ensures
        u16_of(decimal(v as int)) == Some(v),
{
    let n = v as nat;
    lemma_digits_of(n);
    let s = decimal(v as int);
    assert(is_digit(s[0]));
    assert(decimal_value(s, false) == Some(digits_value(s)));
}

/// The enemy phase of a frame: the enemy on the field (the one there, or the
/// fresh one on an empty field) stays exactly when it is alive, has hit
/// points, and its fall leaves it above the ground; it then stands where it
/// fell, in its column, alive, and if it was down to its last two points its
/// dying animation runs from this frame on.
pub proof fn law_enemy_phase(w: World, now: u64, reading: Reading, spawn: Option<Target>)
    requires
        w.wf(),
        spawn_fits(w, spawn, now),
    ensures
        frame_field(w, spawn).len() == 1,
        ({
            let t = frame_field(w, spawn)[0];
            let next = step(w, now, reading, spawn).0;
            &&& next.targets.len() == if stays_aloft(t, now) {
                1int
            } else {
                0int
            }
            &&& stays_aloft(t, now) ==> {
                &&& next.targets[0].yst == landing_y(t, now)
                &&& next.targets[0].xst == t.xst
                &&& next.targets[0].is_still_alive
                &&& next.targets[0].hp <= t.hp
                &&& t.hp <= 2 ==> next.targets[0].is_animated
                    && next.targets[0].animation_start_time == Some(now)
            }
        }),
{
    lemma_frame(w, now, spawn);
    let field = frame_field(w, spawn);
    assert(field.len() == 1);
    let t = field[0];
    assert(field.drop_last() =~= Seq::<Target>::empty());
    assert(field.last() == t);
    assert(aloft(field.drop_last(), now).len() == 0);
    let up = aloft(field, now);
    if stays_aloft(t, now) {
        assert(up[0] == fallen(t, now));
        lemma_fall_nonnegative(since(now, t.elapsed_time));
        assert(crate::proofs::target_calm(frame_volley(w, now, spawn).1[0], now));
    }
}

/// The bullets of a frame against the enemy that stays on the field: it loses
/// one hit point for each bullet that climbed into its blast zone, and
/// exactly the bullets that climbed into its body are marked as hits (and so
/// leave, see `law_bullets_kept_in_order`).
pub proof fn law_hits_count(w: World, now: u64, reading: Reading, spawn: Option<Target>)
    requires
        w.wf(),
        spawn_fits(w, spawn, now),
        aloft(frame_field(w, spawn), now).len() == 1,
        aloft(frame_field(w, spawn), now)[0].hp - w.bullets.len() > i64::MIN,
    ensures
        ({
            let t = aloft(frame_field(w, spawn), now)[0];
            &&& step(w, now, reading, spawn).0.targets.len() == 1
            &&& step(w, now, reading, spawn).0.targets[0].hp == t.hp - blasts(w.bullets, t)
            &&& forall|j: int|
                0 <= j < w.bullets.len() ==> (#[trigger] frame_volley(w, now, spawn).0[j]).is_hit_target
                    == in_body(climbed(w.bullets[j]), t)
        }),
{
    lemma_frame(w, now, spawn);
    let up = aloft(frame_field(w, spawn), now);
    let t = up[0];
    assert(up =~= seq![t]);
    assert(crate::proofs::target_calm(up[0], now));
    lemma_volley_single(w.bullets, t, now);
}

/// The game ends on contact only: a frame ends with the player caught
/// exactly when (and, for a line without a bad number, whenever) some enemy
/// left after the frame reaches below the ground line (4_400_000), is not
/// dying, and overlaps the player's columns before it moves: the enemy's
/// columns `xst ..= xst + 1_700_000` meet the player's `pos_x .. pos_x +
/// 1_750_000`.  An enemy wholly to the right or left of the player never ends
/// the game.
pub proof fn law_caught_only_on_contact(w: World, now: u64, reading: Reading, spawn: Option<Target>)
    ensures
        ({
            let (next, end) = step(w, now, reading, spawn);
            let touching = exists|i: int|
                0 <= i < next.targets.len() && #[trigger] next.targets[i].yst
                    + next.targets[i].height > 4_400_000 && next.targets[i].xst + 1_700_000
                    >= w.pos_x && next.targets[i].xst < w.pos_x + 1_750_000
                    && !next.targets[i].is_animated;
            &&& end == FrameEnd::Caught ==> touching
            &&& reading != Reading::Malformed && touching ==> end == FrameEnd::Caught
        }),
{
    let (next, end) = step(w, now, reading, spawn);
    if end == FrameEnd::Caught {
        let i = choose|i: int|
            0 <= i < next.targets.len() && crate::rules::threatens(#[trigger] next.targets[i], w.pos_x);
        assert(next.targets[i].yst + next.targets[i].height > 4_400_000);
    }
    if reading != Reading::Malformed {
        if exists|i: int|
            0 <= i < next.targets.len() && #[trigger] next.targets[i].yst + next.targets[i].height
                > 4_400_000 && next.targets[i].xst + 1_700_000 >= w.pos_x && next.targets[i].xst
                < w.pos_x + 1_750_000 && !next.targets[i].is_animated {
            let i = choose|i: int|
                0 <= i < next.targets.len() && #[trigger] next.targets[i].yst
                    + next.targets[i].height > 4_400_000 && next.targets[i].xst + 1_700_000
                    >= w.pos_x && next.targets[i].xst < w.pos_x + 1_750_000
                    && !next.targets[i].is_animated;
            assert(crate::rules::threatens(next.targets[i], w.pos_x));
        }
    }
}

/// A bullet meeting an enemy: outside the enemy's columns `xst ..= xst +
/// width`, or outside the heights `yst ..= yst + height + 120_000`, it neither
/// explodes nor hits and the enemy is untouched; inside them, the enemy loses
/// one hit point (none at the least `i64`) and the bullet explodes exactly when
/// the enemy had hit points left.  Against an enemy as the bullets find it, the
/// bullet is a hit exactly when it lies in the enemy's body, `xst ..= xst +
/// width` by `yst ..= yst + height`.  The bullet never moves.
pub proof fn law_bullet_meets_enemy(b: Bullet, t: Target, now: u64)
    ensures
        meet(b, t, now).0.x_pos == b.x_pos,
        meet(b, t, now).0.y_pos == b.y_pos,
        b.x_pos < t.xst || b.x_pos > t.xst + t.width || b.y_pos < t.yst || b.y_pos > t.yst
            + t.height + 120_000 ==> meet(b, t, now) == (
            (Bullet { is_animated: false, is_hit_target: false, ..b }),
            t,
        ),
        t.xst <= b.x_pos <= t.xst + t.width && t.yst <= b.y_pos <= t.yst + t.height + 120_000
            ==> meet(b, t, now).1.hp == (if t.hp == i64::MIN {
            t.hp
        } else {
            (t.hp - 1) as i64
        }) && meet(b, t, now).0.is_animated == (t.hp > 0) && meet(b, t, now).1.xst == t.xst
            && meet(b, t, now).1.yst == t.yst,
        crate::proofs::target_calm(t, now) ==> meet(b, t, now).0.is_hit_target == (t.xst
            <= b.x_pos <= t.xst + t.width && t.yst <= b.y_pos <= t.yst + t.height),
{
    if crate::proofs::target_calm(t, now) {
        crate::proofs::lemma_meet_calm(b, t, now);
    }
}

/// An enemy falls by its own age: in a frame at time `now` it drops by
/// `d * d * 49 / 10_000` thousandths, `d` being the milliseconds since it
/// appeared (none when it appeared later), and it stays exactly when it is
/// alive, has hit points, and lands at or above the ground line.
pub proof fn law_fall_by_age(w: World, now: u64, reading: Reading, spawn: Option<Target>)
    requires
        w.wf(),
        spawn_fits(w, spawn, now),
    ensures
        ({
            let t = if w.targets.len() == 0 {
                spawn.unwrap()
            } else {
                w.targets[0]
            };
            let d: int = if now >= t.elapsed_time {
                now - t.elapsed_time
            } else {
                0
            };
            let y = t.yst + d * d * 49 / 10_000;
            let next = step(w, now, reading, spawn).0;
            &&& next.targets.len() == (if t.is_still_alive && t.hp > 0 && y <= 4_400_000 {
                1int
            } else {
                0int
            })
            &&& next.targets.len() == 1 ==> next.targets[0].yst == y && next.targets[0].xst
                == t.xst
        }),
{
    law_enemy_phase(w, now, reading, spawn);
    let field = frame_field(w, spawn);
    assert(field[0] == if w.targets.len() == 0 {
        spawn.unwrap()
    } else {
        w.targets[0]
    });
}

/// An enemy does not move in the frame in which it appears: on an empty
/// field, the fresh enemy of column `x` stands after that frame at column `x`,
/// at the height where enemies appear (-1_920_000), with all 40 hit points.
pub proof fn law_fresh_enemy_stays_put(w: World, now: u64, reading: Reading, x: i64)
    requires
        w.wf(),
        w.targets.len() == 0,
        Target::valid_spawn_column(x),
    ensures
        step(w, now, reading, Some(Target::fresh(x, now))).0.targets.len() == 1,
        step(w, now, reading, Some(Target::fresh(x, now))).0.targets[0].xst == x,
        step(w, now, reading, Some(Target::fresh(x, now))).0.targets[0].yst == -1_920_000,
{
    let t = Target::fresh(x, now);
    assert(spawn_fits(w, Some(t), now));
    law_fall_by_age(w, now, reading, Some(t));
    assert(Some(t).unwrap() == t);
    assert(0int * 0int * 49 / 10_000 == 0);
}

/// The counters written on every frame: the last two things a frame draws are
/// the score, written at (200_000, 30_000) with the game's earned points, and
/// the count of destroyed enemies, written at (4_000_000, 30_000).
pub proof fn law_picture_captions(w: World)
    ensures
        picture(w).len() >= 2,
        picture(w)[picture(w).len() - 2] == (DrawCommand::Label {
            x: 200_000,
            y: 30_000,
            caption: (Caption { kind: CaptionKind::Score, value: w.earned_points }),
        }),
        picture(w)[picture(w).len() - 1] == (DrawCommand::Label {
            x: 4_000_000,
            y: 30_000,
            caption: (Caption { kind: CaptionKind::Destroyed, value: w.destroyed_enemies }),
        }),
{
}

} // verus!
