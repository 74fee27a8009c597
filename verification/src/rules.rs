//! What one frame of the game does, stated over plain values.
use vstd::prelude::*;

use crate::command::Reading;
use crate::entities::{
    Bullet, FirstTarget, Target, GROUND_Y, SPAWN_Y, TARGET_HEIGHT, TARGET_MASS, TARGET_WIDTH,
};

verus! {

/// How far a bullet climbs in one frame.
pub const BULLET_STEP: i64 = 100_000;
/// How far below an enemy's body a bullet still sets off its explosion.
pub const BLAST_MARGIN: i64 = 120_000;
/// From this many bullets on, bullets that left the top of the field are dropped.
pub const BULLET_CAP: usize = 70;
/// Points for each destroyed enemy.
pub const KILL_POINTS: i32 = 10;
/// How far the player slides in one frame.
pub const PLAYER_SPEED: i64 = 140_000;
/// The column from which the player may no longer slide right.
pub const RIGHT_EDGE: i64 = 5_750_000;
/// Width of the player.
pub const PLAYER_WIDTH: i64 = 1_750_000;
/// Height of the player.
pub const PLAYER_HEIGHT: i64 = 1_300_000;
/// An enemy whose dying animation has run this long (in milliseconds) ...
pub const DYING_FROM_MS: u64 = 850;
/// ... and not longer than this vanishes when hit again.
pub const DYING_UNTIL_MS: u64 = 1_300;
/// Stick readings from this value ...
pub const STICK_REST_LOW: i32 = 300;
/// ... up to this value leave the player where it is.
pub const STICK_REST_HIGH: i32 = 800;
/// Stick readings below this value slide the player left; the others right.
pub const STICK_LEFT_BELOW: i32 = 200;

/// Milliseconds from `then` to `now`, or zero when `then` is later.
pub open spec fn since(now: u64, then: u64) -> int {
    if now >= then {
        now - then
    } else {
        0
    }
}

/// How far an enemy drops in one frame once `ms` milliseconds have passed
/// since it appeared: 4.9 screen units per squared second.  The drop is
/// rounded down to a whole thousandth of a unit and time counts in whole
/// milliseconds, so positions can differ slightly from a floating-point
/// computation of the same fall.
pub open spec fn fall_distance(ms: int) -> int {
    ms * ms * 49 / 10_000
}

/// The top edge that enemy `t` reaches in the frame at time `now`.
pub open spec fn landing_y(t: Target, now: u64) -> int {
    t.yst + fall_distance(since(now, t.elapsed_time))
}

/// Enemy `t` is still on the field after falling at time `now`.
pub open spec fn stays_aloft(t: Target, now: u64) -> bool {
    t.is_still_alive && t.hp > 0 && landing_y(t, now) <= GROUND_Y
}

/// Enemy `t` after falling at time `now` (for an enemy with hit points left):
/// an enemy down to its last two points starts its dying animation.
pub open spec fn fallen(t: Target, now: u64) -> Target {
    if t.hp <= 2 {
        Target {
            yst: landing_y(t, now) as i64,
            is_animated: true,
            animation_start_time: Some(now),
            ..t
        }
    } else {
        Target { yst: landing_y(t, now) as i64, ..t }
    }
}

/// The enemies of `ts` that are still on the field after falling at time
/// `now`, fallen, in order.
pub open spec fn aloft(ts: Seq<Target>, now: u64) -> Seq<Target>
    decreases ts.len(),
{
    if ts.len() == 0 {
        ts
    } else {
        let before = aloft(ts.drop_last(), now);
        if stays_aloft(ts.last(), now) {
            before.push(fallen(ts.last(), now))
        } else {
            before
        }
    }
}

/// How many enemies of `ts` have no hit points left.
pub open spec fn defeated(ts: Seq<Target>) -> nat
    decreases ts.len(),
{
    if ts.len() == 0 {
        0
    } else {
        defeated(ts.drop_last()) + if ts.last().hp <= 0 {
            1nat
        } else {
            0nat
        }
    }
}

/// `y - d`, or the least `i64` where that is smaller.
pub open spec fn lowered(y: i64, d: i64) -> i64 {
    if y - d < i64::MIN {
        i64::MIN
    } else {
        (y - d) as i64
    }
}

/// Bullet `b` after climbing one step.
pub open spec fn climbed(b: Bullet) -> Bullet {
    Bullet { y_pos: lowered(b.y_pos, BULLET_STEP), ..b }
}

/// Bullet `b` is within the blast zone of enemy `t`: inside its columns,
/// between its top edge and a margin below its bottom edge.
pub open spec fn in_blast(b: Bullet, t: Target) -> bool {
    &&& t.xst <= b.x_pos
    &&& b.x_pos <= t.xst + t.width
    &&& b.y_pos <= t.yst + t.height + BLAST_MARGIN
    &&& t.yst <= b.y_pos
}

/// Bullet `b` is inside the body of enemy `t`.
pub open spec fn in_body(b: Bullet, t: Target) -> bool {
    &&& t.xst <= b.x_pos
    &&& b.x_pos <= t.xst + t.width
    &&& b.y_pos <= t.yst + t.height
    &&& t.yst <= b.y_pos
}

/// `hp` less one point, never below the least `i64`.
pub open spec fn weakened(hp: i64) -> i64 {
    if hp == i64::MIN {
        hp
    } else {
        (hp - 1) as i64
    }
}

/// Enemy `t` after a blast at time `now`: it loses a point; on its last point
/// it shows its dying animation, and vanishes if that animation has run long
/// enough.
pub open spec fn struck(t: Target, now: u64) -> Target {
    let t1 = if 0 < t.hp <= 1 {
        match t.animation_start_time {
            Some(start) => if DYING_FROM_MS <= since(now, start) <= DYING_UNTIL_MS {
                Target { is_animated: false, is_still_alive: false, width: 0, height: 0, ..t }
            } else {
                Target { is_animated: true, ..t }
            },
            None => Target { is_animated: true, ..t },
        }
    } else {
        t
    };
    Target { hp: weakened(t.hp), ..t1 }
}

/// Bullet `b` meets enemy `t` at time `now`: the bullet explodes when in the
/// blast zone of an enemy with hit points left, is marked as a hit when inside
/// the (struck) enemy's body, and the enemy is struck when in the zone.
pub open spec fn meet(b: Bullet, t: Target, now: u64) -> (Bullet, Target) {
    let blast = in_blast(b, t);
    let t2 = if blast {
        struck(t, now)
    } else {
        t
    };
    (Bullet { is_animated: blast && t.hp > 0, is_hit_target: in_body(b, t2), ..b }, t2)
}

/// Bullet `b` meets every enemy of `ts` in turn.
pub open spec fn sweep(b: Bullet, ts: Seq<Target>, now: u64) -> (Bullet, Seq<Target>)
    decreases ts.len(),
{
    if ts.len() == 0 {
        (b, ts)
    } else {
        let (b1, ts1) = sweep(b, ts.drop_last(), now);
        let (b2, t2) = meet(b1, ts.last(), now);
        (b2, ts1.push(t2))
    }
}

/// Every bullet of `bs` in turn climbs a step and then meets the enemies.
pub open spec fn volley(bs: Seq<Bullet>, ts: Seq<Target>, now: u64) -> (Seq<Bullet>, Seq<Target>)
    decreases bs.len(),
{
    if bs.len() == 0 {
        (bs, ts)
    } else {
        let (bs1, ts1) = volley(bs.drop_last(), ts, now);
        let (b2, ts2) = sweep(climbed(bs.last()), ts1, now);
        (bs1.push(b2), ts2)
    }
}

/// Bullet `b` stays in play: it hit nothing, and when the field is crowded it
/// has not left the top.
pub open spec fn bullet_survives(b: Bullet, crowded: bool) -> bool {
    !b.is_hit_target && (crowded ==> b.y_pos >= 0)
}

/// The bullets of `bs` that stay in play, in order.
pub open spec fn surviving_bullets(bs: Seq<Bullet>, crowded: bool) -> Seq<Bullet>
    decreases bs.len(),
{
    if bs.len() == 0 {
        bs
    } else {
        let before = surviving_bullets(bs.drop_last(), crowded);
        if bullet_survives(bs.last(), crowded) {
            before.push(bs.last())
        } else {
            before
        }
    }
}

/// The player's speed that stick reading `joy_y` asks for.
pub open spec fn stick_speed(joy_y: i32) -> i64 {
    if STICK_REST_LOW <= joy_y <= STICK_REST_HIGH {
        0
    } else if joy_y < STICK_LEFT_BELOW {
        (-PLAYER_SPEED) as i64
    } else {
        PLAYER_SPEED
    }
}

/// Speed `v` of a player at column `pos_x`, stopped at the edges of the field.
pub open spec fn bounded_speed(pos_x: i64, v: i64) -> i64 {
    if (pos_x <= 0 && v < 0) || (pos_x >= RIGHT_EDGE && v > 0) {
        0
    } else {
        v
    }
}

/// Enemy `t` has reached the ground over the player at column `pos_x`.
pub open spec fn threatens(t: Target, pos_x: i64) -> bool {
    &&& t.yst + t.height > GROUND_Y
    &&& t.xst + TARGET_WIDTH >= pos_x
    &&& t.xst < pos_x + PLAYER_WIDTH
    &&& !t.is_animated
}

/// Some enemy of `ts` has reached the player at column `pos_x`.
pub open spec fn player_caught(ts: Seq<Target>, pos_x: i64) -> bool {
    exists|i: int| 0 <= i < ts.len() && threatens(#[trigger] ts[i], pos_x)
}

/// The whole game state.
pub struct World {
    pub pos_x: i64,
    pub pos_y: i64,
    /// The trigger state of the last command.
    pub is_fire_on: u16,
    pub bullets: Seq<Bullet>,
    pub targets: Seq<Target>,
    pub earned_points: i32,
    pub destroyed_enemies: i32,
    pub first_target: FirstTarget,
}

/// An enemy as it stands on the field between frames.
pub open spec fn target_steady(t: Target) -> bool {
    &&& t.is_still_alive
    &&& t.width == TARGET_WIDTH
    &&& t.height == TARGET_HEIGHT
    &&& t.mass == TARGET_MASS
    &&& Target::valid_spawn_column(t.xst)
    &&& SPAWN_Y <= t.yst <= GROUND_Y
    &&& (t.animation_start_time is Some ==> t.hp <= 2)
}

/// The rightmost column the player can reach: one step past `RIGHT_EDGE`.
pub const PLAYER_X_MAX: i64 = 5_880_000;

/// The columns the player can reach from column zero: whole steps, from the
/// left edge to one step past the right edge.
pub open spec fn player_in_band(x: i64) -> bool {
    0 <= x <= PLAYER_X_MAX && x % PLAYER_SPEED == 0
}

/// A bullet as it stands on the field between frames.
pub open spec fn bullet_settled(b: Bullet) -> bool {
    !b.is_hit_target && b.y_pos <= GROUND_Y && player_in_band(b.x_pos)
}

impl World {
    /// The game state as every frame leaves it.
    pub open spec fn wf(self) -> bool {
        &&& self.targets.len() <= 1
        &&& forall|i: int| 0 <= i < self.targets.len() ==> target_steady(#[trigger] self.targets[i])
        &&& forall|i: int| 0 <= i < self.bullets.len() ==> bullet_settled(#[trigger] self.bullets[i])
        &&& player_in_band(self.pos_x)
        &&& self.pos_y == 0
        &&& self.destroyed_enemies >= 0
        &&& self.earned_points == KILL_POINTS * self.destroyed_enemies
        &&& self.first_target.is_still_alive
    }

    /// The score counters can take the enemies that the next frame destroys.
    pub open spec fn counters_fit(self) -> bool {
        self.earned_points + KILL_POINTS * defeated(self.targets) <= i32::MAX
    }

    /// The game state at the start: the player at column zero, nothing in
    /// play, no score.
    pub open spec fn initial(now_ms: u64) -> World {
        World {
            pos_x: 0,
            pos_y: 0,
            is_fire_on: 0,
            bullets: Seq::empty(),
            targets: Seq::empty(),
            earned_points: 0,
            destroyed_enemies: 0,
            first_target: FirstTarget::initial(now_ms),
        }
    }
}

/// `spawn` is the enemy that the frame at time `now` brings onto the field of
/// `w`: a fresh one exactly when the field is empty.
pub open spec fn spawn_fits(w: World, spawn: Option<Target>, now: u64) -> bool {
    match spawn {
        Some(t) => w.targets.len() == 0 && t == Target::fresh(t.xst, now)
            && Target::valid_spawn_column(t.xst),
        None => w.targets.len() > 0,
    }
}

/// The enemies of the field `ts` once `spawn` has been brought onto it.
pub open spec fn with_spawn(ts: Seq<Target>, spawn: Option<Target>) -> Seq<Target> {
    match spawn {
        Some(t) => if ts.len() == 0 {
            seq![t]
        } else {
            ts
        },
        None => ts,
    }
}

/// The field of the frame of `w`: its enemies once `spawn` came onto it.
pub open spec fn frame_field(w: World, spawn: Option<Target>) -> Seq<Target> {
    with_spawn(w.targets, spawn)
}

/// The bullets (climbed, marked) and enemies (fallen, struck) of the frame of
/// `w` at time `now`, once every bullet has met the enemies.
pub open spec fn frame_volley(w: World, now: u64, spawn: Option<Target>) -> (
    Seq<Bullet>,
    Seq<Target>,
) {
    volley(w.bullets, aloft(frame_field(w, spawn), now), now)
}

/// The field of `w` holds 70 bullets or more, so that those above the top leave.
pub open spec fn crowded(w: World) -> bool {
    w.bullets.len() >= BULLET_CAP
}

/// The bullets that stay in play after the frame of `w` at time `now`,
/// before any new shot.
pub open spec fn frame_bullets(w: World, now: u64, spawn: Option<Target>) -> Seq<Bullet> {
    surviving_bullets(frame_volley(w, now, spawn).0, crowded(w))
}

/// How a frame ends.
#[derive(Clone, Copy, Debug, PartialEq, Eq, Structural)]
pub enum FrameEnd {
    /// The game goes on.
    Play,
    /// An enemy reached the player: the game is over.
    Caught,
    /// The joystick line held three fields with a bad number: the frame's
    /// enemies and bullets moved, and then the game stops, as reading that
    /// number fails.
    Halt,
}

/// One frame at time `now` on the line reading `reading`: a fresh enemy
/// appears on an empty field; the enemies fall and those without hit points
/// are scored and removed, as are those that left the field; every bullet
/// climbs and meets the enemies; hit bullets (and, on a crowded field, those
/// above the top) leave.  Then a malformed line halts the game; a command
/// fires and moves the player; and unless the game halted, the frame ends
/// with the player caught exactly when an enemy has reached it.  The result
/// is the new state and how the frame ends.
pub open spec fn step(w: World, now: u64, reading: Reading, spawn: Option<Target>) -> (
    World,
    FrameEnd,
) {
    let kills = defeated(frame_field(w, spawn));
    let bullets = frame_bullets(w, now, spawn);
    let targets = frame_volley(w, now, spawn).1;
    let scored = World {
        bullets,
        targets,
        earned_points: (w.earned_points + KILL_POINTS * kills) as i32,
        destroyed_enemies: (w.destroyed_enemies + kills) as i32,
        ..w
    };
    let end = if player_caught(targets, w.pos_x) {
        FrameEnd::Caught
    } else {
        FrameEnd::Play
    };
    match reading {
        Reading::Idle => (scored, end),
        Reading::Malformed => (scored, FrameEnd::Halt),
        Reading::Steer(c) => {
            let v = bounded_speed(w.pos_x, stick_speed(c.joy_y));
            let fired = if c.fire == 1 {
                bullets.push(Bullet::fired_from(w.pos_x))
            } else {
                bullets
            };
            (World { pos_x: (w.pos_x + v) as i64, is_fire_on: c.fire, bullets: fired, ..scored }, end)
        },
    }
}

} // verus!
