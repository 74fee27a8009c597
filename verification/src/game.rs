//! The game state and the frame that advances it.
use vstd::prelude::*;

use crate::command::Reading;
use crate::entities::{Bullet, FirstTarget, Target, GROUND_Y, TARGET_WIDTH};
use crate::proofs::{
    all_calm, all_steady, lemma_defeated_bound, lemma_fall_beyond_cap, lemma_fall_nonnegative,
    lemma_frame, lemma_meet_calm, lemma_player_band, lemma_sweep_calm, lemma_volley_calm,
    target_calm, FALL_MS_CAP,
};
use crate::rules::{
    aloft, bounded_speed, climbed, defeated, fall_distance, frame_field, in_blast, in_body, meet,
    player_caught, player_in_band, since, spawn_fits, stays_aloft, step, stick_speed, struck,
    surviving_bullets, sweep, target_steady, threatens, volley, FrameEnd, World, BLAST_MARGIN,
    BULLET_CAP, BULLET_STEP, DYING_FROM_MS, DYING_UNTIL_MS, KILL_POINTS, PLAYER_SPEED,
    PLAYER_WIDTH, RIGHT_EDGE, STICK_LEFT_BELOW, STICK_REST_HIGH, STICK_REST_LOW,
};

verus! {

/// Milliseconds from `then` to `now`, or zero when `then` is later.
fn millis_since(now: u64, then: u64) -> (ms: u64)
    ensures
        ms == since(now, then),
{
    if now >= then {
        now - then
    } else {
        0
    }
}

/// How far an enemy drops in the frame `ms` milliseconds after it appeared.
fn fall_for(ms: u64) -> (d: i64)
    requires
        ms <= FALL_MS_CAP,
    ensures
        d == fall_distance(ms as int),
        0 <= d <= 4_900_000_000_000_000,
{
    let m = ms as u128;
    assert(m * m <= 1_000_000_000_000_000_000) by (nonlinear_arith)
        requires
            m <= 1_000_000_000,
    ;
    let sq = m * m;
    let f = sq * 49 / 10_000;
    assert(f <= 4_900_000_000_000_000);
    f as i64
}

/// The enemies of `ts` after falling at time `now`, and how many of them had
/// no hit points left.
fn fall_phase(ts: &Vec<Target>, now: u64) -> (r: (Vec<Target>, usize))
    requires
        all_steady(ts@),
    ensures
        r.0@ == aloft(ts@, now),
        r.1 == defeated(ts@),
{
    let mut out: Vec<Target> = Vec::new();
    let mut kills: usize = 0;
    let n = ts.len();
    for i in 0..n
        invariant
            n == ts@.len(),
            all_steady(ts@),
            out@ == aloft(ts@.take(i as int), now),
            kills == defeated(ts@.take(i as int)),
            kills <= i,
    {
        let t = ts[i];
        let ghost pre = ts@.take(i + 1);
        assert(pre.drop_last() =~= ts@.take(i as int));
        assert(pre.last() == t);
        assert(target_steady(ts@[i as int]));
        if t.hp <= 0 {
            kills = kills + 1;
        } else if t.is_still_alive {
            let ms = millis_since(now, t.elapsed_time);
            if ms <= FALL_MS_CAP {
                let d = fall_for(ms);
                let y = t.yst + d;
                if y <= GROUND_Y {
                    proof {
                        lemma_fall_nonnegative(ms as int);
                    }
                    if t.hp <= 2 {
                        out.push(
                            Target {
                                yst: y,
                                is_animated: true,
                                animation_start_time: Some(now),
                                ..t
                            },
                        );
                    } else {
                        out.push(Target { yst: y, ..t });
                    }
                    assert(stays_aloft(t, now));
                }
            } else {
                proof {
                    lemma_fall_beyond_cap(ms as int);
                }
            }
        }
    }
    assert(ts@.take(n as int) =~= ts@);
    (out, kills)
}

/// `hp` less one point, never below the least `i64`.
fn weaken(hp: i64) -> (r: i64)
    ensures
        r == crate::rules::weakened(hp),
{
    if hp == i64::MIN {
        hp
    } else {
        hp - 1
    }
}

/// Enemy `t` after a blast at time `now`.
fn strike(t: Target, now: u64) -> (r: Target)
    ensures
        r == struck(t, now),
{
    let mut t1 = t;
    if 0 < t.hp && t.hp <= 1 {
        t1.is_animated = true;
        match t.animation_start_time {
            Some(start) => {
                let passed = millis_since(now, start);
                if DYING_FROM_MS <= passed && passed <= DYING_UNTIL_MS {
                    t1.is_animated = false;
                    t1.is_still_alive = false;
                    t1.width = 0;
                    t1.height = 0;
                }
            },
            None => {},
        }
    }
    t1.hp = weaken(t.hp);
    t1
}

/// Bullet `b` meets the calm enemy `t` at time `now`.
fn meet_target(b: Bullet, t: Target, now: u64) -> (r: (Bullet, Target))
    requires
        target_calm(t, now),
    ensures
        r == meet(b, t, now),
{
    proof {
        lemma_meet_calm(b, t, now);
    }
    let blast = t.xst <= b.x_pos && b.x_pos <= t.xst + t.width && b.y_pos <= t.yst + t.height
        + BLAST_MARGIN && t.yst <= b.y_pos;
    assert(blast == in_blast(b, t));
    let t2 = if blast {
        strike(t, now)
    } else {
        t
    };
    let hit = t2.xst <= b.x_pos && b.x_pos <= t2.xst + t2.width && b.y_pos <= t2.yst + t2.height
        && t2.yst <= b.y_pos;
    assert(hit == in_body(b, t2));
    (Bullet { is_animated: blast && t.hp > 0, is_hit_target: hit, ..b }, t2)
}

/// Bullet `b` meets every enemy of `ts` in turn.
fn sweep_targets(b: Bullet, ts: &mut Vec<Target>, now: u64) -> (r: Bullet)
    requires
        all_calm(old(ts)@, now),
    ensures
        (r, final(ts)@) == sweep(b, old(ts)@, now),
{
    let ghost ts0 = ts@;
    let mut cur = b;
    let n = ts.len();
    for j in 0..n
        invariant
            n == ts0.len(),
            all_calm(ts0, now),
            ts@.len() == n,
            ({
                let (bj, tsj) = sweep(b, ts0.take(j as int), now);
                &&& cur == bj
                &&& ts@ =~= tsj + ts0.skip(j as int)
            }),
    {
        proof {
            lemma_sweep_calm(b, ts0.take(j as int), now);
            assert(ts0.take(j + 1).drop_last() =~= ts0.take(j as int));
            assert(ts0.take(j + 1).last() == ts0[j as int]);
            assert(ts@[j as int] == ts0[j as int]);
        }
        let t = ts[j];
        let (b2, t2) = meet_target(cur, t, now);
        cur = b2;
        ts.set(j, t2);
    }
    assert(ts0.take(n as int) =~= ts0);
    cur
}

/// Every bullet of `bs` in turn climbs a step and meets the enemies `ts`.
fn run_volley(bs: &mut Vec<Bullet>, ts: &mut Vec<Target>, now: u64)
    requires
        all_calm(old(ts)@, now),
    ensures
        (final(bs)@, final(ts)@) == volley(old(bs)@, old(ts)@, now),
{
    let ghost bs0 = bs@;
    let ghost ts0 = ts@;
    let n = bs.len();
    for i in 0..n
        invariant
            n == bs0.len(),
            all_calm(ts0, now),
            bs@.len() == n,
            ({
                let (bsi, tsi) = volley(bs0.take(i as int), ts0, now);
                &&& bs@ =~= bsi + bs0.skip(i as int)
                &&& ts@ == tsi
            }),
    {
        proof {
            lemma_volley_calm(bs0.take(i as int), ts0, now);
            assert(bs0.take(i + 1).drop_last() =~= bs0.take(i as int));
            assert(bs0.take(i + 1).last() == bs0[i as int]);
            assert(bs@[i as int] == bs0[i as int]);
        }
        let b = bs[i];
        let up = if b.y_pos >= i64::MIN + BULLET_STEP {
            b.y_pos - BULLET_STEP
        } else {
            i64::MIN
        };
        let moved = Bullet { y_pos: up, ..b };
        assert(moved == climbed(b));
        let done = sweep_targets(moved, ts, now);
        bs.set(i, done);
    }
    assert(bs0.take(n as int) =~= bs0);
}

/// The bullets of `bs` that stay in play.
fn keep_bullets(bs: &Vec<Bullet>, crowded: bool) -> (r: Vec<Bullet>)
    ensures
        r@ == surviving_bullets(bs@, crowded),
{
    let mut out: Vec<Bullet> = Vec::new();
    let n = bs.len();
    for i in 0..n
        invariant
            n == bs@.len(),
            out@ == surviving_bullets(bs@.take(i as int), crowded),
    {
        let b = bs[i];
        let ghost pre = bs@.take(i + 1);
        assert(pre.drop_last() =~= bs@.take(i as int));
        assert(pre.last() == b);
        if !b.is_hit_target && (!crowded || b.y_pos >= 0) {
            out.push(b);
        }
    }
    assert(bs@.take(n as int) =~= bs@);
    out
}

/// Whether some enemy of `ts` has reached the player at column `pos_x`.
fn catches(ts: &Vec<Target>, pos_x: i64, now: u64) -> (r: bool)
    requires
        all_calm(ts@, now),
        player_in_band(pos_x),
    ensures
        r == player_caught(ts@, pos_x),
{
    let n = ts.len();
    for i in 0..n
        invariant
            n == ts@.len(),
            all_calm(ts@, now),
            player_in_band(pos_x),
            forall|k: int| 0 <= k < i ==> !threatens(#[trigger] ts@[k], pos_x),
    {
        let t = ts[i];
        assert(target_calm(ts@[i as int], now));
        if t.yst + t.height > GROUND_Y && t.xst + TARGET_WIDTH >= pos_x && t.xst < pos_x
            + PLAYER_WIDTH && !t.is_animated {
            assert(threatens(ts@[i as int], pos_x));
            return true;
        }
    }
    false
}

/// The game: the player, the bullets, the falling enemies and the score.
pub struct GameState {
    pos_x: i64,
    pos_y: i64,
    is_fire_on: u16,
    bullets: Vec<Bullet>,
    targets: Vec<Target>,
    earned_points: i32,
    destroyed_enemies: i32,
    first_target: FirstTarget,
}

impl View for GameState {
    type V = World;

    closed spec fn view(&self) -> World {
        World {
            pos_x: self.pos_x,
            pos_y: self.pos_y,
            is_fire_on: self.is_fire_on,
            bullets: self.bullets@,
            targets: self.targets@,
            earned_points: self.earned_points,
            destroyed_enemies: self.destroyed_enemies,
            first_target: self.first_target,
        }
    }
}

impl GameState {
    /// The game as it starts at time `now_ms`.
    pub fn new(now_ms: u64) -> (g: GameState)
        ensures
            g@ == World::initial(now_ms),
            g@.wf(),
    {
        let g = GameState {
            pos_x: 0,
            pos_y: 0,
            is_fire_on: 0,
            bullets: Vec::new(),
            targets: Vec::new(),
            earned_points: 0,
            destroyed_enemies: 0,
            first_target: FirstTarget::new(now_ms),
        };
        assert(g@.bullets =~= Seq::<Bullet>::empty());
        assert(g@.targets =~= Seq::<Target>::empty());
        g
    }

    /// Whether the score counters can take the enemies that the next frame
    /// destroys.
    pub fn counters_fit(&self) -> (b: bool)
        requires
            self@.wf(),
        ensures
            b == self@.counters_fit(),
    {
        let mut pending: i64 = 0;
        let n = self.targets.len();
        proof {
            lemma_defeated_bound(self.targets@);
        }
        for i in 0..n
            invariant
                n == self.targets@.len(),
                n <= 1,
                pending == defeated(self.targets@.take(i as int)),
                pending <= i,
        {
            let ghost pre = self.targets@.take(i + 1);
            assert(pre.drop_last() =~= self.targets@.take(i as int));
            if self.targets[i].hp <= 0 {
                pending = pending + 1;
            }
        }
        assert(self.targets@.take(n as int) =~= self.targets@);
        (self.earned_points as i64) + 10 * pending <= i32::MAX as i64
    }

    /// One frame at time `now_ms`: `reading` is how the joystick line of the
    /// frame was understood, and `spawn` the fresh enemy that comes onto an
    /// empty field.  Returns how the frame ends.
    pub fn advance(&mut self, now_ms: u64, reading: Reading, spawn: Option<Target>) -> (end:
        FrameEnd)
        requires
            old(self)@.wf(),
            old(self)@.counters_fit(),
            spawn_fits(old(self)@, spawn, now_ms),
        ensures
            (final(self)@, end) == step(old(self)@, now_ms, reading, spawn),
            final(self)@.wf(),
    {
        let ghost w = self@;
        proof {
            lemma_frame(w, now_ms, spawn);
        }
        // The field: a fresh enemy on an empty one.
        if self.targets.len() == 0 {
            match spawn {
                Some(t) => {
                    self.targets.push(t);
                },
                None => {},
            }
        }
        assert(self.targets@ =~= frame_field(w, spawn));
        // Enemies fall; the defeated are scored.
        let (mut field_after, kills) = fall_phase(&self.targets, now_ms);
        let k = kills as i32;
        self.earned_points = self.earned_points + KILL_POINTS * k;
        self.destroyed_enemies = self.destroyed_enemies + k;
        // Bullets climb and meet the enemies; hit ones leave.
        let crowded = self.bullets.len() >= BULLET_CAP;
        run_volley(&mut self.bullets, &mut field_after, now_ms);
        self.bullets = keep_bullets(&self.bullets, crowded);
        self.targets = field_after;
        let end = if catches(&self.targets, self.pos_x, now_ms) {
            FrameEnd::Caught
        } else {
            FrameEnd::Play
        };
        match reading {
            Reading::Idle => end,
            Reading::Malformed => FrameEnd::Halt,
            Reading::Steer(c) => {
                if c.fire == 1 {
                    self.bullets.push(Bullet::new(self.pos_x));
                }
                let wanted = if STICK_REST_LOW <= c.joy_y && c.joy_y <= STICK_REST_HIGH {
                    0
                } else if c.joy_y < STICK_LEFT_BELOW {
                    -PLAYER_SPEED
                } else {
                    PLAYER_SPEED
                };
                assert(wanted == stick_speed(c.joy_y));
                let v = if (self.pos_x <= 0 && wanted < 0) || (self.pos_x >= RIGHT_EDGE && wanted
                    > 0) {
                    0
                } else {
                    wanted
                };
                assert(v == bounded_speed(self.pos_x, stick_speed(c.joy_y)));
                proof {
                    lemma_player_band(self.pos_x, c.joy_y);
                }
                self.pos_x = self.pos_x + v;
                self.is_fire_on = c.fire;
                end
            },
        }
    }

    /// One frame at time `now_ms` on the line reading `reading`, with a fresh
    /// enemy at a random column when the field is empty.  Returns how the
    /// frame ends.
    pub fn update(&mut self, now_ms: u64, reading: Reading) -> (end: FrameEnd)
        requires
            old(self)@.wf(),
            old(self)@.counters_fit(),
        ensures
            final(self)@.wf(),
            exists|xst: i64|
                #![trigger Target::fresh(xst, now_ms)]
                Target::valid_spawn_column(xst) && (final(self)@, end) == step(
                    old(self)@,
                    now_ms,
                    reading,
                    if old(self)@.targets.len() == 0 {
                        Some(Target::fresh(xst, now_ms))
                    } else {
                        None
                    },
                ),
    {
        let spawn = if self.targets.len() == 0 {
            Some(Target::new(now_ms))
        } else {
            None
        };
        let ghost xst = match spawn {
            Some(t) => t.xst,
            None => crate::entities::SPAWN_X_MIN,
        };
        let ghost w = self@;
        let end = self.advance(now_ms, reading, spawn);
        assert(spawn == if w.targets.len() == 0 {
            Some(Target::fresh(xst, now_ms))
        } else {
            None
        });
        assert(Target::valid_spawn_column(xst) && (self@, end) == step(
            w,
            now_ms,
            reading,
            if w.targets.len() == 0 {
                Some(Target::fresh(xst, now_ms))
            } else {
                None
            },
        ));
        end
    }

    /// The player's column.
    pub fn pos_x(&self) -> (x: i64)
        ensures
            x == self@.pos_x,
    {
        self.pos_x
    }

    /// The player's height above the ground line.
    pub fn pos_y(&self) -> (y: i64)
        ensures
            y == self@.pos_y,
    {
        self.pos_y
    }

    /// The trigger state of the last command.
    pub fn is_fire_on(&self) -> (f: u16)
        ensures
            f == self@.is_fire_on,
    {
        self.is_fire_on
    }

    /// The bullets in play.
    pub fn bullets(&self) -> (bs: &Vec<Bullet>)
        ensures
            bs@ == self@.bullets,
    {
        &self.bullets
    }

    /// The falling enemies.
    pub fn targets(&self) -> (ts: &Vec<Target>)
        ensures
            ts@ == self@.targets,
    {
        &self.targets
    }

    /// The score.
    pub fn earned_points(&self) -> (p: i32)
        ensures
            p == self@.earned_points,
    {
        self.earned_points
    }

    /// How many enemies were destroyed.
    pub fn destroyed_enemies(&self) -> (d: i32)
        ensures
            d == self@.destroyed_enemies,
    {
        self.destroyed_enemies
    }

    /// The leading enemy.
    pub fn first_target(&self) -> (t: FirstTarget)
        ensures
            t == self@.first_target,
    {
        self.first_target
    }
}

} // verus!
