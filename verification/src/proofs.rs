//! Facts about the frame rules that the implementation and the laws rest on.
use vstd::prelude::*;

use crate::entities::{Bullet, Target, GROUND_Y, SPAWN_Y};
use crate::rules::{
    aloft, bounded_speed, bullet_settled, in_blast, in_body, bullet_survives, climbed, crowded, defeated,
    fall_distance, fallen, frame_bullets, frame_field, frame_volley, landing_y, lowered, meet,
    player_in_band, since, spawn_fits, stays_aloft, stick_speed, struck, surviving_bullets, sweep,
    target_steady, volley, weakened, World, BULLET_STEP, PLAYER_SPEED,
};

verus! {

/// Beyond this many milliseconds an enemy drops below the ground in a single frame.
pub const FALL_MS_CAP: u64 = 1_000_000_000;

/// An enemy as the bullets find it in the frame at time `now`: steady, and a
/// dying animation, if any, started in this very frame.
pub open spec fn target_calm(t: Target, now: u64) -> bool {
    &&& target_steady(t)
    &&& (t.animation_start_time is Some ==> t.animation_start_time == Some(now))
}

/// Every enemy of `ts` is calm at time `now`.
pub open spec fn all_calm(ts: Seq<Target>, now: u64) -> bool {
    forall|k: int| 0 <= k < ts.len() ==> target_calm(#[trigger] ts[k], now)
}

/// Every enemy of `ts` is steady.
pub open spec fn all_steady(ts: Seq<Target>) -> bool {
    forall|k: int| 0 <= k < ts.len() ==> target_steady(#[trigger] ts[k])
}

/// An enemy never rises.
pub proof fn lemma_fall_nonnegative(ms: int)
    requires
        ms >= 0,
    ensures
        fall_distance(ms) >= 0,
{
    assert(ms * ms * 49 >= 0) by (nonlinear_arith)
        requires
            ms >= 0,
    ;
}

/// After `FALL_MS_CAP` milliseconds every enemy lands below the ground.
pub proof fn lemma_fall_beyond_cap(ms: int)
    requires
        ms > FALL_MS_CAP,
    ensures
        fall_distance(ms) > GROUND_Y - SPAWN_Y,
{
    assert(ms * ms * 49 / 10_000 > 6_320_000) by (nonlinear_arith)
        requires
            ms > 1_000_000_000,
    ;
}

/// A blast leaves a calm enemy calm, where it was, and never adds hit points.
pub proof fn lemma_struck_calm(t: Target, now: u64)
    requires
        target_calm(t, now),
    ensures
        target_calm(struck(t, now), now),
        struck(t, now).xst == t.xst,
        struck(t, now).yst == t.yst,
        struck(t, now).hp == weakened(t.hp),
{
    assert(since(now, now) == 0);
}

/// Meeting an enemy moves neither the bullet nor the enemy and keeps the
/// enemy calm.
pub proof fn lemma_meet_calm(b: Bullet, t: Target, now: u64)
    requires
        target_calm(t, now),
    ensures
        meet(b, t, now).0.x_pos == b.x_pos,
        meet(b, t, now).0.y_pos == b.y_pos,
        target_calm(meet(b, t, now).1, now),
        meet(b, t, now).1.xst == t.xst,
        meet(b, t, now).1.yst == t.yst,
        meet(b, t, now).1.hp <= t.hp,
        meet(b, t, now).1.animation_start_time == t.animation_start_time,
        t.is_animated ==> meet(b, t, now).1.is_animated,
{
    lemma_struck_calm(t, now);
}

/// A bullet meeting calm enemies keeps its place and leaves them calm.
pub proof fn lemma_sweep_calm(b: Bullet, ts: Seq<Target>, now: u64)
    requires
        all_calm(ts, now),
    ensures
        sweep(b, ts, now).1.len() == ts.len(),
        all_calm(sweep(b, ts, now).1, now),
        sweep(b, ts, now).0.x_pos == b.x_pos,
        sweep(b, ts, now).0.y_pos == b.y_pos,
        forall|k: int|
            0 <= k < ts.len() ==> (#[trigger] sweep(b, ts, now).1[k]).xst == ts[k].xst
                && sweep(b, ts, now).1[k].yst == ts[k].yst && sweep(b, ts, now).1[k].hp
                <= ts[k].hp && sweep(b, ts, now).1[k].animation_start_time
                == ts[k].animation_start_time && (ts[k].is_animated ==> sweep(
                b,
                ts,
                now,
            ).1[k].is_animated),
    decreases ts.len(),
{
    if ts.len() > 0 {
        assert(target_calm(ts[ts.len() - 1], now));
        lemma_sweep_calm(b, ts.drop_last(), now);
        let (b1, ts1) = sweep(b, ts.drop_last(), now);
        lemma_meet_calm(b1, ts.last(), now);
        let (b2, t2) = meet(b1, ts.last(), now);
        assert forall|k: int| 0 <= k < ts1.push(t2).len() implies target_calm(
            #[trigger] ts1.push(t2)[k],
            now,
        ) by {
            if k < ts1.len() {
                assert(ts1.push(t2)[k] == ts1[k]);
            }
        }
        assert forall|k: int| 0 <= k < ts.len() implies (#[trigger] ts1.push(t2)[k]).xst
            == ts[k].xst && ts1.push(t2)[k].yst == ts[k].yst && ts1.push(t2)[k].hp <= ts[k].hp
            && ts1.push(t2)[k].animation_start_time == ts[k].animation_start_time && (
        ts[k].is_animated ==> ts1.push(t2)[k].is_animated) by {
            if k < ts1.len() {
                assert(ts1.push(t2)[k] == ts1[k]);
                assert(ts.drop_last()[k] == ts[k]);
            }
        }
    }
}

/// A volley against calm enemies leaves them calm, and each bullet just
/// climbs one step.
pub proof fn lemma_volley_calm(bs: Seq<Bullet>, ts: Seq<Target>, now: u64)
    requires
        all_calm(ts, now),
    ensures
        volley(bs, ts, now).1.len() == ts.len(),
        all_calm(volley(bs, ts, now).1, now),
        volley(bs, ts, now).0.len() == bs.len(),
        forall|k: int|
            0 <= k < bs.len() ==> (#[trigger] volley(bs, ts, now).0[k]).x_pos == bs[k].x_pos
                && volley(bs, ts, now).0[k].y_pos == lowered(bs[k].y_pos, BULLET_STEP),
        forall|k: int|
            0 <= k < ts.len() ==> (#[trigger] volley(bs, ts, now).1[k]).xst == ts[k].xst
                && volley(bs, ts, now).1[k].yst == ts[k].yst && volley(bs, ts, now).1[k].hp
                <= ts[k].hp && volley(bs, ts, now).1[k].animation_start_time
                == ts[k].animation_start_time && (ts[k].is_animated ==> volley(
                bs,
                ts,
                now,
            ).1[k].is_animated),
    decreases bs.len(),
{
    if bs.len() > 0 {
        lemma_volley_calm(bs.drop_last(), ts, now);
        let (bs1, ts1) = volley(bs.drop_last(), ts, now);
        lemma_sweep_calm(climbed(bs.last()), ts1, now);
        let (b2, ts2) = sweep(climbed(bs.last()), ts1, now);
        assert forall|k: int| 0 <= k < ts.len() implies (#[trigger] ts2[k]).xst == ts[k].xst
            && ts2[k].yst == ts[k].yst && ts2[k].hp <= ts[k].hp && ts2[k].animation_start_time
            == ts[k].animation_start_time && (ts[k].is_animated ==> ts2[k].is_animated) by {
            assert(ts2[k].xst == ts1[k].xst);
        }
        assert forall|k: int| 0 <= k < bs.len() implies (#[trigger] bs1.push(b2)[k]).x_pos
            == bs[k].x_pos && bs1.push(b2)[k].y_pos == lowered(bs[k].y_pos, BULLET_STEP) by {
            if k < bs.len() - 1 {
                assert(bs1.push(b2)[k] == bs1[k]);
                assert(bs.drop_last()[k] == bs[k]);
            }
        }
    }
}

/// Falling leaves at most the enemies there were, each calm.
pub proof fn lemma_aloft_calm(ts: Seq<Target>, now: u64)
    requires
        all_steady(ts),
    ensures
        aloft(ts, now).len() <= ts.len(),
        all_calm(aloft(ts, now), now),
    decreases ts.len(),
{
    if ts.len() > 0 {
        let t = ts.last();
        assert(target_steady(ts[ts.len() - 1]));
        assert(all_steady(ts.drop_last())) by {
            assert forall|k: int| 0 <= k < ts.drop_last().len() implies target_steady(
                #[trigger] ts.drop_last()[k],
            ) by {
                assert(ts.drop_last()[k] == ts[k]);
            }
        }
        lemma_aloft_calm(ts.drop_last(), now);
        let before = aloft(ts.drop_last(), now);
        if stays_aloft(t, now) {
            lemma_fall_nonnegative(since(now, t.elapsed_time));
            assert(target_calm(fallen(t, now), now));
            assert forall|k: int| 0 <= k < before.push(fallen(t, now)).len() implies target_calm(
                #[trigger] before.push(fallen(t, now))[k],
                now,
            ) by {
                if k < before.len() {
                    assert(before.push(fallen(t, now))[k] == before[k]);
                }
            }
        }
    }
}

/// No more enemies are defeated than there are.
pub proof fn lemma_defeated_bound(ts: Seq<Target>)
    ensures
        defeated(ts) <= ts.len(),
    decreases ts.len(),
{
    if ts.len() > 0 {
        lemma_defeated_bound(ts.drop_last());
    }
}

/// The bullets that stay in play are settled, when every bullet was below
/// the ground line and in the player's band.
pub proof fn lemma_surviving_settled(bs: Seq<Bullet>, crowded: bool)
    requires
        forall|k: int|
            0 <= k < bs.len() ==> (#[trigger] bs[k]).y_pos <= GROUND_Y && player_in_band(
                bs[k].x_pos,
            ),
    ensures
        surviving_bullets(bs, crowded).len() <= bs.len(),
        forall|k: int|
            0 <= k < surviving_bullets(bs, crowded).len() ==> bullet_settled(
                #[trigger] surviving_bullets(bs, crowded)[k],
            ),
    decreases bs.len(),
{
    if bs.len() > 0 {
        assert(bs[bs.len() - 1] == bs.last());
        assert forall|k: int| 0 <= k < bs.drop_last().len() implies (
        #[trigger] bs.drop_last()[k]).y_pos <= GROUND_Y && player_in_band(
            bs.drop_last()[k].x_pos,
        ) by {
            assert(bs.drop_last()[k] == bs[k]);
        }
        lemma_surviving_settled(bs.drop_last(), crowded);
        let before = surviving_bullets(bs.drop_last(), crowded);
        if bullet_survives(bs.last(), crowded) {
            assert forall|k: int| 0 <= k < before.push(bs.last()).len() implies bullet_settled(
                #[trigger] before.push(bs.last())[k],
            ) by {
                if k < before.len() {
                    assert(before.push(bs.last())[k] == before[k]);
                }
            }
        }
    }
}

/// The positions of the bullets of `bs` that stay in play, in order.
pub open spec fn survivor_indices(bs: Seq<Bullet>, crowded: bool) -> Seq<int>
    decreases bs.len(),
{
    if bs.len() == 0 {
        Seq::empty()
    } else {
        let before = survivor_indices(bs.drop_last(), crowded);
        if bullet_survives(bs.last(), crowded) {
            before.push(bs.len() - 1)
        } else {
            before
        }
    }
}

/// The bullets that stay in play are exactly those of `bs` that survive, in
/// their order.
pub proof fn lemma_survivor_indices(bs: Seq<Bullet>, crowded: bool)
    ensures
        survivor_indices(bs, crowded).len() == surviving_bullets(bs, crowded).len(),
        forall|k: int|
            0 <= k < survivor_indices(bs, crowded).len() ==> 0 <= #[trigger] survivor_indices(
                bs,
                crowded,
            )[k] < bs.len() && surviving_bullets(bs, crowded)[k] == bs[survivor_indices(
                bs,
                crowded,
            )[k]],
        forall|k: int, l: int|
            0 <= k < l < survivor_indices(bs, crowded).len() ==> #[trigger] survivor_indices(
                bs,
                crowded,
            )[k] < #[trigger] survivor_indices(bs, crowded)[l],
        forall|j: int|
            0 <= j < bs.len() ==> (bullet_survives(#[trigger] bs[j], crowded) <==> survivor_indices(
                bs,
                crowded,
            ).contains(j)),
    decreases bs.len(),
{
    if bs.len() > 0 {
        let n = bs.len() - 1;
        let init = bs.drop_last();
        lemma_survivor_indices(init, crowded);
        let before = survivor_indices(init, crowded);
        let kept = surviving_bullets(init, crowded);
        let idx = survivor_indices(bs, crowded);
        assert(bs.last() == bs[n]);
        assert forall|k: int| 0 <= k < before.len() implies before[k] < n && bs[before[k]]
            == init[before[k]] by {}
        assert forall|j: int| 0 <= j < bs.len() implies (bullet_survives(#[trigger] bs[j], crowded)
            <==> idx.contains(j)) by {
            if j < n {
                assert(init[j] == bs[j]);
                if idx.contains(j) {
                    let k = choose|k: int| 0 <= k < idx.len() && idx[k] == j;
                    assert(k < before.len());
                    assert(before[k] == j);
                }
                if before.contains(j) {
                    let k = choose|k: int| 0 <= k < before.len() && before[k] == j;
                    if bullet_survives(bs[n], crowded) {
                        assert(idx[k] == j);
                    }
                }
            } else {
                if idx.contains(j) {
                    let k = choose|k: int| 0 <= k < idx.len() && idx[k] == j;
                    if k < before.len() {
                        assert(before[k] < n);
                    }
                }
                if bullet_survives(bs[n], crowded) {
                    assert(idx[before.len() as int] == n);
                }
            }
        }
    }
}

/// A frame never takes the player out of its band.
pub proof fn lemma_player_band(x: i64, joy_y: i32)
    requires
        player_in_band(x),
    ensures
        player_in_band((x + bounded_speed(x, stick_speed(joy_y))) as i64),
{
    let q = x / PLAYER_SPEED;
    assert(x == q * PLAYER_SPEED);
    assert(0 <= q <= 42);
}

/// What every frame of a well-formed game is made of: a steady field of at
/// most one enemy, calm enemies before and after the bullets, bullets that
/// only climb, and settled bullets after the hit ones left.
pub proof fn lemma_frame(w: World, now: u64, spawn: Option<Target>)
    requires
        w.wf(),
        spawn_fits(w, spawn, now),
    ensures
        all_steady(frame_field(w, spawn)),
        frame_field(w, spawn).len() <= 1,
        defeated(frame_field(w, spawn)) == defeated(w.targets),
        defeated(w.targets) <= w.targets.len(),
        aloft(frame_field(w, spawn), now).len() <= frame_field(w, spawn).len(),
        all_calm(aloft(frame_field(w, spawn), now), now),
        frame_volley(w, now, spawn).1.len() == aloft(frame_field(w, spawn), now).len(),
        all_calm(frame_volley(w, now, spawn).1, now),
        forall|k: int|
            0 <= k < aloft(frame_field(w, spawn), now).len() ==> (#[trigger] frame_volley(
                w,
                now,
                spawn,
            ).1[k]).xst == aloft(frame_field(w, spawn), now)[k].xst && frame_volley(
                w,
                now,
                spawn,
            ).1[k].yst == aloft(frame_field(w, spawn), now)[k].yst && frame_volley(
                w,
                now,
                spawn,
            ).1[k].hp <= aloft(frame_field(w, spawn), now)[k].hp && frame_volley(
                w,
                now,
                spawn,
            ).1[k].animation_start_time == aloft(frame_field(w, spawn), now)[k].animation_start_time
                && (aloft(frame_field(w, spawn), now)[k].is_animated ==> frame_volley(
                w,
                now,
                spawn,
            ).1[k].is_animated),
        frame_volley(w, now, spawn).0.len() == w.bullets.len(),
        forall|k: int|
            0 <= k < w.bullets.len() ==> (#[trigger] frame_volley(w, now, spawn).0[k]).x_pos
                == w.bullets[k].x_pos && frame_volley(w, now, spawn).0[k].y_pos == lowered(
                w.bullets[k].y_pos,
                BULLET_STEP,
            ),
        frame_bullets(w, now, spawn).len() <= w.bullets.len(),
        forall|k: int|
            0 <= k < frame_bullets(w, now, spawn).len() ==> bullet_settled(
                #[trigger] frame_bullets(w, now, spawn)[k],
            ),
{
    let field = frame_field(w, spawn);
    assert forall|k: int| 0 <= k < field.len() implies target_steady(#[trigger] field[k]) by {
        if w.targets.len() > 0 {
            assert(target_steady(w.targets[k]));
        }
    }
    if w.targets.len() == 0 {
        assert(field.drop_last() =~= Seq::<Target>::empty());
        assert(defeated(field) == defeated(field.drop_last()));
        assert(w.targets =~= Seq::<Target>::empty());
    }
    lemma_defeated_bound(w.targets);
    lemma_aloft_calm(field, now);
    lemma_volley_calm(w.bullets, aloft(field, now), now);
    let moved = frame_volley(w, now, spawn).0;
    assert forall|j: int| 0 <= j < moved.len() implies (#[trigger] moved[j]).y_pos
        <= GROUND_Y && player_in_band(moved[j].x_pos) by {
        assert(bullet_settled(w.bullets[j]));
    }
    lemma_surviving_settled(moved, crowded(w));
}

/// How many bullets of `bs`, each one step higher, are within the blast zone
/// of enemy `t`.
pub open spec fn blasts(bs: Seq<Bullet>, t: Target) -> nat
    decreases bs.len(),
{
    if bs.len() == 0 {
        0
    } else {
        blasts(bs.drop_last(), t) + if in_blast(climbed(bs.last()), t) {
            1nat
        } else {
            0nat
        }
    }
}

/// Against a single calm enemy, a volley takes one hit point per bullet in its
/// blast zone, leaves the enemy where and as large as it was, and marks as
/// hits exactly the bullets that climbed into its body.
pub proof fn lemma_volley_single(bs: Seq<Bullet>, t: Target, now: u64)
    requires
        target_calm(t, now),
        t.hp - bs.len() > i64::MIN,
    ensures
        volley(bs, seq![t], now).1.len() == 1,
        volley(bs, seq![t], now).1[0].hp == t.hp - blasts(bs, t),
        volley(bs, seq![t], now).1[0].xst == t.xst,
        volley(bs, seq![t], now).1[0].yst == t.yst,
        target_calm(volley(bs, seq![t], now).1[0], now),
        volley(bs, seq![t], now).0.len() == bs.len(),
        forall|j: int|
            0 <= j < bs.len() ==> (#[trigger] volley(bs, seq![t], now).0[j]).is_hit_target
                == in_body(climbed(bs[j]), t),
        blasts(bs, t) <= bs.len(),
    decreases bs.len(),
{
    if bs.len() > 0 {
        let init = bs.drop_last();
        lemma_volley_single(init, t, now);
        let (bs1, ts1) = volley(init, seq![t], now);
        let t1 = ts1[0];
        let c = climbed(bs.last());
        assert(ts1.drop_last() =~= Seq::<Target>::empty());
        assert(ts1.last() == t1);
        let (b2, t2) = meet(c, t1, now);
        assert(sweep(c, ts1.drop_last(), now) == (c, Seq::<Target>::empty()));
        assert(sweep(c, ts1, now) == (b2, Seq::<Target>::empty().push(t2)));
        lemma_meet_calm(c, t1, now);
        assert(in_blast(c, t1) == in_blast(c, t));
        assert(in_body(c, t2) == in_body(c, t));
        assert forall|j: int| 0 <= j < bs.len() implies (#[trigger] bs1.push(b2)[j]).is_hit_target
            == in_body(climbed(bs[j]), t) by {
            if j < init.len() {
                assert(bs1.push(b2)[j] == bs1[j]);
                assert(init[j] == bs[j]);
            }
        }
    }
}

} // verus!
