//! What a frame shows and plays, decided from the game state.
use vstd::prelude::*;

use crate::entities::{Bullet, Target, GROUND_Y};
use crate::game::GameState;
use crate::rules::{lowered, target_steady, World, PLAYER_HEIGHT, PLAYER_WIDTH};

verus! {

/// Radius of the glow of an enemy in its dying animation.
pub const GLOW_RADIUS: i64 = 170_000;
/// Flattening tolerance of an enemy's glow.
pub const GLOW_TOLERANCE: i64 = 1_000;
/// Radius of a bullet in flight.
pub const BULLET_RADIUS: i64 = 50_000;
/// How far above its position a bullet in flight is drawn.
pub const BULLET_LIFT: i64 = 19_000;
/// Radius of an exploding bullet.
pub const BLAST_RADIUS: i64 = 300_000;
/// Flattening tolerance of bullets.
pub const BULLET_TOLERANCE: i64 = 2_000;
/// Where the score is written.
pub const SCORE_X: i64 = 200_000;
/// Where the count of destroyed enemies is written.
pub const DESTROYED_X: i64 = 4_000_000;
/// The line on which both counters are written.
pub const CAPTION_Y: i64 = 30_000;

/// The colours a frame uses.
#[derive(Clone, Copy, Debug, PartialEq, Eq, Structural)]
pub enum Paint {
    White,
    Black,
    Red,
    /// The orange of explosions and dying enemies.
    Ember,
}

/// The sounds a frame plays.
#[derive(Clone, Copy, Debug, PartialEq, Eq, Structural)]
pub enum Cue {
    Fire,
    Hit,
}

/// Which counter a caption shows.
#[derive(Clone, Copy, Debug, PartialEq, Eq, Structural)]
pub enum CaptionKind {
    Score,
    Destroyed,
}

/// A counter written on the screen.
#[derive(Clone, Copy, Debug, PartialEq, Eq, Structural)]
pub struct Caption {
    pub kind: CaptionKind,
    pub value: i32,
}

/// One thing a frame draws or plays, in the order given.
#[derive(Clone, Copy, Debug, PartialEq, Eq, Structural)]
pub enum DrawCommand {
    /// A filled rectangle with its top-left corner at `(x, y)`.
    Quad { x: i64, y: i64, w: i64, h: i64, paint: Paint },
    /// A filled circle centred at `(x, y)`.
    Circle { x: i64, y: i64, radius: i64, tolerance: i64, paint: Paint },
    /// A counter written from `(x, y)`.
    Label { x: i64, y: i64, caption: Caption },
    /// A sound.
    Sound(Cue),
}

/// How enemy `t` is drawn: a white block, or an orange glow at its centre
/// while it is dying.
pub open spec fn target_stroke(t: Target) -> DrawCommand {
    if !t.is_animated {
        DrawCommand::Quad { x: t.xst, y: t.yst, w: t.width, h: t.height, paint: Paint::White }
    } else {
        DrawCommand::Circle {
            x: (t.xst + t.width / 2) as i64,
            y: (t.yst + t.height / 2) as i64,
            radius: GLOW_RADIUS,
            tolerance: GLOW_TOLERANCE,
            paint: Paint::Ember,
        }
    }
}

/// How bullet `b` is drawn (and heard): a large orange blast with the hit
/// sound while it explodes and the leading enemy lives, a small red ball
/// otherwise.
pub open spec fn bullet_strokes(b: Bullet, leader_alive: bool) -> Seq<DrawCommand> {
    if b.is_animated && !b.is_hit_target && leader_alive {
        seq![
            DrawCommand::Circle {
                x: b.x_pos,
                y: b.y_pos,
                radius: BLAST_RADIUS,
                tolerance: BULLET_TOLERANCE,
                paint: Paint::Ember,
            },
            DrawCommand::Sound(Cue::Hit),
        ]
    } else {
        seq![
            DrawCommand::Circle {
                x: b.x_pos,
                y: lowered(b.y_pos, BULLET_LIFT),
                radius: BULLET_RADIUS,
                tolerance: BULLET_TOLERANCE,
                paint: Paint::Red,
            },
        ]
    }
}

/// The strokes of all bullets of `bs`, in order.
pub open spec fn bullets_picture(bs: Seq<Bullet>, leader_alive: bool) -> Seq<DrawCommand>
    decreases bs.len(),
{
    if bs.len() == 0 {
        Seq::empty()
    } else {
        bullets_picture(bs.drop_last(), leader_alive) + bullet_strokes(bs.last(), leader_alive)
    }
}

/// How the player is drawn: black with the firing sound while the trigger is
/// held, white otherwise.
pub open spec fn player_picture(w: World) -> Seq<DrawCommand> {
    let quad = |paint: Paint|
        DrawCommand::Quad { x: w.pos_x, y: GROUND_Y, w: PLAYER_WIDTH, h: PLAYER_HEIGHT, paint };
    if w.is_fire_on == 1 {
        seq![DrawCommand::Sound(Cue::Fire), quad(Paint::Black)]
    } else {
        seq![quad(Paint::White)]
    }
}

/// Everything a frame of `w` draws and plays: the enemies, the player, the
/// bullets, then the two counters.
pub open spec fn picture(w: World) -> Seq<DrawCommand> {
    w.targets.map_values(|t: Target| target_stroke(t)) + player_picture(w) + bullets_picture(
        w.bullets,
        w.first_target.is_still_alive,
    ) + seq![
        DrawCommand::Label {
            x: SCORE_X,
            y: CAPTION_Y,
            caption: Caption { kind: CaptionKind::Score, value: w.earned_points },
        },
        DrawCommand::Label {
            x: DESTROYED_X,
            y: CAPTION_Y,
            caption: Caption { kind: CaptionKind::Destroyed, value: w.destroyed_enemies },
        },
    ]
}

/// The character of the decimal digit `d`.
pub open spec fn digit_char(d: int) -> char {
    (d + 48) as char
}

/// The decimal digits of `n`, most significant first, without leading zeros.
pub open spec fn digits_of(n: nat) -> Seq<char>
    decreases n,
{
    if n < 10 {
        seq![digit_char(n as int)]
    } else {
        digits_of(n / 10).push(digit_char((n % 10) as int))
    }
}

/// `v` written in decimal, with a leading `-` when negative.
pub open spec fn decimal(v: int) -> Seq<char> {
    if v < 0 {
        seq!['-'] + digits_of((-v) as nat)
    } else {
        digits_of(v as nat)
    }
}

/// The words in front of the number of a caption of kind `k`.
pub open spec fn caption_prefix(k: CaptionKind) -> Seq<char> {
    match k {
        CaptionKind::Score => seq!['S', 'c', 'o', 'r', 'e', ':', ' '],
        CaptionKind::Destroyed => seq![
            'D', 'e', 's', 't', 'r', 'o', 'y', 'e', 'd', ' ', 'E', 'n', 'e', 'm', 'i', 'e', 's',
            ':', ' ',
        ],
    }
}

/// The text of caption `c`.
pub open spec fn caption_text(c: Caption) -> Seq<char> {
    caption_prefix(c.kind) + decimal(c.value as int)
}

/// The text of the digit `d`.
fn digit_str(d: u64) -> (s: &'static str)
    requires
        d < 10,
    ensures
        s@ == seq![digit_char(d as int)],
{
    proof {
        reveal_strlit("0");
        reveal_strlit("1");
        reveal_strlit("2");
        reveal_strlit("3");
        reveal_strlit("4");
        reveal_strlit("5");
        reveal_strlit("6");
        reveal_strlit("7");
        reveal_strlit("8");
        reveal_strlit("9");
    }
    let s = if d == 0 {
        "0"
    } else if d == 1 {
        "1"
    } else if d == 2 {
        "2"
    } else if d == 3 {
        "3"
    } else if d == 4 {
        "4"
    } else if d == 5 {
        "5"
    } else if d == 6 {
        "6"
    } else if d == 7 {
        "7"
    } else if d == 8 {
        "8"
    } else {
        "9"
    };
    assert(s@ =~= seq![digit_char(d as int)]);
    s
}

/// Appends the decimal digits of `n` to `s`.
fn append_digits(s: &mut String, n: u64)
    ensures
        final(s)@ == old(s)@ + digits_of(n as nat),
    decreases n,
{
    if n >= 10 {
        append_digits(s, n / 10);
    }
    s.append(digit_str(n % 10));
    if n >= 10 {
        assert(old(s)@ + digits_of((n / 10) as nat) + seq![digit_char((n % 10) as int)] =~= old(s)@
            + digits_of(n as nat));
    } else {
        assert(n % 10 == n);
    }
}

impl Caption {
    /// The text of the caption, such as `Score: 30`.
    pub fn text(&self) -> (s: String)
        ensures
            s@ == caption_text(*self),
    {
        let mut s = match self.kind {
            CaptionKind::Score => {
                proof {
                    reveal_strlit("Score: ");
                }
                String::from_str("Score: ")
            },
            CaptionKind::Destroyed => {
                proof {
                    reveal_strlit("Destroyed Enemies: ");
                }
                String::from_str("Destroyed Enemies: ")
            },
        };
        assert(s@ =~= caption_prefix(self.kind));
        let v = self.value as i64;
        if v < 0 {
            proof {
                reveal_strlit("-");
            }
            s.append("-");
            append_digits(&mut s, (0 - v) as u64);
            assert(s@ =~= caption_prefix(self.kind) + decimal(self.value as int));
        } else {
            append_digits(&mut s, v as u64);
        }
        s
    }
}

/// How enemy `t` is drawn.
fn stroke_target(t: Target) -> (d: DrawCommand)
    requires
        target_steady(t),
    ensures
        d == target_stroke(t),
{
    if !t.is_animated {
        DrawCommand::Quad { x: t.xst, y: t.yst, w: t.width, h: t.height, paint: Paint::White }
    } else {
        DrawCommand::Circle {
            x: t.xst + t.width / 2,
            y: t.yst + t.height / 2,
            radius: GLOW_RADIUS,
            tolerance: GLOW_TOLERANCE,
            paint: Paint::Ember,
        }
    }
}

impl GameState {
    /// Everything this frame draws and plays, in order.
    pub fn picture(&self) -> (p: Vec<DrawCommand>)
        requires
            self@.wf(),
        ensures
            p@ == picture(self@),
    {
        let ghost w = self@;
        let mut p: Vec<DrawCommand> = Vec::new();
        let targets = self.targets();
        let n = targets.len();
        for i in 0..n
            invariant
                n == w.targets.len(),
                targets@ == w.targets,
                w.wf(),
                p@ =~= w.targets.take(i as int).map_values(|t: Target| target_stroke(t)),
        {
            assert(target_steady(w.targets[i as int]));
            p.push(stroke_target(targets[i]));
            assert(w.targets.take(i + 1).map_values(|t: Target| target_stroke(t)) =~= w.targets.take(
                i as int,
            ).map_values(|t: Target| target_stroke(t)).push(target_stroke(w.targets[i as int])));
        }
        assert(w.targets.take(n as int) =~= w.targets);
        let ghost head = p@;
        let pos_x = self.pos_x();
        if self.is_fire_on() == 1 {
            p.push(DrawCommand::Sound(Cue::Fire));
            p.push(
                DrawCommand::Quad {
                    x: pos_x,
                    y: GROUND_Y,
                    w: PLAYER_WIDTH,
                    h: PLAYER_HEIGHT,
                    paint: Paint::Black,
                },
            );
        } else {
            p.push(
                DrawCommand::Quad {
                    x: pos_x,
                    y: GROUND_Y,
                    w: PLAYER_WIDTH,
                    h: PLAYER_HEIGHT,
                    paint: Paint::White,
                },
            );
        }
        assert(p@ =~= head + player_picture(w));
        let ghost mid = p@;
        let leader_alive = self.first_target().is_still_alive;
        let bullets = self.bullets();
        let m = bullets.len();
        for i in 0..m
            invariant
                m == w.bullets.len(),
                bullets@ == w.bullets,
                leader_alive == w.first_target.is_still_alive,
                p@ =~= mid + bullets_picture(w.bullets.take(i as int), leader_alive),
        {
            let b = bullets[i];
            let ghost before = p@;
            assert(w.bullets.take(i + 1).drop_last() =~= w.bullets.take(i as int));
            assert(w.bullets.take(i + 1).last() == b);
            if b.is_animated && !b.is_hit_target && leader_alive {
                p.push(
                    DrawCommand::Circle {
                        x: b.x_pos,
                        y: b.y_pos,
                        radius: BLAST_RADIUS,
                        tolerance: BULLET_TOLERANCE,
                        paint: Paint::Ember,
                    },
                );
                p.push(DrawCommand::Sound(Cue::Hit));
            } else {
                let y = if b.y_pos >= i64::MIN + BULLET_LIFT {
                    b.y_pos - BULLET_LIFT
                } else {
                    i64::MIN
                };
                p.push(
                    DrawCommand::Circle {
                        x: b.x_pos,
                        y,
                        radius: BULLET_RADIUS,
                        tolerance: BULLET_TOLERANCE,
                        paint: Paint::Red,
                    },
                );
            }
            assert(p@ =~= before + bullet_strokes(b, leader_alive));
        }
        assert(w.bullets.take(m as int) =~= w.bullets);
        p.push(
            DrawCommand::Label {
                x: SCORE_X,
                y: CAPTION_Y,
                caption: Caption { kind: CaptionKind::Score, value: self.earned_points() },
            },
        );
        p.push(
            DrawCommand::Label {
                x: DESTROYED_X,
                y: CAPTION_Y,
                caption: Caption { kind: CaptionKind::Destroyed, value: self.destroyed_enemies() },
            },
        );
        assert(p@ =~= picture(w));
        p
    }
}

} // verus!
