use vstd::prelude::*;

verus! {

/// What the joystick sends in one line: the two stick axes and the trigger.
#[derive(Clone, Copy, Debug, PartialEq, Eq, Structural)]
pub struct Command {
    /// Horizontal stick axis (read and checked, not used for movement).
    pub joy_x: i32,
    /// The stick axis that moves the player left or right.
    pub joy_y: i32,
    /// Trigger state; `1` fires.
    pub fire: u16,
}

/// How one line from the joystick is understood.
#[derive(Clone, Copy, Debug, PartialEq, Eq, Structural)]
pub enum Reading {
    /// The line does not hold exactly three fields: no command this frame.
    Idle,
    /// Three well-formed fields.
    Steer(Command),
    /// Three fields of which one is not a number of its kind: the frame's
    /// enemies and bullets still move, and then the frame halts the game
    /// (`FrameEnd::Halt`).
    Malformed,
}

/// Unicode white space (the `White_Space` property).
pub open spec fn is_white_space(c: char) -> bool {
    let u = c as u32;
    ||| 0x9 <= u <= 0xd
    ||| u == 0x20
    ||| u == 0x85
    ||| u == 0xa0
    ||| u == 0x1680
    ||| 0x2000 <= u <= 0x200a
    ||| u == 0x2028
    ||| u == 0x2029
    ||| u == 0x202f
    ||| u == 0x205f
    ||| u == 0x3000
}

/// Whether `c` is Unicode white space.
pub fn white_space(c: char) -> (b: bool)
    ensures
        b == is_white_space(c),
{
    let u = c as u32;
    (0x9 <= u && u <= 0xd) || u == 0x20 || u == 0x85 || u == 0xa0 || u == 0x1680 || (0x2000 <= u
        && u <= 0x200a) || u == 0x2028 || u == 0x2029 || u == 0x202f || u == 0x205f || u == 0x3000
}

/// The words of `s`: its maximal runs of characters that are not white space,
/// in order.
pub open spec fn words(s: Seq<char>) -> Seq<Seq<char>>
    decreases s.len(),
{
    if s.len() == 0 {
        Seq::empty()
    } else {
        let before = words(s.drop_last());
        let c = s.last();
        if is_white_space(c) {
            before
        } else if s.len() >= 2 && !is_white_space(s[s.len() - 2]) && before.len() > 0 {
            before.update(before.len() - 1, before.last().push(c))
        } else {
            before.push(seq![c])
        }
    }
}

/// Splits `line` into its words.
pub fn split_words(line: &str) -> (ws: Vec<Vec<char>>)
    ensures
        ws@.len() == words(line@).len(),
        forall|k: int| 0 <= k < ws@.len() ==> #[trigger] ws@[k]@ == words(line@)[k],
{
    let n = line.unicode_len();
    let mut ws: Vec<Vec<char>> = Vec::new();
    let mut cur: Vec<char> = Vec::new();
    let mut in_word = false;
    for i in 0..n
        invariant
            n == line@.len(),
            in_word == (i > 0 && !is_white_space(line@[i - 1])),
            !in_word ==> cur@.len() == 0,
            ({
                let w = words(line@.take(i as int));
                if in_word {
                    &&& w.len() == ws@.len() + 1
                    &&& w.last() == cur@
                    &&& forall|k: int| 0 <= k < ws@.len() ==> #[trigger] ws@[k]@ == w[k]
                } else {
                    &&& w.len() == ws@.len()
                    &&& forall|k: int| 0 <= k < ws@.len() ==> #[trigger] ws@[k]@ == w[k]
                }
            }),
    {
        let c = line.get_char(i);
        let ghost s = line@.take(i + 1);
        assert(s.drop_last() =~= line@.take(i as int));
        assert(s.last() == c);
        if white_space(c) {
            if in_word {
                ws.push(cur);
                cur = Vec::new();
            }
            in_word = false;
        } else {
            if in_word {
                assert(s[s.len() - 2] == line@[i - 1]);
                cur.push(c);
            } else {
                cur = Vec::new();
                cur.push(c);
                assert(cur@ =~= seq![c]);
            }
            in_word = true;
        }
    }
    assert(line@.take(n as int) =~= line@);
    if in_word {
        ws.push(cur);
    }
    ws
}

/// An ASCII decimal digit.
pub open spec fn is_digit(c: char) -> bool {
    48 <= (c as u32) <= 57
}

/// The value of the decimal digit `c`.
pub open spec fn digit_value(c: char) -> int {
    (c as u32) - 48
}

/// Every character of `s` is a decimal digit.
pub open spec fn all_digits(s: Seq<char>) -> bool {
    forall|i: int| 0 <= i < s.len() ==> #[trigger] is_digit(s[i])
}

/// The number that the digits `s` write in base ten (0 for no digits).
pub open spec fn digits_value(s: Seq<char>) -> int
    decreases s.len(),
{
    if s.len() == 0 {
        0
    } else {
        digits_value(s.drop_last()) * 10 + digit_value(s.last())
    }
}

/// The integer that `s` writes in base ten: an optional sign (`-` only when
/// `signed`) and then at least one digit, nothing else.
pub open spec fn decimal_value(s: Seq<char>, signed: bool) -> Option<int> {
    if s.len() == 0 {
        None
    } else if (s[0] == '+' || s[0] == '-') && s.len() == 1 {
        None
    } else if s[0] == '+' {
        if all_digits(s.drop_first()) {
            Some(digits_value(s.drop_first()))
        } else {
            None
        }
    } else if s[0] == '-' && signed {
        if all_digits(s.drop_first()) {
            Some(-digits_value(s.drop_first()))
        } else {
            None
        }
    } else if all_digits(s) {
        Some(digits_value(s))
    } else {
        None
    }
}

/// `s` read as an `i32`, as `str::parse::<i32>` reads it.
pub open spec fn i32_of(s: Seq<char>) -> Option<i32> {
    match decimal_value(s, true) {
        Some(v) => if i32::MIN <= v <= i32::MAX {
            Some(v as i32)
        } else {
            None
        },
        None => None,
    }
}

/// `s` read as a `u16`, as `str::parse::<u16>` reads it.
pub open spec fn u16_of(s: Seq<char>) -> Option<u16> {
    match decimal_value(s, false) {
        Some(v) => if 0 <= v <= u16::MAX {
            Some(v as u16)
        } else {
            None
        },
        None => None,
    }
}

/// How the joystick line `line` is understood: a command when it holds three
/// words, the first two integers of `i32` and the third of `u16`.
pub open spec fn reading_of(line: Seq<char>) -> Reading {
    let ws = words(line);
    if ws.len() != 3 {
        Reading::Idle
    } else {
        match (i32_of(ws[0]), i32_of(ws[1]), u16_of(ws[2])) {
            (Some(joy_x), Some(joy_y), Some(fire)) => Reading::Steer(Command { joy_x, joy_y, fire }),
            _ => Reading::Malformed,
        }
    }
}

/// A bound above every magnitude that an `i32` or a `u16` can have.
pub const MAGNITUDE_CAP: u64 = 4_294_967_296;

/// Digits never lose value when more follow.
pub proof fn lemma_digits_grow(s: Seq<char>, k: int)
    requires
        all_digits(s),
        0 <= k <= s.len(),
    ensures
        digits_value(s.take(k)) <= digits_value(s),
        0 <= digits_value(s),
    decreases s.len(),
{
    if s.len() > 0 {
        assert(is_digit(s[s.len() - 1]));
        assert(all_digits(s.drop_last())) by {
            assert forall|i: int| 0 <= i < s.len() - 1 implies #[trigger] is_digit(
                s.drop_last()[i],
            ) by {
                assert(is_digit(s[i]));
            }
        }
        lemma_digits_grow(s.drop_last(), if k == s.len() { k - 1 } else { k });
        if k < s.len() {
            assert(s.drop_last().take(k) =~= s.take(k));
        } else {
            assert(s.take(k) =~= s);
        }
    }
}

/// The value of the digits of `w` from position `start` on, when they are all
/// digits and the value stays within `MAGNITUDE_CAP`.
fn magnitude(w: &Vec<char>, start: usize) -> (r: Option<u64>)
    requires
        start <= w@.len(),
    ensures
        r matches Some(m) ==> all_digits(w@.skip(start as int)) && m == digits_value(
            w@.skip(start as int),
        ),
        r is None ==> !all_digits(w@.skip(start as int)) || digits_value(w@.skip(start as int))
            > MAGNITUDE_CAP,
{
    let mut acc: u64 = 0;
    let n = w.len();
    let mut i = start;
    while i < n
        invariant
            start <= i <= n,
            n == w@.len(),
            acc <= MAGNITUDE_CAP,
            all_digits(w@.subrange(start as int, i as int)),
            acc == digits_value(w@.subrange(start as int, i as int)),
        decreases n - i,
    {
        let c = w[i];
        let u = c as u32;
        let ghost s = w@.subrange(start as int, i + 1);
        assert(s.drop_last() =~= w@.subrange(start as int, i as int));
        if u < 48 || u > 57 {
            proof {
                assert(w@.skip(start as int)[i - start] == c);
                assert(!is_digit(w@.skip(start as int)[i - start]));
            }
            return None;
        }
        proof {
            assert forall|k: int| 0 <= k < s.len() implies #[trigger] is_digit(s[k]) by {
                if k < s.len() - 1 {
                    assert(s[k] == w@.subrange(start as int, i as int)[k]);
                }
            }
        }
        acc = acc * 10 + (u - 48) as u64;
        i = i + 1;
        if acc > MAGNITUDE_CAP {
            proof {
                let rest = w@.skip(start as int);
                if all_digits(rest) {
                    assert(rest.take(i - start) =~= w@.subrange(start as int, i as int));
                    lemma_digits_grow(rest, i - start);
                }
            }
            return None;
        }
    }
    assert(w@.subrange(start as int, n as int) =~= w@.skip(start as int));
    Some(acc)
}

/// The sign and magnitude that `w` writes, with `-` accepted only when
/// `signed`: `(negative, magnitude)`.
fn signed_magnitude(w: &Vec<char>, signed: bool) -> (r: Option<(bool, u64)>)
    ensures
        r matches Some((neg, _)) ==> (neg ==> signed),
        r matches Some((neg, m)) ==> decimal_value(w@, signed) == Some(
            if neg {
                -(m as int)
            } else {
                m as int
            },
        ),
        r is None ==> match decimal_value(w@, signed) {
            Some(v) => v > MAGNITUDE_CAP || v < -MAGNITUDE_CAP,
            None => true,
        },
{
    let n = w.len();
    if n == 0 {
        return None;
    }
    let first = w[0];
    let plus = first == '+';
    let minus = first == '-';
    if (plus || minus) && n == 1 {
        return None;
    }
    assert(w@.skip(1) =~= w@.drop_first());
    assert(w@.skip(0) =~= w@);
    if plus {
        match magnitude(w, 1) {
            Some(m) => Some((false, m)),
            None => None,
        }
    } else if minus && signed {
        match magnitude(w, 1) {
            Some(m) => Some((true, m)),
            None => None,
        }
    } else {
        match magnitude(w, 0) {
            Some(m) => Some((false, m)),
            None => None,
        }
    }
}

/// Reads the word `w` as an `i32`.
pub fn parse_i32(w: &Vec<char>) -> (r: Option<i32>)
    ensures
        r == i32_of(w@),
{
    match signed_magnitude(w, true) {
        Some((neg, m)) => {
            if neg {
                if m <= 2_147_483_648 {
                    Some((0 - (m as i64)) as i32)
                } else {
                    None
                }
            } else {
                if m <= 2_147_483_647 {
                    Some(m as i32)
                } else {
                    None
                }
            }
        },
        None => None,
    }
}

/// Reads the word `w` as a `u16`.
pub fn parse_u16(w: &Vec<char>) -> (r: Option<u16>)
    ensures
        r == u16_of(w@),
{
    match signed_magnitude(w, false) {
        Some((neg, m)) => {
            if !neg && m <= 65535 {
                Some(m as u16)
            } else {
                None
            }
        },
        None => None,
    }
}

/// Understands one line from the joystick.
pub fn interpret_line(line: &str) -> (r: Reading)
    ensures
        r == reading_of(line@),
{
    let ws = split_words(line);
    if ws.len() != 3 {
        return Reading::Idle;
    }
    let a = parse_i32(&ws[0]);
    let b = parse_i32(&ws[1]);
    let c = parse_u16(&ws[2]);
    match (a, b, c) {
        (Some(joy_x), Some(joy_y), Some(fire)) => Reading::Steer(Command { joy_x, joy_y, fire }),
        _ => Reading::Malformed,
    }
}

} // verus!
