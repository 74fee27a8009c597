use shooter_game::command::{interpret_line, parse_i32, parse_u16, split_words, white_space, Command, Reading};

fn chars(s: &str) -> Vec<char> {
    s.chars().collect()
}

fn steer(joy_x: i32, joy_y: i32, fire: u16) -> Reading {
    Reading::Steer(Command { joy_x, joy_y, fire })
}

#[test]
fn splits_on_unicode_white_space() {
    let ws = split_words("  512\t100 \u{3000}1\r\n");
    assert_eq!(ws, vec![chars("512"), chars("100"), chars("1")]);
    assert!(split_words("").is_empty());
    assert!(split_words(" \t\n").is_empty());
    assert_eq!(split_words("a\u{a0}b"), vec![chars("a"), chars("b")]);
}

#[test]
fn white_space_matches_std() {
    for c in ['\t', '\n', '\u{b}', '\u{c}', '\r', ' ', '\u{85}', '\u{a0}', '\u{1680}', '\u{2000}', '\u{200a}', '\u{2028}', '\u{2029}', '\u{202f}', '\u{205f}', '\u{3000}', 'a', '0', '\u{200b}', '\u{1f}'] {
        assert_eq!(white_space(c), c.is_whitespace(), "{:?}", c);
    }
}

#[test]
fn three_numbers_steer() {
    assert_eq!(interpret_line("512 100 1\n"), steer(512, 100, 1));
    assert_eq!(interpret_line("+5 -7 +0"), steer(5, -7, 0));
    assert_eq!(interpret_line("2147483647 -2147483648 65535"), steer(i32::MAX, i32::MIN, 65535));
    assert_eq!(interpret_line("007 0 00001"), steer(7, 0, 1));
}

#[test]
fn other_field_counts_are_idle() {
    assert_eq!(interpret_line(""), Reading::Idle);
    assert_eq!(interpret_line("512 100"), Reading::Idle);
    assert_eq!(interpret_line("1 2 3 4"), Reading::Idle);
    assert_eq!(interpret_line("hello"), Reading::Idle);
}

#[test]
fn bad_numbers_are_malformed() {
    assert_eq!(interpret_line("a 1 1"), Reading::Malformed);
    assert_eq!(interpret_line("1 b 1"), Reading::Malformed);
    assert_eq!(interpret_line("1 2 -1"), Reading::Malformed);
    assert_eq!(interpret_line("1 2 -0"), Reading::Malformed);
    assert_eq!(interpret_line("1 2 65536"), Reading::Malformed);
    assert_eq!(interpret_line("2147483648 0 0"), Reading::Malformed);
    assert_eq!(interpret_line("0 -2147483649 0"), Reading::Malformed);
    assert_eq!(interpret_line("+ 1 1"), Reading::Malformed);
    assert_eq!(interpret_line("- 1 1"), Reading::Malformed);
    assert_eq!(interpret_line("\u{ff11} 1 1"), Reading::Malformed);
    assert_eq!(interpret_line("1.5 1 1"), Reading::Malformed);
}

#[test]
fn number_reader_agrees_with_std() {
    let samples = [
        "0", "-0", "+0", "12", "-12", "+12", "", "+", "-", "++1", "--1", "1-", "2147483647",
        "2147483648", "-2147483648", "-2147483649", "99999999999999999999", "65535", "65536",
        "00000000000000000000042", "4 2", "x", "\u{664}",
    ];
    for s in samples {
        assert_eq!(parse_i32(&chars(s)), s.parse::<i32>().ok(), "i32 {:?}", s);
        assert_eq!(parse_u16(&chars(s)), s.parse::<u16>().ok(), "u16 {:?}", s);
    }
}
