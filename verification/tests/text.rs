use ntp_monitor::number::{
    clamp, digit, push_decimal, push_signed_decimal, push_two_digits, read_unsigned,
};
use ntp_monitor::text::{
    chars_of, find, line_list, same_text, starts_with, string_of, trimmed, white_space,
};

const SAMPLES: [&str; 14] = [
    "",
    " ",
    "a",
    "  a b\t",
    "a\nb",
    "a\r\nb\r\n",
    "\n\n",
    "\r",
    "a\r",
    "\ra\n",
    "x\n\r\ny",
    "\u{3000}\u{e9}\u{2028}",
    "a\u{200b}",
    "\u{85}k = v\u{a0}\n",
];

#[test]
fn white_space_of_every_character() {
    for c in '\0'..=char::MAX {
        assert_eq!(white_space(c), c.is_whitespace(), "{:?}", c);
    }
}

#[test]
fn characters_and_back() {
    for s in SAMPLES {
        let chars = chars_of(s);
        assert_eq!(chars, s.chars().collect::<Vec<char>>());
        assert_eq!(string_of(&chars), s);
    }
}

#[test]
fn trimming() {
    for s in SAMPLES {
        let chars = chars_of(s);
        let once = string_of(trimmed(&chars));
        assert_eq!(once, s.trim());
        assert_eq!(string_of(trimmed(&chars_of(&once))), once);
    }
}

#[test]
fn lines_of_text() {
    for s in SAMPLES {
        let lines: Vec<String> =
            line_list(&chars_of(s)).iter().map(|line| string_of(line)).collect();
        assert_eq!(lines, s.lines().collect::<Vec<&str>>());
    }
}

#[test]
fn first_occurrence() {
    assert_eq!(find(&chars_of("a=b=c"), '='), 1);
    assert_eq!(find(&chars_of("abc"), '='), 3);
    assert_eq!(find(&[], '='), 0);
}

#[test]
fn comparing() {
    assert!(same_text(&chars_of("abc"), "abc"));
    assert!(!same_text(&chars_of("abc"), "abd"));
    assert!(!same_text(&chars_of("abc"), "ab"));
    assert!(starts_with(&chars_of("server1"), "server"));
    assert!(starts_with(&chars_of("server"), "server"));
    assert!(!starts_with(&chars_of("serve"), "server"));
    assert!(!starts_with(&chars_of("Server1"), "server"));
}

#[test]
fn reading_numbers() {
    let samples = [
        "", "+", "-", "0", "00", "7", "+7", "++7", "-7", " 7", "7 ", "1_000", "1e3", "0x10", "12a",
        "18446744073709551615", "18446744073709551616", "99999999999999999999",
        "00000000000000000000000012", "\u{663}", "184467440737095516150",
    ];
    for s in samples {
        assert_eq!(read_unsigned(&chars_of(s)), s.parse::<u64>().ok(), "{:?}", s);
    }
}

#[test]
fn decimal_notation_reads_back() {
    for n in [0, 9, 10, 99, 100, 12_345, u64::MAX] {
        let mut s = String::new();
        push_decimal(&mut s, n);
        assert_eq!(s, n.to_string());
        assert_eq!(read_unsigned(&chars_of(&s)), Some(n));
    }
}

#[test]
fn signed_notation() {
    for n in [0, 7, -7, 150, i64::MAX, i64::MIN] {
        let mut s = String::from("d");
        push_signed_decimal(&mut s, n);
        assert_eq!(s, format!("d{:+}", n));
    }
}

#[test]
fn two_digit_notation() {
    for n in [0, 5, 10, 59, 99] {
        let mut s = String::new();
        push_two_digits(&mut s, n);
        assert_eq!(s, format!("{:02}", n));
    }
    assert_eq!(digit(0), '0');
    assert_eq!(digit(9), '9');
}

#[test]
fn clamping() {
    assert_eq!(clamp(4, 5, 300), 5);
    assert_eq!(clamp(17, 5, 300), 17);
    assert_eq!(clamp(301, 5, 300), 300);
}
