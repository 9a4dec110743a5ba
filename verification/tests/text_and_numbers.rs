use vinilcut::double::Double;
use vinilcut::number::{
    hex_pair, parse_i32, push_decimal, push_four_decimals, push_hex, push_signed, IntFault,
};
use vinilcut::text::{
    chars_of, push_text, same_text, split, strip_start, text_of, trim, trim_leading, white, words,
};

const SAMPLES: [&str; 12] = [
    "",
    " ",
    "a",
    "  a b  ",
    "\t\u{a0}x\u{3000}\n",
    "##12",
    "::",
    "a:b:c",
    ":lead",
    "trail:",
    "\u{2003}\u{200b}\u{2003}",
    "caf\u{e9} \u{1f4bf} vinyl",
];

#[test]
fn white_space_is_that_of_std() {
    for c in '\u{0}'..='\u{10ffff}' {
        assert_eq!(white(c), c.is_whitespace(), "{:?}", c);
    }
}

#[test]
fn trimming_is_that_of_std() {
    for s in SAMPLES {
        assert_eq!(trim(s), s.trim());
        assert_eq!(trim_leading(s, '#'), s.trim_start_matches('#'));
    }
    assert_eq!(trim("  a b  "), "a b");
    assert_eq!(trim_leading("##12#", '#'), "12#");
}

#[test]
fn splitting_is_that_of_std() {
    for s in SAMPLES {
        let pieces: Vec<String> = s.split(':').map(|p| p.to_string()).collect();
        assert_eq!(split(s, ':'), pieces);
        let parts: Vec<String> = s.split_whitespace().map(|p| p.to_string()).collect();
        assert_eq!(words(s), parts);
    }
    assert_eq!(split("a:b:c", ':'), vec!["a", "b", "c"]);
    assert_eq!(split("", ':'), vec![""]);
    assert_eq!(words(" 512 \n512\n59.9 "), vec!["512", "512", "59.9"]);
}

#[test]
fn prefixes_are_stripped() {
    assert_eq!(strip_start("out_time=1", "out_time="), Some("1".to_string()));
    assert_eq!(strip_start("out_time", "out_time="), None);
    assert_eq!(strip_start("out_tome=1", "out_time="), None);
    assert_eq!(strip_start("abc", ""), Some("abc".to_string()));
}

#[test]
fn characters_come_and_go() {
    let chars = chars_of("a\u{1f4bf}b");
    assert_eq!(chars, vec!['a', '\u{1f4bf}', 'b']);
    assert_eq!(text_of(&chars, 1, 3), "\u{1f4bf}b");
    assert_eq!(text_of(&chars, 2, 2), "");
    assert!(same_text("me", "me"));
    assert!(!same_text("me", "Me"));
    let mut list = vec!["x".to_string()];
    push_text(&mut list, "y");
    assert_eq!(list, vec!["x", "y"]);
}

#[test]
fn numbers_are_written_in_decimal() {
    for n in [0u128, 7, 10, 99, 100, 1_234_567, u64::MAX as u128, u128::MAX] {
        let mut s = "n=".to_string();
        push_decimal(&mut s, n);
        assert_eq!(s, format!("n={n}"));
    }
    for v in [0i64, 5, -1, -10, 449, i64::MAX, i64::MIN] {
        let mut s = String::new();
        push_signed(&mut s, v);
        assert_eq!(s, format!("{v}"));
    }
}

#[test]
fn bytes_are_written_in_hexadecimal_and_read_back() {
    for b in 0..=255u8 {
        let mut s = String::new();
        push_hex(&mut s, b);
        assert_eq!(s, format!("{b:02x}"));
        let c: Vec<char> = s.chars().collect();
        assert_eq!(hex_pair(c[0], c[1]), Some(b));
        let u: Vec<char> = s.to_uppercase().chars().collect();
        assert_eq!(hex_pair(u[0], u[1]), Some(b));
    }
}

#[test]
fn four_decimals_are_rounded() {
    let text = |num: i128, den: u128| {
        let mut s = "=".to_string();
        push_four_decimals(&mut s, num, den);
        s
    };
    assert_eq!(text(0, 7), "=0.0000");
    assert_eq!(text(-10000, 1), "=-1.0000");
    assert_eq!(text(10000, 3), "=0.3333");
    assert_eq!(text(20000, 3), "=0.6667");
    assert_eq!(text(-9, 1), "=-0.0009");
    assert_eq!(text(123456789, 1), "=12345.6789");
    assert_eq!(text(1, 2), "=0.0001");
    assert_eq!(text(-1, 3), "=-0.0000");
    assert_eq!(text(i128::MIN / 2, u128::MAX / 2), "=-0.0001");
    // No input here lies halfway, so std rounds the same.
    for num in -2000i128..2000 {
        let x = num as f64 / 93.0 / 10000.0;
        assert_eq!(text(num, 93), format!("={x:.4}"), "{num}");
    }
}

#[test]
fn hexadecimal_pairs_are_two_digits() {
    let some = ['0', '9', 'a', 'f', 'F', 'g', 'G', '+', '-', ' ', '/', ':', '@', '`', '\u{e9}'];
    for a in some {
        for b in some {
            let s: String = [a, b].iter().collect();
            let digits = a.is_ascii_hexdigit() && b.is_ascii_hexdigit();
            let expected = if digits { u8::from_str_radix(&s, 16).ok() } else { None };
            assert_eq!(hex_pair(a, b), expected, "{s}");
        }
    }
    assert_eq!(hex_pair('+', 'f'), None);
    assert_eq!(hex_pair('F', '0'), Some(240));
}

#[test]
fn integers_are_read_as_std_reads_them() {
    let samples = [
        "", "+", "-", "0", "-0", "+7", "512", "2147483647", "2147483648", "-2147483648",
        "-2147483649", "99999999999x", "x99999999999", "12 ", " 12", "1-2", "--1", "+-1",
        "00000000000000012", "214748364x", "\u{663}",
    ];
    for s in samples {
        match (parse_i32(s), s.parse::<i32>()) {
            (Ok(a), Ok(b)) => assert_eq!(a, b),
            (Err(a), Err(b)) => assert_eq!(a.message(), b.to_string(), "{s}"),
            (a, b) => panic!("{s}: {a:?} {b:?}"),
        }
    }
    assert_eq!(parse_i32(""), Err(IntFault::Empty));
    assert_eq!(parse_i32("5x"), Err(IntFault::InvalidDigit));
    assert_eq!(parse_i32("3000000000"), Err(IntFault::TooLarge));
    assert_eq!(parse_i32("-3000000000"), Err(IntFault::TooSmall));
    assert_eq!(parse_i32("-12"), Ok(-12));
}

fn d(x: f64) -> Double {
    Double { bits: x.to_bits() }
}

fn same(a: Double, b: f64) -> bool {
    let a = f64::from_bits(a.bits);
    a == b || (a.is_nan() && b.is_nan())
}

#[test]
fn doubles_are_ordered_as_floats_are() {
    let xs = [
        0.0, -0.0, 0.1, 59.999, 60.0, 60.001, 99.5, 100.0, -1.0, -99.5, 1e300, -1e300, 5e-324,
        -5e-324, f64::INFINITY, f64::NEG_INFINITY, f64::NAN, -f64::NAN,
    ];
    for a in xs {
        for b in xs {
            assert_eq!(d(a).at_most(d(b)), a <= b, "{a} {b}");
            assert!(same(d(a).at_least(d(b)), a.max(b)), "{a} {b}");
            assert!(same(d(a).capped(d(b)), a.min(b)), "{a} {b}");
        }
        assert!(same(d(a).clamped(d(0.0), d(99.5)), a.clamp(0.0, 99.5)), "{a}");
    }
}
