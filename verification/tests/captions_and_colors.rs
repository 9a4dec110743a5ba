use vinilcut::caption::{caption_for, caption_or, safe_caption};
use vinilcut::color::{disc_path, filter_color, parse_hex, push_color, tint_filter};

#[test]
fn colors_are_read() {
    assert_eq!(parse_hex("#2e2e34"), (46, 46, 52));
    assert_eq!(parse_hex("2E2E34"), (46, 46, 52));
    assert_eq!(parse_hex("  ##ff8000\n"), (255, 128, 0));
    assert_eq!(parse_hex("#000000"), (0, 0, 0));
}

#[test]
fn unreadable_colors_fall_back() {
    for s in ["", "#", "#12345", "#1234567", "zzzzzz", "# 12345", "#12-3-4", "red", "#+f+1+0", "#+1+2+3"] {
        assert_eq!(parse_hex(s), (24, 24, 30), "{s}");
    }
    // Six bytes, but not six digits.
    for s in ["1\u{e9}234", "\u{e9}1234", "\u{e9}\u{e9}\u{e9}", "\u{20ac}\u{20ac}"] {
        assert_eq!(parse_hex(s), (24, 24, 30), "{s}");
    }
}

#[test]
fn colors_are_read_back() {
    for rgb in [(0, 0, 0), (1, 2, 3), (255, 255, 255), (16, 160, 9), (171, 205, 239)] {
        let mut s = "#".to_string();
        push_color(&mut s, rgb);
        assert_eq!(parse_hex(&s), rgb);
        assert_eq!(parse_hex(&s[1..]), rgb);
        let upper = s.to_uppercase();
        assert_eq!(parse_hex(&upper), rgb);
        assert_eq!(parse_hex(&upper[1..]), rgb);
    }
}

#[test]
fn discs_are_named_and_tinted_by_color() {
    assert_eq!(disc_path((46, 46, 52), '/'), "work/disc_2e2e34.png");
    assert_eq!(disc_path((0, 10, 255), '\\'), "work\\disc_000aff.png");
    assert_ne!(disc_path((1, 16, 0), '/'), disc_path((17, 0, 0), '/'));
    assert_eq!(filter_color((0, 171, 5)), "0x00ab05");
    let (cr, cg, cb) = (1, 20, 255);
    assert_eq!(
        tint_filter((cr, cg, cb)),
        format!("geq=r='clip({cr}*r(X,Y)/140,0,255)':g='clip({cg}*g(X,Y)/140,0,255)':b='clip({cb}*b(X,Y)/140,0,255)':a='alpha(X,Y)'"),
    );
}

fn expected_caption(s: &str) -> String {
    s.chars()
        .filter(|c| !matches!(c, '\'' | '\\' | ':' | '%' | '{' | '}' | '\n' | '\r'))
        .take(40)
        .collect::<String>()
        .trim()
        .to_string()
}

#[test]
fn captions_are_made_safe() {
    assert_eq!(safe_caption("Side A"), "Side A");
    assert_eq!(safe_caption("it's: 100% {live}\\\n\r"), "its 100 live");
    assert_eq!(safe_caption(" ' "), "");
    let long = "0123456789".repeat(5);
    assert_eq!(safe_caption(&long).len(), 40);
    // The cut comes before the trim.
    let gap = format!("{}{}", "x".repeat(39), "   tail");
    assert_eq!(safe_caption(&gap), "x".repeat(39));
    for s in ["", "a:b", "\u{1f4bf}%\u{1f4bf}", &long, &gap, "  \u{3000}x\u{a0} ", "{{}}"] {
        assert_eq!(safe_caption(s), expected_caption(s));
        assert_eq!(safe_caption(&safe_caption(s)), safe_caption(s));
    }
}

#[test]
fn an_empty_caption_gives_way_to_the_date() {
    assert_eq!(caption_or("Side A", "24.12.2024"), "Side A");
    assert_eq!(caption_or("", "24.12.2024"), "24.12.2024");
    assert_eq!(caption_or(" :: ", "24.12.2024"), "24.12.2024");
    assert_eq!(caption_for(" Side A "), "Side A");
}

#[test]
fn todays_date_has_ten_characters() {
    let before = chrono::Local::now().format("%d.%m.%Y").to_string();
    let date = caption_for("%%%");
    let after = chrono::Local::now().format("%d.%m.%Y").to_string();
    assert!(date == before || date == after);
    assert_eq!(date.chars().count(), 10);
    assert_eq!(safe_caption(&date), date);
}
