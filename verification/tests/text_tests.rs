use gallery::text::{
    chars_of, decimal, parse_u32, same_text, split, string_of, trim, underscored,
};

fn cv(s: &str) -> Vec<char> {
    s.chars().collect()
}

#[test]
fn chars_and_back() {
    let v = chars_of("héllo, wörld");
    assert_eq!(v, cv("héllo, wörld"));
    assert_eq!(string_of(&v), "héllo, wörld");
    assert_eq!(string_of(&Vec::new()), "");
}

#[test]
fn split_keeps_empty_pieces() {
    assert_eq!(split(&cv("a,b,,c"), ','), vec![cv("a"), cv("b"), cv(""), cv("c")]);
    assert_eq!(split(&cv(""), ','), vec![cv("")]);
    assert_eq!(split(&cv(","), ','), vec![cv(""), cv("")]);
    assert_eq!(split(&cv("abc"), ','), vec![cv("abc")]);
    assert_eq!(split(&cv("a,"), ','), vec![cv("a"), cv("")]);
}

#[test]
fn split_agrees_with_std() {
    for text in ["51/1, 30/1, 1234/100", "//", "x", "", "a/b/c/"] {
        let expected: Vec<Vec<char>> = text.split('/').map(|p| p.chars().collect()).collect();
        assert_eq!(split(&cv(text), '/'), expected);
    }
}

#[test]
fn trim_removes_surrounding_white_space() {
    assert_eq!(trim(&cv("  France \t\n")), cv("France"));
    assert_eq!(trim(&cv("New Zealand")), cv("New Zealand"));
    assert_eq!(trim(&cv(" \u{a0}\u{2003}x\u{3000}")), cv("x"));
    assert_eq!(trim(&cv("   ")), cv(""));
    assert_eq!(trim(&cv("")), cv(""));
}

#[test]
fn trim_agrees_with_std() {
    for text in ["  a b  ", "\r\n x", "y\u{85}", "\u{200b}z ", ""] {
        assert_eq!(string_of(&trim(&cv(text))), text.trim());
    }
}

#[test]
fn parse_u32_reads_digits_only() {
    assert_eq!(parse_u32(&cv("0")), Some(0));
    assert_eq!(parse_u32(&cv("007")), Some(7));
    assert_eq!(parse_u32(&cv("1234")), Some(1234));
    assert_eq!(parse_u32(&cv("4294967295")), Some(u32::MAX));
    assert_eq!(parse_u32(&cv("4294967296")), None);
    assert_eq!(parse_u32(&cv("99999999999999999999999")), None);
    assert_eq!(parse_u32(&cv("")), None);
    assert_eq!(parse_u32(&cv("+1")), None);
    assert_eq!(parse_u32(&cv("-1")), None);
    assert_eq!(parse_u32(&cv("1.5")), None);
    assert_eq!(parse_u32(&cv(" 1")), None);
    assert_eq!(parse_u32(&cv("١٢")), None);
}

#[test]
fn underscored_replaces_spaces() {
    assert_eq!(underscored("my holiday pic.png"), "my_holiday_pic.png");
    assert_eq!(underscored("  "), "__");
    assert_eq!(underscored("tab\there"), "tab\there");
    assert_eq!(underscored(""), "");
}

#[test]
fn decimal_writes_integers() {
    assert_eq!(decimal(0), "0");
    assert_eq!(decimal(7), "7");
    assert_eq!(decimal(10), "10");
    assert_eq!(decimal(-1), "-1");
    assert_eq!(decimal(2022), "2022");
    assert_eq!(decimal(-305), "-305");
    assert_eq!(decimal(i32::MAX), "2147483647");
    assert_eq!(decimal(i32::MIN), "-2147483648");
}

#[test]
fn decimal_agrees_with_std() {
    for n in [1, 9, 11, 99, 100, 101, 1000, -1000, 123456789, -987654321] {
        assert_eq!(decimal(n), format!("{}", n));
    }
}

#[test]
fn same_text_compares_content() {
    assert!(same_text("abc", "abc"));
    assert!(same_text("", ""));
    assert!(!same_text("abc", "abd"));
    assert!(!same_text("abc", "ab"));
    assert!(!same_text("", "a"));
}

#[test]
fn white_space_is_the_unicode_list_and_nothing_else() {
    let listed = |c: char| {
        matches!(
            c,
            '\u{9}'..='\u{d}'
                | ' '
                | '\u{85}'
                | '\u{a0}'
                | '\u{1680}'
                | '\u{2000}'..='\u{200a}'
                | '\u{2028}'
                | '\u{2029}'
                | '\u{202f}'
                | '\u{205f}'
                | '\u{3000}'
        )
    };
    let mut white = 0;
    for code in 0..=0x10FFFFu32 {
        if let Some(c) = char::from_u32(code) {
            let trimmed_away = trim(&vec![c]).is_empty();
            assert_eq!(trimmed_away, listed(c), "U+{:04X}", code);
            if trimmed_away {
                white += 1;
            }
        }
    }
    assert_eq!(white, 25);
}
