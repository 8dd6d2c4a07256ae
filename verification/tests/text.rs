use yufi::text::{
    chars_of, contains, contains_chars, find_char, parse_unsigned, split, str_eq, str_lt, trim,
    trim_range,
};

#[test]
fn equal_strings_compare_equal() {
    assert!(str_eq("Office_Main", "Office_Main"));
    assert!(!str_eq("Office_Main", "Office_Mail"));
    assert!(!str_eq("Office", "Office_Main"));
    assert!(str_eq("", ""));
}

#[test]
fn order_is_that_of_str() {
    let samples = ["", "A", "a", "ab", "abc", "abd", "b", "Zulu", "alpha", "é", "z", "日本", "~"];
    for a in samples {
        for b in samples {
            assert_eq!(str_lt(a, b), a < b, "{a:?} < {b:?}");
        }
    }
}

#[test]
fn chars_are_those_of_the_string() {
    assert_eq!(chars_of("Wi\u{2011}Fi"), vec!['W', 'i', '\u{2011}', 'F', 'i']);
    assert!(chars_of("").is_empty());
}

#[test]
fn trim_is_that_of_str() {
    let samples = [
        "",
        " ",
        "   ",
        "abc",
        "  abc",
        "abc  ",
        " a b c ",
        "\t\n x \r\n",
        "\u{a0}nbsp\u{a0}",
        "\u{3000}wide\u{2003}",
        " é ",
    ];
    for s in samples {
        assert_eq!(trim(s), s.trim(), "{s:?}");
    }
}

#[test]
fn trim_range_stays_inside_its_bounds() {
    let chars = chars_of("ab  cd  ef");
    assert_eq!(trim_range(&chars, 2, 8), (4, 6));
    assert_eq!(trim_range(&chars, 2, 4), (4, 4));
    assert_eq!(trim_range(&chars, 0, 10), (0, 10));
}

#[test]
fn contains_is_that_of_str() {
    let hays = ["", "a", "secrets were required", "no agent", "abcabd", "ééé", "psk"];
    let needles = ["", "a", "secrets", "agent", "abd", "é", "psk", "zzz", "secrets were required!"];
    for h in hays {
        for n in needles {
            assert_eq!(contains(h, n), h.contains(n), "{h:?} contains {n:?}");
        }
    }
    assert!(contains_chars(&chars_of("abc"), &chars_of("bc")));
    assert!(!contains_chars(&chars_of("abc"), &chars_of("cb")));
}

#[test]
fn find_char_gives_the_first_place_or_the_end() {
    let chars = chars_of("10.0.0.1/24");
    assert_eq!(find_char(&chars, 0, chars.len(), '/'), 8);
    assert_eq!(find_char(&chars, 0, chars.len(), '.'), 2);
    assert_eq!(find_char(&chars, 3, chars.len(), '.'), 4);
    assert_eq!(find_char(&chars, 0, chars.len(), ':'), chars.len());
    assert_eq!(find_char(&chars, 0, 2, '.'), 2);
}

fn pieces(s: &str, c: char) -> Vec<String> {
    let chars = chars_of(s);
    split(&chars, 0, chars.len(), c)
        .into_iter()
        .map(|(a, b)| chars[a..b].iter().collect::<String>())
        .collect()
}

#[test]
fn split_is_that_of_str() {
    let samples = ["", ".", "a.b", "1.2.3.4", "..", "a.", ".a", "no dots", "1.1.1.1, 8.8.8.8"];
    for s in samples {
        let expected: Vec<String> = s.split('.').map(|p| p.to_string()).collect();
        assert_eq!(pieces(s, '.'), expected, "{s:?}");
        let expected: Vec<String> = s.split(',').map(|p| p.to_string()).collect();
        assert_eq!(pieces(s, ','), expected, "{s:?}");
    }
}

fn read(s: &str, max: u32) -> Option<u32> {
    let chars = chars_of(s);
    parse_unsigned(&chars, 0, chars.len(), max)
}

#[test]
fn numbers_are_read_as_std_reads_them() {
    let samples = [
        "", "0", "7", "24", "032", "255", "256", "+5", "+", "-5", "++5", "5+", " 5", "5 ", "1e3",
        "4294967295", "4294967296", "99999999999999999999", "٣", "0x10", "00000000000000000001",
    ];
    for s in samples {
        assert_eq!(read(s, u32::MAX), s.parse::<u32>().ok(), "{s:?} as u32");
        assert_eq!(read(s, 255), s.parse::<u8>().ok().map(u32::from), "{s:?} as u8");
    }
    assert_eq!(read("24", u32::MAX), Some(24));
    assert_eq!(read("4294967295", u32::MAX), Some(4294967295));
}

#[test]
fn white_space_is_the_listed_code_points() {
    let listed = |c: char| {
        matches!(
            c,
            '\u{9}'..='\u{d}'
                | ' '
                | '\u{85}'
                | '\u{a0}'
                | '\u{1680}'
                | '\u{2000}'..='\u{200a}'
                | '\u{2028}'
                | '\u{2029}'
                | '\u{202f}'
                | '\u{205f}'
                | '\u{3000}'
        )
    };
    let mut text = String::new();
    for code in 0..=0x10ffffu32 {
        let Some(c) = char::from_u32(code) else { continue };
        text.clear();
        text.push(c);
        assert_eq!(trim(&text).is_empty(), listed(c), "U+{code:04X}");
    }
}
