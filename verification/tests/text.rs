use ksud::text::{chars_of, parse_i32, parse_u32, push_decimal, split_words, trim_chars};

fn chars(s: &str) -> Vec<char> {
    s.chars().collect()
}

fn strings(words: Vec<Vec<char>>) -> Vec<String> {
    words.into_iter().map(|w| w.into_iter().collect()).collect()
}

#[test]
fn parses_like_std() {
    for s in ["0", "+7", "42", "4294967295", "4294967296", "", "+", "-1", "1a", " 1", "007"] {
        assert_eq!(parse_u32(&chars(s)), s.parse::<u32>().ok(), "{s:?}");
    }
    for s in [
        "0", "-0", "+5", "-5", "2147483647", "2147483648", "-2147483648", "-2147483649", "", "-",
        "+", "--1", "12x", "10013",
    ] {
        assert_eq!(parse_i32(&chars(s)), s.parse::<i32>().ok(), "{s:?}");
    }
}

#[test]
fn splits_and_trims_like_std() {
    for s in ["", "  a b\tc\n", "one", "\u{3000}x\u{a0}y  ", "a\r\nb"] {
        let expected: Vec<String> = s.split_whitespace().map(str::to_owned).collect();
        assert_eq!(strings(split_words(&chars(s))), expected);
        let trimmed: String = trim_chars(&chars(s)).into_iter().collect();
        assert_eq!(trimmed, s.trim());
    }
}

#[test]
fn writes_decimal_numbers() {
    for n in [0u64, 7, 10, 41, 63, 1234567890, u64::MAX] {
        let mut out = vec!['#'];
        push_decimal(&mut out, n);
        let s: String = out.into_iter().collect();
        assert_eq!(s, format!("#{n}"));
    }
    assert_eq!(chars_of("héllo"), vec!['h', 'é', 'l', 'l', 'o']);
}
