use voice_ai_orchestrator::environment::{
    env_bool, env_list, env_nonempty, env_u32, env_u64, Environment,
};
use voice_ai_orchestrator::text::{
    byte_len, contains_text, decimal_text, ends_with, is_whitespace, join_texts, parse_u32,
    parse_u64, split_char, split_lines, split_whitespace, starts_with_text, to_ascii_lowercase,
    trim, word_count,
};

fn strings(list: &[&str]) -> Vec<String> {
    list.iter().map(|s| s.to_string()).collect()
}

#[test]
fn white_space_is_that_of_unicode() {
    for n in 0..=0x10ffffu32 {
        if let Some(c) = char::from_u32(n) {
            assert_eq!(is_whitespace(c), c.is_whitespace());
        }
    }
}

#[test]
fn texts_are_trimmed_and_split_as_std_does() {
    let samples = [
        "",
        " ",
        "a",
        "  a b  c ",
        "\u{a0}x\u{3000}y\u{2003}",
        "one\ntwo\r\nthree\r",
        "\n\n",
        "last\r\n",
        "caf\u{e9} \u{1f600}, ok",
        "\r",
        "a\r\r\nb",
    ];
    for s in samples {
        assert_eq!(trim(s), s.trim());
        assert_eq!(split_whitespace(s), strings(&s.split_whitespace().collect::<Vec<_>>()));
        assert_eq!(word_count(s), s.split_whitespace().count());
        assert_eq!(split_char(s, 'o'), strings(&s.split('o').collect::<Vec<_>>()));
        assert_eq!(split_lines(s), strings(&s.lines().collect::<Vec<_>>()));
        assert_eq!(to_ascii_lowercase(s), s.to_ascii_lowercase());
        assert_eq!(byte_len(s), s.len());
        for t in ["", "o", "two", "a b", "\u{e9}"] {
            assert_eq!(contains_text(s, t), s.contains(t));
            assert_eq!(starts_with_text(s, t), s.starts_with(t));
        }
        assert_eq!(ends_with(s, 'k'), s.ends_with('k'));
    }
    assert_eq!(to_ascii_lowercase("AbZ\u{c9}"), "abz\u{c9}");
}

#[test]
fn words_rejoin() {
    let words = split_whitespace("  one \t two\n\nthree ");
    let joined = join_texts(&words, " ");
    assert_eq!(joined, "one two three");
    assert_eq!(split_whitespace(&joined), words);
    assert_eq!(join_texts(&[], ", "), "");
}

#[test]
fn numbers_are_read_as_std_does() {
    let samples = [
        "0", "7", "+7", "-7", "", "+", "007", "18446744073709551615", "18446744073709551616",
        "4294967295", "4294967296", " 7", "7 ", "seven", "1_000", "\u{663}",
        "00000000000000000000000000000000000001",
    ];
    for s in samples {
        assert_eq!(parse_u64(s), s.parse::<u64>().ok());
        assert_eq!(parse_u32(s), s.parse::<u32>().ok());
    }
    for n in [0, 9, 10, 123, u64::MAX] {
        assert_eq!(decimal_text(n), n.to_string());
        assert_eq!(parse_u64(&decimal_text(n)), Some(n));
    }
}

fn environment(vars: &[(&str, &str)]) -> Environment {
    Environment {
        vars: vars.iter().map(|(k, v)| (k.to_string(), v.to_string())).collect(),
    }
}

#[test]
fn variables_are_read_with_defaults() {
    let env = environment(&[
        ("N", "12"),
        ("BAD", "twelve"),
        ("BIG", "4294967296"),
        ("BLANK", "  "),
        ("NAME", " x "),
        ("YES", "On"),
        ("NO", "FALSE"),
        ("MAYBE", "perhaps"),
        ("LIST", " a, ,b ,, c d "),
    ]);
    assert_eq!(env_u32(&env, "N", 5), 12);
    assert_eq!(env_u32(&env, "BAD", 5), 5);
    assert_eq!(env_u32(&env, "BIG", 5), 5);
    assert_eq!(env_u64(&env, "BIG", 5), 4294967296);
    assert_eq!(env_u64(&env, "NONE", 5), 5);
    assert_eq!(env_nonempty(&env, "BLANK"), None);
    assert_eq!(env_nonempty(&env, "NONE"), None);
    assert_eq!(env_nonempty(&env, "NAME"), Some(" x ".to_string()));
    assert!(env_bool(&env, "YES", false));
    assert!(!env_bool(&env, "NO", true));
    assert!(env_bool(&env, "MAYBE", true));
    assert!(!env_bool(&env, "NONE", false));
    assert_eq!(env_list(&env, "LIST"), strings(&["a", "b", "c d"]));
    assert_eq!(env_list(&env, "NONE"), Vec::<String>::new());
    assert_eq!(env.var("N"), Some("12".to_string()));
    assert_eq!(env.var_or("NONE", "z"), "z");
}
