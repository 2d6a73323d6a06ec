use lore_auth::sorting;
use lore_auth::text;

#[test]
fn white_space_is_that_of_unicode() {
    for n in 0..=0x10ffff_u32 {
        if let Some(c) = char::from_u32(n) {
            assert_eq!(text::white_space(c), c.is_whitespace(), "{n:x}");
        }
    }
}

#[test]
fn trimming() {
    for s in ["", " ", "a", " a", "a ", "\t a b \u{3000}", "\u{200b}a", "é "] {
        assert_eq!(text::trim(s), s.trim());
    }
    for s in ["", "/", "a", "a/", "a//", "/a/b///"] {
        assert_eq!(text::strip_trailing_slashes(s), s.trim_end_matches('/'));
    }
}

#[test]
fn comparing() {
    let words = ["", "a", "A", "ab", "b", "é", "É", "z", "\u{10000}", "\u{ffff}", "Z"];
    for a in words {
        for b in words {
            assert_eq!(text::same_text(a, b), a == b);
            assert_eq!(text::is_less(a, b), a < b);
            assert_eq!(text::eq_ignore_ascii_case(a, b), a.eq_ignore_ascii_case(b));
            assert_eq!(text::starts_with(a, b), a.starts_with(b));
            assert_eq!(text::contains(a, b), a.contains(b));
        }
    }
}

#[test]
fn taking_apart() {
    for s in ["", ",", "a", "a,b", ",a,,b,"] {
        let expected: Vec<&str> = s.split(',').collect();
        assert_eq!(text::split(s, ','), expected);
        assert_eq!(text::first_piece(s, ','), expected[0]);
    }
    assert_eq!(text::text_after("a://b://c", "://").unwrap(), "b://c");
    assert!(text::text_after("a:/b", "://").is_none());
    assert_eq!(text::strip_prefix("Bearer x", "Bearer ").unwrap(), "x");
    assert!(text::strip_prefix("bearer x", "Bearer ").is_none());
}

#[test]
fn putting_together() {
    let parts = |items: &[&str]| items.iter().map(|s| s.to_string()).collect::<Vec<String>>();
    assert_eq!(text::join(&parts(&[]), ","), "");
    assert_eq!(text::join(&parts(&["a"]), ","), "a");
    assert_eq!(text::join(&parts(&["a", "", "b"]), "、"), "a、、b");
    for n in [0, 7, 10, 99, 100, 1234567890, u64::MAX] {
        assert_eq!(text::write_decimal(n), n.to_string());
    }
}

#[test]
fn filters_are_patterns() {
    assert!(text::begins_like("", ""));
    assert!(text::begins_like("ab", "ABC"));
    assert!(!text::begins_like("abc", "ab"));
    assert!(text::begins_like("a%c", "abbbcd"));
    assert!(text::begins_like("a%c", "ac"));
    assert!(!text::begins_like("a%c", "abbb"));
    assert!(text::begins_like("_b", "xbz"));
    assert!(!text::begins_like("_b", "b"));
    assert!(text::begins_like("%%a", "xxa"));
    assert!(!text::begins_like("é", "É"));
    assert!(text::begins_like("a\\", "a\\b"));
    // A filter that ends early loses its last wildcard.
    assert!(text::begins_like("a\0zzz", "a"));
    assert!(!text::begins_like("a\0zzz", "ab"));
}

#[test]
fn sorting_strings() {
    let list: Vec<String> = ["b", "a", "c", "a", ""].iter().map(|s| s.to_string()).collect();
    assert_eq!(sorting::sort(list), vec!["", "a", "a", "b", "c"]);
}

/// The texts of up to three characters of an alphabet.
fn short_texts(alphabet: &[char]) -> Vec<String> {
    let mut all = vec![String::new()];
    let mut last = all.clone();
    for _ in 0..3 {
        last = last
            .iter()
            .flat_map(|s| alphabet.iter().map(move |c| format!("{s}{c}")))
            .collect();
        all.extend(last.iter().cloned());
    }
    all
}

#[test]
fn filters_match_as_in_sqlite() {
    let conn = rusqlite::Connection::open_in_memory().unwrap();
    let mut statement = conn.prepare("SELECT ?1 LIKE ?2").unwrap();
    for filter in short_texts(&['a', 'B', '%', '_', 'é', '\0']) {
        for text in short_texts(&['A', 'b', '%', 'É']) {
            let expected: bool = statement
                .query_row([text.clone(), format!("{filter}%")], |row| row.get(0))
                .unwrap();
            assert_eq!(text::begins_like(&filter, &text), expected, "{filter:?} {text:?}");
        }
    }
}

#[test]
fn names_compare_as_in_sqlite() {
    let conn = rusqlite::Connection::open_in_memory().unwrap();
    let mut same = conn.prepare("SELECT ?1 = ?2 COLLATE NOCASE").unwrap();
    let mut less = conn.prepare("SELECT ?1 < ?2").unwrap();
    let texts = short_texts(&['a', 'B', 'b', '[', 'é', 'É']);
    for a in texts.iter().step_by(7) {
        for b in &texts {
            let expected: bool = same.query_row([a, b], |row| row.get(0)).unwrap();
            assert_eq!(text::eq_ignore_ascii_case(a, b), expected, "{a} {b}");
            let expected: bool = less.query_row([a, b], |row| row.get(0)).unwrap();
            assert_eq!(text::is_less(a, b), expected, "{a} {b}");
        }
    }
}
