use wx_cli::number::{i64_text, parse_i64, parse_u32, usize_text};
use wx_cli::order::{is_text_lt, sort_by_keys, sorted_places, Descending, MarkedFirst};
use wx_cli::config::Platform;
use wx_cli::paths::{is_absolute_on, join_on, NativePath};
use wx_cli::strmap::StrMap;
use wx_cli::text::{
    concat2, concat3, contains, ends_with, is_white_space, lines, replace, same, single_space,
    split_first, starts_with, take_chars, trim,
};

#[test]
fn white_space_is_that_of_char() {
    for n in 0..=0x10FFFFu32 {
        if let Some(c) = char::from_u32(n) {
            assert_eq!(is_white_space(c), c.is_whitespace(), "{:x}", n);
        }
    }
}

#[test]
fn texts_behave_like_str() {
    let samples = [
        "", " ", "a", "ab", "aab", "aaab", "\u{3000}x\n", " a b ", "é", "中文", "a\nb", "a\r\nb\r\n",
        "\n", "\r", "a\n\nb", "x\r", "\r\n", "a\nb\r", "aaaa", "abab", "a  b\t c",
    ];
    for s in samples {
        assert_eq!(trim(s), s.trim(), "{:?}", s);
        let want: Vec<&str> = s.lines().collect();
        assert_eq!(lines(s), want, "{:?}", s);
        let words: Vec<&str> = s.split_whitespace().collect();
        assert_eq!(single_space(s), words.join(" "), "{:?}", s);
        for n in 0..4 {
            assert_eq!(take_chars(s, n), s.chars().take(n).collect::<String>());
        }
        for p in samples {
            assert_eq!(contains(s, p), s.contains(p), "{:?} {:?}", s, p);
            assert_eq!(starts_with(s, p), s.starts_with(p));
            assert_eq!(ends_with(s, p), s.ends_with(p));
            assert_eq!(same(s, p), s == p);
            assert_eq!(is_text_lt(s, p), s < p, "{:?} {:?}", s, p);
            assert_eq!(concat2(s, p), format!("{}{}", s, p));
            if !p.is_empty() {
                assert_eq!(replace(s, p, "-+"), s.replace(p, "-+"), "{:?} {:?}", s, p);
                let want = s.split_once(p).map(|(a, b)| (a.to_string(), b.to_string()));
                assert_eq!(split_first(s, p), want);
            }
        }
    }
    assert_eq!(concat3("a", "", "c"), "ac");
}

#[test]
fn order_of_texts_is_that_of_their_bytes() {
    assert!(is_text_lt("Z", "a"));
    assert!(is_text_lt("z", "é"));
    assert!(is_text_lt("\u{FFFF}", "\u{10000}"));
    assert!(is_text_lt("a", "aa"));
}

#[test]
fn numbers_are_written_and_read_like_std() {
    for i in [0, 1, -1, 9, 10, -10, 12345, i64::MAX, i64::MIN] {
        assert_eq!(i64_text(i), i.to_string());
        assert_eq!(parse_i64(&i64_text(i)), Some(i));
    }
    for n in [0, 7, 10, 99, usize::MAX] {
        assert_eq!(usize_text(n), n.to_string());
    }
    for s in [
        "", "0", "-0", "+7", "-", "+", "007", "1 ", " 1", "9223372036854775807",
        "9223372036854775808", "-9223372036854775808", "-9223372036854775809", "１", "1e3", "4294967295",
        "4294967296", "-1", "+-1", "99999999999999999999999999",
    ] {
        assert_eq!(parse_i64(s), s.parse::<i64>().ok(), "{:?}", s);
        assert_eq!(parse_u32(s), s.parse::<u32>().ok(), "{:?}", s);
    }
}

#[test]
fn sorting_keeps_equal_keys_in_order() {
    let keys: Vec<i64> = vec![3, 1, 2, 1, 3];
    assert_eq!(sorted_places(&keys), vec![1, 3, 2, 0, 4]);
    let down: Vec<Descending> = keys.iter().map(|k| Descending(*k)).collect();
    assert_eq!(sort_by_keys(vec!['a', 'b', 'c', 'd', 'e'], &down), vec!['a', 'e', 'c', 'b', 'd']);
    let marked = vec![
        MarkedFirst { marked: false, text: "a".to_string() },
        MarkedFirst { marked: true, text: "z".to_string() },
        MarkedFirst { marked: false, text: "A".to_string() },
    ];
    assert_eq!(sort_by_keys(vec![0, 1, 2], &marked), vec![1, 2, 0]);
}

#[test]
fn sorting_agrees_with_std() {
    let mut keys: Vec<i64> = Vec::new();
    let mut x: u64 = 12345;
    for _ in 0..500 {
        x = x.wrapping_mul(6364136223846793005).wrapping_add(1442695040888963407);
        keys.push(((x >> 33) % 50) as i64);
    }
    let items: Vec<usize> = (0..keys.len()).collect();
    let mut want = items.clone();
    want.sort_by_key(|i| keys[*i]);
    assert_eq!(sort_by_keys(items, &keys), want);
}

#[test]
fn map_keeps_its_keys_in_order() {
    let mut m: StrMap<i64> = StrMap::new();
    for (k, v) in [("b", 1), ("a", 2), ("c", 3), ("b", 4)] {
        m.insert(k.to_string(), v);
    }
    assert_eq!(m.len(), 3);
    assert_eq!(m.at(0), (&"a".to_string(), &2));
    assert_eq!(m.at(1), (&"b".to_string(), &4));
    assert_eq!(m.get("c"), Some(&3));
    assert_eq!(m.get("d"), None);
    assert!(m.contains_key("a"));
    assert!(!m.clone().contains_key("A"));
}

fn joined(platform: Platform, base: &str, part: &str) -> String {
    String::from_utf8(join_on(platform, &NativePath::of_text(base), part).bytes).unwrap()
}

#[test]
fn paths_are_joined_as_on_unix() {
    for (base, part) in [
        ("/a", "b"), ("/a/", "b"), ("", "b"), ("/", "b"), ("/a", "/b"), ("a/b", "c/d"), ("/a", ""),
        ("x", "."), ("/家", "é"), ("/a", r"\b"), ("/a", "C:b"),
    ] {
        let want = std::path::Path::new(base).join(part);
        assert_eq!(joined(Platform::Linux, base, part), want.to_str().unwrap(), "{} {}", base, part);
    }
    let odd = NativePath { bytes: vec![b'/', 0xff] };
    assert_eq!(join_on(Platform::MacOs, &odd, "b").bytes, vec![b'/', 0xff, b'/', b'b']);
    assert_eq!(odd.copied(), odd);
}

#[test]
fn paths_are_joined_as_on_windows() {
    let join = |a: &str, b: &str| joined(Platform::Windows, a, b);
    assert_eq!(join(r"C:\a", "b"), r"C:\a\b");
    assert_eq!(join(r"C:\a\", "b"), r"C:\a\b");
    assert_eq!(join("C:/a/", "b"), "C:/a/b");
    assert_eq!(join("", "b"), "b");
    assert_eq!(join("C:", "b"), "C:b");
    assert_eq!(join(r"C:\a", r"D:\b"), r"D:\b");
    assert_eq!(join(r"C:\a", r"D:b"), r"D:b");
    assert_eq!(join(r"C:\a", r"\\srv\share\b"), r"\\srv\share\b");
    assert_eq!(join(r"C:\a", r"\b"), r"C:\b");
    assert_eq!(join(r"C:\a", "/b"), "C:/b");
    assert_eq!(join(r"\\srv\share\a\b", r"\c"), r"\\srv\share\c");
    assert_eq!(join(r"\\srv", r"\c"), r"\\srv\c");
    assert_eq!(join(r"a\b", r"\c"), r"\c");
    let on = |system: Platform, p: &str| is_absolute_on(system, &NativePath::of_text(p));
    let abs = |p: &str| on(Platform::Windows, p);
    assert!(abs(r"C:\x") && abs("c:/x") && abs(r"\\srv\share"));
    assert!(!abs("C:x") && !abs(r"\x") && !abs("/x") && !abs("x") && !abs("") && !abs(r"1:\x"));
    assert!(on(Platform::Linux, "/x") && !on(Platform::Linux, r"C:\x") && !on(Platform::Linux, ""));
    assert_eq!(joined(Platform::MacOs, "/a", "b"), "/a/b");
}
