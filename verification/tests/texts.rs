use proxy_tool::creds;
use proxy_tool::creds::Creds;
use proxy_tool::text::{
    contains, decimal_text, ends_with, hex_text, is_blank, parse_port, rsplit_once, same_text,
    split_lines, starts_with, strip_prefix, trim, trim_end_matches, white,
    wide_decimal_text,
};
use proxy_tool::text_map::{less, sort, TextMap};

#[test]
fn white_space_is_what_the_standard_says() {
    for u in 0..=0x10FFFFu32 {
        if let Some(c) = char::from_u32(u) {
            assert_eq!(white(c), c.is_whitespace(), "{u:x}");
        }
    }
}

#[test]
fn trimming_agrees_with_the_standard() {
    for s in ["", " ", "a", " a", "a ", "\t a b \u{3000}", "\u{2003}x", "中 文 ", "\n\n"] {
        assert_eq!(trim(s), s.trim());
        assert_eq!(is_blank(s), s.trim().is_empty());
    }
    for s in ["", "\r", "a\r\r", "a\rb", "\r\ra"] {
        assert_eq!(trim_end_matches(s, '\r'), s.trim_end_matches('\r'));
    }
}

#[test]
fn searching_agrees_with_the_standard() {
    let words = ["", "a", "ab", "ba", "aab", "失败", "连接失败: 拒绝", "失", "败", "aaab"];
    for a in words {
        for b in words {
            assert_eq!(contains(a, b), a.contains(b), "{a} {b}");
            assert_eq!(starts_with(a, b), a.starts_with(b));
            assert_eq!(ends_with(a, b), a.ends_with(b));
            assert_eq!(strip_prefix(a, b), a.strip_prefix(b));
            assert_eq!(same_text(a, b), a == b);
            assert_eq!(less(a, b), a < b);
        }
    }
    for s in ["", ":", "a:b", "a:b:c", "::1:22", "abc"] {
        assert_eq!(rsplit_once(s, ':'), s.rsplit_once(':'));
    }
}

#[test]
fn ports_agree_with_the_standard() {
    for s in [
        "", "0", "00", "22", "+22", "-1", "65535", "65536", "99999999999999999999", "2 2", " 22",
        "+", "++1", "２", "1a", "000000065535",
    ] {
        assert_eq!(parse_port(s), s.parse::<u16>().ok(), "{s}");
    }
}

#[test]
fn numerals_agree_with_the_standard() {
    for n in [0u64, 7, 10, 99, 100, 65535, u64::MAX] {
        assert_eq!(decimal_text(n), n.to_string());
    }
    for n in [0u128, 10, u64::MAX as u128, u64::MAX as u128 + 1, u128::MAX] {
        assert_eq!(wide_decimal_text(n), n.to_string());
    }
    let all: Vec<u8> = (0..=255).collect();
    let want: String = all.iter().map(|b| format!("{b:02x}")).collect();
    assert_eq!(hex_text(&all), want);
}

#[test]
fn lines_are_cut_at_line_feeds() {
    for s in ["", "a", "a\nb", "\n", "a\r\nb\n", "\n\nx"] {
        let want: Vec<String> = s.split('\n').map(String::from).collect();
        assert_eq!(split_lines(s), want);
    }
}

#[test]
fn sorting_agrees_with_the_standard() {
    let mut v: Vec<String> =
        ["b", "a", "", "ab", "中", "é", "Z", "a"].iter().map(|s| s.to_string()).collect();
    let mut w = v.clone();
    sort(&mut v);
    w.sort();
    assert_eq!(v, w);
}

#[test]
fn a_map_keeps_one_value_per_key() {
    let mut m: TextMap<u32> = TextMap::new();
    m.insert("b".to_string(), 1);
    m.insert("a".to_string(), 2);
    m.insert("b".to_string(), 3);
    assert_eq!(m.len(), 2);
    assert_eq!(m.get("b"), Some(&3));
    assert_eq!(m.at(0), (&"a".to_string(), &2));
    assert!(m.contains_key("a"));
    assert_eq!(m.remove("a"), Some(2));
    assert_eq!(m.remove("a"), None);
    assert_eq!(m.get("a"), None);
}

#[test]
fn settings_are_read_line_by_line() {
    let c = creds::parse("SERVER=h\r\nPORT=2222\r\nUSER=u\nPASS= p w \r\r\n");
    assert_eq!(
        c,
        Creds { server: "h".into(), port: 2222, user: "u".into(), pass: " p w ".into() }
    );
    let c = creds::parse("USER=a\nUSER=b\nPORT=22\nPORT=x\n#SERVER=z\n SERVER=y");
    assert_eq!(
        c,
        Creds { server: "".into(), port: 22, user: "b".into(), pass: "".into() }
    );
    assert_eq!(creds::parse("PORT=8022\nPORT=no").port, 22);
}

#[test]
fn the_environment_comes_first() {
    let s = |x: &str| Some(x.to_string());
    let env = creds::from_env(s("h"), s("u"), s("p"), s("70000")).unwrap();
    assert_eq!(env.port, 22);
    assert_eq!(creds::from_env(s("h"), s("u"), s("p"), s("23")).unwrap().port, 23);
    assert!(creds::from_env(s("h"), None, s("p"), None).is_none());
    let c = creds::load(Some(env), Some("SERVER=other")).unwrap();
    assert_eq!(c.server, "h");
    assert_eq!(creds::pass(&c), "p");
    assert_eq!(creds::load(None, Some("SERVER=other")).unwrap().server, "other");
    assert!(creds::load(None, None).is_none());
}
