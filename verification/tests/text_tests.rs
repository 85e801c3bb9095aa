use battleverse_launcher::text::{
    decimal_chars, join, replace, split_chars, to_chars, trim, white_space,
};

#[test]
fn trim_matches_std_trim() {
    for s in ["", "   ", "  a b  ", "\t\nabc\r\n", "\u{3000}x\u{a0}", "\u{200b}y", "no-space"] {
        assert_eq!(trim(s), s.trim());
    }
}

#[test]
fn replace_matches_std_replace() {
    let cases = [
        ("aaa", "aa", "b"),
        ("${a}${a}", "${a}", "x"),
        ("O'Brien's", "'", "''"),
        ("abc", "zz", "q"),
        ("", "a", "b"),
    ];
    for (s, p, r) in cases {
        assert_eq!(replace(s, p, r), s.replace(p, r));
    }
}

#[test]
fn split_matches_std_split() {
    for s in ["a:b:c", "::", "", "net.minecraftforge:forge:1.20.1-47.2.0:universal"] {
        let parts: Vec<String> = split_chars(&to_chars(s), ':')
            .into_iter()
            .map(|p| p.into_iter().collect())
            .collect();
        let expected: Vec<String> = s.split(':').map(|p| p.to_string()).collect();
        assert_eq!(parts, expected);
    }
}

#[test]
fn join_matches_std_join() {
    let parts = vec!["a".to_string(), "b".to_string(), "c".to_string()];
    assert_eq!(join(&parts, ";"), "a;b;c");
    assert_eq!(join(&vec![], ";"), "");
    assert_eq!(join(&vec!["only".to_string()], ";"), "only");
}

#[test]
fn decimal_digits() {
    for n in [0u32, 7, 10, 6144, 4294967295] {
        let s: String = decimal_chars(n).into_iter().collect();
        assert_eq!(s, n.to_string());
    }
}

#[test]
fn trim_twice_is_trim_once() {
    let s = " \t 1.20.1 \n";
    assert_eq!(trim(&trim(s)), trim(s));
}

#[test]
fn white_space_matches_std() {
    for u in 0u32..0x11000 {
        if let Some(c) = char::from_u32(u) {
            assert_eq!(white_space(c), c.is_whitespace(), "U+{:04X}", u);
        }
    }
}
