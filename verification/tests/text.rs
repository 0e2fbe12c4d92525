use statix_agent::digest::{hash_u16, hex_prefix, short_hash};
use statix_agent::netaddr::{parse_ipv4, parse_ipv6, Ipv4Addr};
use statix_agent::paths::join_path;
use statix_agent::process::more_telling;
use statix_agent::segment::safe_segment;
use statix_agent::shell::{shell_escape, shell_join};
use statix_agent::text::{
    contains, ellipsize, join, lines, parse_number, rsplit_once, split, split_once, starts_with,
    take_chars, to_decimal, to_lower, trim, trim_with, white, words,
};

#[test]
fn white_space_is_that_of_unicode() {
    let mut n: u32 = 0;
    while n <= 0x10ffff {
        if let Some(c) = char::from_u32(n) {
            assert_eq!(white(c), c.is_whitespace(), "{n:x}");
        }
        n += 1;
    }
}

#[test]
fn texts_are_taken_apart_as_usual() {
    for s in ["", " ", "a", " a b ", "a,b,,c", ",", "a\nb\r\nc\n", "\n", "a\r", "é ü\u{3000}x", "a\n\nb"] {
        assert_eq!(trim(s), s.trim());
        assert_eq!(trim_with(s, Some(',')), s.trim_matches(','));
        assert_eq!(split(s, ','), s.split(',').map(String::from).collect::<Vec<_>>());
        assert_eq!(lines(s), s.lines().map(String::from).collect::<Vec<_>>());
        assert_eq!(words(s), s.split_whitespace().map(String::from).collect::<Vec<_>>());
        assert_eq!(
            split_once(s, ','),
            s.split_once(',').map(|(a, b)| (a.to_string(), b.to_string()))
        );
        assert_eq!(
            rsplit_once(s, ','),
            s.rsplit_once(',').map(|(a, b)| (a.to_string(), b.to_string()))
        );
        assert_eq!(to_lower(s), s.to_ascii_lowercase());
        assert_eq!(join(&split(s, ','), ","), s);
        for t in ["", "a", ",", "b,", "é"] {
            assert_eq!(contains(s, t), s.contains(t));
            assert_eq!(starts_with(s, t), s.starts_with(t));
        }
    }
}

#[test]
fn what_is_put_together_is_taken_apart_again() {
    let parts: Vec<String> = ["", "a b", "", "é"].iter().map(|s| s.to_string()).collect();
    assert_eq!(join(&parts, ","), ",a b,,é");
    assert_eq!(split(&join(&parts, ","), ','), parts);
    for ip in [Ipv4Addr::new(0, 0, 0, 0), Ipv4Addr::new(172, 31, 0, 9), Ipv4Addr::new(255, 10, 100, 1)] {
        assert_eq!(parse_ipv4(&ip.to_text()), Some(ip));
    }
    for n in [0, 9, 10, 99, 12_345] {
        assert_eq!(parse_number(&to_decimal(n), u64::MAX), Some(n));
    }
}

#[test]
fn texts_are_cut_by_characters() {
    assert_eq!(take_chars("éüx", 2), "éü");
    assert_eq!(take_chars("é", 2), "é");
    assert_eq!(ellipsize("éüx", 2), "éü...");
    assert_eq!(ellipsize("éü", 2), "éü");
    assert_eq!(ellipsize(&ellipsize("éüx", 2), 2), "éü...");
}

#[test]
fn numbers_are_written_and_read() {
    for n in [0, 7, 10, 255, 65535, u64::MAX] {
        assert_eq!(to_decimal(n), n.to_string());
        assert_eq!(parse_number(&n.to_string(), u64::MAX), Some(n));
    }
    assert_eq!(parse_number("256", 255), None);
    assert_eq!(parse_number("007", 255), Some(7));
    assert_eq!(parse_number("+", 255), None);
    assert_eq!(parse_number(" 1", 255), None);
}

#[test]
fn addresses_are_read_as_usual() {
    assert_eq!(parse_ipv4("1.2.3.4"), Some(Ipv4Addr::new(1, 2, 3, 4)));
    assert_eq!(parse_ipv4("255.255.255.255"), Some(Ipv4Addr::new(255, 255, 255, 255)));
    assert_eq!(parse_ipv4("0.0.0.0"), Some(Ipv4Addr::new(0, 0, 0, 0)));
    for bad in ["1.2.3", "1.2.3.4.5", "01.2.3.4", "1.2.3.256", "1..3.4", "", "a.b.c.d", "1.2.3.4 "] {
        assert_eq!(parse_ipv4(bad), None, "{bad}");
    }
    let good: Vec<(&str, Vec<u16>)> = vec![
        ("::", vec![0, 0, 0, 0, 0, 0, 0, 0]),
        ("::1", vec![0, 0, 0, 0, 0, 0, 0, 1]),
        ("1::", vec![1, 0, 0, 0, 0, 0, 0, 0]),
        ("2001:DB8::53", vec![0x2001, 0xdb8, 0, 0, 0, 0, 0, 0x53]),
        ("1:2:3:4:5:6:7:8", vec![1, 2, 3, 4, 5, 6, 7, 8]),
        ("::1.2.3.4", vec![0, 0, 0, 0, 0, 0, 0x102, 0x304]),
        ("1:2:3:4:5:6:1.2.3.4", vec![1, 2, 3, 4, 5, 6, 0x102, 0x304]),
        ("1:2:3:4:5:6:7::", vec![1, 2, 3, 4, 5, 6, 7, 0]),
        ("::ffff:127.0.0.1", vec![0, 0, 0, 0, 0, 0xffff, 0x7f00, 1]),
    ];
    for (text, groups) in good {
        assert_eq!(parse_ipv6(text), Some(groups), "{text}");
    }
    for bad in ["1:2:3:4:5:6:7", "1:2:3:4:5:6:7:8:9", "1::2::3", ":1", "12345::", "g::", "", ":::"] {
        assert_eq!(parse_ipv6(bad), None, "{bad}");
    }
    assert_eq!(Ipv4Addr::new(10, 0, 3, 1).to_text(), "10.0.3.1");
}

#[test]
fn digests_are_those_of_sha256() {
    assert_eq!(
        short_hash("abc", 64),
        "ba7816bf8f01cfea414140de5dae2223b00361a396177a9cb410ff61f20015ad"
    );
    assert_eq!(short_hash("", 8), "e3b0c442");
    assert_eq!(hash_u16("abc"), 0xba78);
    assert_eq!(hex_prefix(&[0x0f, 0xa0, 0xff], 5), "0fa0f");
}

#[test]
fn segments_are_safe() {
    assert_eq!(safe_segment("a b/c"), "a-b-c");
    assert_eq!(safe_segment("--a__b--"), "a__b");
    assert_eq!(safe_segment("é"), "default");
    assert_eq!(safe_segment(""), "default");
    assert_eq!(safe_segment("a----b"), "a-b");
    for s in ["a b", "x", "--", "ü-ü", "A_9"] {
        let once = safe_segment(s);
        assert_eq!(safe_segment(&once), once);
    }
}

#[test]
fn words_are_quoted_for_the_shell() {
    assert_eq!(shell_escape(""), "''");
    assert_eq!(shell_escape("a@%_-+=:,./9"), "a@%_-+=:,./9");
    assert_eq!(shell_escape("a b"), "'a b'");
    assert_eq!(shell_escape("it's"), "'it'\\''s'");
    assert_eq!(shell_escape("$x"), "'$x'");
    assert_eq!(shell_escape("é"), "'é'");
    assert_eq!(
        shell_join(&vec!["a".to_string(), String::new(), "b c".to_string()]),
        "a '' 'b c'"
    );
    assert_eq!(shell_join(&vec![]), "");
}

#[test]
fn paths_are_joined() {
    assert_eq!(join_path("/a", "b"), "/a/b");
    assert_eq!(join_path("/a/", "b"), "/a/b");
    assert_eq!(join_path("", "b"), "b");
    assert_eq!(join_path("/a", "/b"), "/b");
    assert_eq!(join_path("/a", ""), "/a/");
    for (a, b) in [("/a", "b/c"), ("a", "b"), ("/", "x"), ("", ""), ("a", "/")] {
        assert_eq!(join_path(a, b), std::path::Path::new(a).join(b).to_str().unwrap());
    }
}

#[test]
fn the_telling_output_is_chosen() {
    assert_eq!(more_telling(" o ", " e "), "e");
    assert_eq!(more_telling(" o ", " \n"), "o");
    assert_eq!(more_telling("", ""), "");
}
