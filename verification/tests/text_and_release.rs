use orbix::os_release::{
    distro_id, lookup_last, parse_os_release, parse_release_line, pretty_name,
    release_is_readable, split_lines,
};
use orbix::text::{find_char_index, is_white_space_char, str_equal, trim_str};

const DEBIAN: &str = "PRETTY_NAME=\"Debian GNU/Linux 12 (bookworm)\"\n\
NAME=\"Debian GNU/Linux\"\n\
VERSION_ID=\"12\"\n\
ID=debian\n\
HOME_URL=\"https://www.debian.org/\"\n";

const MINT: &str = "NAME=\"Linux Mint\"\r\n\
ID=linuxmint\r\n\
ID_LIKE=\"ubuntu debian\"\r\n\
PRETTY_NAME=\"Linux Mint 21.2\"\r\n";

fn pairs(v: &[(&str, &str)]) -> Vec<(String, String)> {
    v.iter().map(|(k, x)| (k.to_string(), x.to_string())).collect()
}

#[test]
fn trim_removes_ascii_and_unicode_white_space() {
    assert_eq!(trim_str("  a b \t"), "a b");
    assert_eq!(trim_str("\u{3000}x\u{2003}\r\n"), "x");
    assert_eq!(trim_str("   "), "");
    assert_eq!(trim_str(""), "");
    assert_eq!(trim_str("\u{200b}x"), "\u{200b}x");
}

#[test]
fn white_space_matches_std() {
    for c in ['\t', '\n', '\u{0b}', '\u{0c}', '\r', ' ', '\u{85}', '\u{a0}', '\u{1680}', '\u{2000}',
        '\u{200a}', '\u{2028}', '\u{2029}', '\u{202f}', '\u{205f}', '\u{3000}', 'a', '"', '\u{200b}',
        '\u{180e}', '\u{feff}', '=']
    {
        assert_eq!(is_white_space_char(c), c.is_whitespace(), "{:?}", c);
    }
}

#[test]
fn find_and_compare_characters() {
    assert_eq!(find_char_index("KEY=VALUE=X", '='), 3);
    assert_eq!(find_char_index("none", '='), 4);
    assert_eq!(find_char_index("héllo/x", '/'), 5);
    assert!(str_equal("ID", "ID"));
    assert!(!str_equal("ID", "ID_LIKE"));
    assert!(!str_equal("ab", "ac"));
}

#[test]
fn lines_split_as_std_does() {
    for text in ["a\nb\r\nc", "a\n\nb\n", "x\r", "", "\n", "one", "a\r\r\nb", "\r\n\r\n"] {
        let expected: Vec<String> = text.lines().map(|l| l.to_string()).collect();
        assert_eq!(split_lines(text), expected, "{:?}", text);
    }
}

#[test]
fn release_line_is_read() {
    assert_eq!(
        parse_release_line("  PRETTY_NAME = \"Arch Linux\" "),
        Some(("PRETTY_NAME".to_string(), "Arch Linux".to_string()))
    );
    assert_eq!(parse_release_line("# a comment"), None);
    assert_eq!(
        parse_release_line("A=b=c"),
        Some(("A".to_string(), "b=c".to_string()))
    );
    assert_eq!(parse_release_line("A=\"half"), Some(("A".to_string(), "\"half".to_string())));
    assert_eq!(parse_release_line("A=\"\""), Some(("A".to_string(), "".to_string())));
}

#[test]
fn debian_release_is_parsed() {
    assert!(release_is_readable(DEBIAN));
    let p = parse_os_release(DEBIAN);
    assert_eq!(
        p,
        pairs(&[
            ("PRETTY_NAME", "Debian GNU/Linux 12 (bookworm)"),
            ("NAME", "Debian GNU/Linux"),
            ("VERSION_ID", "12"),
            ("ID", "debian"),
            ("HOME_URL", "https://www.debian.org/"),
        ])
    );
    assert_eq!(distro_id(&p), "debian");
    assert_eq!(pretty_name(&p), "Debian GNU/Linux 12 (bookworm)");
}

#[test]
fn id_like_takes_precedence() {
    let p = parse_os_release(MINT);
    assert_eq!(distro_id(&p), "ubuntu debian");
    assert_eq!(pretty_name(&p), "Linux Mint 21.2");
    let p = pairs(&[("ID", "ubuntu"), ("ID_LIKE", "debian")]);
    assert_eq!(distro_id(&p), "debian");
    let p = pairs(&[("ID", "arch"), ("ID_LIKE", "")]);
    assert_eq!(distro_id(&p), "arch");
}

#[test]
fn unknown_distribution_without_ids() {
    let p = parse_os_release("NAME=Something\n");
    assert_eq!(distro_id(&p), "unknown");
    assert_eq!(pretty_name(&p), "");
    let p = pairs(&[("ID", "")]);
    assert_eq!(distro_id(&p), "unknown");
}

#[test]
fn last_definition_wins() {
    let p = pairs(&[("ID", "first"), ("X", "y"), ("ID", "second")]);
    assert_eq!(lookup_last(&p, "ID"), "second");
    assert_eq!(lookup_last(&p, "Z"), "");
}

#[test]
fn lone_quote_value_is_not_readable() {
    assert!(!release_is_readable("ID=debian\nNAME=\"\n"));
    assert!(!release_is_readable("X= \" "));
    assert!(release_is_readable("X=\"\"\nY\nZ=\"a"));
}

#[test]
fn rendered_release_reads_back() {
    let written = pairs(&[("ID", "debian"), ("PRETTY_NAME", " spaced = \"odd\" "), ("E", "")]);
    let mut text = String::new();
    for (k, v) in &written {
        text.push_str(&format!("{}=\"{}\"\n", k, v));
    }
    assert!(release_is_readable(&text));
    assert_eq!(parse_os_release(&text), written);
}
