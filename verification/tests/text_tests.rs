use gmod_wstool::text::{
    ascii_lower_one, chars_of, contains_ascii_lowered, forward_slashes, is_whitespace_char,
    join_strings, str_contains, trim_str,
};

#[test]
fn trim_removes_surrounding_whitespace() {
    assert_eq!(trim_str("  *.psd \t\n"), "*.psd");
    assert_eq!(trim_str("\u{3000}wide\u{00A0}"), "wide");
    assert_eq!(trim_str("inner  space"), "inner  space");
    assert_eq!(trim_str("   "), "");
    assert_eq!(trim_str(""), "");
}

#[test]
fn trim_agrees_with_std() {
    for s in ["  a b  ", "\u{2028}x\u{205F}", "\u{200B}zero width", "tab\t", "é "] {
        assert_eq!(trim_str(s), s.trim());
    }
}

#[test]
fn whitespace_agrees_with_std() {
    for c in [' ', '\t', '\u{85}', '\u{A0}', '\u{1680}', '\u{2007}', '\u{3000}', 'a', '\u{200B}', '_'] {
        assert_eq!(is_whitespace_char(c), c.is_whitespace());
    }
}

#[test]
fn ascii_lowering_keeps_other_characters() {
    assert_eq!(ascii_lower_one('A'), 'a');
    assert_eq!(ascii_lower_one('Z'), 'z');
    assert_eq!(ascii_lower_one('z'), 'z');
    assert_eq!(ascii_lower_one('É'), 'É');
    assert_eq!(ascii_lower_one('['), '[');
}

#[test]
fn substring_search() {
    assert!(str_contains("C:\\Steam\\steam.exe  1234", "steam.exe"));
    assert!(!str_contains("steam.ex", "steam.exe"));
    assert!(str_contains("anything", ""));
    assert!(contains_ascii_lowered("Error: DENIED APPID 4000", "denied appid"));
    assert!(!contains_ascii_lowered("denied app id", "denied appid"));
}

#[test]
fn chars_and_slashes() {
    assert_eq!(chars_of("aé"), vec!['a', 'é']);
    assert_eq!(forward_slashes("lua\\autorun\\a.lua"), "lua/autorun/a.lua");
}

#[test]
fn join_matches_std_join() {
    let parts = vec!["a: x".to_string(), "b: y".to_string(), "c".to_string()];
    assert_eq!(join_strings(&parts, " | "), parts.join(" | "));
    assert_eq!(join_strings(&vec![], " | "), "");
    assert_eq!(join_strings(&vec!["one".to_string()], " | "), "one");
}
