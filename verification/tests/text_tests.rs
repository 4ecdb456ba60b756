use bijoux::text::{same_text, split_at_char, strip_text_prefix, trim_text, white_space};

#[test]
fn same_text_compares_characters() {
    assert!(same_text("abc", "abc"));
    assert!(same_text("", ""));
    assert!(!same_text("abc", "abd"));
    assert!(!same_text("abc", "ab"));
    assert!(same_text("héllo", "héllo"));
}

#[test]
fn strips_a_prefix() {
    assert_eq!(strip_text_prefix("Bearer abc", "Bearer "), Some("abc"));
    assert_eq!(strip_text_prefix("Bearer ", "Bearer "), Some(""));
    assert_eq!(strip_text_prefix("Basic abc", "Bearer "), None);
    assert_eq!(strip_text_prefix("Bear", "Bearer "), None);
    assert_eq!(strip_text_prefix("ééx", "é"), Some("éx"));
}

#[test]
fn splits_like_std() {
    let samples = ["a,b,c", "", ",", "a,", ",a", ",,", "abc", "é,ü,,x"];
    for s in samples.iter() {
        let expected: Vec<&str> = s.split(',').collect();
        assert_eq!(split_at_char(s, ','), expected, "text {:?}", s);
    }
}

#[test]
fn split_pieces_join_back() {
    for s in ["a,b,c", "", ",", ",,x,", "no separator"].iter() {
        let pieces = split_at_char(s, ',');
        assert!(pieces.iter().all(|p| !p.contains(',')));
        assert_eq!(pieces.join(","), *s);
    }
}

#[test]
fn white_space_is_the_unicode_property() {
    for v in 0u32..=0x10FFFF {
        if let Some(c) = char::from_u32(v) {
            assert_eq!(white_space(c), c.is_whitespace(), "char {:#x}", v);
        }
    }
}

#[test]
fn trims_like_std() {
    let samples = ["", "   ", "abc", "  abc  ", "\t\n x y \r\n", "\u{3000}wide\u{2029}", "\u{85}a\u{a0}", "a  b", " \u{200b}x"];
    for s in samples.iter() {
        assert_eq!(trim_text(s), s.trim(), "text {:?}", s);
    }
}
