use b10x_mcp::challenge::challenge_scope;
use b10x_mcp::text::{
    characters, decimal_text, hex, is_white_space, matches_at, parse_size, same,
    same_ignoring_case, scan, scan_back, to_lowercase, trim_bounds, Class,
};
use b10x_mcp::text_map::{stands_before, TextMap};

fn every_char() -> impl Iterator<Item = char> {
    (0..=0x10ffff_u32).filter_map(char::from_u32)
}

#[test]
fn white_space_is_the_unicode_property() {
    for c in every_char() {
        assert_eq!(is_white_space(c), c.is_whitespace(), "{c:?}");
    }
}

#[test]
fn lowercase_is_ascii_only() {
    for c in every_char() {
        assert_eq!(to_lowercase(c), c.to_ascii_lowercase(), "{c:?}");
    }
}

#[test]
fn numbers_are_written_in_their_base() {
    for n in [0_usize, 9, 10, 1205, 65535, usize::MAX] {
        assert_eq!(decimal_text(n), format!("{n}"));
    }
    assert_eq!(hex(&[0, 15, 16, 255, 0xa5]), "000f10ffa5");
    assert_eq!(hex(&[]), "");
}

#[test]
fn sizes_are_read_like_the_standard_parser_reads_them() {
    let max = format!("{}", usize::MAX);
    let over = format!("{}0", usize::MAX);
    let next = "18446744073709551616";
    for text in [
        "", "+", "-", "0", "00", "7", "+7", "-7", "12345", "1 2", " 1", "9a", "++1", &max, &over, next,
    ] {
        let letters = characters(text);
        assert_eq!(parse_size(&letters, 0, letters.len()), text.parse::<usize>().ok(), "{text:?}");
    }
}

#[test]
fn parts_are_found_where_they_stand() {
    let hay = "abcabcé\"id\":x";
    let letters = characters(hay);
    for part in ["", "a", "bc", "cab", "é", "\"id\":", "x", "y", "abcabcé\"id\":xx"] {
        let wanted = characters(part);
        for (i, (byte, _)) in hay.char_indices().enumerate() {
            let stands = hay[byte..].starts_with(part);
            assert_eq!(matches_at(&letters, &wanted, i), stands, "{part:?} at {i}");
        }
        assert_eq!(matches_at(&letters, &wanted, letters.len()), part.is_empty());
    }
}

#[test]
fn runs_are_scanned_from_both_ends() {
    let letters = characters("  ab\t ");
    assert_eq!(scan(&letters, 0, 6, Class::Space), 2);
    assert_eq!(scan(&letters, 2, 6, Class::Solid), 4);
    assert_eq!(scan_back(&letters, 0, 6, Class::Space), 4);
    assert_eq!(trim_bounds(&letters, 0, 6, Class::Space), (2, 4));
    assert_eq!(trim_bounds(&letters, 4, 6, Class::Space), (6, 6));
    assert_eq!(scan(&letters, 0, 6, Class::Except('b')), 3);
    assert_eq!(scan(&letters, 0, 6, Class::Neither('a', 'b')), 2);
    assert_eq!(scan(&letters, 0, 6, Class::Only(' ')), 2);
    assert!(same("a", "a"));
    assert!(!same("a", "A"));
    assert!(same_ignoring_case(&letters, 2, 4, "AB"));
    assert!(!same_ignoring_case(&letters, 2, 4, "abc"));
    assert!(!same_ignoring_case(&letters, 2, 4, "ax"));
}

#[test]
fn challenges_name_their_scope() {
    let cases = [
        (r#"scope="read write""#, Some("read write")),
        (r#"Bearer realm="x", scope="a b", error="y""#, Some("a b")),
        ("SCOPE = a", Some("a")),
        (r#"scope="""#, Some("")),
        (r#"x=1 , scope=  "a" "#, Some("a")),
        (r#"Bearer scope="a""#, Some("a")),
        ("Bearer\tScope = read", Some("read")),
        (r#"Basic realm="x", Bearer scope="y""#, Some("y")),
        (r#"Bearer my_scope="a""#, None),
        (r#"Bearer scope ="a""#, Some("a")),
        (r#"Bearer scopes="a""#, None),
        (r#"Bearer realm="a, b scope=c", scope="read""#, Some("read")),
        (r#"Bearer realm="a\", b scope=c", scope="read""#, Some("read")),
        (r#"Bearer error_description="x, scope=y""#, None),
        (r#"scope="a,b", scope=c"#, Some("a,b")),
        ("scope", None),
        ("", None),
        ("x=scope", None),
        ("scope=a=b", Some("a=b")),
        ("scope=a,scope=b", Some("a")),
    ];
    for (challenge, scope) in cases {
        assert_eq!(challenge_scope(Some(challenge)).as_deref(), scope, "{challenge}");
    }
    assert_eq!(challenge_scope(None), None);
}

#[test]
fn maps_list_their_keys_in_order() {
    let mut map: TextMap<u32> = TextMap::new();
    let mut model = std::collections::BTreeMap::new();
    for (i, key) in ["b", "a", "é", "aa", "", "b", "z", "😀", "\u{ffff}", "a"].iter().enumerate() {
        map.insert((*key).to_owned(), i as u32);
        model.insert((*key).to_owned(), i as u32);
    }
    assert_eq!(map.len(), model.len());
    for (i, (key, value)) in model.iter().enumerate() {
        assert_eq!(map.key(i), key);
        assert_eq!(map.value(i), value);
        assert_eq!(map.get(key), Some(value));
    }
    assert_eq!(map.get("absent"), None);
    assert!(stands_before("a", "aa"));
    assert!(!stands_before("a", "a"));
    assert!(!stands_before("b", "aa"));
}
