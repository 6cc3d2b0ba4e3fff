use stunbeacon::text::{is_whitespace_char, str_eq_ignore_ascii_case};
use stunbeacon::{
    build_gost_node, extract_bearer_token, frame_persisted_payload, is_authorized,
    load_channel_addrs, normalize_optional_string, restore_previous_addr,
    temporary_data_file_path, trim_str, ChannelMap, GostNodeQuery, PersistedChannels,
};

#[test]
fn whitespace_matches_std_for_every_char() {
    for u in 0u32..=0x10ffff {
        if let Some(c) = char::from_u32(u) {
            assert_eq!(is_whitespace_char(c), c.is_whitespace(), "U+{u:04X}");
        }
    }
}

#[test]
fn trim_matches_std() {
    let samples = [
        "", " ", "abc", "  abc  ", "\t\n a b \r\n", "\u{3000}x\u{2028}", "\u{85}\u{a0}y",
        "中文 ", " \u{200b}z", "\u{1680}\u{205f}",
    ];
    for s in samples {
        assert_eq!(trim_str(s), s.trim(), "{s:?}");
    }
}

#[test]
fn eq_ignore_ascii_case_matches_std() {
    let pairs = [
        ("tls", "TLS"), ("Tls", "tLs"), ("tls", "tl"), ("tls", "tlş"), ("ÄB", "äb"), ("", ""),
        ("a1", "A1"), ("[", "{"), ("@", "`"), ("é", "É"),
    ];
    for (a, b) in pairs {
        assert_eq!(str_eq_ignore_ascii_case(a, b), a.eq_ignore_ascii_case(b), "{a:?} {b:?}");
    }
}

#[test]
fn normalize_optional_string_trims_and_drops_blank() {
    assert_eq!(normalize_optional_string(None), None);
    assert_eq!(normalize_optional_string(Some("  ".to_string())), None);
    assert_eq!(normalize_optional_string(Some(" a b ".to_string())), Some("a b".to_string()));
}

#[test]
fn bearer_token_is_extracted_from_visible_ascii_header() {
    assert_eq!(extract_bearer_token(Some(b"Bearer abc")), Some(b"abc".to_vec()));
    assert_eq!(extract_bearer_token(Some(b"Bearer ")), Some(Vec::new()));
    assert_eq!(extract_bearer_token(Some(b"bearer abc")), None);
    assert_eq!(extract_bearer_token(Some(b"Bearer\tabc")), None);
    assert_eq!(extract_bearer_token(Some(b"Bearer a\x01")), None);
    assert_eq!(extract_bearer_token(Some(b"Bearer \xc3\xa9")), None);
    assert_eq!(extract_bearer_token(Some(b"Bear")), None);
    assert_eq!(extract_bearer_token(None), None);
}

#[test]
fn authorization_needs_the_exact_token() {
    assert!(is_authorized(Some(b"Bearer secret-token"), "secret-token"));
    assert!(!is_authorized(Some(b"Bearer secret-token "), "secret-token"));
    assert!(!is_authorized(Some(b"Bearer wrong-token"), "secret-token"));
    assert!(!is_authorized(Some(b"Basic secret-token"), "secret-token"));
    assert!(!is_authorized(None, "secret-token"));
    assert!(is_authorized(Some(b"Bearer \tx"), "\tx"));
}

#[test]
fn channel_map_insert_get_remove() {
    let mut m = ChannelMap::new();
    assert_eq!(m.len(), 0);
    assert_eq!(m.insert("a".to_string(), "1".to_string()), None);
    assert_eq!(m.insert("b".to_string(), "2".to_string()), None);
    assert_eq!(m.insert("a".to_string(), "3".to_string()), Some("1".to_string()));
    assert_eq!(m.len(), 2);
    assert_eq!(m.get("a"), Some(&"3".to_string()));
    assert_eq!(m.remove("a"), Some("3".to_string()));
    assert_eq!(m.remove("a"), None);
    assert_eq!(m.get("a"), None);
    assert_eq!(m.get("b"), Some(&"2".to_string()));
    let copy = m.snapshot();
    assert_eq!(copy.pairs(), m.pairs());
}

#[test]
fn restore_previous_addr_undoes_insert() {
    let mut m = ChannelMap::new();
    m.insert("a".to_string(), "1".to_string());
    let previous = m.insert("a".to_string(), "2".to_string());
    restore_previous_addr(&mut m, "a".to_string(), previous);
    assert_eq!(m.get("a"), Some(&"1".to_string()));
    let previous = m.insert("b".to_string(), "9".to_string());
    restore_previous_addr(&mut m, "b".to_string(), previous);
    assert_eq!(m.get("b"), None);
    assert_eq!(m.len(), 1);
}

#[test]
fn load_of_missing_file_gives_no_channel() {
    assert_eq!(load_channel_addrs(None).unwrap().len(), 0);
    let mut channels = ChannelMap::new();
    channels.insert("x".to_string(), "1.1.1.1:1".to_string());
    let loaded = load_channel_addrs(Some(PersistedChannels { version: 1, channels })).unwrap();
    assert_eq!(loaded.get("x"), Some(&"1.1.1.1:1".to_string()));
}

#[test]
fn payload_ends_with_newline() {
    assert_eq!(frame_persisted_payload(b"{}".to_vec()), b"{}\n".to_vec());
    assert_eq!(frame_persisted_payload(Vec::new()), b"\n".to_vec());
}

#[test]
fn temporary_file_name_appends_tmp() {
    assert_eq!(temporary_data_file_path(Some("channels.json")), "channels.json.tmp");
    assert_eq!(temporary_data_file_path(Some("data")), "data.tmp");
    assert_eq!(temporary_data_file_path(None), "channels.json.tmp");
}

#[test]
fn gost_node_defaults_name_to_channel() {
    let query = GostNodeQuery {
        connector: " socks5 ".to_string(),
        dialer: "tcp".to_string(),
        secure: true,
        username: None,
        password: Some("p".to_string()),
        name: None,
        server_name: None,
        ca_file: None,
    };
    assert!(build_gost_node("demo", "1.2.3.4:5", query).is_err());
    let query = GostNodeQuery {
        connector: " socks5 ".to_string(),
        dialer: "tcp".to_string(),
        secure: true,
        username: None,
        password: None,
        name: Some(" ".to_string()),
        server_name: Some("s".to_string()),
        ca_file: None,
    };
    let node = build_gost_node("demo", "1.2.3.4:5", query).unwrap();
    assert_eq!(node.name, "demo");
    assert_eq!(node.connector.kind, "socks5");
    assert!(node.dialer.tls.is_none());
}
