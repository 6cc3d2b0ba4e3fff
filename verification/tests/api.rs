use std::path::PathBuf;

use stunbeacon::{
    default_connector_type, default_dialer_type, default_tls_secure, AppState, ApiError,
    ChannelMap, GostNodeQuery, LoadError, PersistedChannels,
};

fn test_state(token: &str) -> AppState {
    AppState::new(token.to_string())
}

fn persistent_test_state(token: &str, persisted: Option<PersistedChannels>) -> AppState {
    AppState::new_persistent(token.to_string(), PathBuf::from("data/channels.json"), persisted)
        .unwrap()
}

fn default_query() -> GostNodeQuery {
    GostNodeQuery {
        connector: default_connector_type(),
        dialer: default_dialer_type(),
        secure: default_tls_secure(),
        username: None,
        password: None,
        name: None,
        server_name: None,
        ca_file: None,
    }
}

/// Runs an update to its end, as a server whose data file writes all
/// succeed (`write_ok`) or all fail.
fn update(
    state: &mut AppState,
    channel: &str,
    header: Option<&str>,
    addr: &str,
    write_ok: bool,
) -> Result<Option<PersistedChannels>, ApiError> {
    let accepted = state.update_addr(channel, header.map(|h| h.as_bytes()), addr)?;
    let payload = accepted
        .to_persist
        .as_ref()
        .map(|p| PersistedChannels { version: p.version, channels: p.channels.snapshot() });
    state.finish_update(accepted, write_ok)?;
    Ok(payload)
}

#[test]
fn get_returns_404_when_channel_addr_is_empty() {
    let state = test_state("secret-token");
    let r = state.get_addr("demo");
    assert_eq!(r, Err(ApiError::NotFound));
    assert_eq!(r.unwrap_err().status_code(), 404);
}

#[test]
fn get_returns_404_when_stored_addr_is_empty() {
    let mut channels = ChannelMap::new();
    channels.insert("demo".to_string(), String::new());
    let state = AppState::from_parts("secret-token".to_string(), channels, None);
    assert_eq!(state.get_addr("demo"), Err(ApiError::NotFound));
}

#[test]
fn update_rejects_request_without_valid_bearer_token() {
    let mut state = test_state("secret-token");
    let r = update(&mut state, "demo", None, "1.2.3.4:5678", true);
    assert_eq!(r.err(), Some(ApiError::Unauthorized));
    assert_eq!(ApiError::Unauthorized.status_code(), 401);
    assert_eq!(state.get_addr("demo"), Err(ApiError::NotFound));
}

#[test]
fn update_rejects_request_with_wrong_bearer_token() {
    let mut state = test_state("secret-token");
    let r = update(&mut state, "demo", Some("Bearer wrong-token"), "1.2.3.4:5678", true);
    assert_eq!(r.err(), Some(ApiError::Unauthorized));
    assert_eq!(state.get_addr("demo"), Err(ApiError::NotFound));
}

#[test]
fn update_rejects_blank_addr() {
    let mut state = test_state("secret-token");
    let r = update(&mut state, "demo", Some("Bearer secret-token"), " \t\n", true);
    assert_eq!(r.err(), Some(ApiError::BadRequest));
    assert_eq!(ApiError::BadRequest.status_code(), 400);
    assert_eq!(state.get_addr("demo"), Err(ApiError::NotFound));
}

#[test]
fn update_stores_addr_and_get_returns_plain_text_for_same_channel() {
    let mut state = test_state("secret-token");
    assert!(update(&mut state, "demo", Some("Bearer secret-token"), "1.2.3.4:5678", true).is_ok());
    assert_eq!(state.get_addr("demo"), Ok("1.2.3.4:5678".to_string()));
}

#[test]
fn update_trims_addr() {
    let mut state = test_state("secret-token");
    assert!(update(&mut state, "demo", Some("Bearer secret-token"), "  1.2.3.4:5678\n", true).is_ok());
    assert_eq!(state.get_addr("demo"), Ok("1.2.3.4:5678".to_string()));
}

#[test]
fn update_keeps_channels_isolated() {
    let mut state = test_state("secret-token");
    assert!(update(&mut state, "alpha", Some("Bearer secret-token"), "1.1.1.1:1111", true).is_ok());
    assert!(update(&mut state, "beta", Some("Bearer secret-token"), "2.2.2.2:2222", true).is_ok());
    assert_eq!(state.get_addr("alpha"), Ok("1.1.1.1:1111".to_string()));
    assert_eq!(state.get_addr("beta"), Ok("2.2.2.2:2222".to_string()));
}

#[test]
fn update_overwrites_addr_within_same_channel() {
    let mut state = test_state("secret-token");
    assert!(update(&mut state, "demo", Some("Bearer secret-token"), "1.2.3.4:5678", true).is_ok());
    assert!(update(&mut state, "demo", Some("Bearer secret-token"), "5.6.7.8:9999", true).is_ok());
    assert_eq!(state.get_addr("demo"), Ok("5.6.7.8:9999".to_string()));
    assert_eq!(state.channel_addrs().len(), 1);
}

#[test]
fn gost_nodes_endpoint_defaults_to_socks5_tls_node_json() {
    let mut state = test_state("secret-token");
    assert!(update(&mut state, "demo", Some("Bearer secret-token"), "5.6.7.8:9999", true).is_ok());
    let mut query = default_query();
    query.username = Some("demo-user".to_string());
    query.password = Some("pwd".to_string());
    query.server_name = Some("home.example.com".to_string());
    query.ca_file = Some("/path/to/ca.pem".to_string());
    let nodes = state.get_gost_nodes("demo", query).unwrap();
    assert_eq!(nodes.len(), 1);
    let node = &nodes[0];
    assert_eq!(node.name, "demo");
    assert_eq!(node.addr, "5.6.7.8:9999");
    assert_eq!(node.connector.kind, "socks5");
    let auth = node.connector.auth.as_ref().unwrap();
    assert_eq!(auth.username, "demo-user");
    assert_eq!(auth.password, "pwd");
    assert_eq!(node.dialer.kind, "tls");
    let tls = node.dialer.tls.as_ref().unwrap();
    assert_eq!(tls.ca_file.as_deref(), Some("/path/to/ca.pem"));
    assert!(tls.secure);
    assert_eq!(tls.server_name.as_deref(), Some("home.example.com"));
}

#[test]
fn gost_nodes_endpoint_keeps_explicit_ss_tcp_compatibility() {
    let mut state = test_state("secret-token");
    assert!(update(&mut state, "demo", Some("Bearer secret-token"), "5.6.7.8:9999", true).is_ok());
    let mut query = default_query();
    query.connector = "ss".to_string();
    query.dialer = "tcp".to_string();
    query.username = Some("chacha20-ietf-poly1305".to_string());
    query.password = Some("pwd".to_string());
    let nodes = state.get_gost_nodes("demo", query).unwrap();
    assert_eq!(nodes.len(), 1);
    let node = &nodes[0];
    assert_eq!(node.name, "demo");
    assert_eq!(node.addr, "5.6.7.8:9999");
    assert_eq!(node.connector.kind, "ss");
    let auth = node.connector.auth.as_ref().unwrap();
    assert_eq!(auth.username, "chacha20-ietf-poly1305");
    assert_eq!(auth.password, "pwd");
    assert_eq!(node.dialer.kind, "tcp");
    assert!(node.dialer.tls.is_none());
}

#[test]
fn gost_nodes_endpoint_rejects_incomplete_auth_query() {
    let mut state = test_state("secret-token");
    assert!(update(&mut state, "demo", Some("Bearer secret-token"), "5.6.7.8:9999", true).is_ok());
    let mut query = default_query();
    query.username = Some("chacha20-ietf-poly1305".to_string());
    let r = state.get_gost_nodes("demo", query);
    assert_eq!(r.err(), Some(ApiError::BadRequest));
}

#[test]
fn gost_nodes_endpoint_returns_404_for_missing_channel() {
    let state = test_state("secret-token");
    assert_eq!(state.get_gost_nodes("demo", default_query()).err(), Some(ApiError::NotFound));
}

#[test]
fn gost_nodes_endpoint_rejects_blank_dialer() {
    let mut state = test_state("secret-token");
    assert!(update(&mut state, "demo", Some("Bearer secret-token"), "5.6.7.8:9999", true).is_ok());
    let mut query = default_query();
    query.dialer = "  ".to_string();
    assert_eq!(state.get_gost_nodes("demo", query).err(), Some(ApiError::BadRequest));
}

#[test]
fn gost_nodes_endpoint_uses_trimmed_name_and_tls_in_any_case() {
    let mut state = test_state("secret-token");
    assert!(update(&mut state, "demo", Some("Bearer secret-token"), "5.6.7.8:9999", true).is_ok());
    let mut query = default_query();
    query.name = Some("  home  ".to_string());
    query.dialer = " TLS ".to_string();
    query.secure = false;
    query.username = Some("   ".to_string());
    query.server_name = Some(" ".to_string());
    let nodes = state.get_gost_nodes("demo", query).unwrap();
    let node = &nodes[0];
    assert_eq!(node.name, "home");
    assert_eq!(node.dialer.kind, "TLS");
    assert!(node.connector.auth.is_none());
    let tls = node.dialer.tls.as_ref().unwrap();
    assert!(!tls.secure);
    assert!(tls.server_name.is_none());
    assert!(tls.ca_file.is_none());
}

#[test]
fn update_persists_channels_to_data_file() {
    let mut state = persistent_test_state("secret-token", None);
    let payload = update(&mut state, "demo", Some("Bearer secret-token"), "9.8.7.6:4321", true)
        .unwrap()
        .unwrap();
    assert_eq!(payload.version, 1);
    let pairs = payload.channels.pairs();
    assert_eq!(pairs.len(), 1);
    assert_eq!(pairs[0], ("demo".to_string(), "9.8.7.6:4321".to_string()));
}

#[test]
fn memory_state_writes_nothing() {
    let mut state = test_state("secret-token");
    let payload = update(&mut state, "demo", Some("Bearer secret-token"), "9.8.7.6:4321", false).unwrap();
    assert!(payload.is_none());
    assert_eq!(state.get_addr("demo"), Ok("9.8.7.6:4321".to_string()));
}

#[test]
fn persistent_state_restores_channel_after_restart() {
    let mut first = persistent_test_state("secret-token", None);
    let payload = update(&mut first, "demo", Some("Bearer secret-token"), "9.8.7.6:4321", true)
        .unwrap()
        .unwrap();
    let restarted = persistent_test_state("secret-token", Some(payload));
    assert_eq!(restarted.get_addr("demo"), Ok("9.8.7.6:4321".to_string()));
}

#[test]
fn persistent_state_refuses_unknown_version() {
    let persisted = PersistedChannels { version: 2, channels: ChannelMap::new() };
    let r = AppState::new_persistent("t".to_string(), PathBuf::from("c.json"), Some(persisted));
    assert_eq!(r.err(), Some(LoadError::UnsupportedVersion(2)));
}

#[test]
fn update_returns_500_and_keeps_memory_clean_when_persist_fails() {
    let mut state = persistent_test_state("secret-token", None);
    let r = update(&mut state, "demo", Some("Bearer secret-token"), "9.8.7.6:4321", false);
    assert_eq!(r.err(), Some(ApiError::InternalServerError));
    assert_eq!(ApiError::InternalServerError.status_code(), 500);
    assert_eq!(state.get_addr("demo"), Err(ApiError::NotFound));
}

#[test]
fn failed_persist_restores_previous_addr() {
    let mut state = persistent_test_state("secret-token", None);
    assert!(update(&mut state, "demo", Some("Bearer secret-token"), "1.1.1.1:1", true).is_ok());
    let r = update(&mut state, "demo", Some("Bearer secret-token"), "2.2.2.2:2", false);
    assert_eq!(r.err(), Some(ApiError::InternalServerError));
    assert_eq!(state.get_addr("demo"), Ok("1.1.1.1:1".to_string()));
}

#[test]
fn memory_and_file_never_diverge_across_updates() {
    let mut state = persistent_test_state("secret-token", None);
    let mut file: Option<PersistedChannels> = None;
    let runs: [(&str, Option<&str>, &str, bool); 6] = [
        ("demo", Some("Bearer secret-token"), "1.1.1.1:1", true),
        ("demo", Some("Bearer secret-token"), "2.2.2.2:2", false),
        ("other", Some("Bearer wrong"), "3.3.3.3:3", true),
        ("other", Some("Bearer secret-token"), " ", true),
        ("other", Some("Bearer secret-token"), "4.4.4.4:4", true),
        ("third", Some("Bearer secret-token"), "5.5.5.5:5", false),
    ];
    for (channel, header, addr, write_ok) in runs {
        if let Ok(Some(payload)) = update(&mut state, channel, header, addr, write_ok) {
            if write_ok {
                file = Some(payload);
            }
        }
        let copy = file.as_ref().map(|p| PersistedChannels {
            version: p.version,
            channels: p.channels.snapshot(),
        });
        let reloaded = persistent_test_state("secret-token", copy);
        let mut in_memory: Vec<(String, String)> = state.channel_addrs().pairs().to_vec();
        let mut on_file: Vec<(String, String)> = reloaded.channel_addrs().pairs().to_vec();
        in_memory.sort();
        on_file.sort();
        assert_eq!(in_memory, on_file);
    }
    assert_eq!(state.get_addr("demo"), Ok("1.1.1.1:1".to_string()));
    assert_eq!(state.get_addr("other"), Ok("4.4.4.4:4".to_string()));
    assert_eq!(state.get_addr("third"), Err(ApiError::NotFound));
}

#[test]
fn persistent_state_keeps_the_given_data_file() {
    let state = AppState::new_persistent(
        "t".to_string(),
        PathBuf::from("some/dir/channels.json"),
        None,
    )
    .unwrap();
    assert_eq!(state.data_file(), Some(&PathBuf::from("some/dir/channels.json")));
    assert_eq!(test_state("t").data_file(), None);
}
