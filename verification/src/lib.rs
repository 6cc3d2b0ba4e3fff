//! Signalling state for NAT traversal clients: each channel holds the latest
//! public `IP:Port` that one client published, and others read it back as
//! plain text or as a gost node description.

pub mod text;
pub mod channels;
pub mod auth;
pub mod error;
pub mod gost;
pub mod store;
pub mod service;
pub mod laws;

pub use channels::ChannelMap;
pub use error::{ApiError, LoadError};
pub use gost::{
    build_gost_node, default_connector_type, default_dialer_type, default_tls_secure, GostAuth,
    GostConnector, GostDialer, GostNode, GostNodeQuery, GostTlsConfig,
};
pub use service::{AcceptedUpdate, AppState};
pub use store::{
    frame_persisted_payload, load_channel_addrs, restore_previous_addr, temporary_data_file_path,
    ChannelStore, PersistedChannels, PERSISTED_VERSION,
};
pub use auth::{extract_bearer_token, is_authorized};
pub use text::{normalize_optional_string, trim_str};
