//! The gost 3.x node that a channel's address is published as.

use vstd::prelude::*;
use crate::error::ApiError;
use crate::text::{
    eq_ignore_ascii_case, normalize, normalize_optional_string, opt_view, str_eq_ignore_ascii_case,
    trim, trim_str,
};

verus! {

/// What a request for gost nodes asks for; absent query values are `None`.
pub struct GostNodeQuery {
    pub connector: String,
    pub dialer: String,
    pub secure: bool,
    pub username: Option<String>,
    pub password: Option<String>,
    pub name: Option<String>,
    pub server_name: Option<String>,
    pub ca_file: Option<String>,
}

/// The credentials a connector authenticates with.
pub struct GostAuth {
    pub username: String,
    pub password: String,
}

/// The TLS settings of a `tls` dialer.
pub struct GostTlsConfig {
    pub ca_file: Option<String>,
    pub secure: bool,
    pub server_name: Option<String>,
}

/// A node's connector: its type and optional credentials.
pub struct GostConnector {
    pub kind: String,
    pub auth: Option<GostAuth>,
}

/// A node's dialer: its type and, for `tls`, its TLS settings.
pub struct GostDialer {
    pub kind: String,
    pub tls: Option<GostTlsConfig>,
}

/// One gost node: where to connect and how.
pub struct GostNode {
    pub name: String,
    pub addr: String,
    pub connector: GostConnector,
    pub dialer: GostDialer,
}

/// The TLS settings of a node, as text.
pub struct TlsSpec {
    pub ca_file: Option<Seq<char>>,
    pub secure: bool,
    pub server_name: Option<Seq<char>>,
}

/// A node as text: name, address, connector type and credentials, dialer
/// type and TLS settings.
pub struct NodeSpec {
    pub name: Seq<char>,
    pub addr: Seq<char>,
    pub connector_kind: Seq<char>,
    pub auth: Option<(Seq<char>, Seq<char>)>,
    pub dialer_kind: Seq<char>,
    pub tls: Option<TlsSpec>,
}

impl View for GostNode {
    type V = NodeSpec;

    open spec fn view(&self) -> NodeSpec {
        NodeSpec {
            name: self.name@,
            addr: self.addr@,
            connector_kind: self.connector.kind@,
            auth: match self.connector.auth {
                Some(a) => Some((a.username@, a.password@)),
                None => None,
            },
            dialer_kind: self.dialer.kind@,
            tls: match self.dialer.tls {
                Some(t) => Some(
                    TlsSpec {
                        ca_file: opt_view(t.ca_file),
                        secure: t.secure,
                        server_name: opt_view(t.server_name),
                    },
                ),
                None => None,
            },
        }
    }
}

/// The node published for channel `channel_id` at address `addr`, or why
/// the query cannot give one. Connector and dialer types are trimmed and must
/// not be blank; username and password come both or not at all; the name
/// defaults to the channel id; TLS settings go with a dialer whose type is
/// `tls` in any ASCII case.
pub open spec fn node_for(channel_id: Seq<char>, addr: Seq<char>, q: GostNodeQuery) -> Result<
    NodeSpec,
    ApiError,
> {
    let connector = trim(q.connector@);
    let dialer = trim(q.dialer@);
    let username = normalize(opt_view(q.username));
    let password = normalize(opt_view(q.password));
    if connector.len() == 0 || dialer.len() == 0 {
        Err(ApiError::BadRequest)
    } else if username.is_some() != password.is_some() {
        Err(ApiError::BadRequest)
    } else {
        Ok(
            NodeSpec {
                name: match normalize(opt_view(q.name)) {
                    Some(n) => n,
                    None => channel_id,
                },
                addr,
                connector_kind: connector,
                auth: match (username, password) {
                    (Some(u), Some(p)) => Some((u, p)),
                    _ => None,
                },
                dialer_kind: dialer,
                tls: if eq_ignore_ascii_case(dialer, "tls"@) {
                    Some(
                        TlsSpec {
                            ca_file: normalize(opt_view(q.ca_file)),
                            secure: q.secure,
                            server_name: normalize(opt_view(q.server_name)),
                        },
                    )
                } else {
                    None
                },
            },
        )
    }
}

/// The connector type a query asks for when it names none.
pub fn default_connector_type() -> (r: String)
    ensures
        r@ == "socks5"@,
{
    String::from_str("socks5")
}

/// The dialer type a query asks for when it names none.
pub fn default_dialer_type() -> (r: String)
    ensures
        r@ == "tls"@,
{
    String::from_str("tls")
}

/// Whether TLS verification is on when a query does not say.
pub fn default_tls_secure() -> (r: bool)
    ensures
        r,
{
    true
}

/// Builds the gost node for channel `channel_id`, whose address is `addr`,
/// as `query` asks.
pub fn build_gost_node(channel_id: &str, addr: &str, query: GostNodeQuery) -> (r: Result<
    GostNode,
    ApiError,
>)
    ensures
        match r {
            Ok(node) => node_for(channel_id@, addr@, query) == Ok::<NodeSpec, ApiError>(node@),
            Err(e) => node_for(channel_id@, addr@, query) == Err::<NodeSpec, ApiError>(e),
        },
{
    let ghost q = query;
    let connector_type = trim_str(query.connector.as_str());
    let dialer_type = trim_str(query.dialer.as_str());
    if connector_type.is_empty() || dialer_type.is_empty() {
        return Err(ApiError::BadRequest);
    }
    let username = normalize_optional_string(query.username);
    let password = normalize_optional_string(query.password);
    let auth = match (username, password) {
        (Some(username), Some(password)) => Some(GostAuth { username, password }),
        (None, None) => None,
        _ => return Err(ApiError::BadRequest),
    };
    let node_name = match normalize_optional_string(query.name) {
        Some(name) => name,
        None => channel_id.to_owned(),
    };
    let tls = if str_eq_ignore_ascii_case(dialer_type, "tls") {
        Some(
            GostTlsConfig {
                ca_file: normalize_optional_string(query.ca_file),
                secure: query.secure,
                server_name: normalize_optional_string(query.server_name),
            },
        )
    } else {
        None
    };
    let node = GostNode {
        name: node_name,
        addr: addr.to_owned(),
        connector: GostConnector { kind: connector_type.to_owned(), auth },
        dialer: GostDialer { kind: dialer_type.to_owned(), tls },
    };
    assert(node@ == node_for(channel_id@, addr@, q)->Ok_0);
    Ok(node)
}

} // verus!
