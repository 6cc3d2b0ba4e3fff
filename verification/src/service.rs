//! The service state and the decisions of its three endpoints: reading a
//! channel's address, publishing it as a gost node, and updating it.

use std::path::PathBuf;
use vstd::prelude::*;
use crate::auth::{authorized, header_view, is_authorized};
use crate::channels::ChannelMap;
use crate::error::{ApiError, LoadError};
use crate::gost::{build_gost_node, node_for, GostNode, GostNodeQuery, NodeSpec};
use crate::store::{
    load_channel_addrs, loaded_channels, lookup, persisted_view, restore_previous_addr, restored,
    ChannelStore, PersistedChannels, PERSISTED_VERSION,
};
use crate::text::{opt_view, trim, trim_str};

verus! {

/// What reading a channel gives: its address, unless the channel is missing
/// or its address is empty.
pub open spec fn addr_of(m: Map<Seq<char>, Seq<char>>, channel_id: Seq<char>) -> Result<
    Seq<char>,
    ApiError,
> {
    if m.contains_key(channel_id) && m[channel_id].len() > 0 {
        Ok(m[channel_id])
    } else {
        Err(ApiError::NotFound)
    }
}

/// What an update request does to the channels: refused without the
/// expected bearer token, refused when the address is blank, and otherwise
/// the channel's address becomes the trimmed one.
pub open spec fn updated(
    m: Map<Seq<char>, Seq<char>>,
    token: Seq<char>,
    channel_id: Seq<char>,
    authorization: Option<Seq<u8>>,
    addr: Seq<char>,
) -> Result<Map<Seq<char>, Seq<char>>, ApiError> {
    if !authorized(authorization, token) {
        Err(ApiError::Unauthorized)
    } else if trim(addr).len() == 0 {
        Err(ApiError::BadRequest)
    } else {
        Ok(m.insert(channel_id, trim(addr)))
    }
}

/// What a request for gost nodes gives: the node of the channel's address,
/// unless the channel is missing or empty, or the query is refused.
pub open spec fn nodes_for(m: Map<Seq<char>, Seq<char>>, channel_id: Seq<char>, q: GostNodeQuery) -> Result<
    NodeSpec,
    ApiError,
> {
    match addr_of(m, channel_id) {
        Ok(addr) => node_for(channel_id, addr, q),
        Err(e) => Err(e),
    }
}

/// An update that has changed the channels and waits for the data file to
/// be written: what to write, and what undoes the change if writing fails.
pub struct AcceptedUpdate {
    pub channel_id: String,
    pub previous_addr: Option<String>,
    pub to_persist: Option<PersistedChannels>,
}

/// The service state: the channel store and the token that updates must
/// carry.
pub struct AppState {
    channel_store: ChannelStore,
    auth_token: String,
}

impl AppState {
    /// The address of every channel.
    pub closed spec fn channels(&self) -> Map<Seq<char>, Seq<char>> {
        self.channel_store.channel_addrs@
    }

    /// The token that updates must carry.
    pub closed spec fn token(&self) -> Seq<char> {
        self.auth_token@
    }

    /// Whether every accepted update is written to a data file.
    pub closed spec fn persistent(&self) -> bool {
        self.channel_store.data_file is Some
    }

    /// The file that accepted updates are written to, if any.
    pub closed spec fn data_path(&self) -> Option<PathBuf> {
        self.channel_store.data_file
    }

    /// A state with no channel, kept in memory only.
    pub fn new(auth_token: String) -> (r: AppState)
        ensures
            r.channels() == Map::<Seq<char>, Seq<char>>::empty(),
            r.token() == auth_token@,
            !r.persistent(),
            r.data_path() is None,
    {
        Self::from_parts(auth_token, ChannelMap::new(), None)
    }

    /// A state written to `data_file`, starting from that file's content
    /// (`None` when the file does not exist yet); a file of another format
    /// version is refused.
    pub fn new_persistent(
        auth_token: String,
        data_file: PathBuf,
        persisted: Option<PersistedChannels>,
    ) -> (r: Result<AppState, LoadError>)
        ensures
            match r {
                Ok(s) => {
                    &&& loaded_channels(persisted_view(persisted)) == Ok::<
                        Map<Seq<char>, Seq<char>>,
                        LoadError,
                    >(s.channels())
                    &&& s.token() == auth_token@
                    &&& s.persistent()
                    &&& s.data_path() == Some(data_file)
                },
                Err(e) => loaded_channels(persisted_view(persisted)) == Err::<
                    Map<Seq<char>, Seq<char>>,
                    LoadError,
                >(e),
            },
    {
        let channel_addrs = load_channel_addrs(persisted)?;
        Ok(Self::from_parts(auth_token, channel_addrs, Some(data_file)))
    }

    /// A state made of its parts.
    pub fn from_parts(
        auth_token: String,
        channel_addrs: ChannelMap,
        data_file: Option<PathBuf>,
    ) -> (r: AppState)
        ensures
            r.channels() == channel_addrs@,
            r.token() == auth_token@,
            r.persistent() == data_file is Some,
            r.data_path() == data_file,
    {
        AppState { channel_store: ChannelStore { channel_addrs, data_file }, auth_token }
    }

    /// The channels and their addresses.
    pub fn channel_addrs(&self) -> (r: &ChannelMap)
        ensures
            r@ == self.channels(),
    {
        &self.channel_store.channel_addrs
    }

    /// The file that accepted updates are written to, for a persistent state.
    pub fn data_file(&self) -> (r: Option<&PathBuf>)
        ensures
            r is Some <==> self.persistent(),
            r matches Some(f) ==> self.data_path() == Some(*f),
    {
        match &self.channel_store.data_file {
            Some(f) => Some(f),
            None => None,
        }
    }

    /// The address of channel `channel_id`, as plain text.
    pub fn get_addr(&self, channel_id: &str) -> (r: Result<String, ApiError>)
        ensures
            match r {
                Ok(a) => addr_of(self.channels(), channel_id@) == Ok::<Seq<char>, ApiError>(a@),
                Err(e) => addr_of(self.channels(), channel_id@) == Err::<Seq<char>, ApiError>(e),
            },
    {
        match self.channel_store.channel_addrs.get(channel_id) {
            Some(current_addr) => {
                if current_addr.as_str().is_empty() {
                    Err(ApiError::NotFound)
                } else {
                    Ok(current_addr.clone())
                }
            },
            None => Err(ApiError::NotFound),
        }
    }

    /// The list of gost nodes (a single one) that reaches channel
    /// `channel_id` as `query` asks.
    pub fn get_gost_nodes(&self, channel_id: &str, query: GostNodeQuery) -> (r: Result<
        Vec<GostNode>,
        ApiError,
    >)
        ensures
            match r {
                Ok(nodes) => {
                    &&& nodes@.len() == 1
                    &&& nodes_for(self.channels(), channel_id@, query) == Ok::<NodeSpec, ApiError>(
                        nodes@[0]@,
                    )
                },
                Err(e) => nodes_for(self.channels(), channel_id@, query) == Err::<NodeSpec, ApiError>(
                    e,
                ),
            },
    {
        let current_addr = self.get_addr(channel_id)?;
        let node = build_gost_node(channel_id, current_addr.as_str(), query)?;
        let mut nodes: Vec<GostNode> = Vec::new();
        nodes.push(node);
        Ok(nodes)
    }

    /// Applies an update of channel `channel_id` to `addr`, given the raw
    /// `Authorization` header. An accepted update is in effect at once; the
    /// caller writes `to_persist`, when there is one, and then calls
    /// `finish_update`.
    pub fn update_addr(
        &mut self,
        channel_id: &str,
        authorization: Option<&[u8]>,
        addr: &str,
    ) -> (r: Result<AcceptedUpdate, ApiError>)
        ensures
            final(self).token() == old(self).token(),
            final(self).persistent() == old(self).persistent(),
            final(self).data_path() == old(self).data_path(),
            match r {
                Ok(u) => {
                    &&& updated(
                        old(self).channels(),
                        old(self).token(),
                        channel_id@,
                        header_view(authorization),
                        addr@,
                    ) == Ok::<Map<Seq<char>, Seq<char>>, ApiError>(final(self).channels())
                    &&& u.channel_id@ == channel_id@
                    &&& opt_view(u.previous_addr) == lookup(old(self).channels(), channel_id@)
                    &&& (u.to_persist is Some <==> old(self).persistent())
                    &&& (u.to_persist matches Some(p) ==> p.version == PERSISTED_VERSION
                        && p.channels@ == final(self).channels())
                },
                Err(e) => {
                    &&& updated(
                        old(self).channels(),
                        old(self).token(),
                        channel_id@,
                        header_view(authorization),
                        addr@,
                    ) == Err::<Map<Seq<char>, Seq<char>>, ApiError>(e)
                    &&& final(self).channels() == old(self).channels()
                },
            },
    {
        if !is_authorized(authorization, self.auth_token.as_str()) {
            return Err(ApiError::Unauthorized);
        }
        let next_addr = trim_str(addr);
        if next_addr.is_empty() {
            return Err(ApiError::BadRequest);
        }
        let previous_addr = self.channel_store.channel_addrs.insert(
            channel_id.to_owned(),
            next_addr.to_owned(),
        );
        let to_persist = self.channel_store.persist_payload();
        Ok(AcceptedUpdate { channel_id: channel_id.to_owned(), previous_addr, to_persist })
    }

    /// Ends an accepted update once its data file write has been tried
    /// (`written` says whether it succeeded; it does not matter when nothing
    /// was to be written). A failed write undoes the update.
    pub fn finish_update(&mut self, accepted: AcceptedUpdate, written: bool) -> (r: Result<
        (),
        ApiError,
    >)
        ensures
            final(self).token() == old(self).token(),
            final(self).persistent() == old(self).persistent(),
            final(self).data_path() == old(self).data_path(),
            accepted.to_persist is None || written ==> {
                &&& r is Ok
                &&& final(self).channels() == old(self).channels()
            },
            !(accepted.to_persist is None || written) ==> {
                &&& r == Err::<(), ApiError>(ApiError::InternalServerError)
                &&& final(self).channels() == restored(
                    old(self).channels(),
                    accepted.channel_id@,
                    opt_view(accepted.previous_addr),
                )
            },
    {
        if accepted.to_persist.is_none() || written {
            return Ok(());
        }
        restore_previous_addr(
            &mut self.channel_store.channel_addrs,
            accepted.channel_id,
            accepted.previous_addr,
        );
        Err(ApiError::InternalServerError)
    }
}

} // verus!
