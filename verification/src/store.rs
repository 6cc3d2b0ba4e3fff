//! The channel store, what of it is written to the data file, and how a
//! written state is read back.

use std::path::PathBuf;
use vstd::prelude::*;
use crate::channels::ChannelMap;
use crate::error::LoadError;

verus! {

/// `std::path::PathBuf`, carried through as an opaque value.
#[verifier::external_type_specification]
#[verifier::external_body]
pub struct ExPathBuf(PathBuf);

/// The format version of the data file that this library writes and reads.
pub const PERSISTED_VERSION: u8 = 1;

/// The content of the data file: a format version and every channel.
pub struct PersistedChannels {
    pub version: u8,
    pub channels: ChannelMap,
}

/// The channels and, for a persistent store, the file they are written to.
pub struct ChannelStore {
    pub channel_addrs: ChannelMap,
    pub data_file: Option<PathBuf>,
}

impl ChannelStore {
    /// What persisting the store writes to its data file: the current format
    /// version and every channel; `None` when the store has no data file and
    /// nothing is written.
    pub fn persist_payload(&self) -> (r: Option<PersistedChannels>)
        ensures
            r is Some <==> self.data_file is Some,
            r matches Some(p) ==> p.version == PERSISTED_VERSION && p.channels@ == self.channel_addrs@,
    {
        match &self.data_file {
            None => None,
            Some(_) => Some(
                PersistedChannels { version: PERSISTED_VERSION, channels: self.channel_addrs.snapshot() },
            ),
        }
    }
}

/// The map after an insert at `channel_id` has been undone: the earlier
/// address is put back, or the channel removed when it had none.
pub open spec fn restored(
    m: Map<Seq<char>, Seq<char>>,
    channel_id: Seq<char>,
    previous: Option<Seq<char>>,
) -> Map<Seq<char>, Seq<char>> {
    match previous {
        Some(p) => m.insert(channel_id, p),
        None => m.remove(channel_id),
    }
}

/// The address `m` holds for `channel_id`, if any.
pub open spec fn lookup(m: Map<Seq<char>, Seq<char>>, channel_id: Seq<char>) -> Option<Seq<char>> {
    if m.contains_key(channel_id) {
        Some(m[channel_id])
    } else {
        None
    }
}

/// Puts back the address that `channel_id` had before an update, or removes
/// the channel when it had none.
pub fn restore_previous_addr(
    channel_addrs: &mut ChannelMap,
    channel_id: String,
    previous_addr: Option<String>,
)
    ensures
        final(channel_addrs)@ == restored(
            old(channel_addrs)@,
            channel_id@,
            crate::text::opt_view(previous_addr),
        ),
{
    match previous_addr {
        Some(previous_addr) => {
            channel_addrs.insert(channel_id, previous_addr);
        },
        None => {
            channel_addrs.remove(channel_id.as_str());
        },
    }
}

/// The channels of a data file's content, or why it cannot be read: a
/// missing file gives no channel, and a file of another format version is
/// refused.
pub open spec fn loaded_channels(persisted: Option<(u8, Map<Seq<char>, Seq<char>>)>) -> Result<
    Map<Seq<char>, Seq<char>>,
    LoadError,
> {
    match persisted {
        None => Ok(Map::empty()),
        Some((version, channels)) => if version == PERSISTED_VERSION {
            Ok(channels)
        } else {
            Err(LoadError::UnsupportedVersion(version))
        },
    }
}

/// The version and channels of a data file's content.
pub open spec fn persisted_view(persisted: Option<PersistedChannels>) -> Option<
    (u8, Map<Seq<char>, Seq<char>>),
> {
    match persisted {
        Some(p) => Some((p.version, p.channels@)),
        None => None,
    }
}

/// Reads the channels back from the content of the data file, `None` when
/// there is no data file yet.
pub fn load_channel_addrs(persisted: Option<PersistedChannels>) -> (r: Result<ChannelMap, LoadError>)
    ensures
        match r {
            Ok(m) => loaded_channels(persisted_view(persisted)) == Ok::<
                Map<Seq<char>, Seq<char>>,
                LoadError,
            >(m@),
            Err(e) => loaded_channels(persisted_view(persisted)) == Err::<
                Map<Seq<char>, Seq<char>>,
                LoadError,
            >(e),
        },
{
    match persisted {
        None => Ok(ChannelMap::new()),
        Some(p) => {
            if p.version != PERSISTED_VERSION {
                Err(LoadError::UnsupportedVersion(p.version))
            } else {
                Ok(p.channels)
            }
        },
    }
}

/// The bytes written to the data file: the serialised content followed by a
/// newline.
pub fn frame_persisted_payload(serialized: Vec<u8>) -> (r: Vec<u8>)
    ensures
        r@ == serialized@.push(0x0a),
{
    let mut payload = serialized;
    payload.push(0x0a);
    payload
}

/// The file name of the temporary file that the data file is first written
/// to: the data file's name followed by `.tmp`, or `channels.json.tmp` when
/// the data file's path has no file name.
pub fn temporary_data_file_path(file_name: Option<&str>) -> (r: String)
    ensures
        r@ == match file_name {
            Some(n) => n@,
            None => "channels.json"@,
        } + ".tmp"@,
{
    let mut name = match file_name {
        Some(n) => String::from_str(n),
        None => String::from_str("channels.json"),
    };
    name.append(".tmp");
    name
}

} // verus!
