//! Properties that hold across the operations of the service.

use vstd::prelude::*;
use vstd::utf8::encode_utf8;
use crate::auth::{authorized, bearer_prefix, bearer_token, header_is_text};
use crate::error::ApiError;
use crate::gost::{node_for, GostNodeQuery};
use crate::service::{addr_of, updated};
use crate::store::{loaded_channels, lookup, restored, PERSISTED_VERSION};
use crate::text::{eq_ignore_ascii_case, is_white_space, normalize, opt_view, trim, trim_end, trim_start};

verus! {

/// After an accepted update, reading the channel gives the trimmed address
/// that the update carried.
pub proof fn lemma_read_after_update(
    m: Map<Seq<char>, Seq<char>>,
    token: Seq<char>,
    channel_id: Seq<char>,
    authorization: Option<Seq<u8>>,
    addr: Seq<char>,
)
    requires
        updated(m, token, channel_id, authorization, addr) is Ok,
    ensures
        addr_of(updated(m, token, channel_id, authorization, addr)->Ok_0, channel_id) == Ok::<
            Seq<char>,
            ApiError,
        >(trim(addr)),
{
}

/// An update of one channel leaves what every other channel reads unchanged.
pub proof fn lemma_update_keeps_other_channels(
    m: Map<Seq<char>, Seq<char>>,
    token: Seq<char>,
    channel_id: Seq<char>,
    authorization: Option<Seq<u8>>,
    addr: Seq<char>,
    other: Seq<char>,
)
    requires
        updated(m, token, channel_id, authorization, addr) is Ok,
        other != channel_id,
    ensures
        addr_of(updated(m, token, channel_id, authorization, addr)->Ok_0, other) == addr_of(
            m,
            other,
        ),
{
}

/// Of two accepted updates of the same channel, the later one is what the
/// channel reads.
pub proof fn lemma_later_update_wins(
    m: Map<Seq<char>, Seq<char>>,
    token: Seq<char>,
    channel_id: Seq<char>,
    first_authorization: Option<Seq<u8>>,
    first_addr: Seq<char>,
    second_authorization: Option<Seq<u8>>,
    second_addr: Seq<char>,
)
    requires
        updated(m, token, channel_id, first_authorization, first_addr) is Ok,
        updated(
            updated(m, token, channel_id, first_authorization, first_addr)->Ok_0,
            token,
            channel_id,
            second_authorization,
            second_addr,
        ) is Ok,
    ensures
        addr_of(
            updated(
                updated(m, token, channel_id, first_authorization, first_addr)->Ok_0,
                token,
                channel_id,
                second_authorization,
                second_addr,
            )->Ok_0,
            channel_id,
        ) == Ok::<Seq<char>, ApiError>(trim(second_addr)),
{
}

/// A refused update leaves the channels as they were, and it is refused as
/// unauthorised exactly when the header lacks the expected token.
pub proof fn lemma_refused_update(
    m: Map<Seq<char>, Seq<char>>,
    token: Seq<char>,
    channel_id: Seq<char>,
    authorization: Option<Seq<u8>>,
    addr: Seq<char>,
)
    ensures
        (updated(m, token, channel_id, authorization, addr) == Err::<
            Map<Seq<char>, Seq<char>>,
            ApiError,
        >(ApiError::Unauthorized)) <==> !authorized(authorization, token),
{
}

/// Undoing an update after its data file write failed gives back exactly the
/// channels from before the update.
pub proof fn lemma_failed_write_restores(
    m: Map<Seq<char>, Seq<char>>,
    channel_id: Seq<char>,
    addr: Seq<char>,
)
    ensures
        restored(m.insert(channel_id, addr), channel_id, lookup(m, channel_id)) == m,
{
    if m.contains_key(channel_id) {
        assert(m.insert(channel_id, addr).insert(channel_id, m[channel_id]) =~= m);
    } else {
        assert(m.insert(channel_id, addr).remove(channel_id) =~= m);
    }
}

/// What the data file is written with reads back as the same channels, as
/// after a restart.
pub proof fn lemma_written_state_reloads(m: Map<Seq<char>, Seq<char>>)
    ensures
        loaded_channels(Some((PERSISTED_VERSION, m))) == Ok::<
            Map<Seq<char>, Seq<char>>,
            crate::error::LoadError,
        >(m),
{
}

/// A channel reads as missing or as a non-empty address: never as empty text.
pub proof fn lemma_read_is_never_empty(m: Map<Seq<char>, Seq<char>>, channel_id: Seq<char>)
    ensures
        addr_of(m, channel_id) matches Ok(a) ==> a.len() > 0,
        addr_of(m, channel_id) matches Err(e) ==> e == ApiError::NotFound,
{
}

/// A header `Bearer <token>` with the expected token is authorised, provided
/// the token is visible ASCII and can stand in a header.
pub proof fn lemma_bearer_header_authorizes(token: Seq<char>)
    requires
        header_is_text(encode_utf8(token)),
    ensures
        authorized(Some(bearer_prefix() + encode_utf8(token)), token),
{
    let v = bearer_prefix() + encode_utf8(token);
    assert(v.take(7) =~= bearer_prefix());
    assert(v.skip(7) =~= encode_utf8(token));
    assert forall|i: int| 0 <= i < v.len() implies crate::auth::is_visible_ascii(#[trigger] v[i]) by {
        if i >= 7 {
            assert(v[i] == encode_utf8(token)[i - 7]);
        }
    }
    assert(bearer_token(Some(v)) == Some(encode_utf8(token)));
}

/// A gost query with a username but no password, or the reverse, is refused.
pub proof fn lemma_incomplete_credentials_refused(
    channel_id: Seq<char>,
    addr: Seq<char>,
    q: GostNodeQuery,
)
    requires
        normalize(opt_view(q.username)).is_some() != normalize(opt_view(q.password)).is_some(),
    ensures
        node_for(channel_id, addr, q) == Err::<crate::gost::NodeSpec, ApiError>(
            ApiError::BadRequest,
        ),
{
}

/// A gost node carries TLS settings exactly when its dialer type is `tls` in
/// some ASCII case, and credentials exactly when the query gave both.
pub proof fn lemma_node_shape(channel_id: Seq<char>, addr: Seq<char>, q: GostNodeQuery)
    requires
        node_for(channel_id, addr, q) is Ok,
    ensures
        node_for(channel_id, addr, q)->Ok_0.tls is Some <==> eq_ignore_ascii_case(
            node_for(channel_id, addr, q)->Ok_0.dialer_kind,
            "tls"@,
        ),
        node_for(channel_id, addr, q)->Ok_0.auth is Some <==> normalize(opt_view(q.username)).is_some(),
        node_for(channel_id, addr, q)->Ok_0.addr == addr,
{
}

/// Whether the channels in memory are what loading the data file gives: a
/// missing file (`None`) goes with no channel, a written file holds exactly
/// the channels in memory.
pub open spec fn memory_matches_file(
    m: Map<Seq<char>, Seq<char>>,
    file: Option<Map<Seq<char>, Seq<char>>>,
) -> bool {
    loaded_channels(
        match file {
            Some(f) => Some((PERSISTED_VERSION, f)),
            None => None,
        },
    ) == Ok::<Map<Seq<char>, Seq<char>>, crate::error::LoadError>(m)
}

/// One update request against a persistent state, run to its end:
/// `update_addr`, the data file write (`written` says whether it
/// succeeded), then `finish_update`.
pub struct UpdateRun {
    pub channel_id: Seq<char>,
    pub authorization: Option<Seq<u8>>,
    pub addr: Seq<char>,
    pub written: bool,
}

/// The channels in memory after `run`, as the contracts of `update_addr`
/// and `finish_update` give them: a refused request changes nothing, a
/// written update stays, an update whose write failed is undone.
pub open spec fn memory_after(m: Map<Seq<char>, Seq<char>>, token: Seq<char>, run: UpdateRun) -> Map<
    Seq<char>,
    Seq<char>,
> {
    match updated(m, token, run.channel_id, run.authorization, run.addr) {
        Ok(m2) => if run.written {
            m2
        } else {
            restored(m2, run.channel_id, lookup(m, run.channel_id))
        },
        Err(_) => m,
    }
}

/// The content of the data file after `run`: an accepted update whose write
/// succeeded replaces it with the channels that `update_addr` handed out;
/// otherwise it is unchanged.
pub open spec fn file_after(
    m: Map<Seq<char>, Seq<char>>,
    file: Option<Map<Seq<char>, Seq<char>>>,
    token: Seq<char>,
    run: UpdateRun,
) -> Option<Map<Seq<char>, Seq<char>>> {
    match updated(m, token, run.channel_id, run.authorization, run.addr) {
        Ok(m2) => if run.written {
            Some(m2)
        } else {
            file
        },
        Err(_) => file,
    }
}

/// The channels in memory and the data file's content after a sequence of
/// requests.
pub open spec fn after_runs(
    m: Map<Seq<char>, Seq<char>>,
    file: Option<Map<Seq<char>, Seq<char>>>,
    token: Seq<char>,
    runs: Seq<UpdateRun>,
) -> (Map<Seq<char>, Seq<char>>, Option<Map<Seq<char>, Seq<char>>>)
    decreases runs.len(),
{
    if runs.len() == 0 {
        (m, file)
    } else {
        let (m1, f1) = after_runs(m, file, token, runs.drop_last());
        (memory_after(m1, token, runs.last()), file_after(m1, f1, token, runs.last()))
    }
}

/// One request, whatever its outcome, keeps memory and the data file in
/// agreement.
pub proof fn lemma_update_keeps_memory_and_file_in_step(
    m: Map<Seq<char>, Seq<char>>,
    file: Option<Map<Seq<char>, Seq<char>>>,
    token: Seq<char>,
    run: UpdateRun,
)
    requires
        memory_matches_file(m, file),
    ensures
        memory_matches_file(memory_after(m, token, run), file_after(m, file, token, run)),
{
    if updated(m, token, run.channel_id, run.authorization, run.addr) is Ok && !run.written {
        lemma_failed_write_restores(m, run.channel_id, trim(run.addr));
    }
}

/// Memory and the data file never diverge: starting from a state loaded from
/// its file, after any sequence of requests, whatever their outcomes, loading
/// the file gives the channels in memory.
pub proof fn lemma_memory_and_file_never_diverge(
    m: Map<Seq<char>, Seq<char>>,
    file: Option<Map<Seq<char>, Seq<char>>>,
    token: Seq<char>,
    runs: Seq<UpdateRun>,
)
    requires
        memory_matches_file(m, file),
    ensures
        memory_matches_file(after_runs(m, file, token, runs).0, after_runs(m, file, token, runs).1),
    decreases runs.len(),
{
    if runs.len() > 0 {
        lemma_memory_and_file_never_diverge(m, file, token, runs.drop_last());
        let (m1, f1) = after_runs(m, file, token, runs.drop_last());
        lemma_update_keeps_memory_and_file_in_step(m1, f1, token, runs.last());
    }
}

/// An authorised update whose address is not blank after trimming is always
/// accepted, whatever the address's length or form, and the channel then
/// holds the trimmed address.
pub proof fn lemma_authorized_nonblank_update_accepted(
    m: Map<Seq<char>, Seq<char>>,
    token: Seq<char>,
    channel_id: Seq<char>,
    authorization: Option<Seq<u8>>,
    addr: Seq<char>,
)
    requires
        authorized(authorization, token),
        trim(addr).len() > 0,
    ensures
        updated(m, token, channel_id, authorization, addr) == Ok::<
            Map<Seq<char>, Seq<char>>,
            ApiError,
        >(m.insert(channel_id, trim(addr))),
{
}

/// Every header value whose bytes are all visible ASCII (0x20 to 0x7e) or
/// tabs reads as text.
pub proof fn lemma_visible_ascii_header_is_text(value: Seq<u8>)
    requires
        forall|i: int|
            0 <= i < value.len() ==> (0x20 <= #[trigger] value[i] && value[i] <= 0x7e) || value[i]
                == 0x09,
    ensures
        header_is_text(value),
{
}

/// A header `Bearer <t>`, with `t` any visible-ASCII bytes, is authorised
/// exactly when `t` is the expected token's UTF-8 encoding.
pub proof fn lemma_bearer_header_authorized_iff_token(t: Seq<u8>, token: Seq<char>)
    requires
        forall|i: int|
            0 <= i < t.len() ==> (0x20 <= #[trigger] t[i] && t[i] <= 0x7e) || t[i] == 0x09,
    ensures
        authorized(
            Some(seq![0x42u8, 0x65u8, 0x61u8, 0x72u8, 0x65u8, 0x72u8, 0x20u8] + t),
            token,
        ) <==> t == encode_utf8(token),
{
    let prefix = seq![0x42u8, 0x65u8, 0x61u8, 0x72u8, 0x65u8, 0x72u8, 0x20u8];
    let v = prefix + t;
    assert(prefix =~= bearer_prefix());
    assert(v.take(7) =~= prefix);
    assert(v.skip(7) =~= t);
    assert forall|i: int| 0 <= i < v.len() implies crate::auth::is_visible_ascii(#[trigger] v[i]) by {
        if i >= 7 {
            assert(v[i] == t[i - 7]);
        }
    }
    assert(bearer_token(Some(v)) == Some(t));
}

/// A query with non-blank connector and dialer types, and with username and
/// password both given or both left out, always gives a node; its connector
/// and dialer types are the trimmed query values, whatever they are.
pub proof fn lemma_well_formed_query_gives_node(
    channel_id: Seq<char>,
    addr: Seq<char>,
    q: GostNodeQuery,
)
    requires
        trim(q.connector@).len() > 0,
        trim(q.dialer@).len() > 0,
        normalize(opt_view(q.username)).is_some() == normalize(opt_view(q.password)).is_some(),
    ensures
        node_for(channel_id, addr, q) is Ok,
        node_for(channel_id, addr, q)->Ok_0.connector_kind == trim(q.connector@),
        node_for(channel_id, addr, q)->Ok_0.dialer_kind == trim(q.dialer@),
        node_for(channel_id, addr, q)->Ok_0.addr == addr,
{
}

/// The TLS settings of a node take the query's `secure` flag as it is, and
/// its CA file and server name each from their own query value alone:
/// trimmed, and absent when missing or blank.
pub proof fn lemma_tls_settings_follow_query(
    channel_id: Seq<char>,
    addr: Seq<char>,
    q: GostNodeQuery,
)
    requires
        node_for(channel_id, addr, q) is Ok,
        node_for(channel_id, addr, q)->Ok_0.tls is Some,
    ensures
        node_for(channel_id, addr, q)->Ok_0.tls->Some_0.secure == q.secure,
        q.ca_file is Some && trim(q.ca_file->Some_0@).len() > 0 ==> node_for(channel_id, addr, q)->Ok_0.tls->Some_0.ca_file
            == Some(trim(q.ca_file->Some_0@)),
        !(q.ca_file is Some && trim(q.ca_file->Some_0@).len() > 0) ==> node_for(
            channel_id,
            addr,
            q,
        )->Ok_0.tls->Some_0.ca_file is None,
        q.server_name is Some && trim(q.server_name->Some_0@).len() > 0 ==> node_for(
            channel_id,
            addr,
            q,
        )->Ok_0.tls->Some_0.server_name == Some(trim(q.server_name->Some_0@)),
        !(q.server_name is Some && trim(q.server_name->Some_0@).len() > 0) ==> node_for(
            channel_id,
            addr,
            q,
        )->Ok_0.tls->Some_0.server_name is None,
{
}

/// A dialer whose trimmed type is `tls` in any ASCII case gets TLS settings,
/// with the query's `secure` flag.
pub proof fn lemma_tls_dialer_gets_settings(channel_id: Seq<char>, addr: Seq<char>, q: GostNodeQuery)
    requires
        node_for(channel_id, addr, q) is Ok,
        eq_ignore_ascii_case(trim(q.dialer@), "tls"@),
    ensures
        node_for(channel_id, addr, q)->Ok_0.tls is Some,
        node_for(channel_id, addr, q)->Ok_0.tls->Some_0.secure == q.secure,
{
}

/// Whether `d` spells `tls` in some mix of upper- and lower-case letters.
pub open spec fn spells_tls(d: Seq<char>) -> bool {
    &&& d.len() == 3
    &&& (d[0] == 't' || d[0] == 'T')
    &&& (d[1] == 'l' || d[1] == 'L')
    &&& (d[2] == 's' || d[2] == 'S')
}

/// A node gets TLS settings exactly when its trimmed dialer type spells
/// `tls`, in any letter case.
pub proof fn lemma_tls_exactly_for_tls_dialer(channel_id: Seq<char>, addr: Seq<char>, q: GostNodeQuery)
    requires
        node_for(channel_id, addr, q) is Ok,
    ensures
        node_for(channel_id, addr, q)->Ok_0.tls is Some <==> spells_tls(trim(q.dialer@)),
{
    reveal_strlit("tls");
    let d = trim(q.dialer@);
    if eq_ignore_ascii_case(d, "tls"@) {
        assert(crate::text::ascii_lower_code(d[0]) == crate::text::ascii_lower_code("tls"@[0]));
        assert(crate::text::ascii_lower_code(d[1]) == crate::text::ascii_lower_code("tls"@[1]));
        assert(crate::text::ascii_lower_code(d[2]) == crate::text::ascii_lower_code("tls"@[2]));
        assert forall|j: int| 0 <= j < 3 implies (#[trigger] d[j]) as u32 == "tls"@[j] as u32 || d[j] as u32 + 32
            == "tls"@[j] as u32 by {
            assert(crate::text::ascii_lower_code(d[j]) == crate::text::ascii_lower_code("tls"@[j]));
        }
        vstd::utf8::char_u32_cast(d[0], d[0] as u32);
        vstd::utf8::char_u32_cast(d[1], d[1] as u32);
        vstd::utf8::char_u32_cast(d[2], d[2] as u32);
        vstd::utf8::char_u32_cast('t', 't' as u32);
        vstd::utf8::char_u32_cast('T', 'T' as u32);
        vstd::utf8::char_u32_cast('l', 'l' as u32);
        vstd::utf8::char_u32_cast('L', 'L' as u32);
        vstd::utf8::char_u32_cast('s', 's' as u32);
        vstd::utf8::char_u32_cast('S', 'S' as u32);
        assert(spells_tls(d));
    }
    if spells_tls(d) {
        assert forall|i: int| 0 <= i < d.len() implies crate::text::ascii_lower_code(#[trigger] d[i])
            == crate::text::ascii_lower_code("tls"@[i]) by {
            assert(i == 0 || i == 1 || i == 2);
        }
        assert(eq_ignore_ascii_case(d, "tls"@));
    }
}

/// A node is named by the trimmed `name` query value when that is not
/// blank, and by the channel id otherwise; its credentials are the trimmed
/// username and password, in that order, when both are given.
pub proof fn lemma_node_name_and_credentials(
    channel_id: Seq<char>,
    addr: Seq<char>,
    q: GostNodeQuery,
)
    requires
        node_for(channel_id, addr, q) is Ok,
    ensures
        q.name is Some && trim(q.name->Some_0@).len() > 0 ==> node_for(channel_id, addr, q)->Ok_0.name
            == trim(q.name->Some_0@),
        !(q.name is Some && trim(q.name->Some_0@).len() > 0) ==> node_for(
            channel_id,
            addr,
            q,
        )->Ok_0.name == channel_id,
        q.username is Some && trim(q.username->Some_0@).len() > 0 ==> {
            &&& q.password is Some
            &&& node_for(channel_id, addr, q)->Ok_0.auth == Some(
                (trim(q.username->Some_0@), trim(q.password->Some_0@)),
            )
        },
{
}

/// An authorised update whose address is blank after trimming is refused as
/// a bad request.
pub proof fn lemma_blank_address_refused(
    m: Map<Seq<char>, Seq<char>>,
    token: Seq<char>,
    channel_id: Seq<char>,
    authorization: Option<Seq<u8>>,
    addr: Seq<char>,
)
    requires
        authorized(authorization, token),
        trim(addr).len() == 0,
    ensures
        updated(m, token, channel_id, authorization, addr) == Err::<
            Map<Seq<char>, Seq<char>>,
            ApiError,
        >(ApiError::BadRequest),
{
}

/// A header value holding a control byte other than a tab, a DEL, or a byte
/// beyond ASCII never authorises.
pub proof fn lemma_non_text_header_never_authorizes(value: Seq<u8>, token: Seq<char>, i: int)
    requires
        0 <= i < value.len(),
        (value[i] < 0x20 && value[i] != 0x09) || value[i] >= 0x7f,
    ensures
        !authorized(Some(value), token),
{
    assert(!crate::auth::is_visible_ascii(value[i]));
}

proof fn lemma_trim_start_shape(s: Seq<char>) -> (a: int)
    ensures
        0 <= a <= s.len(),
        trim_start(s) == s.subrange(a, s.len() as int),
        forall|i: int| 0 <= i < a ==> is_white_space(#[trigger] s[i]),
        a < s.len() ==> !is_white_space(s[a]),
    decreases s.len(),
{
    if s.len() > 0 && is_white_space(s[0]) {
        let a1 = lemma_trim_start_shape(s.drop_first());
        assert(s.drop_first().subrange(a1, s.len() - 1) =~= s.subrange(a1 + 1, s.len() as int));
        assert forall|i: int| 0 <= i < a1 + 1 implies is_white_space(#[trigger] s[i]) by {
            if i > 0 {
                assert(s[i] == s.drop_first()[i - 1]);
            }
        }
        a1 + 1
    } else {
        assert(s.subrange(0, s.len() as int) =~= s);
        0
    }
}

proof fn lemma_trim_end_shape(s: Seq<char>) -> (b: int)
    ensures
        0 <= b <= s.len(),
        trim_end(s) == s.subrange(0, b),
        forall|i: int| b <= i < s.len() ==> is_white_space(#[trigger] s[i]),
        b > 0 ==> !is_white_space(s[b - 1]),
    decreases s.len(),
{
    if s.len() > 0 && is_white_space(s.last()) {
        let b1 = lemma_trim_end_shape(s.drop_last());
        assert(s.drop_last().subrange(0, b1) =~= s.subrange(0, b1));
        assert forall|i: int| b1 <= i < s.len() implies is_white_space(#[trigger] s[i]) by {
            if i < s.len() - 1 {
                assert(s[i] == s.drop_last()[i]);
            }
        }
        b1
    } else {
        assert(s.subrange(0, s.len() as int) =~= s);
        s.len() as int
    }
}

/// Trimming removes only whitespace and all of it at both ends: the result
/// is a contiguous part of the text, everything before and after it is
/// whitespace, and a non-empty result neither starts nor ends with
/// whitespace.
pub proof fn lemma_trim_removes_exactly_outer_whitespace(s: Seq<char>)
    ensures
        exists|a: int, b: int|
            {
                &&& 0 <= a <= b <= s.len()
                &&& trim(s) == s.subrange(a, b)
                &&& forall|i: int| 0 <= i < a ==> is_white_space(#[trigger] s[i])
                &&& forall|i: int| b <= i < s.len() ==> is_white_space(#[trigger] s[i])
                &&& a < b ==> !is_white_space(s[a]) && !is_white_space(s[b - 1])
            },
{
    let a = lemma_trim_start_shape(s);
    let t = s.subrange(a, s.len() as int);
    let c = lemma_trim_end_shape(t);
    let b = a + c;
    assert(t.subrange(0, c) =~= s.subrange(a, b));
    assert forall|i: int| b <= i < s.len() implies is_white_space(#[trigger] s[i]) by {
        assert(s[i] == t[i - a]);
    }
    if a < b {
        assert(s[a] == t[0]);
        assert(s[b - 1] == t[c - 1]);
    }
    assert(trim(s) == s.subrange(a, b));
}

} // verus!
