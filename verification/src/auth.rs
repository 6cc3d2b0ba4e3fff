//! Bearer-token authorisation of update requests, over the raw bytes of the
//! `Authorization` header.

use vstd::prelude::*;
use vstd::utf8::encode_utf8;

verus! {

/// A byte that a header value may hold and still be read as text: visible
/// ASCII or a horizontal tab.
pub open spec fn is_visible_ascii(b: u8) -> bool {
    (32 <= b && b < 127) || b == 9
}

/// Whether a header value reads as text: every byte is visible ASCII.
pub open spec fn header_is_text(value: Seq<u8>) -> bool {
    forall|i: int| 0 <= i < value.len() ==> is_visible_ascii(#[trigger] value[i])
}

/// The bytes of `Bearer ` (with its trailing space).
pub open spec fn bearer_prefix() -> Seq<u8> {
    seq![0x42u8, 0x65u8, 0x61u8, 0x72u8, 0x65u8, 0x72u8, 0x20u8]
}

/// The views of an optional header value.
pub open spec fn header_view(value: Option<&[u8]>) -> Option<Seq<u8>> {
    match value {
        Some(v) => Some(v@),
        None => None,
    }
}

/// The token of an `Authorization` header: present when the value reads as
/// text and starts with `Bearer `; the token is what follows the prefix.
pub open spec fn bearer_token(value: Option<Seq<u8>>) -> Option<Seq<u8>> {
    match value {
        Some(v) => if header_is_text(v) && v.len() >= bearer_prefix().len() && v.take(
            bearer_prefix().len() as int,
        ) == bearer_prefix() {
            Some(v.skip(bearer_prefix().len() as int))
        } else {
            None
        },
        None => None,
    }
}

/// Whether an `Authorization` header carries exactly the expected token.
pub open spec fn authorized(value: Option<Seq<u8>>, expected_token: Seq<char>) -> bool {
    bearer_token(value) == Some(encode_utf8(expected_token))
}

/// Whether every byte of `value` is visible ASCII.
pub fn is_header_text(value: &[u8]) -> (r: bool)
    ensures
        r == header_is_text(value@),
{
    let n = value.len();
    let mut i: usize = 0;
    while i < n
        invariant
            n == value@.len(),
            i <= n,
            forall|j: int| 0 <= j < i ==> is_visible_ascii(#[trigger] value@[j]),
        decreases n - i,
    {
        let b: u8 = value[i];
        if !((32 <= b && b < 127) || b == 9) {
            assert(!is_visible_ascii(value@[i as int]));
            return false;
        }
        i = i + 1;
    }
    true
}

/// The bearer token of an `Authorization` header value, if it has one.
pub fn extract_bearer_token(authorization: Option<&[u8]>) -> (r: Option<Vec<u8>>)
    ensures
        match r {
            Some(t) => bearer_token(header_view(authorization)) == Some(t@),
            None => bearer_token(header_view(authorization)) is None,
        },
{
    let value = match authorization {
        Some(v) => v,
        None => return None,
    };
    if !is_header_text(value) {
        return None;
    }
    let prefix: [u8; 7] = [0x42u8, 0x65u8, 0x61u8, 0x72u8, 0x65u8, 0x72u8, 0x20u8];
    assert(prefix@ =~= bearer_prefix());
    let n = value.len();
    if n < 7 {
        return None;
    }
    let mut i: usize = 0;
    while i < 7
        invariant
            n == value@.len(),
            n >= 7,
            i <= 7,
            header_view(authorization) == Some(value@),
            header_is_text(value@),
            prefix@ == bearer_prefix(),
            forall|j: int| 0 <= j < i ==> value@[j] == #[trigger] prefix@[j],
        decreases 7 - i,
    {
        if value[i] != prefix[i] {
            assert(value@.take(7)[i as int] != bearer_prefix()[i as int]);
            assert(value@.take(7) != bearer_prefix());
            return None;
        }
        i = i + 1;
    }
    assert(value@.take(7) =~= bearer_prefix());
    let mut token: Vec<u8> = Vec::new();
    let mut k: usize = 7;
    while k < n
        invariant
            n == value@.len(),
            7 <= k <= n,
            header_view(authorization) == Some(value@),
            header_is_text(value@),
            value@.take(7) == bearer_prefix(),
            token@ =~= value@.subrange(7, k as int),
        decreases n - k,
    {
        token.push(value[k]);
        k = k + 1;
    }
    assert(token@ =~= value@.skip(7));
    Some(token)
}

/// Whether `a` and `b` hold the same bytes.
fn bytes_equal(a: &[u8], b: &[u8]) -> (r: bool)
    ensures
        r == (a@ == b@),
{
    let n = a.len();
    if n != b.len() {
        return false;
    }
    let mut i: usize = 0;
    while i < n
        invariant
            n == a@.len(),
            n == b@.len(),
            i <= n,
            forall|j: int| 0 <= j < i ==> a@[j] == b@[j],
        decreases n - i,
    {
        if a[i] != b[i] {
            return false;
        }
        i = i + 1;
    }
    assert(a@ =~= b@);
    true
}

/// Whether an `Authorization` header value carries the expected bearer token.
pub fn is_authorized(authorization: Option<&[u8]>, expected_token: &str) -> (r: bool)
    ensures
        r == authorized(header_view(authorization), expected_token@),
{
    match extract_bearer_token(authorization) {
        Some(token) => bytes_equal(token.as_slice(), expected_token.as_bytes()),
        None => false,
    }
}

} // verus!
