//! The shared secret in front of every draft route.

use vstd::prelude::*;
use vstd::utf8::*;

use crate::api::{error_answer, Body, Reply, ReplyView};
use crate::text::{chars_of, same, str_view, text_of};

verus! {

/// What lets a request through: the configured token, and nothing while there is none.
pub open spec fn admitted(provided: Option<Seq<char>>, expected: Option<Seq<char>>) -> bool {
    match (provided, expected) {
        (Some(provided), Some(expected)) => provided == expected,
        _ => false,
    }
}

/// Pure bearer check. Constant-time comparison: the token is a secret, and a length- or
/// prefix-sensitive compare leaks it a byte at a time.
pub fn bearer_ok(provided: Option<&str>, expected: Option<&str>) -> (r: bool)
    ensures
        r == admitted(str_view(provided), str_view(expected)),
{
    let provided: &str = match provided {
        Some(p) => p,
        None => {
            return false;
        },
    };
    let expected: &str = match expected {
        Some(e) => e,
        None => {
            return false;
        },
    };
    let left: &[u8] = provided.as_bytes();
    let right: &[u8] = expected.as_bytes();
    proof {
        encode_utf8_decode_utf8(provided@);
        encode_utf8_decode_utf8(expected@);
    }
    if left.len() != right.len() {
        return false;
    }
    let mut diff: u8 = 0;
    let mut i: usize = 0;
    while i < left.len()
        invariant
            i <= left@.len(),
            left@.len() == right@.len(),
            diff == 0 <==> (forall|j: int| 0 <= j < i ==> left@[j] == right@[j]),
        decreases left.len() - i,
    {
        let a: u8 = left[i];
        let b: u8 = right[i];
        let next: u8 = diff | (a ^ b);
        proof {
            assert((diff | (a ^ b)) == 0u8 <==> diff == 0u8 && a == b) by (bit_vector);
            if next == 0 {
                assert forall|j: int| 0 <= j < i + 1 implies left@[j] == right@[j] by {
                    if j == i {
                    }
                }
            } else {
                if diff == 0 {
                    assert(left@[i as int] != right@[i as int]);
                }
            }
        }
        diff = next;
        i = i + 1;
    }
    proof {
        if diff == 0 {
            assert(left@ =~= right@);
        }
    }
    diff == 0
}

/// The scheme that stands before the token in an `authorization` header.
pub open spec fn scheme() -> Seq<char> {
    "Bearer "@
}

/// The token that an `authorization` header presents.
pub open spec fn presented(header: Option<Seq<char>>) -> Option<Seq<char>> {
    match header {
        Some(h) => if scheme().is_prefix_of(h) {
            Some(h.skip(scheme().len() as int))
        } else {
            None
        },
        None => None,
    }
}

/// The view of an answer that may not be needed.
pub open spec fn refusal(r: Option<Reply>) -> Option<ReplyView> {
    match r {
        Some(r) => Some(r@),
        None => None,
    }
}

/// The token that an `authorization` header presents.
pub fn bearer_token(header: Option<&str>) -> (r: Option<String>)
    ensures
        crate::text::opt_view(r) == presented(str_view(header)),
{
    let header: &str = match header {
        Some(h) => h,
        None => {
            return None;
        },
    };
    let chars: Vec<char> = chars_of(header);
    let prefix: Vec<char> = chars_of("Bearer ");
    if chars.len() < prefix.len() {
        return None;
    }
    let start: String = text_of(&chars, 0, prefix.len());
    if !same(start.as_str(), "Bearer ") {
        return None;
    }
    proof {
        assert(header@.subrange(scheme().len() as int, header@.len() as int) =~= header@.skip(
            scheme().len() as int,
        ));
    }
    Some(text_of(&chars, prefix.len(), chars.len()))
}

/// What a protected route answers instead of serving a request: nothing where the request
/// presents the configured token. A request that did not come through Core has no way to
/// present it. Fail-closed when no token is configured.
pub fn bearer_gate(header: Option<&str>, expected: Option<&str>) -> (r: Option<Reply>)
    ensures
        refusal(r) == (if admitted(presented(str_view(header)), str_view(expected)) {
            None
        } else {
            Some(error_answer(401, "unauthorized"@))
        }),
{
    let token: Option<String> = bearer_token(header);
    let ok: bool = match &token {
        Some(t) => bearer_ok(Some(t.as_str()), expected),
        None => bearer_ok(None, expected),
    };
    if ok {
        None
    } else {
        Some(Reply { status: 401, body: Body::Error("unauthorized".to_owned()) })
    }
}

/// A configured token: one that is not empty.
pub open spec fn configured(raw: Option<Seq<char>>) -> Option<Seq<char>> {
    match raw {
        Some(t) => if t.len() > 0 {
            Some(t)
        } else {
            None
        },
        None => None,
    }
}

/// The value of a variable, where it has one that is not empty.
pub fn configured_value(raw: Option<String>) -> (r: Option<String>)
    ensures
        crate::text::opt_view(r) == configured(crate::text::opt_view(raw)),
{
    match raw {
        Some(t) => {
            if t.as_str().is_empty() {
                None
            } else {
                Some(t)
            }
        },
        None => None,
    }
}

/// Default loopback port.
pub const DEFAULT_PORT: u16 = 8012;

/// The port that a variable names, where it names one.
pub open spec fn port_of(raw: Option<Seq<char>>) -> Option<u16> {
    match raw {
        Some(p) => match crate::number::unsigned(p, u16::MAX as nat) {
            Some(n) => Some(n as u16),
            None => None,
        },
        None => None,
    }
}

/// The port that a variable names.
pub fn parse_port(raw: Option<&str>) -> (r: Option<u16>)
    ensures
        r == port_of(str_view(raw)),
{
    match raw {
        Some(p) => match crate::number::parse_unsigned(p, u16::MAX as u32) {
            Some(n) => Some(n as u16),
            None => None,
        },
        None => None,
    }
}

/// The loopback port to listen on.
pub fn listen_port(raw: Option<&str>) -> (r: u16)
    ensures
        r == (match port_of(str_view(raw)) {
            Some(p) => p,
            None => DEFAULT_PORT,
        }),
{
    match parse_port(raw) {
        Some(p) => p,
        None => DEFAULT_PORT,
    }
}

} // verus!
