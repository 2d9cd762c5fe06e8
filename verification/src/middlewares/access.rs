//! Request correlation and access logging: which id a request goes by, and how
//! loudly its access line is written.

use crate::headers::{
    header_text, header_value, is_header_value, visible_ascii,
};
use crate::ids::{fresh_uuid, hex, uuid_text};
use crate::level::Level;
use crate::text::{chars_of, same, trim, trimmed};
use vstd::prelude::*;
use vstd::string::*;
use vstd::utf8::{encode_utf8, is_ascii_chars, is_ascii_chars_encode_utf8};

verus! {

/// The longest request id that is taken over from a caller.
pub const REQUEST_ID_MAX: usize = 128;

/// The id a request goes by.
#[derive(Debug, Clone, PartialEq, Eq)]
pub struct RequestId(pub String);

/// Whether a request is one of a load balancer's probes.
pub open spec fn probes(method: Seq<char>, path: Seq<char>) -> bool {
    (method == "GET"@ || method == "HEAD"@) && (path == "/health"@ || path == "/"@)
}

/// Whether the access line of a request belongs at `debug`: `/health` is polled
/// by a load balancer, and `/` only redirects to it.
pub fn is_probe(method: &str, path: &str) -> (r: bool)
    ensures
        r == probes(method@, path@),
{
    (same(method, "GET") || same(method, "HEAD")) && (same(path, "/health") || same(path, "/"))
}

/// A character that correlation ids are made of.
pub open spec fn id_char(c: char) -> bool {
    ||| '0' <= c <= '9'
    ||| 'a' <= c <= 'z'
    ||| 'A' <= c <= 'Z'
    ||| c == '-'
    ||| c == '_'
    ||| c == '.'
    ||| c == ':'
}

/// Whether a text may be a request id.
pub open spec fn usable(s: Seq<char>) -> bool {
    &&& 0 < s.len() <= 128
    &&& forall|i: int| 0 <= i < s.len() ==> id_char(#[trigger] s[i])
}

/// Whether a text may be a request id. The id is written into log lines as it
/// is, so nothing that could be read as their structure is let in.
pub fn usable_request_id(value: &str) -> (r: bool)
    ensures
        r == usable(value@),
{
    let cs = chars_of(value);
    if cs.len() == 0 || cs.len() > REQUEST_ID_MAX {
        return false;
    }
    let mut i: usize = 0;
    while i < cs.len()
        invariant
            i <= cs@.len(),
            cs@ == value@,
            forall|j: int| 0 <= j < i ==> id_char(#[trigger] cs@[j]),
        decreases cs@.len() - i,
    {
        let c = cs[i];
        if !(('0' <= c && c <= '9') || ('a' <= c && c <= 'z') || ('A' <= c && c <= 'Z') || c == '-'
            || c == '_' || c == '.' || c == ':') {
            assert(!id_char(value@[i as int]));
            return false;
        }
        i += 1;
    }
    true
}

/// A usable id holds nothing that a log line is structured by, and is a header
/// value.
pub proof fn a_usable_id_forges_nothing(id: Seq<char>)
    requires
        usable(id),
    ensures
        !id.contains(' '),
        !id.contains('='),
        !id.contains('"'),
        !id.contains('\n'),
        !id.contains('\t'),
        header_value(encode_utf8(id)),
{
    assert(is_ascii_chars(id)) by {
        assert forall|i: int| 0 <= i < id.len() implies (id[i] as u32) < 128 by {
            assert(id_char(id[i]));
        }
    }
    is_ascii_chars_encode_utf8(id);
    let bytes = encode_utf8(id);
    assert forall|i: int| 0 <= i < bytes.len() implies crate::headers::value_byte(
        #[trigger] bytes[i],
    ) by {
        assert(id_char(id[i]));
    }
}

/// A generated id is usable.
pub proof fn a_uuid_is_usable(s: Seq<char>)
    requires
        uuid_text(s),
    ensures
        usable(s),
{
    assert forall|i: int| 0 <= i < s.len() implies id_char(#[trigger] s[i]) by {
        if i != 8 && i != 13 && i != 18 && i != 23 {
            assert(hex(s[i]));
        }
    }
}

/// The id that a header asks for, if it may be used: trimmed, and neither cut
/// short nor mended.
pub open spec fn asked_id(header: Option<Seq<u8>>) -> Option<Seq<char>> {
    match header {
        Some(bytes) => if visible_ascii(bytes) && usable(
            trimmed(bytes.map_values(|b: u8| b as char)),
        ) {
            Some(trimmed(bytes.map_values(|b: u8| b as char)))
        } else {
            None
        },
        None => None,
    }
}

/// The bytes of an optional header value.
pub open spec fn header_bytes(header: Option<&[u8]>) -> Option<Seq<u8>> {
    match header {
        Some(bytes) => Some(bytes@),
        None => None,
    }
}

/// The id that a header asks for, if it may be used.
pub fn adopted_id(header: Option<&[u8]>) -> (r: Option<String>)
    ensures
        match r {
            Some(id) => asked_id(header_bytes(header)) == Some(id@),
            None => asked_id(header_bytes(header)) is None,
        },
{
    match header {
        Some(bytes) => match header_text(bytes) {
            Some(text) => {
                let id = trim(text.as_str());
                if usable_request_id(id.as_str()) {
                    Some(id)
                } else {
                    None
                }
            },
            None => None,
        },
        None => None,
    }
}

/// The id a request goes by: the one its header asks for, or a fresh one.
pub fn request_id(header: Option<&[u8]>) -> (r: RequestId)
    ensures
        usable(r.0@),
        match asked_id(header_bytes(header)) {
            Some(id) => r.0@ == id,
            None => uuid_text(r.0@),
        },
{
    match adopted_id(header) {
        Some(id) => RequestId(id),
        None => {
            let id = fresh_uuid();
            proof {
                a_uuid_is_usable(id@);
            }
            RequestId(id)
        },
    }
}

/// Whether a response says that the server failed.
pub open spec fn server_error(status: u16) -> bool {
    500 <= status < 600
}

/// What the access layer writes of a finished request.
#[derive(Debug, Clone, PartialEq, Eq)]
pub struct AccessLine {
    pub level: Level,
    pub outcome: &'static str,
    /// The value of the `x-request-id` header of the response, if the id can be
    /// one.
    pub header: Option<String>,
}

/// What the access layer writes of a finished request: a server error is a
/// warning, a probe is a detail, and everything else is an answer.
pub fn finish_request(id: &RequestId, probe: bool, status: u16) -> (r: AccessLine)
    ensures
        r.level == if server_error(status) {
            Level::Warn
        } else if probe {
            Level::Debug
        } else {
            Level::Info
        },
        r.outcome@ == if server_error(status) {
            "failure"@
        } else {
            "success"@
        },
        match r.header {
            Some(value) => value@ == id.0@ && header_value(encode_utf8(id.0@)),
            None => !header_value(encode_utf8(id.0@)),
        },
        usable(id.0@) ==> r.header is Some,
{
    proof {
        if usable(id.0@) {
            a_usable_id_forges_nothing(id.0@);
        }
    }
    let failed = 500 <= status && status < 600;
    let header = if is_header_value(id.0.as_str()) {
        Some(id.0.clone())
    } else {
        None
    };
    AccessLine {
        level: if failed {
            Level::Warn
        } else if probe {
            Level::Debug
        } else {
            Level::Info
        },
        outcome: if failed {
            "failure"
        } else {
            "success"
        },
        header,
    }
}

/// A probe is a `GET` or a `HEAD` of `/health` or `/`, and nothing else.
pub proof fn a_probe_reads_health_or_root(method: Seq<char>, path: Seq<char>)
    ensures
        probes("GET"@, "/health"@) && probes("HEAD"@, "/health"@),
        probes("GET"@, "/"@) && probes("HEAD"@, "/"@),
        probes(method, path) ==> (method == "GET"@ || method == "HEAD"@) && (path == "/health"@
            || path == "/"@),
{
}

/// A usable id has from 1 to 128 characters, each a letter, a digit or one of the
/// four marks.
pub proof fn an_id_is_short_and_plain(s: Seq<char>)
    ensures
        usable(s) <==> 1 <= s.len() <= 128 && forall|i: int|
            0 <= i < s.len() ==> ('a' <= #[trigger] s[i] <= 'z' || 'A' <= s[i] <= 'Z' || '0' <= s[i]
                <= '9' || s[i] == '-' || s[i] == '_' || s[i] == '.' || s[i] == ':'),
        REQUEST_ID_MAX == 128,
{
    if usable(s) {
        assert forall|i: int| 0 <= i < s.len() implies ('a' <= #[trigger] s[i] <= 'z' || 'A'
            <= s[i] <= 'Z' || '0' <= s[i] <= '9' || s[i] == '-' || s[i] == '_' || s[i] == '.'
            || s[i] == ':') by {
            assert(id_char(s[i]));
        }
    }
    if forall|i: int|
        0 <= i < s.len() ==> ('a' <= #[trigger] s[i] <= 'z' || 'A' <= s[i] <= 'Z' || '0' <= s[i]
            <= '9' || s[i] == '-' || s[i] == '_' || s[i] == '.' || s[i] == ':') {
        assert forall|i: int| 0 <= i < s.len() implies id_char(#[trigger] s[i]) by {}
    }
}

/// A header's id is taken up exactly when the header is there, is visible ASCII and
/// is usable once the white space around it is gone; it is then taken up whole.
pub proof fn an_asked_id_is_taken_up_whole(bytes: Seq<u8>)
    ensures
        ({
            let text = trimmed(bytes.map_values(|b: u8| b as char));
            &&& asked_id(Some(bytes)) is Some <==> visible_ascii(bytes) && usable(text)
            &&& asked_id(Some(bytes)) is Some ==> asked_id(Some(bytes))->Some_0 == text
            &&& asked_id(None) is None
        }),
{
}

/// A header that is there is its bytes.
pub proof fn a_header_is_its_bytes(bytes: &[u8])
    ensures
        header_bytes(Some(bytes)) == Some(bytes@),
        header_bytes(None) is None,
{
}

/// A server error is a status from 500 to 599.
pub proof fn a_server_error_is_the_five_hundreds(status: u16)
    ensures
        server_error(status) <==> status / 100 == 5,
{
}

} // verus!
