//! phpIPAM's own paths and wire shapes.
//!
//! | Query | Source |
//! | --- | --- |
//! | `<app_id>/addresses/search/<ip>/` | always |
//! | `<app_id>/devices/<id>/` | `device` |
//!
//! Authentication is a bare `token` header, and an unknown address is a 404:
//! a fact about the address, not a failure to look it up.

use super::{PhpIpamAddress, PhpIpamConfig};
use crate::debug::{quoted, quoted_words};
use crate::ipam::http::{base_url, JsonApi, JsonApiError, TlsTrust};
use crate::ipam::{kind_of, value_kind};
use crate::json::{Json, Number};
use crate::text::{
    cat3, cat4, cat5, chars_of, decimal, number, parse_u64, trim, trimmed, u64_value,
};
use vstd::prelude::*;
use vstd::string::*;

verus! {

/// A phpIPAM REST client. Its headers hold the app code, so it is never printed
/// whole.
#[derive(Clone, PartialEq, Eq)]
pub struct PhpIpamClient {
    pub api: JsonApi,
    pub app_id: String,
}

/// A letter, a digit, `-` or `_`.
pub open spec fn segment_char(c: char) -> bool {
    ||| 'a' <= c <= 'z'
    ||| 'A' <= c <= 'Z'
    ||| '0' <= c <= '9'
    ||| c == '-'
    ||| c == '_'
}

/// A single path segment of letters, digits, `-` and `_`.
pub open spec fn is_segment(s: Seq<char>) -> bool {
    s.len() > 0 && forall|i: int| 0 <= i < s.len() ==> segment_char(#[trigger] s[i])
}

/// Whether a text is a single path segment of letters, digits, `-` and `_`.
pub fn segment(s: &str) -> (r: bool)
    ensures
        r == is_segment(s@),
{
    let cs = chars_of(s);
    let mut i: usize = 0;
    while i < cs.len()
        invariant
            i <= cs@.len(),
            cs@ == s@,
            forall|j: int| 0 <= j < i ==> segment_char(#[trigger] cs@[j]),
        decreases cs@.len() - i,
    {
        let c = cs[i];
        if !(('a' <= c && c <= 'z') || ('A' <= c && c <= 'Z') || ('0' <= c && c <= '9') || c == '-'
            || c == '_') {
            assert(!segment_char(s@[i as int]));
            return false;
        }
        i += 1;
    }
    cs.len() > 0
}

/// Why a section gives no client, before its URL is read.
pub open spec fn phpipam_config_error(cfg: PhpIpamConfig) -> Option<Seq<char>> {
    if trimmed(cfg.url@).len() == 0 {
        Some(
            "ipam.backend is `phpipam` but ipam.phpipam.url is empty; give the base URL of the phpIPAM instance"@,
        )
    } else if trimmed(cfg.token@).len() == 0 {
        Some(
            "ipam.backend is `phpipam` but ipam.phpipam.token is empty; supply the API application's app code, preferably through ACME_PROXY_IPAM__PHPIPAM__TOKEN"@,
        )
    } else if !is_segment(trimmed(cfg.app_id@)) {
        Some(
            "ipam.phpipam.app_id must be a single path segment of letters, digits, `-` or `_` (the API application's identifier in phpIPAM); got `"@
                + cfg.app_id@ + "`"@,
        )
    } else {
        None
    }
}

impl PhpIpamClient {
    /// Validates the section. `trust` is what came of loading the certificates
    /// that the section asks for. Nothing is contacted.
    ///
    /// The app id is a path segment in every request, so a stray slash in it
    /// would retarget the API rather than fail.
    pub fn new(cfg: &PhpIpamConfig, trust: Result<TlsTrust, String>) -> (r: Result<
        PhpIpamClient,
        String,
    >)
        ensures
            match phpipam_config_error(*cfg) {
                Some(e) => r matches Err(got) && got@ == e,
                None => match trust {
                    Err(e) => r matches Err(got) && got@ == e@,
                    Ok(tls) => match base_url(cfg.url@, "ipam.phpipam.url"@) {
                        Err(e) => r matches Err(got) && got@ == e,
                        Ok(base) => r matches Ok(client) && {
                            &&& client.api.base@ == base
                            &&& client.api.tls == tls
                            &&& client.api.headers@.len() == 1
                            &&& client.api.headers@[0].0@ == "token"@
                            &&& client.api.headers@[0].1@ == cfg.token@
                            &&& client.app_id@ == trimmed(cfg.app_id@)
                        },
                    },
                },
            },
    {
        if trim(cfg.url.as_str()).as_str().is_empty() {
            return Err(
                "ipam.backend is `phpipam` but ipam.phpipam.url is empty; give the base URL of the phpIPAM instance".to_owned(),
            );
        }
        if trim(cfg.token.as_str()).as_str().is_empty() {
            return Err(
                "ipam.backend is `phpipam` but ipam.phpipam.token is empty; supply the API application's app code, preferably through ACME_PROXY_IPAM__PHPIPAM__TOKEN".to_owned(),
            );
        }
        let app_id = trim(cfg.app_id.as_str());
        if !segment(app_id.as_str()) {
            return Err(
                cat3(
                    "ipam.phpipam.app_id must be a single path segment of letters, digits, `-` or `_` (the API application's identifier in phpIPAM); got `",
                    cfg.app_id.as_str(),
                    "`",
                ),
            );
        }
        let tls = match trust {
            Ok(tls) => tls,
            Err(e) => {
                return Err(e);
            },
        };
        let mut headers: Vec<(String, String)> = Vec::new();
        headers.push(("token".to_owned(), cfg.token.clone()));
        match JsonApi::new(cfg.url.as_str(), "ipam.phpipam.url", headers, tls) {
            Ok(api) => Ok(PhpIpamClient { api, app_id }),
            Err(e) => Err(e),
        }
    }

    /// What may be shown of a client: never its app code.
    pub fn describe(&self) -> (r: String)
        ensures
            r@ == "PhpIpamClient { api: JsonApi { base: "@ + quoted_words(self.api.base@)
                + ", .. }, app_id: "@ + quoted_words(self.app_id@) + " }"@,
    {
        cat5(
            "PhpIpamClient { api: JsonApi { base: ",
            quoted(self.api.base.as_str()).as_str(),
            ", .. }, app_id: ",
            quoted(self.app_id.as_str()).as_str(),
            " }",
        )
    }

    /// Where one address is looked up.
    pub fn search_path(&self, ip: &str) -> (r: String)
        ensures
            r@ == "/api/"@ + self.app_id@ + "/addresses/search/"@ + ip@ + "/"@,
    {
        cat5("/api/", self.app_id.as_str(), "/addresses/search/", ip, "/")
    }

    /// Where one device is described.
    pub fn device_path(&self, id: u64) -> (r: String)
        ensures
            r@ == "/api/"@ + self.app_id@ + "/devices/"@ + decimal(id as nat) + "/"@,
    {
        cat5("/api/", self.app_id.as_str(), "/devices/", number(id as u128).as_str(), "/")
    }
}

/// What a failed search says: a 404 is an answer, that there is no record.
pub fn search_failed(error: JsonApiError) -> (r: Result<Option<Vec<PhpIpamAddress>>, String>)
    ensures
        if error.status == Some(404u16) {
            r matches Ok(found) && found is None
        } else {
            r matches Err(e) && e@ == error.message@
        },
{
    match error.status {
        Some(404) => Ok(None),
        _ => Err(error.message),
    }
}

/// The complaint about a response without the envelope.
pub fn unexpected_search(error: &str) -> (r: String)
    ensures
        r@ == "unexpected addresses/search response: "@ + error@,
{
    crate::text::cat2("unexpected addresses/search response: ", error)
}

/// The complaint about rows of the wrong shape.
pub fn unexpected_rows(error: &str) -> (r: String)
    ensures
        r@ == "unexpected addresses/search data: "@ + error@,
{
    crate::text::cat2("unexpected addresses/search data: ", error)
}

/// One address row: two named columns, and every other as it arrived.
#[derive(Debug, PartialEq, Eq, Default)]
pub struct AddressRow {
    pub hostname: Option<String>,
    pub device_id: Option<Json>,
    pub fields: Vec<(String, Json)>,
}

/// The id that a column holds: a number, or a string of digits; 0 is none.
pub open spec fn id_value(value: Json) -> Option<u64> {
    let id = match value {
        Json::Number(Number::Whole(n)) => Some(n),
        Json::Text(t) => u64_value(trimmed(t@)),
        _ => None,
    };
    if id == Some(0u64) {
        None
    } else {
        id
    }
}

/// The id that a column holds. Integer columns are strings in some versions
/// and numbers in others, and an unassigned device is `null`, `"0"` or `0`.
pub fn numeric_id(value: &Json) -> (r: Option<u64>)
    ensures
        r == id_value(*value),
{
    let id = match value {
        Json::Number(Number::Whole(n)) => Some(*n),
        Json::Text(t) => parse_u64(trim(t.as_str()).as_str()),
        _ => None,
    };
    match id {
        Some(0) => None,
        other => other,
    }
}

impl PhpIpamAddress {
    /// An address row reduced to what is read of it.
    pub fn from_row(row: AddressRow) -> (r: PhpIpamAddress)
        ensures
            r.hostname@ == match row.hostname {
                Some(h) => h@,
                None => Seq::empty(),
            },
            r.device_id == match row.device_id {
                Some(v) => id_value(v),
                None => None,
            },
            r.fields == row.fields,
    {
        let hostname = match row.hostname {
            Some(h) => h,
            None => String::new(),
        };
        let device_id = match &row.device_id {
            Some(v) => numeric_id(v),
            None => None,
        };
        PhpIpamAddress { hostname, device_id, fields: row.fields }
    }
}

/// The columns in a device response. A device that phpIPAM has no row for is
/// answered with an empty list, which lends no names and is no error.
pub fn device_columns(path: &str, data: Json) -> (r: Result<Vec<(String, Json)>, String>)
    ensures
        match data {
            Json::Object(fields) => r == Ok::<Vec<(String, Json)>, String>(fields),
            Json::Null | Json::Array(_) => r matches Ok(fields) && fields@.len() == 0,
            _ => r matches Err(e) && e@ == "unexpected response for "@ + path@ + ": data is a "@
                + kind_of(data),
        },
{
    match data {
        Json::Object(fields) => Ok(fields),
        Json::Null => Ok(Vec::new()),
        Json::Array(_) => Ok(Vec::new()),
        other => {
            let kind = value_kind(&other);
            Err(cat4("unexpected response for ", path, ": data is a ", kind))
        },
    }
}

/// An application's identifier is one path segment: letters, digits, `-` and `_`, at
/// least one of them.
pub proof fn a_segment_is_plain(s: Seq<char>)
    ensures
        is_segment(s) <==> s.len() > 0 && forall|i: int|
            0 <= i < s.len() ==> ('a' <= #[trigger] s[i] <= 'z' || 'A' <= s[i] <= 'Z' || '0' <= s[i]
                <= '9' || s[i] == '-' || s[i] == '_'),
{
    if is_segment(s) {
        assert forall|i: int| 0 <= i < s.len() implies ('a' <= #[trigger] s[i] <= 'z' || 'A'
            <= s[i] <= 'Z' || '0' <= s[i] <= '9' || s[i] == '-' || s[i] == '_') by {
            assert(segment_char(s[i]));
        }
    }
    if forall|i: int|
        0 <= i < s.len() ==> ('a' <= #[trigger] s[i] <= 'z' || 'A' <= s[i] <= 'Z' || '0' <= s[i]
            <= '9' || s[i] == '-' || s[i] == '_') {
        assert forall|i: int| 0 <= i < s.len() implies segment_char(#[trigger] s[i]) by {}
    }
}

/// A client can be made of a section exactly when it names a URL, a token and an
/// application.
pub proof fn a_usable_section_is_accepted(cfg: PhpIpamConfig)
    ensures
        phpipam_config_error(cfg) is None <==> trimmed(cfg.url@).len() > 0 && trimmed(
            cfg.token@,
        ).len() > 0 && is_segment(trimmed(cfg.app_id@)),
{
}

/// An id is a whole number or a string of its digits, white space aside; 0 is no id,
/// and nothing else is one.
pub proof fn an_id_is_a_number_or_its_digits(value: Json, n: u64)
    ensures
        n > 0 ==> id_value(Json::Number(Number::Whole(n))) == Some(n),
        id_value(Json::Number(Number::Whole(0))) is None,
        value matches Json::Text(t) ==> (u64_value(trimmed(t@)) matches Some(id) && id > 0
            <==> id_value(value) is Some),
        value is Text && id_value(value) is Some ==> id_value(value) == u64_value(
            trimmed(value->Text_0@),
        ),
        !(value is Text) && !(value is Number && value->Number_0 is Whole) ==> id_value(
            value,
        ) is None,
{
}

/// A section without a URL, or else without a token, or else with an app id that is no
/// single path segment, is told so.
pub proof fn an_unusable_section_is_told_why(cfg: PhpIpamConfig)
    ensures
        trimmed(cfg.url@).len() == 0 ==> phpipam_config_error(cfg) == Some(
            "ipam.backend is `phpipam` but ipam.phpipam.url is empty; give the base URL of the phpIPAM instance"@,
        ),
        trimmed(cfg.url@).len() > 0 && trimmed(cfg.token@).len() == 0 ==> phpipam_config_error(cfg)
            == Some(
            "ipam.backend is `phpipam` but ipam.phpipam.token is empty; supply the API application's app code, preferably through ACME_PROXY_IPAM__PHPIPAM__TOKEN"@,
        ),
        trimmed(cfg.url@).len() > 0 && trimmed(cfg.token@).len() > 0 && !is_segment(
            trimmed(cfg.app_id@),
        ) ==> phpipam_config_error(cfg) == Some(
            "ipam.phpipam.app_id must be a single path segment of letters, digits, `-` or `_` (the API application's identifier in phpIPAM); got `"@
                + cfg.app_id@ + "`"@,
        ),
{
}

} // verus!
