//! NetBox's own paths, filters and wire shapes.
//!
//! | Query | Source |
//! | --- | --- |
//! | `ipam/ip-addresses/?address=…` | always |
//! | `dcim/devices/{id}/`, `virtualization/virtual-machines/{id}/` | `device` |
//! | `ipam/ip-addresses/?device_id=…&role=…` | `vip` |
//! | `ipam/fhrp-group-assignments/?interface_type=…&interface_id=…` | `fhrp` |
//! | `ipam/ip-addresses/?fhrpgroup_id=…` | `fhrp` |

use super::{AssignedKind, AssignedRef, NetboxConfig, NetboxIp};
use crate::debug::{quoted, quoted_words};
use crate::ipam::http::{base_url, JsonApi, TlsTrust};
use crate::json::Json;
use crate::text::{cat2, cat3, cat4, decimal, number, same, texts, trim, trimmed};
use vstd::prelude::*;
use vstd::string::*;
use vstd::utf8::encode_utf8;

verus! {

/// Whether a byte stands for itself in a form-encoded text.
pub open spec fn plain_byte(b: u8) -> bool {
    ||| b == 42
    ||| b == 45
    ||| b == 46
    ||| b == 95
    ||| 48 <= b <= 57
    ||| 65 <= b <= 90
    ||| 97 <= b <= 122
}

/// A hexadecimal digit, with capitals.
pub open spec fn hex_digit(d: int) -> char {
    if d < 10 {
        ((48 + d) as u8) as char
    } else {
        ((55 + d) as u8) as char
    }
}

/// One byte of a form-encoded text: itself, `+` for a space, or `%` and two
/// hexadecimal digits.
pub open spec fn form_byte(b: u8) -> Seq<char> {
    if plain_byte(b) {
        seq![b as char]
    } else if b == 32 {
        seq!['+']
    } else {
        seq!['%', hex_digit(b as int / 16), hex_digit(b as int % 16)]
    }
}

/// The form encoding of a byte string.
pub open spec fn form_bytes(bytes: Seq<u8>) -> Seq<char>
    decreases bytes.len(),
{
    if bytes.len() == 0 {
        Seq::empty()
    } else {
        form_bytes(bytes.drop_last()) + form_byte(bytes.last())
    }
}

/// The form encoding of a text.
pub open spec fn form_text(s: Seq<char>) -> Seq<char> {
    form_bytes(encode_utf8(s))
}

/// A query with one more pair: `name=value` in form encoding, after an `&` if
/// there is anything before it.
pub open spec fn with_pair(query: Seq<char>, name: Seq<char>, value: Seq<char>) -> Seq<char> {
    (if query.len() == 0 {
        query
    } else {
        query.push('&')
    }) + form_text(name) + seq!['='] + form_text(value)
}

/// `append_pair` of `url::form_urlencoded::Serializer`, on a serializer over
/// `query` that is then finished: it puts `&` after what is there, if anything
/// is, and then the name and the value, each form-encoded, with `=` between.
#[verifier::external_body]
fn append_pair(query: String, name: &str, value: &str) -> (r: String)
    ensures
        r@ == with_pair(query@, name@, value@),
{
    let mut serializer = url::form_urlencoded::Serializer::new(query);
    serializer.append_pair(name, value);
    serializer.finish()
}

/// A NetBox REST client. Its headers hold the token, so it is never printed
/// whole.
#[derive(Clone, PartialEq, Eq)]
pub struct NetboxClient {
    pub api: JsonApi,
}

/// Why a section gives no client, before its URL is read.
pub open spec fn netbox_config_error(cfg: NetboxConfig) -> Option<Seq<char>> {
    if trimmed(cfg.url@).len() == 0 {
        Some(
            "ipam.backend is `netbox` but ipam.netbox.url is empty; give the base URL of the NetBox instance"@,
        )
    } else if trimmed(cfg.token@).len() == 0 {
        Some(
            "ipam.backend is `netbox` but ipam.netbox.token is empty; supply a NetBox API token, preferably through ACME_PROXY_IPAM__NETBOX__TOKEN"@,
        )
    } else {
        None
    }
}

impl NetboxClient {
    /// Validates the section. `trust` is what came of loading the certificates
    /// that the section asks for. Nothing is contacted.
    pub fn new(cfg: &NetboxConfig, trust: Result<TlsTrust, String>) -> (r: Result<
        NetboxClient,
        String,
    >)
        ensures
            match netbox_config_error(*cfg) {
                Some(e) => r matches Err(got) && got@ == e,
                None => match trust {
                    Err(e) => r matches Err(got) && got@ == e@,
                    Ok(tls) => match base_url(cfg.url@, "ipam.netbox.url"@) {
                        Err(e) => r matches Err(got) && got@ == e,
                        Ok(base) => r matches Ok(client) && {
                            &&& client.api.base@ == base
                            &&& client.api.tls == tls
                            &&& client.api.headers@.len() == 1
                            &&& client.api.headers@[0].0@ == "authorization"@
                            &&& client.api.headers@[0].1@ == "Token "@ + cfg.token@
                        },
                    },
                },
            },
    {
        if trim(cfg.url.as_str()).as_str().is_empty() {
            return Err(
                "ipam.backend is `netbox` but ipam.netbox.url is empty; give the base URL of the NetBox instance".to_owned(),
            );
        }
        if trim(cfg.token.as_str()).as_str().is_empty() {
            return Err(
                "ipam.backend is `netbox` but ipam.netbox.token is empty; supply a NetBox API token, preferably through ACME_PROXY_IPAM__NETBOX__TOKEN".to_owned(),
            );
        }
        let tls = match trust {
            Ok(tls) => tls,
            Err(e) => {
                return Err(e);
            },
        };
        let mut headers: Vec<(String, String)> = Vec::new();
        headers.push(("authorization".to_owned(), cat2("Token ", cfg.token.as_str())));
        match JsonApi::new(cfg.url.as_str(), "ipam.netbox.url", headers, tls) {
            Ok(api) => Ok(NetboxClient { api }),
            Err(e) => Err(e),
        }
    }

    /// What may be shown of a client: never its token.
    pub fn describe(&self) -> (r: String)
        ensures
            r@ == "NetboxClient { api: JsonApi { base: "@ + quoted_words(self.api.base@)
                + ", .. } }"@,
    {
        cat3(
            "NetboxClient { api: JsonApi { base: ",
            quoted(self.api.base.as_str()).as_str(),
            ", .. } }",
        )
    }
}

/// An address object as NetBox lists it. `role` is the choice's value.
#[derive(Debug, PartialEq, Eq, Default)]
pub struct IpResult {
    pub dns_name: String,
    pub custom_fields: Vec<(String, Json)>,
    pub assigned_object_type: Option<String>,
    pub assigned_object: Option<Json>,
    pub role: Option<String>,
}

/// The two interface types an address can hang off, as NetBox labels them.
pub open spec fn assignable(typ: Option<Seq<char>>) -> Option<(AssignedKind, Seq<char>)> {
    if typ == Some("dcim.interface"@) {
        Some((AssignedKind::Device, "device"@))
    } else if typ == Some("virtualization.vminterface"@) {
        Some((AssignedKind::VirtualMachine, "virtual_machine"@))
    } else {
        None
    }
}

/// The machine and the interface in an address's assignment.
pub open spec fn assignment(typ: Option<Seq<char>>, object: Option<Json>) -> Option<AssignedRef> {
    match (assignable(typ), object) {
        (Some((kind, field)), Some(o)) => match (o.member("id"@), o.member(field)) {
            (Some(interface), Some(machine)) => match (interface.whole(), machine.member("id"@)) {
                (Some(interface_id), Some(id)) => match id.whole() {
                    Some(id) => Some(AssignedRef { kind, id, interface_id }),
                    None => None,
                },
                _ => None,
            },
            _ => None,
        },
        _ => None,
    }
}

/// The characters of an optional string.
pub open spec fn optional(s: Option<&str>) -> Option<Seq<char>> {
    match s {
        Some(t) => Some(t@),
        None => None,
    }
}

/// Digs the device or virtual machine, and the interface, out of an address's
/// assignment. The interface carries the machine it belongs to, so both are
/// known without another request.
///
/// An address assigned to anything else has no machine behind it.
pub fn assigned_ref(typ: Option<&str>, object: Option<&Json>) -> (r: Option<AssignedRef>)
    ensures
        r == assignment(
            optional(typ),
            match object {
                Some(o) => Some(*o),
                None => None,
            },
        ),
{
    let name = match typ {
        Some(name) => name,
        None => {
            return None;
        },
    };
    let (kind, field) = if same(name, "dcim.interface") {
        (AssignedKind::Device, "device")
    } else if same(name, "virtualization.vminterface") {
        (AssignedKind::VirtualMachine, "virtual_machine")
    } else {
        return None;
    };
    let object = match object {
        Some(object) => object,
        None => {
            return None;
        },
    };
    let interface_id: u64 = match object.get("id") {
        Some(id) => match id.as_u64() {
            Some(id) => id,
            None => {
                return None;
            },
        },
        None => {
            return None;
        },
    };
    match object.get(field) {
        Some(machine) => match machine.get("id") {
            Some(id) => match id.as_u64() {
                Some(id) => Some(AssignedRef { kind, id, interface_id }),
                None => None,
            },
            None => None,
        },
        None => None,
    }
}

impl NetboxIp {
    /// An address object reduced to what is read of it.
    pub fn from_result(result: IpResult) -> (r: NetboxIp)
        ensures
            r.dns_name == result.dns_name,
            r.custom_fields == result.custom_fields,
            r.role == result.role,
            r.assigned == assignment(
                match result.assigned_object_type {
                    Some(t) => Some(t@),
                    None => None,
                },
                result.assigned_object,
            ),
    {
        let typ = match &result.assigned_object_type {
            Some(t) => Some(t.as_str()),
            None => None,
        };
        let object = match &result.assigned_object {
            Some(o) => Some(o),
            None => None,
        };
        let assigned = assigned_ref(typ, object);
        NetboxIp {
            dns_name: result.dns_name,
            custom_fields: result.custom_fields,
            assigned,
            role: result.role,
        }
    }
}

/// The group ids of those assignments that name a group.
pub open spec fn named_groups(groups: Seq<Option<u64>>) -> Seq<u64>
    decreases groups.len(),
{
    if groups.len() == 0 {
        Seq::empty()
    } else {
        match groups.last() {
            Some(id) => named_groups(groups.drop_last()).push(id),
            None => named_groups(groups.drop_last()),
        }
    }
}

/// The group ids of those assignments that name a group.
pub fn group_ids(groups: &Vec<Option<u64>>) -> (r: Vec<u64>)
    ensures
        r@ == named_groups(groups@),
{
    let mut out: Vec<u64> = Vec::new();
    let mut i: usize = 0;
    assert(groups@.take(0) == Seq::<Option<u64>>::empty());
    while i < groups.len()
        invariant
            i <= groups@.len(),
            out@ == named_groups(groups@.take(i as int)),
        decreases groups@.len() - i,
    {
        assert(groups@.take(i as int + 1).drop_last() == groups@.take(i as int));
        if let Some(id) = groups[i] {
            out.push(id);
        }
        i += 1;
    }
    assert(groups@.take(i as int) == groups@);
    out
}

/// The complaint about a list response of the wrong shape.
pub fn unexpected(what: &str, error: &str) -> (r: String)
    ensures
        r@ == "unexpected "@ + what@ + " response: "@ + error@,
{
    cat4("unexpected ", what, " response: ", error)
}

/// The complaint about a detail response of the wrong shape.
pub fn unexpected_detail(path: &str, error: &str) -> (r: String)
    ensures
        r@ == "unexpected response for "@ + path@ + ": "@ + error@,
{
    cat4("unexpected response for ", path, ": ", error)
}

/// Where the objects of one address are listed.
pub fn ip_addresses_path(ip: &str) -> (r: String)
    ensures
        r@ == "/api/ipam/ip-addresses/?"@ + with_pair(Seq::empty(), "address"@, ip@),
{
    cat2("/api/ipam/ip-addresses/?", append_pair(String::new(), "address", ip).as_str())
}

/// Where one device or virtual machine is described.
pub fn object_path(reference: &AssignedRef) -> (r: String)
    ensures
        r@ == (match reference.kind {
            AssignedKind::Device => "/api/dcim/devices/"@,
            AssignedKind::VirtualMachine => "/api/virtualization/virtual-machines/"@,
        }) + decimal(reference.id as nat) + "/"@,
{
    let id = number(reference.id as u128);
    match reference.kind {
        AssignedKind::Device => cat3("/api/dcim/devices/", id.as_str(), "/"),
        AssignedKind::VirtualMachine => cat3(
            "/api/virtualization/virtual-machines/",
            id.as_str(),
            "/",
        ),
    }
}

/// A query with one pair per value, all under one name.
pub open spec fn with_each(query: Seq<char>, name: Seq<char>, values: Seq<Seq<char>>) -> Seq<char>
    decreases values.len(),
{
    if values.len() == 0 {
        query
    } else {
        with_pair(with_each(query, name, values.drop_last()), name, values.last())
    }
}

/// Where the addresses of the same machine with one of `roles` are listed. The
/// role is repeated, once per choice.
pub fn shared_addresses_path(reference: &AssignedRef, roles: &Vec<String>) -> (r: String)
    ensures
        r@ == "/api/ipam/ip-addresses/?"@ + with_each(
            with_pair(
                Seq::empty(),
                reference.kind.owner_label(),
                decimal(reference.id as nat),
            ),
            "role"@,
            texts(roles@),
        ),
{
    let mut query = append_pair(
        String::new(),
        reference.kind.owner_filter(),
        number(reference.id as u128).as_str(),
    );
    let ghost start = query@;
    let ghost all = texts(roles@);
    let mut i: usize = 0;
    assert(all.take(0) == Seq::<Seq<char>>::empty());
    while i < roles.len()
        invariant
            i <= roles@.len(),
            all == texts(roles@),
            query@ == with_each(start, "role"@, all.take(i as int)),
        decreases roles@.len() - i,
    {
        assert(all.take(i as int + 1).drop_last() == all.take(i as int));
        assert(all.take(i as int + 1).last() == roles@[i as int]@);
        query = append_pair(query, "role", roles[i].as_str());
        i += 1;
    }
    assert(all.take(i as int) == all);
    cat2("/api/ipam/ip-addresses/?", query.as_str())
}

/// Where the FHRP groups of the client's own interface are listed.
pub fn fhrp_groups_path(reference: &AssignedRef) -> (r: String)
    ensures
        r@ == "/api/ipam/fhrp-group-assignments/?"@ + with_pair(
            with_pair(Seq::empty(), "interface_type"@, reference.kind.interface_label()),
            "interface_id"@,
            decimal(reference.interface_id as nat),
        ),
{
    let query = append_pair(String::new(), "interface_type", reference.kind.interface_type());
    let query = append_pair(
        query,
        "interface_id",
        number(reference.interface_id as u128).as_str(),
    );
    cat2("/api/ipam/fhrp-group-assignments/?", query.as_str())
}

/// Numbers in decimal.
pub open spec fn decimals(ids: Seq<u64>) -> Seq<Seq<char>> {
    ids.map_values(|id: u64| decimal(id as nat))
}

/// Where the addresses of the given groups are listed, all in one query.
pub fn fhrp_group_addresses_path(ids: &Vec<u64>) -> (r: String)
    ensures
        r@ == "/api/ipam/ip-addresses/?"@ + with_each(
            Seq::empty(),
            "fhrpgroup_id"@,
            decimals(ids@),
        ),
{
    let mut query = String::new();
    let ghost all = decimals(ids@);
    let mut i: usize = 0;
    assert(all.take(0) == Seq::<Seq<char>>::empty());
    while i < ids.len()
        invariant
            i <= ids@.len(),
            all == decimals(ids@),
            query@ == with_each(Seq::empty(), "fhrpgroup_id"@, all.take(i as int)),
        decreases ids@.len() - i,
    {
        assert(all.take(i as int + 1).drop_last() == all.take(i as int));
        assert(all.take(i as int + 1).last() == decimal(ids@[i as int] as nat));
        query = append_pair(query, "fhrpgroup_id", number(ids[i] as u128).as_str());
        i += 1;
    }
    assert(all.take(i as int) == all);
    cat2("/api/ipam/ip-addresses/?", query.as_str())
}

/// A client can be made of a section exactly when it names a URL and a token.
pub proof fn a_usable_section_is_accepted(cfg: NetboxConfig)
    ensures
        netbox_config_error(cfg) is None <==> trimmed(cfg.url@).len() > 0 && trimmed(
            cfg.token@,
        ).len() > 0,
{
}

/// An address is on a machine exactly when the object it is assigned to is an
/// interface of a device or of a virtual machine, and both the interface and the
/// machine have an id that is a whole number.
pub proof fn an_assignment_names_interface_and_machine(typ: Seq<char>, object: Json)
    ensures
        assignment(None, Some(object)) is None,
        assignment(Some(typ), None) is None,
        typ != "dcim.interface"@ && typ != "virtualization.vminterface"@ ==> assignment(
            Some(typ),
            Some(object),
        ) is None,
        assignment(Some("dcim.interface"@), Some(object)) is Some <==> names_machine(
            object,
            "device"@,
        ),
        assignment(Some("dcim.interface"@), Some(object)) matches Some(at) ==> at.kind
            == AssignedKind::Device && object.member("id"@)->Some_0.whole() == Some(
            at.interface_id,
        ) && object.member("device"@)->Some_0.member("id"@)->Some_0.whole() == Some(at.id),
        assignment(Some("virtualization.vminterface"@), Some(object)) is Some <==> names_machine(
            object,
            "virtual_machine"@,
        ),
        assignment(Some("virtualization.vminterface"@), Some(object)) matches Some(at) ==> at.kind
            == AssignedKind::VirtualMachine && object.member("id"@)->Some_0.whole() == Some(
            at.interface_id,
        ) && object.member("virtual_machine"@)->Some_0.member("id"@)->Some_0.whole() == Some(at.id),
{
    reveal_strlit("dcim.interface");
    reveal_strlit("virtualization.vminterface");
    assert("dcim.interface"@.len() == 14 && "virtualization.vminterface"@.len() == 26);
}

/// Whether an object has an id, and a member of the name that has one too.
pub open spec fn names_machine(object: Json, member: Seq<char>) -> bool {
    &&& object.member("id"@) is Some && object.member("id"@)->Some_0.whole() is Some
    &&& object.member(member) is Some && object.member(member)->Some_0.member("id"@) is Some
        && object.member(member)->Some_0.member("id"@)->Some_0.whole() is Some
}

/// The groups of a list are those that are named, in order.
pub proof fn groups_are_those_that_are_named(a: Seq<Option<u64>>, b: Seq<Option<u64>>, id: u64)
    ensures
        named_groups(Seq::empty()).len() == 0,
        named_groups(seq![Some(id)]) == seq![id],
        named_groups(seq![None::<u64>]).len() == 0,
        named_groups(a + b) == named_groups(a) + named_groups(b),
    decreases b.len(),
{
    assert(seq![Some(id)].drop_last() =~= Seq::<Option<u64>>::empty());
    assert(seq![None::<u64>].drop_last() =~= Seq::<Option<u64>>::empty());
    assert(named_groups(Seq::empty()) =~= Seq::<u64>::empty());
    assert(named_groups(seq![Some(id)]) =~= seq![id]);
    if b.len() == 0 {
        assert(a + b =~= a);
        assert(named_groups(a) + named_groups(b) =~= named_groups(a));
    } else {
        let front = b.drop_last();
        groups_are_those_that_are_named(a, front, id);
        assert((a + b).drop_last() =~= a + front);
        assert((a + b).last() == b.last());
        match b.last() {
            Some(g) => {
                assert((named_groups(a) + named_groups(front)).push(g) =~= named_groups(a)
                    + named_groups(front).push(g));
            },
            None => {},
        }
    }
}

/// A query names each value of a list once, in order, under the same name, with an
/// ampersand before each but the first.
pub proof fn a_query_names_each_value(
    query: Seq<char>,
    name: Seq<char>,
    values: Seq<Seq<char>>,
    value: Seq<char>,
)
    ensures
        with_each(query, name, Seq::empty()) == query,
        with_each(query, name, values.push(value)) == with_pair(
            with_each(query, name, values),
            name,
            value,
        ),
        query.len() == 0 ==> with_pair(query, name, value) == form_text(name) + seq!['=']
            + form_text(value),
        query.len() > 0 ==> with_pair(query, name, value) == query + seq!['&'] + form_text(name)
            + seq!['='] + form_text(value),
{
    assert(values.push(value).drop_last() =~= values);
    if query.len() == 0 {
        assert(with_pair(query, name, value) =~= form_text(name) + seq!['='] + form_text(value));
    } else {
        assert(query.push('&') =~= query + seq!['&']);
    }
}

/// Ids are written in decimal, one for one.
pub proof fn ids_are_written_one_for_one(ids: Seq<u64>)
    ensures
        decimals(ids).len() == ids.len(),
        forall|i: int| 0 <= i < ids.len() ==> #[trigger] decimals(ids)[i] == decimal(ids[i] as nat),
{
}

/// A section without a URL, or else without a token, is told so.
pub proof fn an_unusable_section_is_told_why(cfg: NetboxConfig)
    ensures
        trimmed(cfg.url@).len() == 0 ==> netbox_config_error(cfg) == Some(
            "ipam.backend is `netbox` but ipam.netbox.url is empty; give the base URL of the NetBox instance"@,
        ),
        trimmed(cfg.url@).len() > 0 && trimmed(cfg.token@).len() == 0 ==> netbox_config_error(cfg)
            == Some(
            "ipam.backend is `netbox` but ipam.netbox.token is empty; supply a NetBox API token, preferably through ACME_PROXY_IPAM__NETBOX__TOKEN"@,
        ),
{
}

/// In form encoding letters, digits, `*`, `-`, `.` and `_` stand for themselves, a space is
/// `+`, and any other byte is `%` and its two hexadecimal digits; a text is encoded byte by
/// byte, in order.
pub proof fn a_byte_is_encoded_by_what_it_is(bytes: Seq<u8>, b: u8)
    ensures
        b == 42 || b == 45 || b == 46 || b == 95 || 48 <= b <= 57 || 65 <= b <= 90 || 97 <= b <= 122
            ==> form_byte(b) == seq![b as char],
        form_byte(32) == seq!['+'],
        b < 42 && b != 32 || b == 43 || b == 44 || b == 47 || 58 <= b <= 64 || 91 <= b <= 94 || b
            == 96 || b >= 123 ==> form_byte(b) == seq![
            '%',
            hex_digit(b as int / 16),
            hex_digit(b as int % 16),
        ],
        form_bytes(Seq::empty()).len() == 0,
        form_bytes(bytes.push(b)) == form_bytes(bytes) + form_byte(b),
        hex_digit(0) == '0' && hex_digit(1) == '1' && hex_digit(2) == '2' && hex_digit(3) == '3',
        hex_digit(4) == '4' && hex_digit(5) == '5' && hex_digit(6) == '6' && hex_digit(7) == '7',
        hex_digit(8) == '8' && hex_digit(9) == '9' && hex_digit(10) == 'A' && hex_digit(11) == 'B',
        hex_digit(12) == 'C' && hex_digit(13) == 'D' && hex_digit(14) == 'E' && hex_digit(15)
            == 'F',
{
    assert(bytes.push(b).drop_last() =~= bytes);
}

} // verus!
