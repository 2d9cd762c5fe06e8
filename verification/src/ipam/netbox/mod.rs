//! The `netbox` IPAM backend: what NetBox associates with an address.
//!
//! One lookup always happens: the address objects of the client's address.
//! What it returns permits names two ways, by the object's own `dns_name` and
//! by a custom field on it. Three more lookups are conditional on sources:
//!
//! - `device`: the custom field of the machine the address is assigned to. A
//!   fallback, read only when no address object carried a value.
//! - `vip`: the role-tagged service addresses of the same machine. A union.
//! - `fhrp`: the addresses of the groups that the client's own interface is
//!   recorded as a member of. A union.
//!
//! A group is only ever reached through an assignment naming the client's own
//! interface. Nothing is looked up by group name, by service address or by the
//! name that the client asked for.

pub mod client;

use crate::debug::{list, list_of, quoted, quoted_words};
use crate::ipam::{
    sources_of,
    field_entries, field_values, insert_name, insert_names, names_from, names_from_are_normal, names_from_both, normalized,
    parse_sources, source_list, with_names, with_names_is_union, AddressNames, Ipam, IpamError, Source,
    Sources,
};
use crate::json::Json;
use crate::sorted::StringSet;
use crate::text::{cat4, decimal, list_contains, number, texts, trim, trimmed};
use client::NetboxClient;
use vstd::prelude::*;
use vstd::string::*;

verus! {

/// The `[ipam.netbox]` section.
#[derive(Debug, Clone, PartialEq, Eq)]
pub struct NetboxConfig {
    pub url: String,
    pub token: String,
    pub ca_cert_path: String,
    pub insecure_skip_verify: bool,
    pub custom_field: String,
    pub sources: Vec<String>,
    pub vip_roles: Vec<String>,
}

impl NetboxConfig {
    /// Whether every setting is what it is where nothing is configured.
    pub open spec fn defaults(&self) -> bool {
        &&& self.url@.len() == 0
        &&& self.token@.len() == 0
        &&& self.ca_cert_path@.len() == 0
        &&& !self.insecure_skip_verify
        &&& self.custom_field@ == "acme_allowed_names"@
        &&& texts(self.sources@) == seq!["dns_name"@, "custom_field"@, "device"@]
        &&& texts(self.vip_roles@) == seq!["vip"@, "vrrp"@, "hsrp"@, "glbp"@, "carp"@]
    }
}

impl Default for NetboxConfig {
    fn default() -> (r: NetboxConfig)
        ensures
            r.defaults(),
    {
        let r = NetboxConfig {
            url: String::new(),
            token: String::new(),
            ca_cert_path: String::new(),
            insecure_skip_verify: false,
            custom_field: "acme_allowed_names".to_owned(),
            sources: vec!["dns_name".to_owned(), "custom_field".to_owned(), "device".to_owned()],
            vip_roles: vec![
                "vip".to_owned(),
                "vrrp".to_owned(),
                "hsrp".to_owned(),
                "glbp".to_owned(),
                "carp".to_owned(),
            ],
        };
        assert(texts(r.sources@) == seq!["dns_name"@, "custom_field"@, "device"@]);
        assert(texts(r.vip_roles@) == seq!["vip"@, "vrrp"@, "hsrp"@, "glbp"@, "carp"@]);
        r
    }
}

/// Which kind of NetBox object an address is assigned to.
#[derive(Debug, Clone, Copy, PartialEq, Eq, Structural)]
pub enum AssignedKind {
    Device,
    VirtualMachine,
}

impl AssignedKind {
    pub open spec fn owner_label(self) -> Seq<char> {
        match self {
            AssignedKind::Device => "device_id"@,
            AssignedKind::VirtualMachine => "virtual_machine_id"@,
        }
    }

    /// The filter naming this object on the addresses endpoint.
    pub fn owner_filter(self) -> (r: &'static str)
        ensures
            r@ == self.owner_label(),
    {
        match self {
            AssignedKind::Device => "device_id",
            AssignedKind::VirtualMachine => "virtual_machine_id",
        }
    }

    pub open spec fn interface_label(self) -> Seq<char> {
        match self {
            AssignedKind::Device => "dcim.interface"@,
            AssignedKind::VirtualMachine => "virtualization.vminterface"@,
        }
    }

    /// NetBox's content-type label for the interface an address hangs off.
    pub fn interface_type(self) -> (r: &'static str)
        ensures
            r@ == self.interface_label(),
    {
        match self {
            AssignedKind::Device => "dcim.interface",
            AssignedKind::VirtualMachine => "virtualization.vminterface",
        }
    }

    pub open spec fn word(self) -> Seq<char> {
        match self {
            AssignedKind::Device => "Device"@,
            AssignedKind::VirtualMachine => "VirtualMachine"@,
        }
    }

    /// The kind, as it reads in an error.
    pub fn describe(self) -> (r: &'static str)
        ensures
            r@ == self.word(),
    {
        match self {
            AssignedKind::Device => "Device",
            AssignedKind::VirtualMachine => "VirtualMachine",
        }
    }
}

/// The machine an address is assigned to, and the interface it hangs off.
#[derive(Debug, Clone, Copy, PartialEq, Eq, Structural)]
pub struct AssignedRef {
    pub kind: AssignedKind,
    /// The device or virtual machine.
    pub id: u64,
    /// The interface the address is configured on.
    pub interface_id: u64,
}

/// One NetBox address object, reduced to what this backend reads.
#[derive(Debug, Default, PartialEq, Eq)]
pub struct NetboxIp {
    /// Empty when unset.
    pub dns_name: String,
    pub custom_fields: Vec<(String, Json)>,
    /// The machine behind the assigned interface, when there is one.
    pub assigned: Option<AssignedRef>,
    /// The object's role; `None` for an ordinary address.
    pub role: Option<String>,
}

/// Which names to take from what NetBox answers.
#[derive(PartialEq, Eq)]
pub struct NetboxBackend<A> {
    /// How NetBox is reached.
    pub api: A,
    pub custom_field: String,
    pub sources: Sources,
    pub vip_roles: Vec<String>,
}

/// The sources a section selects, or why it selects none.
pub open spec fn netbox_policy(cfg: NetboxConfig) -> Result<Set<Source>, Seq<char>> {
    match source_list("NetBox"@, "ipam.netbox.sources"@, texts(cfg.sources@), Source::every()) {
        Err(e) => Err(e),
        Ok(found) => if (found.contains(Source::CustomField) || found.contains(Source::Device))
            && trimmed(cfg.custom_field@).len() == 0 {
            Err(
                "ipam.netbox.custom_field is empty while ipam.netbox.sources names `custom_field` or `device`; name the NetBox custom field holding the permitted names (default `acme_allowed_names`)"@,
            )
        } else if found.contains(Source::Vip) && cfg.vip_roles@.len() == 0 {
            Err(
                "ipam.netbox.vip_roles is empty while ipam.netbox.sources names `vip`; list the NetBox address roles that mark a service address (e.g. `vrrp`), or drop `vip` from ipam.netbox.sources"@,
            )
        } else {
            Ok(found)
        },
    }
}

/// The values an address object offers as names.
pub open spec fn object_values(
    sources: Set<Source>,
    custom_field: Seq<char>,
    object: NetboxIp,
) -> Seq<Seq<char>> {
    (if sources.contains(Source::DnsName) {
        seq![object.dns_name@]
    } else {
        Seq::empty()
    }) + (if sources.contains(Source::CustomField) {
        field_entries(object.custom_fields@, custom_field)
    } else {
        Seq::empty()
    })
}

/// Where a lookup stands: what is to be asked next, with the names so far, or
/// the outcome.
#[derive(Debug)]
pub enum NetboxLookup {
    /// The custom fields of this machine.
    Device { names: StringSet, at: AssignedRef },
    /// The addresses of this machine that carry a configured role.
    Shared { names: StringSet, at: AssignedRef },
    /// The groups that this interface is a member of.
    Groups { names: StringSet, at: AssignedRef },
    /// The addresses of these groups.
    GroupAddresses { names: StringSet, groups: Vec<u64> },
    Done(Result<AddressNames, IpamError>),
}

/// A lookup's standing, in terms of sets and sequences.
pub enum LookupModel {
    Device { names: Set<Seq<char>>, at: AssignedRef },
    Shared { names: Set<Seq<char>>, at: AssignedRef },
    Groups { names: Set<Seq<char>>, at: AssignedRef },
    GroupAddresses { names: Set<Seq<char>>, groups: Seq<u64> },
    Done(Result<Option<Set<Seq<char>>>, Seq<char>>),
}

impl View for NetboxLookup {
    type V = LookupModel;

    open spec fn view(&self) -> LookupModel {
        match self {
            NetboxLookup::Device { names, at } => LookupModel::Device { names: names@, at: *at },
            NetboxLookup::Shared { names, at } => LookupModel::Shared { names: names@, at: *at },
            NetboxLookup::Groups { names, at } => LookupModel::Groups { names: names@, at: *at },
            NetboxLookup::GroupAddresses { names, groups } => LookupModel::GroupAddresses {
                names: names@,
                groups: groups@,
            },
            NetboxLookup::Done(Ok(names)) => LookupModel::Done(Ok(names@)),
            NetboxLookup::Done(Err(e)) => LookupModel::Done(Err(e.0@)),
        }
    }
}

/// The machine of the first object that is assigned to one.
pub open spec fn first_assigned(objects: Seq<NetboxIp>) -> Option<AssignedRef>
    decreases objects.len(),
{
    if objects.len() == 0 {
        None
    } else {
        match first_assigned(objects.drop_last()) {
            Some(at) => Some(at),
            None => objects.last().assigned,
        }
    }
}

impl<A> NetboxBackend<A> {
    /// What may be shown of a backend: its policy.
    pub fn describe(&self) -> (r: String)
        ensures
            r@ == "NetboxBackend { custom_field: "@ + quoted_words(self.custom_field@)
                + ", sources: "@ + sources_of(self.sources@) + ", vip_roles: "@ + list_of(
                texts(self.vip_roles@),
            ) + ", .. }"@,
    {
        crate::text::cat7(
            "NetboxBackend { custom_field: ",
            quoted(self.custom_field.as_str()).as_str(),
            ", sources: ",
            self.sources.describe().as_str(),
            ", vip_roles: ",
            list(&self.vip_roles).as_str(),
            ", .. }",
        )
    }

    /// The names one address object gives.
    pub open spec fn object_names(&self, object: NetboxIp) -> Set<Seq<char>> {
        names_from(object_values(self.sources@, self.custom_field@, object))
    }

    /// Whether an object's custom field said anything.
    pub open spec fn speaks(&self, object: NetboxIp) -> bool {
        &&& self.sources@.contains(Source::CustomField)
        &&& field_entries(object.custom_fields@, self.custom_field@).len() > 0
    }

    /// Whether an object carries one of the configured roles.
    pub open spec fn has_role(&self, object: NetboxIp) -> bool {
        object.role matches Some(role) && texts(self.vip_roles@).contains(role@)
    }

    /// The names that a list of address objects gives: those of each of them,
    /// or of each that carries a configured role.
    pub open spec fn granted(&self, objects: Seq<NetboxIp>, by_role: bool) -> Set<Seq<char>> {
        Set::new(
            |n: Seq<char>|
                exists|i: int|
                    0 <= i < objects.len() && (by_role ==> self.has_role(#[trigger] objects[i]))
                        && self.object_names(objects[i]).contains(n),
        )
    }

    /// Whether any object's custom field said anything.
    pub open spec fn answered(&self, objects: Seq<NetboxIp>) -> bool {
        exists|i: int| 0 <= i < objects.len() && self.speaks(#[trigger] objects[i])
    }

    proof fn granted_one_more(&self, objects: Seq<NetboxIp>, by_role: bool, i: int)
        requires
            0 <= i < objects.len(),
        ensures
            self.granted(objects.take(i + 1), by_role) == if by_role && !self.has_role(objects[i]) {
                self.granted(objects.take(i), by_role)
            } else {
                self.granted(objects.take(i), by_role).union(self.object_names(objects[i]))
            },
    {
        let (a, b) = (objects.take(i), objects.take(i + 1));
        assert forall|n: Seq<char>|
            self.granted(b, by_role).contains(n) <==> (self.granted(a, by_role).contains(n) || ((
            by_role ==> self.has_role(objects[i])) && self.object_names(objects[i]).contains(n))) by {
            if self.granted(a, by_role).contains(n) {
                let k = choose|k: int|
                    0 <= k < a.len() && (by_role ==> self.has_role(#[trigger] a[k]))
                        && self.object_names(a[k]).contains(n);
                assert(b[k] == a[k]);
            }
            assert(b[i] == objects[i]);
            if self.granted(b, by_role).contains(n) {
                let k = choose|k: int|
                    0 <= k < b.len() && (by_role ==> self.has_role(#[trigger] b[k]))
                        && self.object_names(b[k]).contains(n);
                if k < i {
                    assert(a[k] == b[k]);
                }
            }
        }
        let want = if by_role && !self.has_role(objects[i]) {
            self.granted(a, by_role)
        } else {
            self.granted(a, by_role).union(self.object_names(objects[i]))
        };
        assert(self.granted(b, by_role) =~= want);
    }

    /// The policy of a section, over the given way to reach NetBox.
    pub fn with_api(cfg: &NetboxConfig, api: A) -> (r: Result<NetboxBackend<A>, String>)
        ensures
            match r {
                Ok(backend) => {
                    &&& netbox_policy(*cfg) == Ok::<Set<Source>, Seq<char>>(backend.sources@)
                    &&& backend.api == api
                    &&& backend.custom_field@ == cfg.custom_field@
                    &&& texts(backend.vip_roles@) == texts(cfg.vip_roles@)
                },
                Err(e) => netbox_policy(*cfg) == Err::<Set<Source>, Seq<char>>(e@),
            },
    {
        let sources = match parse_sources(
            "NetBox",
            "ipam.netbox.sources",
            &cfg.sources,
            &Source::all(),
        ) {
            Ok(sources) => sources,
            Err(e) => {
                return Err(e);
            },
        };
        if (sources.contains(&Source::CustomField) || sources.contains(&Source::Device)) && trim(
            cfg.custom_field.as_str(),
        ).as_str().is_empty() {
            return Err(
                "ipam.netbox.custom_field is empty while ipam.netbox.sources names `custom_field` or `device`; name the NetBox custom field holding the permitted names (default `acme_allowed_names`)".to_owned(),
            );
        }
        if sources.contains(&Source::Vip) && cfg.vip_roles.len() == 0 {
            return Err(
                "ipam.netbox.vip_roles is empty while ipam.netbox.sources names `vip`; list the NetBox address roles that mark a service address (e.g. `vrrp`), or drop `vip` from ipam.netbox.sources".to_owned(),
            );
        }
        Ok(
            NetboxBackend {
                api,
                custom_field: cfg.custom_field.clone(),
                sources,
                vip_roles: crate::text::copies(&cfg.vip_roles),
            },
        )
    }

    /// Adds one address object's own names, and reports whether its custom
    /// field said anything. A `dns_name` alone does not count as that.
    fn add_object_names(&self, names: &mut StringSet, object: &NetboxIp) -> (r: bool)
        ensures
            final(names)@ == old(names)@.union(self.object_names(*object)),
            r == self.speaks(*object),
    {
        let ghost start = names@;
        let ghost dns = if self.sources@.contains(Source::DnsName) {
            seq![object.dns_name@]
        } else {
            Seq::empty()
        };
        if self.sources.contains(&Source::DnsName) {
            insert_name(names, object.dns_name.as_str());
            proof {
                assert(dns.drop_last() == Seq::<Seq<char>>::empty());
                assert(with_names(start, dns.drop_last()) == start);
            }
        }
        proof {
            assert(names@ == with_names(start, dns));
            with_names_is_union(start, dns);
        }
        if !self.sources.contains(&Source::CustomField) {
            assert(dns + Seq::<Seq<char>>::empty() == dns);
            return false;
        }
        let values = field_values(&object.custom_fields, self.custom_field.as_str());
        insert_names(names, &values);
        proof {
            with_names_is_union(start.union(names_from(dns)), texts(values@));
            names_from_both(dns, texts(values@));
            assert(names@ =~= start.union(self.object_names(*object)));
            assert(texts(values@).len() == values@.len());
        }
        values.len() > 0
    }

    /// Adds the names of each object of a list, or of each that carries a
    /// configured role; reports whether any custom field said anything.
    fn add_objects(&self, names: &mut StringSet, objects: &Vec<NetboxIp>, by_role: bool) -> (r:
        bool)
        ensures
            final(names)@ == old(names)@.union(self.granted(objects@, by_role)),
            !by_role ==> r == self.answered(objects@),
    {
        let mut spoke = false;
        let mut i: usize = 0;
        let ghost start = names@;
        assert(start =~= start.union(self.granted(objects@.take(0), by_role)));
        while i < objects.len()
            invariant
                i <= objects@.len(),
                names@ == start.union(self.granted(objects@.take(i as int), by_role)),
                !by_role ==> spoke == self.answered(objects@.take(i as int)),
            decreases objects@.len() - i,
        {
            proof {
                self.granted_one_more(objects@, by_role, i as int);
                let (a, b) = (objects@.take(i as int), objects@.take(i as int + 1));
                assert(b[i as int] == objects@[i as int]);
                assert(self.answered(b) == (self.answered(a) || self.speaks(objects@[i as int])))
                    by {
                    if self.answered(a) {
                        let k = choose|k: int| 0 <= k < a.len() && self.speaks(#[trigger] a[k]);
                        assert(b[k] == a[k]);
                    }
                    if self.answered(b) {
                        let k = choose|k: int| 0 <= k < b.len() && self.speaks(#[trigger] b[k]);
                        if k < i {
                            assert(a[k] == b[k]);
                        }
                    }
                }
            }
            let object = &objects[i];
            // The role is checked here as well as in the query: a filter that
            // went wrong must never widen the list to the whole machine.
            let wanted = if by_role {
                match &object.role {
                    Some(role) => list_contains(&self.vip_roles, role.as_str()),
                    None => false,
                }
            } else {
                true
            };
            if wanted {
                let ghost held = names@;
                let said = self.add_object_names(names, object);
                spoke = spoke || said;
                assert(names@ =~= start.union(
                    self.granted(objects@.take(i as int), by_role).union(
                        self.object_names(*object),
                    ),
                ));
            }
            i += 1;
        }
        assert(objects@.take(i as int) == objects@);
        spoke
    }

    /// What follows the machine's own field: the service addresses, if asked
    /// for, and then the groups.
    pub open spec fn after_device(&self, names: Set<Seq<char>>, at: AssignedRef) -> LookupModel {
        if self.sources@.contains(Source::Vip) {
            LookupModel::Shared { names, at }
        } else {
            self.after_shared(names, at)
        }
    }

    /// What follows the service addresses: the groups, if asked for.
    pub open spec fn after_shared(&self, names: Set<Seq<char>>, at: AssignedRef) -> LookupModel {
        if self.sources@.contains(Source::Fhrp) {
            LookupModel::Groups { names, at }
        } else {
            LookupModel::Done(Ok(Some(names)))
        }
    }

    fn go_shared(&self, names: StringSet, at: AssignedRef) -> (r: NetboxLookup)
        ensures
            r@ == self.after_device(names@, at),
    {
        if self.sources.contains(&Source::Vip) {
            NetboxLookup::Shared { names, at }
        } else {
            self.go_groups(names, at)
        }
    }

    fn go_groups(&self, names: StringSet, at: AssignedRef) -> (r: NetboxLookup)
        ensures
            r@ == self.after_shared(names@, at),
    {
        if self.sources.contains(&Source::Fhrp) {
            NetboxLookup::Groups { names, at }
        } else {
            NetboxLookup::Done(Ok(AddressNames::Known(names)))
        }
    }

    /// What the answer about the address itself leads to.
    pub open spec fn on_addresses(
        &self,
        ip: Seq<char>,
        reply: Result<Vec<NetboxIp>, String>,
    ) -> LookupModel {
        match reply {
            Err(error) => LookupModel::Done(
                Err("NetBox lookup for "@ + ip + " failed: "@ + error@),
            ),
            Ok(objects) => if objects@.len() == 0 {
                LookupModel::Done(Ok(None))
            } else {
                let own = self.granted(objects@, false);
                match first_assigned(objects@) {
                    None => LookupModel::Done(Ok(Some(own))),
                    Some(at) => if self.sources@.contains(Source::Device) && !self.answered(
                        objects@,
                    ) {
                        LookupModel::Device { names: own, at }
                    } else {
                        self.after_device(own, at)
                    },
                }
            },
        }
    }

    /// Begins a lookup with the answer about the address itself.
    ///
    /// The machine is a fallback: it is asked only when the address did not
    /// speak for itself. With `custom_field` not among the sources nothing was
    /// read from the address, so the machine's list always applies.
    pub fn names_for(&self, client_ip: &str, reply: Result<Vec<NetboxIp>, String>) -> (r:
        NetboxLookup)
        ensures
            r@ == self.on_addresses(client_ip@, reply),
    {
        let objects = match reply {
            Ok(objects) => objects,
            Err(error) => {
                return NetboxLookup::Done(
                    Err(
                        IpamError(
                            cat4("NetBox lookup for ", client_ip, " failed: ", error.as_str()),
                        ),
                    ),
                );
            },
        };
        if objects.len() == 0 {
            return NetboxLookup::Done(Ok(AddressNames::Unknown));
        }
        let mut names = StringSet::new();
        let answered = self.add_objects(&mut names, &objects, false);
        assert(names@ =~= self.granted(objects@, false));
        let mut assigned: Option<AssignedRef> = None;
        let mut i: usize = 0;
        assert(objects@.take(0) == Seq::<NetboxIp>::empty());
        while i < objects.len()
            invariant
                i <= objects@.len(),
                assigned == first_assigned(objects@.take(i as int)),
            decreases objects@.len() - i,
        {
            assert(objects@.take(i as int + 1).drop_last() == objects@.take(i as int));
            if assigned.is_none() {
                assigned = objects[i].assigned;
            }
            i += 1;
        }
        assert(objects@.take(i as int) == objects@);
        match assigned {
            None => NetboxLookup::Done(Ok(AddressNames::Known(names))),
            Some(at) => {
                if self.sources.contains(&Source::Device) && !answered {
                    NetboxLookup::Device { names, at }
                } else {
                    self.go_shared(names, at)
                }
            },
        }
    }

    /// What the machine's answer leads to.
    pub open spec fn on_device(
        &self,
        ip: Seq<char>,
        names: Set<Seq<char>>,
        at: AssignedRef,
        reply: Result<Vec<(String, Json)>, String>,
    ) -> LookupModel {
        match reply {
            Err(error) => LookupModel::Done(
                Err(
                    "NetBox lookup of "@ + at.kind.word() + " "@ + decimal(at.id as nat) + " for "@
                        + ip + " failed: "@ + error@,
                ),
            ),
            Ok(fields) => self.after_device(
                names.union(names_from(field_entries(fields@, self.custom_field@))),
                at,
            ),
        }
    }

    /// Takes in the machine's custom field, when the address itself was silent.
    pub fn add_device_names(
        &self,
        client_ip: &str,
        names: StringSet,
        at: AssignedRef,
        reply: Result<Vec<(String, Json)>, String>,
    ) -> (r: NetboxLookup)
        ensures
            r@ == self.on_device(client_ip@, names@, at, reply),
    {
        match reply {
            Err(error) => NetboxLookup::Done(
                Err(
                    IpamError(
                        crate::text::cat8(
                            "NetBox lookup of ",
                            at.kind.describe(),
                            " ",
                            number(at.id as u128).as_str(),
                            " for ",
                            client_ip,
                            " failed: ",
                            error.as_str(),
                        ),
                    ),
                ),
            ),
            Ok(fields) => {
                let values = field_values(&fields, self.custom_field.as_str());
                let mut names = names;
                proof {
                    with_names_is_union(names@, texts(values@));
                }
                insert_names(&mut names, &values);
                self.go_shared(names, at)
            },
        }
    }

    /// What the answer about the service addresses leads to.
    pub open spec fn on_shared(
        &self,
        ip: Seq<char>,
        names: Set<Seq<char>>,
        at: AssignedRef,
        reply: Result<Vec<NetboxIp>, String>,
    ) -> LookupModel {
        match reply {
            Err(error) => LookupModel::Done(
                Err(
                    "NetBox lookup of service addresses on "@ + at.kind.word() + " "@ + decimal(
                        at.id as nat,
                    ) + " for "@ + ip + " failed: "@ + error@,
                ),
            ),
            Ok(objects) => self.after_shared(names.union(self.granted(objects@, true)), at),
        }
    }

    /// Takes in the role-tagged service addresses of the same machine.
    pub fn add_vip_names(
        &self,
        client_ip: &str,
        names: StringSet,
        at: AssignedRef,
        reply: Result<Vec<NetboxIp>, String>,
    ) -> (r: NetboxLookup)
        ensures
            r@ == self.on_shared(client_ip@, names@, at, reply),
    {
        match reply {
            Err(error) => NetboxLookup::Done(
                Err(
                    IpamError(
                        crate::text::cat8(
                            "NetBox lookup of service addresses on ",
                            at.kind.describe(),
                            " ",
                            number(at.id as u128).as_str(),
                            " for ",
                            client_ip,
                            " failed: ",
                            error.as_str(),
                        ),
                    ),
                ),
            ),
            Ok(objects) => {
                let mut names = names;
                self.add_objects(&mut names, &objects, true);
                self.go_groups(names, at)
            },
        }
    }

    /// What the answer about group membership leads to.
    pub open spec fn on_groups(
        &self,
        ip: Seq<char>,
        names: Set<Seq<char>>,
        at: AssignedRef,
        reply: Result<Vec<u64>, String>,
    ) -> LookupModel {
        match reply {
            Err(error) => LookupModel::Done(
                Err(
                    "NetBox lookup of FHRP group membership for interface "@ + decimal(
                        at.interface_id as nat,
                    ) + " ("@ + ip + ") failed: "@ + error@,
                ),
            ),
            Ok(groups) => if groups@.len() == 0 {
                LookupModel::Done(Ok(Some(names)))
            } else {
                LookupModel::GroupAddresses { names, groups: groups@ }
            },
        }
    }

    /// Takes in the groups the client's interface belongs to. An interface in
    /// no group ends the lookup without another query.
    pub fn add_fhrp_names(
        &self,
        client_ip: &str,
        names: StringSet,
        at: AssignedRef,
        reply: Result<Vec<u64>, String>,
    ) -> (r: NetboxLookup)
        ensures
            r@ == self.on_groups(client_ip@, names@, at, reply),
    {
        match reply {
            Err(error) => NetboxLookup::Done(
                Err(
                    IpamError(
                        crate::text::cat6(
                            "NetBox lookup of FHRP group membership for interface ",
                            number(at.interface_id as u128).as_str(),
                            " (",
                            client_ip,
                            ") failed: ",
                            error.as_str(),
                        ),
                    ),
                ),
            ),
            Ok(groups) => {
                if groups.len() == 0 {
                    NetboxLookup::Done(Ok(AddressNames::Known(names)))
                } else {
                    NetboxLookup::GroupAddresses { names, groups }
                }
            },
        }
    }

    /// What the answer about the groups' addresses leads to.
    pub open spec fn on_group_addresses(
        &self,
        ip: Seq<char>,
        names: Set<Seq<char>>,
        reply: Result<Vec<NetboxIp>, String>,
    ) -> LookupModel {
        match reply {
            Err(error) => LookupModel::Done(
                Err("NetBox lookup of FHRP group addresses for "@ + ip + " failed: "@ + error@),
            ),
            Ok(objects) => LookupModel::Done(Ok(Some(names.union(self.granted(objects@, false))))),
        }
    }

    /// Takes in the addresses of the groups, which ends the lookup.
    pub fn add_group_names(
        &self,
        client_ip: &str,
        names: StringSet,
        reply: Result<Vec<NetboxIp>, String>,
    ) -> (r: NetboxLookup)
        ensures
            r@ == self.on_group_addresses(client_ip@, names@, reply),
    {
        match reply {
            Err(error) => NetboxLookup::Done(
                Err(
                    IpamError(
                        cat4(
                            "NetBox lookup of FHRP group addresses for ",
                            client_ip,
                            " failed: ",
                            error.as_str(),
                        ),
                    ),
                ),
            ),
            Ok(objects) => {
                let mut names = names;
                self.add_objects(&mut names, &objects, false);
                NetboxLookup::Done(Ok(AddressNames::Known(names)))
            },
        }
    }
}

impl NetboxBackend<NetboxClient> {
    /// The client of a section and its policy. Nothing is contacted: a NetBox
    /// that is down at startup is an outage, not a configuration error.
    pub fn from_config(cfg: &NetboxConfig, trust: Result<crate::ipam::http::TlsTrust, String>) -> (r:
        Result<NetboxBackend<NetboxClient>, String>)
        ensures
            match (client::netbox_config_error(*cfg), trust) {
                (Some(e), _) => r matches Err(got) && got@ == e,
                (None, Err(e)) => r matches Err(got) && got@ == e@,
                (None, Ok(tls)) => match crate::ipam::http::base_url(
                    cfg.url@,
                    "ipam.netbox.url"@,
                ) {
                    Err(e) => r matches Err(got) && got@ == e,
                    Ok(base) => match netbox_policy(*cfg) {
                        Err(e) => r matches Err(got) && got@ == e,
                        Ok(sources) => r matches Ok(backend) && {
                            &&& backend.api.api.base@ == base
                            &&& backend.api.api.tls == tls
                            &&& backend.api.api.headers@.len() == 1
                            &&& backend.api.api.headers@[0].0@ == "authorization"@
                            &&& backend.api.api.headers@[0].1@ == "Token "@ + cfg.token@
                            &&& backend.sources@ == sources
                            &&& backend.custom_field@ == cfg.custom_field@
                            &&& texts(backend.vip_roles@) == texts(cfg.vip_roles@)
                        },
                    },
                },
            },
    {
        match NetboxClient::new(cfg, trust) {
            Ok(client) => NetboxBackend::with_api(cfg, client),
            Err(e) => Err(e),
        }
    }
}

/// Everything a NetBox would answer during one lookup.
pub struct NetboxAnswers {
    pub addresses: Result<Vec<NetboxIp>, String>,
    pub fields: spec_fn(AssignedRef) -> Result<Vec<(String, Json)>, String>,
    pub shared: spec_fn(AssignedRef) -> Result<Vec<NetboxIp>, String>,
    pub groups: spec_fn(AssignedRef) -> Result<Vec<u64>, String>,
    pub group_addresses: spec_fn(Seq<u64>) -> Result<Vec<NetboxIp>, String>,
}

impl<A> NetboxBackend<A> {
    /// One step of a lookup, answered by `world`.
    pub open spec fn step(&self, ip: Seq<char>, world: NetboxAnswers, m: LookupModel) -> LookupModel {
        match m {
            LookupModel::Device { names, at } => self.on_device(ip, names, at, (world.fields)(at)),
            LookupModel::Shared { names, at } => self.on_shared(ip, names, at, (world.shared)(at)),
            LookupModel::Groups { names, at } => self.on_groups(ip, names, at, (world.groups)(at)),
            LookupModel::GroupAddresses { names, groups } => self.on_group_addresses(
                ip,
                names,
                (world.group_addresses)(groups),
            ),
            LookupModel::Done(r) => m,
        }
    }

    /// A whole lookup, answered by `world`: the first answer and four steps.
    pub open spec fn run(&self, ip: Seq<char>, world: NetboxAnswers) -> LookupModel {
        let m = self.on_addresses(ip, world.addresses);
        self.step(
            ip,
            world,
            self.step(ip, world, self.step(ip, world, self.step(ip, world, m))),
        )
    }

    /// Whether a lookup asks for the machine's custom field.
    pub open spec fn asks_device(&self, objects: Seq<NetboxIp>) -> bool {
        self.sources@.contains(Source::Device) && !self.answered(objects)
    }

    /// The names that the answers of a lookup add up to for an address on the
    /// machine `at`: the address's own, those of the machine where it is asked,
    /// those of the service addresses, and those of the client's own groups.
    pub open spec fn all_names(&self, world: NetboxAnswers, at: AssignedRef) -> Set<Seq<char>> {
        let objects = world.addresses->Ok_0@;
        let own = self.granted(objects, false);
        let device = if self.asks_device(objects) {
            names_from(field_entries((world.fields)(at)->Ok_0@, self.custom_field@))
        } else {
            Set::empty()
        };
        let shared = if self.sources@.contains(Source::Vip) {
            self.granted((world.shared)(at)->Ok_0@, true)
        } else {
            Set::empty()
        };
        let groups = (world.groups)(at)->Ok_0@;
        let grouped = if self.sources@.contains(Source::Fhrp) && groups.len() > 0 {
            self.granted((world.group_addresses)(groups)->Ok_0@, false)
        } else {
            Set::empty()
        };
        own.union(device).union(shared).union(grouped)
    }

    /// Whether every question that a lookup asks about the machine `at` was
    /// answered.
    pub open spec fn machine_answered(&self, world: NetboxAnswers, at: AssignedRef) -> bool {
        &&& self.asks_device(world.addresses->Ok_0@) ==> (world.fields)(at) is Ok
        &&& self.sources@.contains(Source::Vip) ==> (world.shared)(at) is Ok
        &&& self.sources@.contains(Source::Fhrp) ==> {
            &&& (world.groups)(at) is Ok
            &&& (world.groups)(at)->Ok_0@.len() > 0 ==> (world.group_addresses)(
                (world.groups)(at)->Ok_0@,
            ) is Ok
        }
    }

    /// A lookup always ends, and ends exactly so: an address without objects is
    /// unknown; one on no machine has its own names; one on a machine has all
    /// the names that the answers add up to; and it fails precisely when a
    /// question it asks is not answered.
    pub proof fn lookup_outcome(&self, ip: Seq<char>, world: NetboxAnswers)
        ensures
            self.run(ip, world) is Done,
            match world.addresses {
                Err(_) => self.run(ip, world)->Done_0 is Err,
                Ok(objects) => if objects@.len() == 0 {
                    self.run(ip, world) == LookupModel::Done(Ok(None))
                } else {
                    match first_assigned(objects@) {
                        None => self.run(ip, world) == LookupModel::Done(
                            Ok(Some(self.granted(objects@, false))),
                        ),
                        Some(at) => if self.machine_answered(world, at) {
                            self.run(ip, world) == LookupModel::Done(
                                Ok(Some(self.all_names(world, at))),
                            )
                        } else {
                            self.run(ip, world)->Done_0 is Err
                        },
                    }
                },
            },
    {
        let empty = Set::<Seq<char>>::empty();
        assert forall|s: Set<Seq<char>>| #[trigger] s.union(empty) == s by {
            assert(s.union(empty) =~= s);
        }
    }

    /// A failing inventory never makes an address unknown: that is said only by
    /// an answer that lists no object for it.
    pub proof fn an_outage_is_not_an_unknown_address(&self, ip: Seq<char>, world: NetboxAnswers)
        ensures
            self.run(ip, world) == LookupModel::Done(Ok(None)) <==> (world.addresses matches Ok(
                objects,
            ) && objects@.len() == 0),
    {
        self.lookup_outcome(ip, world);
    }

    /// Every name that a lookup reports is in normal form.
    pub proof fn reported_names_are_normal(
        &self,
        ip: Seq<char>,
        world: NetboxAnswers,
        names: Set<Seq<char>>,
    )
        requires
            self.run(ip, world) == LookupModel::Done(Ok(Some(names))),
        ensures
            normalized(names),
    {
        self.lookup_outcome(ip, world);
        let objects = world.addresses->Ok_0@;
        self.granted_is_normal(objects, false);
        match first_assigned(objects) {
            None => {},
            Some(at) => {
                names_from_are_normal(
                    field_entries((world.fields)(at)->Ok_0@, self.custom_field@),
                );
                self.granted_is_normal((world.shared)(at)->Ok_0@, true);
                let groups = (world.groups)(at)->Ok_0@;
                self.granted_is_normal((world.group_addresses)(groups)->Ok_0@, false);
            },
        }
    }

    proof fn granted_is_normal(&self, objects: Seq<NetboxIp>, by_role: bool)
        ensures
            normalized(self.granted(objects, by_role)),
    {
        let all = self.granted(objects, by_role);
        assert forall|n: Seq<char>| #[trigger] all.contains(n) implies n.len() > 0 && exists|
            v: Seq<char>,
        | n == crate::ipam::normal(v) by {
            let i = choose|i: int|
                0 <= i < objects.len() && (by_role ==> self.has_role(#[trigger] objects[i]))
                    && self.object_names(objects[i]).contains(n);
            names_from_are_normal(object_values(self.sources@, self.custom_field@, objects[i]));
        }
    }

    /// The other sources only ever add to the address's own names.
    pub proof fn own_names_are_never_lost(
        &self,
        ip: Seq<char>,
        world: NetboxAnswers,
        names: Set<Seq<char>>,
    )
        requires
            self.run(ip, world) == LookupModel::Done(Ok(Some(names))),
        ensures
            world.addresses is Ok,
            self.granted(world.addresses->Ok_0@, false).subset_of(names),
    {
        self.lookup_outcome(ip, world);
    }

    /// The machine's list is a fallback: where an address object's custom field
    /// said anything, what the machine would answer makes no difference.
    pub proof fn a_field_on_the_address_shadows_the_machine(
        &self,
        ip: Seq<char>,
        world: NetboxAnswers,
        other: NetboxAnswers,
    )
        requires
            world.addresses matches Ok(objects) && self.answered(objects@),
            other == (NetboxAnswers { fields: other.fields, ..world }),
        ensures
            self.run(ip, world) == self.run(ip, other),
    {
    }

    /// Group addresses are asked for only with the group ids that the question
    /// about the client's own interface was answered with, and with at least
    /// one of them.
    pub proof fn groups_are_reached_by_membership_only(
        &self,
        ip: Seq<char>,
        world: NetboxAnswers,
        m: LookupModel,
    )
        requires
            m !is GroupAddresses,
            self.step(ip, world, m) is GroupAddresses,
        ensures
            m matches LookupModel::Groups { names, at } && {
                &&& (world.groups)(at) matches Ok(groups) && groups@ == self.step(
                    ip,
                    world,
                    m,
                )->groups
                &&& self.step(ip, world, m)->groups.len() > 0
            },
    {
    }
}

impl<A> Ipam for NetboxBackend<A> {
    open spec fn product(&self) -> Seq<char> {
        "NetBox"@
    }

    fn name(&self) -> (r: &'static str) {
        "NetBox"
    }
}

/// The names that a lookup has so far, or ended with.
pub open spec fn names_in(m: LookupModel) -> Set<Seq<char>> {
    match m {
        LookupModel::Device { names, at } => names,
        LookupModel::Shared { names, at } => names,
        LookupModel::Groups { names, at } => names,
        LookupModel::GroupAddresses { names, groups } => names,
        LookupModel::Done(Ok(Some(names))) => names,
        LookupModel::Done(_) => Set::empty(),
    }
}

/// Whether a value is the non-empty normal form of one of the entries of a field.
pub open spec fn entered(fields: Seq<(String, Json)>, field: Seq<char>, n: Seq<char>) -> bool {
    n.len() > 0 && exists|k: int|
        0 <= k < field_entries(fields, field).len() && n == crate::ipam::normal(
            #[trigger] field_entries(fields, field)[k],
        )
}

impl<A> NetboxBackend<A> {
    /// A name is granted by an address object exactly when it is the normal form of
    /// its `dns_name`, and that is a source, or of an entry of its custom field, and
    /// that is a source: each of the two counts whatever the other says.
    pub proof fn an_object_grants_by_each_of_its_sources(&self, object: NetboxIp, n: Seq<char>)
        ensures
            self.object_names(object).contains(n) <==> ({
                ||| self.sources@.contains(Source::DnsName) && n.len() > 0 && n
                    == crate::ipam::normal(object.dns_name@)
                ||| self.sources@.contains(Source::CustomField) && entered(
                    object.custom_fields@,
                    self.custom_field@,
                    n,
                )
            }),
    {
        let dns = if self.sources@.contains(Source::DnsName) {
            seq![object.dns_name@]
        } else {
            Seq::empty()
        };
        let own = if self.sources@.contains(Source::CustomField) {
            field_entries(object.custom_fields@, self.custom_field@)
        } else {
            Seq::empty()
        };
        let values = object_values(self.sources@, self.custom_field@, object);
        assert(values =~= dns + own);
        if n.len() > 0 && exists|i: int|
            0 <= i < values.len() && n == crate::ipam::normal(#[trigger] values[i]) {
            let i = choose|i: int|
                0 <= i < values.len() && n == crate::ipam::normal(#[trigger] values[i]);
            if i >= dns.len() {
                assert(values[i] == own[i - dns.len()]);
            } else {
                assert(values[i] == dns[i]);
            }
        }
        if self.sources@.contains(Source::DnsName) && n.len() > 0 && n == crate::ipam::normal(
            object.dns_name@,
        ) {
            assert(values[0] == object.dns_name@);
        }
        if self.sources@.contains(Source::CustomField) && entered(
            object.custom_fields@,
            self.custom_field@,
            n,
        ) {
            let k = choose|k: int| 0 <= k < own.len() && n == crate::ipam::normal(#[trigger] own[k]);
            assert(values[dns.len() + k] == own[k]);
        }
    }

    /// A list of address objects grants what each of them grants, and nothing else;
    /// where a role is asked for, only the objects that carry a configured one do.
    pub proof fn a_name_is_granted_by_its_sources(&self, objects: Seq<NetboxIp>, n: Seq<char>)
        ensures
            self.granted(objects, false).contains(n) <==> exists|i: int|
                0 <= i < objects.len() && ({
                    ||| self.sources@.contains(Source::DnsName) && n.len() > 0 && n
                        == crate::ipam::normal((#[trigger] objects[i]).dns_name@)
                    ||| self.sources@.contains(Source::CustomField) && entered(
                        objects[i].custom_fields@,
                        self.custom_field@,
                        n,
                    )
                }),
            self.granted(objects, true).contains(n) <==> exists|i: int|
                0 <= i < objects.len() && (#[trigger] objects[i]).role is Some && (exists|k: int|
                    0 <= k < self.vip_roles@.len() && (#[trigger] self.vip_roles@[k])@
                        == objects[i].role->Some_0@) && ({
                    ||| self.sources@.contains(Source::DnsName) && n.len() > 0 && n
                        == crate::ipam::normal(objects[i].dns_name@)
                    ||| self.sources@.contains(Source::CustomField) && entered(
                        objects[i].custom_fields@,
                        self.custom_field@,
                        n,
                    )
                }),
    {
        assert forall|i: int| 0 <= i < objects.len() implies (self.object_names(
            #[trigger] objects[i],
        ).contains(n) <==> ({
            ||| self.sources@.contains(Source::DnsName) && n.len() > 0 && n == crate::ipam::normal(
                objects[i].dns_name@,
            )
            ||| self.sources@.contains(Source::CustomField) && entered(
                objects[i].custom_fields@,
                self.custom_field@,
                n,
            )
        })) by {
            self.an_object_grants_by_each_of_its_sources(objects[i], n);
        }
        let roles = texts(self.vip_roles@);
        assert forall|i: int| 0 <= i < objects.len() implies (self.has_role(#[trigger] objects[i])
            <==> objects[i].role is Some && exists|k: int|
            0 <= k < self.vip_roles@.len() && (#[trigger] self.vip_roles@[k])@
                == objects[i].role->Some_0@) by {
            if self.has_role(objects[i]) {
                let k = choose|k: int| 0 <= k < roles.len() && roles[k] == objects[i].role->Some_0@;
                assert(self.vip_roles@[k]@ == roles[k]);
            }
            if objects[i].role is Some && exists|k: int|
                0 <= k < self.vip_roles@.len() && (#[trigger] self.vip_roles@[k])@
                    == objects[i].role->Some_0@ {
                let k = choose|k: int|
                    0 <= k < self.vip_roles@.len() && (#[trigger] self.vip_roles@[k])@
                        == objects[i].role->Some_0@;
                assert(roles[k] == objects[i].role->Some_0@);
            }
        }
        if self.granted(objects, false).contains(n) {
            let i = choose|i: int|
                0 <= i < objects.len() && (false ==> self.has_role(#[trigger] objects[i]))
                    && self.object_names(objects[i]).contains(n);
            assert(self.object_names(objects[i]).contains(n));
        }
        if self.granted(objects, true).contains(n) {
            let i = choose|i: int|
                0 <= i < objects.len() && (true ==> self.has_role(#[trigger] objects[i]))
                    && self.object_names(objects[i]).contains(n);
            assert(self.has_role(objects[i]) && self.object_names(objects[i]).contains(n));
        }
    }

    /// An address speaks for itself exactly when the custom field is a source and one
    /// of its objects has an entry there; a `dns_name` alone does not count.
    pub proof fn an_address_speaks_by_its_field(&self, objects: Seq<NetboxIp>)
        ensures
            self.answered(objects) <==> self.sources@.contains(Source::CustomField) && exists|
                i: int,
            |
                0 <= i < objects.len() && field_entries(
                    (#[trigger] objects[i]).custom_fields@,
                    self.custom_field@,
                ).len() > 0,
    {
        if self.answered(objects) {
            let i = choose|i: int| 0 <= i < objects.len() && self.speaks(#[trigger] objects[i]);
            assert(field_entries(objects[i].custom_fields@, self.custom_field@).len() > 0);
        }
        if self.sources@.contains(Source::CustomField) && exists|i: int|
            0 <= i < objects.len() && field_entries(
                (#[trigger] objects[i]).custom_fields@,
                self.custom_field@,
            ).len() > 0 {
            let i = choose|i: int|
                0 <= i < objects.len() && field_entries(
                    (#[trigger] objects[i]).custom_fields@,
                    self.custom_field@,
                ).len() > 0;
            assert(self.speaks(objects[i]));
        }
    }

    /// What is asked after the address itself. Nothing more is asked of an address
    /// on no machine. Of one on a machine, its custom field is asked exactly when the
    /// machine is a source and the address did not speak for itself; and then the
    /// service addresses, and then the groups, each exactly when it is a source.
    pub proof fn what_is_asked_next(
        &self,
        ip: Seq<char>,
        objects: Vec<NetboxIp>,
        error: String,
        names: Set<Seq<char>>,
        at: AssignedRef,
    )
        ensures
            self.on_addresses(ip, Err(error)) == LookupModel::Done(
                Err("NetBox lookup for "@ + ip + " failed: "@ + error@),
            ),
            objects@.len() == 0 ==> self.on_addresses(ip, Ok(objects)) == LookupModel::Done(
                Ok(None),
            ),
            objects@.len() > 0 ==> names_in(self.on_addresses(ip, Ok(objects))) == self.granted(
                objects@,
                false,
            ),
            objects@.len() > 0 && (forall|i: int|
                0 <= i < objects@.len() ==> (#[trigger] objects@[i]).assigned is None)
                ==> self.on_addresses(ip, Ok(objects)) == LookupModel::Done(
                Ok(Some(self.granted(objects@, false))),
            ),
            self.on_addresses(ip, Ok(objects)) is Device <==> self.sources@.contains(Source::Device)
                && !self.answered(objects@) && exists|i: int|
                0 <= i < objects@.len() && (#[trigger] objects@[i]).assigned is Some,
            self.on_addresses(ip, Ok(objects)) is Shared <==> !(self.sources@.contains(
                Source::Device,
            ) && !self.answered(objects@)) && self.sources@.contains(Source::Vip) && exists|
                i: int,
            | 0 <= i < objects@.len() && (#[trigger] objects@[i]).assigned is Some,
            self.on_addresses(ip, Ok(objects)) is Groups <==> !(self.sources@.contains(
                Source::Device,
            ) && !self.answered(objects@)) && !self.sources@.contains(Source::Vip)
                && self.sources@.contains(Source::Fhrp) && exists|i: int|
                0 <= i < objects@.len() && (#[trigger] objects@[i]).assigned is Some,
            self.sources@.contains(Source::Vip) ==> self.after_device(names, at)
                == (LookupModel::Shared { names, at }),
            !self.sources@.contains(Source::Vip) && self.sources@.contains(Source::Fhrp)
                ==> self.after_device(names, at) == (LookupModel::Groups { names, at }),
            !self.sources@.contains(Source::Vip) && !self.sources@.contains(Source::Fhrp)
                ==> self.after_device(names, at) == LookupModel::Done(Ok(Some(names))),
            self.sources@.contains(Source::Fhrp) ==> self.after_shared(names, at)
                == (LookupModel::Groups { names, at }),
            !self.sources@.contains(Source::Fhrp) ==> self.after_shared(names, at)
                == LookupModel::Done(Ok(Some(names))),
    {
        the_first_assignment_decides(objects@);
        if forall|i: int| 0 <= i < objects@.len() ==> (#[trigger] objects@[i]).assigned is None {
        }
    }

    /// The machine that is asked about is that of the first object assigned to one.
    pub proof fn the_machine_is_the_first_one_assigned(
        &self,
        ip: Seq<char>,
        objects: Vec<NetboxIp>,
        i: int,
    )
        requires
            0 <= i < objects@.len(),
            objects@[i].assigned is Some,
            forall|j: int| 0 <= j < i ==> (#[trigger] objects@[j]).assigned is None,
        ensures
            self.on_addresses(ip, Ok(objects)) matches LookupModel::Device { names, at } ==> at
                == objects@[i].assigned->Some_0,
            self.on_addresses(ip, Ok(objects)) matches LookupModel::Shared { names, at } ==> at
                == objects@[i].assigned->Some_0,
            self.on_addresses(ip, Ok(objects)) matches LookupModel::Groups { names, at } ==> at
                == objects@[i].assigned->Some_0,
    {
        the_first_assignment_decides(objects@);
    }

    /// The machine's own field adds the non-empty normal forms of its entries to the
    /// names so far, and nothing else; a failure ends the lookup.
    pub proof fn a_machine_adds_its_entries(
        &self,
        ip: Seq<char>,
        names: Set<Seq<char>>,
        at: AssignedRef,
        fields: Vec<(String, Json)>,
        error: String,
        n: Seq<char>,
    )
        ensures
            names_in(self.on_device(ip, names, at, Ok(fields))).contains(n) <==> names.contains(n)
                || entered(fields@, self.custom_field@, n),
            self.on_device(ip, names, at, Ok(fields)) is Shared <==> self.sources@.contains(
                Source::Vip,
            ),
            self.on_device(ip, names, at, Ok(fields)) is Groups <==> !self.sources@.contains(
                Source::Vip,
            ) && self.sources@.contains(Source::Fhrp),
            self.on_device(ip, names, at, Ok(fields)) is Done <==> !self.sources@.contains(
                Source::Vip,
            ) && !self.sources@.contains(Source::Fhrp),
            self.on_device(ip, names, at, Ok(fields)) matches LookupModel::Shared { names: m, at: b }
                ==> b == at,
            self.on_device(ip, names, at, Ok(fields)) matches LookupModel::Groups { names: m, at: b }
                ==> b == at,
            self.on_device(ip, names, at, Err(error)) == LookupModel::Done(
                Err(
                    "NetBox lookup of "@ + at.kind.word() + " "@ + decimal(at.id as nat) + " for "@
                        + ip + " failed: "@ + error@,
                ),
            ),
    {
    }

    /// The service addresses add the names of those that carry a configured role, and
    /// the groups are next where they are a source; a failure ends the lookup.
    pub proof fn service_addresses_add_by_role(
        &self,
        ip: Seq<char>,
        names: Set<Seq<char>>,
        at: AssignedRef,
        objects: Vec<NetboxIp>,
        error: String,
        n: Seq<char>,
    )
        ensures
            names_in(self.on_shared(ip, names, at, Ok(objects))).contains(n) <==> names.contains(n)
                || self.granted(objects@, true).contains(n),
            self.on_shared(ip, names, at, Ok(objects)) is Groups <==> self.sources@.contains(
                Source::Fhrp,
            ),
            self.on_shared(ip, names, at, Ok(objects)) is Done <==> !self.sources@.contains(
                Source::Fhrp,
            ),
            self.on_shared(ip, names, at, Ok(objects)) matches LookupModel::Groups {
                names: m,
                at: b,
            } ==> b == at,
            self.on_shared(ip, names, at, Err(error)) == LookupModel::Done(
                Err(
                    "NetBox lookup of service addresses on "@ + at.kind.word() + " "@ + decimal(
                        at.id as nat,
                    ) + " for "@ + ip + " failed: "@ + error@,
                ),
            ),
    {
    }

    /// The groups' addresses are asked for by the ids of all the groups there are; an
    /// interface in none keeps the names so far. Those addresses then add their names,
    /// whatever role they carry, and the lookup ends.
    pub proof fn groups_add_their_addresses(
        &self,
        ip: Seq<char>,
        names: Set<Seq<char>>,
        at: AssignedRef,
        groups: Vec<u64>,
        objects: Vec<NetboxIp>,
        error: String,
        n: Seq<char>,
    )
        ensures
            groups@.len() > 0 ==> self.on_groups(ip, names, at, Ok(groups))
                == (LookupModel::GroupAddresses { names, groups: groups@ }),
            groups@.len() == 0 ==> self.on_groups(ip, names, at, Ok(groups)) == LookupModel::Done(
                Ok(Some(names)),
            ),
            self.on_groups(ip, names, at, Err(error)) == LookupModel::Done(
                Err(
                    "NetBox lookup of FHRP group membership for interface "@ + decimal(
                        at.interface_id as nat,
                    ) + " ("@ + ip + ") failed: "@ + error@,
                ),
            ),
            self.on_group_addresses(ip, names, Ok(objects)) is Done,
            names_in(self.on_group_addresses(ip, names, Ok(objects))).contains(n)
                <==> names.contains(n) || self.granted(objects@, false).contains(n),
            self.on_group_addresses(ip, names, Ok(objects))->Done_0 is Ok
                && self.on_group_addresses(ip, names, Ok(objects))->Done_0->Ok_0 is Some,
            self.on_group_addresses(ip, names, Err(error)) == LookupModel::Done(
                Err("NetBox lookup of FHRP group addresses for "@ + ip + " failed: "@ + error@),
            ),
    {
    }
}

/// The machine of a list of objects is that of the first assigned to one; none where
/// none is.
pub proof fn the_first_assignment_decides(objects: Seq<NetboxIp>)
    ensures
        first_assigned(objects) is None <==> forall|i: int|
            0 <= i < objects.len() ==> (#[trigger] objects[i]).assigned is None,
        forall|i: int|
            0 <= i < objects.len() && (#[trigger] objects[i]).assigned is Some && (forall|j: int|
                0 <= j < i ==> (#[trigger] objects[j]).assigned is None) ==> first_assigned(objects)
                == objects[i].assigned,
    decreases objects.len(),
{
    if objects.len() > 0 {
        let front = objects.drop_last();
        let n = objects.len() - 1;
        the_first_assignment_decides(front);
        assert(objects[n] == objects.last());
        assert forall|i: int| 0 <= i < front.len() implies front[i] == objects[i] by {}
        if first_assigned(objects) is None {
            assert forall|i: int| 0 <= i < objects.len() implies (
            #[trigger] objects[i]).assigned is None by {
                if i < n {
                    assert(front[i].assigned is None);
                }
            }
        }
        if forall|i: int| 0 <= i < objects.len() ==> (#[trigger] objects[i]).assigned is None {
            assert forall|i: int| 0 <= i < front.len() implies (
            #[trigger] front[i]).assigned is None by {
                assert(objects[i].assigned is None);
            }
            assert(objects[n].assigned is None);
        }
        assert forall|i: int|
            0 <= i < objects.len() && (#[trigger] objects[i]).assigned is Some && (forall|j: int|
                0 <= j < i ==> (#[trigger] objects[j]).assigned is None) implies first_assigned(
            objects,
        ) == objects[i].assigned by {
            if i < n {
                assert(front[i].assigned is Some);
                assert forall|j: int| 0 <= j < i implies (#[trigger] front[j]).assigned is None by {
                    assert(objects[j].assigned is None);
                }
            } else {
                assert forall|j: int| 0 <= j < front.len() implies (
                #[trigger] front[j]).assigned is None by {
                    assert(objects[j].assigned is None);
                }
            }
        }
    }
}

/// A section is accepted exactly when its sources are, the custom field is named where
/// one of them reads it, and a role is named where service addresses are one.
pub proof fn a_usable_policy_is_accepted(cfg: NetboxConfig)
    ensures
        ({
            let found = source_list(
                "NetBox"@,
                "ipam.netbox.sources"@,
                texts(cfg.sources@),
                Source::every(),
            );
            &&& netbox_policy(cfg) is Ok <==> {
                &&& found is Ok
                &&& found->Ok_0.contains(Source::CustomField) || found->Ok_0.contains(
                    Source::Device,
                ) ==> trimmed(cfg.custom_field@).len() > 0
                &&& found->Ok_0.contains(Source::Vip) ==> cfg.vip_roles@.len() > 0
            }
            &&& netbox_policy(cfg) is Ok ==> netbox_policy(cfg) == found
            &&& found is Err ==> netbox_policy(cfg) == found
        }),
{
}

/// NetBox's own words for the two kinds of machine.
pub proof fn machines_are_named_in_netbox_words()
    ensures
        AssignedKind::Device.owner_label() == "device_id"@,
        AssignedKind::VirtualMachine.owner_label() == "virtual_machine_id"@,
        AssignedKind::Device.interface_label() == "dcim.interface"@,
        AssignedKind::VirtualMachine.interface_label() == "virtualization.vminterface"@,
        AssignedKind::Device.word() == "Device"@,
        AssignedKind::VirtualMachine.word() == "VirtualMachine"@,
{
}

/// The settings of a section that says nothing.
pub proof fn the_defaults_of_a_section(cfg: NetboxConfig)
    requires
        cfg.defaults(),
    ensures
        cfg.url@.len() == 0 && cfg.token@.len() == 0 && cfg.ca_cert_path@.len() == 0,
        !cfg.insecure_skip_verify,
        cfg.custom_field@ == "acme_allowed_names"@,
        cfg.sources@.len() == 3 && cfg.sources@[0]@ == "dns_name"@ && cfg.sources@[1]@
            == "custom_field"@ && cfg.sources@[2]@ == "device"@,
        cfg.vip_roles@.len() == 5 && cfg.vip_roles@[0]@ == "vip"@ && cfg.vip_roles@[1]@ == "vrrp"@
            && cfg.vip_roles@[2]@ == "hsrp"@ && cfg.vip_roles@[3]@ == "glbp"@
            && cfg.vip_roles@[4]@ == "carp"@,
{
    let (s, v) = (texts(cfg.sources@), texts(cfg.vip_roles@));
    assert(s.len() == 3 && v.len() == 5);
    assert(cfg.sources@.len() == s.len() && cfg.vip_roles@.len() == v.len());
    assert(s.len() == 3 && s[0] == cfg.sources@[0]@ && s[1] == cfg.sources@[1]@ && s[2]
        == cfg.sources@[2]@);
    assert(v.len() == 5 && v[0] == cfg.vip_roles@[0]@ && v[1] == cfg.vip_roles@[1]@ && v[2]
        == cfg.vip_roles@[2]@ && v[3] == cfg.vip_roles@[3]@ && v[4] == cfg.vip_roles@[4]@);
}

/// A section with sources that can be used and without what they need is told so: the
/// custom field first, and then the roles of service addresses.
pub proof fn an_unusable_policy_is_told_why(cfg: NetboxConfig, found: Set<Source>)
    requires
        source_list("NetBox"@, "ipam.netbox.sources"@, texts(cfg.sources@), Source::every())
            == Ok::<Set<Source>, Seq<char>>(found),
    ensures
        (found.contains(Source::CustomField) || found.contains(Source::Device)) && trimmed(
            cfg.custom_field@,
        ).len() == 0 ==> netbox_policy(cfg) == Err::<Set<Source>, Seq<char>>(
            "ipam.netbox.custom_field is empty while ipam.netbox.sources names `custom_field` or `device`; name the NetBox custom field holding the permitted names (default `acme_allowed_names`)"@,
        ),
        (trimmed(cfg.custom_field@).len() > 0 || !found.contains(Source::CustomField)
            && !found.contains(Source::Device)) && found.contains(Source::Vip)
            && cfg.vip_roles@.len() == 0 ==> netbox_policy(cfg) == Err::<Set<Source>, Seq<char>>(
            "ipam.netbox.vip_roles is empty while ipam.netbox.sources names `vip`; list the NetBox address roles that mark a service address (e.g. `vrrp`), or drop `vip` from ipam.netbox.sources"@,
        ),
{
}

/// The product is called NetBox.
pub proof fn the_product_is_netbox<A>(backend: NetboxBackend<A>)
    ensures
        backend.product() == "NetBox"@,
{
}

} // verus!
