//! The `phpipam` IPAM backend: what phpIPAM associates with an address.
//!
//! One lookup always happens, the search for the address. What it returns
//! permits names two ways, by the address's `hostname` and by a custom column
//! on it. One more is conditional: `device` reads the same column of the device
//! the address is assigned to, as a fallback.
//!
//! phpIPAM records no roles and no redundancy groups, so `vip` and `fhrp` are
//! refused by name. A custom column is plain text, so several names are written
//! with commas between them.

pub mod client;

use crate::debug::{quoted, quoted_words};
use crate::ipam::{
    sources_of,
    field_entries, field_values, insert_name, insert_names, names_from, names_from_are_normal, names_from_both, normalized,
    parse_sources, source_list, with_names, with_names_is_union, AddressNames, Ipam, IpamError, Source,
    Sources,
};
use crate::json::Json;
use crate::sorted::StringSet;
use crate::text::{cat4, cat6, decimal, number, pieces, split, texts, texts_push, trim, trimmed};
use client::PhpIpamClient;
use vstd::prelude::*;
use vstd::string::*;

verus! {

/// The `[ipam.phpipam]` section.
#[derive(Debug, Clone, PartialEq, Eq)]
pub struct PhpIpamConfig {
    pub url: String,
    pub token: String,
    pub app_id: String,
    pub ca_cert_path: String,
    pub insecure_skip_verify: bool,
    pub custom_field: String,
    pub sources: Vec<String>,
}

impl PhpIpamConfig {
    /// Whether every setting is what it is where nothing is configured.
    pub open spec fn defaults(&self) -> bool {
        &&& self.url@.len() == 0
        &&& self.token@.len() == 0
        &&& self.app_id@ == "acme"@
        &&& self.ca_cert_path@.len() == 0
        &&& !self.insecure_skip_verify
        &&& self.custom_field@ == "custom_acme_allowed_names"@
        &&& texts(self.sources@) == seq!["dns_name"@, "custom_field"@, "device"@]
    }
}

impl Default for PhpIpamConfig {
    fn default() -> (r: PhpIpamConfig)
        ensures
            r.defaults(),
    {
        let r = PhpIpamConfig {
            url: String::new(),
            token: String::new(),
            app_id: "acme".to_owned(),
            ca_cert_path: String::new(),
            insecure_skip_verify: false,
            custom_field: "custom_acme_allowed_names".to_owned(),
            sources: vec!["dns_name".to_owned(), "custom_field".to_owned(), "device".to_owned()],
        };
        assert(texts(r.sources@) == seq!["dns_name"@, "custom_field"@, "device"@]);
        r
    }
}

/// One phpIPAM address object, reduced to what this backend reads.
#[derive(Debug, Default, PartialEq, Eq)]
pub struct PhpIpamAddress {
    /// Empty when unset.
    pub hostname: String,
    /// Every other column, custom ones among them.
    pub fields: Vec<(String, Json)>,
    /// The device this address is assigned to, when there is one.
    pub device_id: Option<u64>,
}

/// Which names to take from what phpIPAM answers.
#[derive(PartialEq, Eq)]
pub struct PhpIpamBackend<A> {
    /// How phpIPAM is reached.
    pub api: A,
    pub custom_field: String,
    pub sources: Sources,
}

/// What phpIPAM can answer for.
pub open spec fn phpipam_sources() -> Seq<Source> {
    seq![Source::DnsName, Source::CustomField, Source::Device]
}

/// The sources a section selects, or why it selects none.
pub open spec fn phpipam_policy(cfg: PhpIpamConfig) -> Result<Set<Source>, Seq<char>> {
    match source_list("phpIPAM"@, "ipam.phpipam.sources"@, texts(cfg.sources@), phpipam_sources()) {
        Err(e) => Err(e),
        Ok(found) => if (found.contains(Source::CustomField) || found.contains(Source::Device))
            && trimmed(cfg.custom_field@).len() == 0 {
            Err(
                "ipam.phpipam.custom_field is empty while ipam.phpipam.sources names `custom_field` or `device`; name the phpIPAM column holding the permitted names (default `custom_acme_allowed_names`)"@,
            )
        } else {
            Ok(found)
        },
    }
}

/// The parts that are not blank, without white space around them.
pub open spec fn not_blank(parts: Seq<Seq<char>>) -> Seq<Seq<char>>
    decreases parts.len(),
{
    if parts.len() == 0 {
        Seq::empty()
    } else if trimmed(parts.last()).len() == 0 {
        not_blank(parts.drop_last())
    } else {
        not_blank(parts.drop_last()).push(trimmed(parts.last()))
    }
}

/// The entries of several comma-separated lists, one after the other.
pub open spec fn listed(values: Seq<Seq<char>>) -> Seq<Seq<char>>
    decreases values.len(),
{
    if values.len() == 0 {
        Seq::empty()
    } else {
        listed(values.drop_last()) + not_blank(pieces(values.last(), ','))
    }
}

fn add_list(out: &mut Vec<String>, value: &str)
    ensures
        texts(final(out)@) == texts(old(out)@) + not_blank(pieces(value@, ',')),
{
    let parts = split(value, ',');
    let ghost all = texts(parts@);
    let ghost start = texts(out@);
    let mut i: usize = 0;
    assert(all.take(0) == Seq::<Seq<char>>::empty());
    assert(start + not_blank(all.take(0)) == start);
    while i < parts.len()
        invariant
            i <= parts@.len(),
            all == texts(parts@),
            texts(out@) == start + not_blank(all.take(i as int)),
        decreases parts@.len() - i,
    {
        assert(all.take(i as int + 1).drop_last() == all.take(i as int));
        assert(all.take(i as int + 1).last() == parts@[i as int]@);
        let name = trim(parts[i].as_str());
        if !name.as_str().is_empty() {
            proof {
                texts_push(out@, name);
                assert(start + not_blank(all.take(i as int)).push(name@) == (start + not_blank(
                    all.take(i as int),
                )).push(name@));
            }
            out.push(name);
        }
        i += 1;
    }
    assert(all.take(i as int) == all);
}

/// Where a lookup stands: the device to be asked, or the outcome.
#[derive(Debug)]
pub enum PhpIpamLookup {
    Device { names: StringSet, id: u64 },
    Done(Result<AddressNames, IpamError>),
}

/// A lookup's standing, in terms of sets.
pub enum LookupModel {
    Device { names: Set<Seq<char>>, id: u64 },
    Done(Result<Option<Set<Seq<char>>>, Seq<char>>),
}

impl View for PhpIpamLookup {
    type V = LookupModel;

    open spec fn view(&self) -> LookupModel {
        match self {
            PhpIpamLookup::Device { names, id } => LookupModel::Device { names: names@, id: *id },
            PhpIpamLookup::Done(Ok(names)) => LookupModel::Done(Ok(names@)),
            PhpIpamLookup::Done(Err(e)) => LookupModel::Done(Err(e.0@)),
        }
    }
}

/// The device of the first address that is assigned to one.
pub open spec fn first_device(objects: Seq<PhpIpamAddress>) -> Option<u64>
    decreases objects.len(),
{
    if objects.len() == 0 {
        None
    } else {
        match first_device(objects.drop_last()) {
            Some(id) => Some(id),
            None => objects.last().device_id,
        }
    }
}

impl<A> PhpIpamBackend<A> {
    /// What may be shown of a backend: its policy.
    pub fn describe(&self) -> (r: String)
        ensures
            r@ == "PhpIpamBackend { custom_field: "@ + quoted_words(self.custom_field@)
                + ", sources: "@ + sources_of(self.sources@) + ", .. }"@,
    {
        crate::text::cat5(
            "PhpIpamBackend { custom_field: ",
            quoted(self.custom_field.as_str()).as_str(),
            ", sources: ",
            self.sources.describe().as_str(),
            ", .. }",
        )
    }

    /// The entries of the custom column.
    pub open spec fn column(&self, fields: Seq<(String, Json)>) -> Seq<Seq<char>> {
        listed(field_entries(fields, self.custom_field@))
    }

    /// The values an address object offers as names.
    pub open spec fn object_values(&self, object: PhpIpamAddress) -> Seq<Seq<char>> {
        (if self.sources@.contains(Source::DnsName) {
            seq![object.hostname@]
        } else {
            Seq::empty()
        }) + (if self.sources@.contains(Source::CustomField) {
            self.column(object.fields@)
        } else {
            Seq::empty()
        })
    }

    /// Whether an object's custom column said anything.
    pub open spec fn speaks(&self, object: PhpIpamAddress) -> bool {
        self.sources@.contains(Source::CustomField) && self.column(object.fields@).len() > 0
    }

    /// The names that a list of address objects gives.
    pub open spec fn granted(&self, objects: Seq<PhpIpamAddress>) -> Set<Seq<char>> {
        Set::new(
            |n: Seq<char>|
                exists|i: int|
                    0 <= i < objects.len() && names_from(
                        self.object_values(#[trigger] objects[i]),
                    ).contains(n),
        )
    }

    /// Whether any object's custom column said anything.
    pub open spec fn answered(&self, objects: Seq<PhpIpamAddress>) -> bool {
        exists|i: int| 0 <= i < objects.len() && self.speaks(#[trigger] objects[i])
    }

    proof fn one_more(&self, objects: Seq<PhpIpamAddress>, i: int)
        requires
            0 <= i < objects.len(),
        ensures
            self.granted(objects.take(i + 1)) == self.granted(objects.take(i)).union(
                names_from(self.object_values(objects[i])),
            ),
            self.answered(objects.take(i + 1)) == (self.answered(objects.take(i)) || self.speaks(
                objects[i],
            )),
    {
        let (a, b) = (objects.take(i), objects.take(i + 1));
        assert(b[i] == objects[i]);
        assert forall|n: Seq<char>|
            self.granted(b).contains(n) <==> (self.granted(a).contains(n) || names_from(
                self.object_values(objects[i]),
            ).contains(n)) by {
            if self.granted(a).contains(n) {
                let k = choose|k: int|
                    0 <= k < a.len() && names_from(self.object_values(#[trigger] a[k])).contains(n);
                assert(b[k] == a[k]);
            }
            if self.granted(b).contains(n) {
                let k = choose|k: int|
                    0 <= k < b.len() && names_from(self.object_values(#[trigger] b[k])).contains(n);
                if k < i {
                    assert(a[k] == b[k]);
                }
            }
        }
        assert(self.granted(b) =~= self.granted(a).union(
            names_from(self.object_values(objects[i])),
        ));
        if self.answered(a) {
            let k = choose|k: int| 0 <= k < a.len() && self.speaks(#[trigger] a[k]);
            assert(b[k] == a[k]);
        }
        if self.answered(b) {
            let k = choose|k: int| 0 <= k < b.len() && self.speaks(#[trigger] b[k]);
            if k < i {
                assert(a[k] == b[k]);
            }
        }
    }

    /// The policy of a section, over the given way to reach phpIPAM.
    pub fn with_api(cfg: &PhpIpamConfig, api: A) -> (r: Result<PhpIpamBackend<A>, String>)
        ensures
            match r {
                Ok(backend) => {
                    &&& phpipam_policy(*cfg) == Ok::<Set<Source>, Seq<char>>(backend.sources@)
                    &&& backend.api == api
                    &&& backend.custom_field@ == cfg.custom_field@
                },
                Err(e) => phpipam_policy(*cfg) == Err::<Set<Source>, Seq<char>>(e@),
            },
    {
        let supported: Vec<Source> = vec![Source::DnsName, Source::CustomField, Source::Device];
        assert(supported@ == phpipam_sources());
        let sources = match parse_sources(
            "phpIPAM",
            "ipam.phpipam.sources",
            &cfg.sources,
            &supported,
        ) {
            Ok(sources) => sources,
            Err(e) => {
                return Err(e);
            },
        };
        if (sources.contains(&Source::CustomField) || sources.contains(&Source::Device)) && trim(
            cfg.custom_field.as_str(),
        ).as_str().is_empty() {
            return Err(
                "ipam.phpipam.custom_field is empty while ipam.phpipam.sources names `custom_field` or `device`; name the phpIPAM column holding the permitted names (default `custom_acme_allowed_names`)".to_owned(),
            );
        }
        Ok(PhpIpamBackend { api, custom_field: cfg.custom_field.clone(), sources })
    }

    /// The custom column's entries, split on commas.
    pub fn column_values(&self, fields: &Vec<(String, Json)>) -> (r: Vec<String>)
        ensures
            texts(r@) == self.column(fields@),
    {
        let values = field_values(fields, self.custom_field.as_str());
        let ghost all = texts(values@);
        let mut out: Vec<String> = Vec::new();
        let mut i: usize = 0;
        assert(all.take(0) == Seq::<Seq<char>>::empty());
        assert(texts(out@) == listed(all.take(0)));
        while i < values.len()
            invariant
                i <= values@.len(),
                all == texts(values@),
                texts(out@) == listed(all.take(i as int)),
            decreases values@.len() - i,
        {
            assert(all.take(i as int + 1).drop_last() == all.take(i as int));
            assert(all.take(i as int + 1).last() == values@[i as int]@);
            add_list(&mut out, values[i].as_str());
            i += 1;
        }
        assert(all.take(i as int) == all);
        out
    }

    /// Adds one address object's own names, and reports whether its custom
    /// column said anything, which is what decides the device fallback.
    fn add_object_names(&self, names: &mut StringSet, object: &PhpIpamAddress) -> (r: bool)
        ensures
            final(names)@ == old(names)@.union(names_from(self.object_values(*object))),
            r == self.speaks(*object),
    {
        let ghost start = names@;
        let ghost host = if self.sources@.contains(Source::DnsName) {
            seq![object.hostname@]
        } else {
            Seq::empty()
        };
        if self.sources.contains(&Source::DnsName) {
            insert_name(names, object.hostname.as_str());
            proof {
                assert(host.drop_last() == Seq::<Seq<char>>::empty());
                assert(with_names(start, host.drop_last()) == start);
            }
        }
        proof {
            assert(names@ == with_names(start, host));
            with_names_is_union(start, host);
        }
        if !self.sources.contains(&Source::CustomField) {
            assert(host + Seq::<Seq<char>>::empty() == host);
            return false;
        }
        let values = self.column_values(&object.fields);
        insert_names(names, &values);
        proof {
            with_names_is_union(start.union(names_from(host)), texts(values@));
            names_from_both(host, texts(values@));
            assert(names@ =~= start.union(names_from(self.object_values(*object))));
            assert(texts(values@).len() == values@.len());
        }
        values.len() > 0
    }

    /// What the answer about the address leads to. No record and an empty list
    /// of records mean the same.
    pub open spec fn on_search(
        &self,
        ip: Seq<char>,
        reply: Result<Option<Vec<PhpIpamAddress>>, String>,
    ) -> LookupModel {
        match reply {
            Err(error) => LookupModel::Done(
                Err("phpIPAM lookup for "@ + ip + " failed: "@ + error@),
            ),
            Ok(None) => LookupModel::Done(Ok(None)),
            Ok(Some(objects)) => if objects@.len() == 0 {
                LookupModel::Done(Ok(None))
            } else {
                let own = self.granted(objects@);
                match first_device(objects@) {
                    Some(id) if self.sources@.contains(Source::Device) && !self.answered(
                        objects@,
                    ) => LookupModel::Device { names: own, id },
                    _ => LookupModel::Done(Ok(Some(own))),
                }
            },
        }
    }

    /// Begins a lookup with the answer about the address itself. The device is
    /// a fallback: it is asked only when the address did not speak for itself.
    pub fn names_for(
        &self,
        client_ip: &str,
        reply: Result<Option<Vec<PhpIpamAddress>>, String>,
    ) -> (r: PhpIpamLookup)
        ensures
            r@ == self.on_search(client_ip@, reply),
    {
        let objects = match reply {
            Err(error) => {
                return PhpIpamLookup::Done(
                    Err(
                        IpamError(
                            cat4("phpIPAM lookup for ", client_ip, " failed: ", error.as_str()),
                        ),
                    ),
                );
            },
            Ok(None) => {
                return PhpIpamLookup::Done(Ok(AddressNames::Unknown));
            },
            Ok(Some(objects)) => objects,
        };
        if objects.len() == 0 {
            return PhpIpamLookup::Done(Ok(AddressNames::Unknown));
        }
        let mut names = StringSet::new();
        let mut answered = false;
        let mut device: Option<u64> = None;
        let mut i: usize = 0;
        assert(objects@.take(0) == Seq::<PhpIpamAddress>::empty());
        assert(names@ =~= self.granted(objects@.take(0)));
        while i < objects.len()
            invariant
                i <= objects@.len(),
                names@ == self.granted(objects@.take(i as int)),
                answered == self.answered(objects@.take(i as int)),
                device == first_device(objects@.take(i as int)),
            decreases objects@.len() - i,
        {
            proof {
                self.one_more(objects@, i as int);
                assert(objects@.take(i as int + 1).drop_last() == objects@.take(i as int));
            }
            let said = self.add_object_names(&mut names, &objects[i]);
            answered = answered || said;
            if device.is_none() {
                device = objects[i].device_id;
            }
            i += 1;
        }
        assert(objects@.take(i as int) == objects@);
        match device {
            Some(id) => if self.sources.contains(&Source::Device) && !answered {
                PhpIpamLookup::Device { names, id }
            } else {
                PhpIpamLookup::Done(Ok(AddressNames::Known(names)))
            },
            None => PhpIpamLookup::Done(Ok(AddressNames::Known(names))),
        }
    }

    /// What the device's answer leads to.
    pub open spec fn on_device(
        &self,
        ip: Seq<char>,
        names: Set<Seq<char>>,
        id: u64,
        reply: Result<Vec<(String, Json)>, String>,
    ) -> LookupModel {
        match reply {
            Err(error) => LookupModel::Done(
                Err(
                    "phpIPAM lookup of device "@ + decimal(id as nat) + " for "@ + ip
                        + " failed: "@ + error@,
                ),
            ),
            Ok(fields) => LookupModel::Done(
                Ok(Some(names.union(names_from(self.column(fields@))))),
            ),
        }
    }

    /// Takes in the device's column, which ends the lookup.
    pub fn add_device_names(
        &self,
        client_ip: &str,
        names: StringSet,
        id: u64,
        reply: Result<Vec<(String, Json)>, String>,
    ) -> (r: PhpIpamLookup)
        ensures
            r@ == self.on_device(client_ip@, names@, id, reply),
    {
        match reply {
            Err(error) => PhpIpamLookup::Done(
                Err(
                    IpamError(
                        cat6(
                            "phpIPAM lookup of device ",
                            number(id as u128).as_str(),
                            " for ",
                            client_ip,
                            " failed: ",
                            error.as_str(),
                        ),
                    ),
                ),
            ),
            Ok(fields) => {
                let values = self.column_values(&fields);
                let mut names = names;
                proof {
                    with_names_is_union(names@, texts(values@));
                }
                insert_names(&mut names, &values);
                PhpIpamLookup::Done(Ok(AddressNames::Known(names)))
            },
        }
    }

    /// A whole lookup: the search, and the device where it is asked.
    pub open spec fn run(
        &self,
        ip: Seq<char>,
        search: Result<Option<Vec<PhpIpamAddress>>, String>,
        device: spec_fn(u64) -> Result<Vec<(String, Json)>, String>,
    ) -> LookupModel {
        match self.on_search(ip, search) {
            LookupModel::Device { names, id } => self.on_device(ip, names, id, device(id)),
            done => done,
        }
    }

    /// A failing inventory never makes an address unknown: that is said only by
    /// an answer without records.
    pub proof fn an_outage_is_not_an_unknown_address(
        &self,
        ip: Seq<char>,
        search: Result<Option<Vec<PhpIpamAddress>>, String>,
        device: spec_fn(u64) -> Result<Vec<(String, Json)>, String>,
    )
        ensures
            self.run(ip, search, device) == LookupModel::Done(Ok(None)) <==> (search matches Ok(
                found,
            ) && (found is None || found->0@.len() == 0)),
    {
    }

    /// Every name that a lookup reports is in normal form.
    pub proof fn reported_names_are_normal(
        &self,
        ip: Seq<char>,
        search: Result<Option<Vec<PhpIpamAddress>>, String>,
        device: spec_fn(u64) -> Result<Vec<(String, Json)>, String>,
        names: Set<Seq<char>>,
    )
        requires
            self.run(ip, search, device) == LookupModel::Done(Ok(Some(names))),
        ensures
            normalized(names),
    {
        let objects = search->Ok_0->Some_0@;
        let own = self.granted(objects);
        assert forall|n: Seq<char>| #[trigger] own.contains(n) implies n.len() > 0 && exists|
            v: Seq<char>,
        | n == crate::ipam::normal(v) by {
            let i = choose|i: int|
                0 <= i < objects.len() && names_from(
                    self.object_values(#[trigger] objects[i]),
                ).contains(n);
            names_from_are_normal(self.object_values(objects[i]));
        }
        match self.on_search(ip, search) {
            LookupModel::Device { id, .. } => {
                names_from_are_normal(self.column(device(id)->Ok_0@));
            },
            _ => {},
        }
    }

    /// The device's list is a fallback: where an address's column said
    /// anything, what the device would answer makes no difference.
    pub proof fn a_column_on_the_address_shadows_the_device(
        &self,
        ip: Seq<char>,
        objects: Vec<PhpIpamAddress>,
        one: spec_fn(u64) -> Result<Vec<(String, Json)>, String>,
        other: spec_fn(u64) -> Result<Vec<(String, Json)>, String>,
    )
        requires
            self.answered(objects@),
        ensures
            self.run(ip, Ok(Some(objects)), one) == self.run(ip, Ok(Some(objects)), other),
    {
    }
}

impl PhpIpamBackend<PhpIpamClient> {
    /// The client of a section and its policy. Contacts nothing.
    pub fn from_config(
        cfg: &PhpIpamConfig,
        trust: Result<crate::ipam::http::TlsTrust, String>,
    ) -> (r: Result<PhpIpamBackend<PhpIpamClient>, String>)
        ensures
            match (client::phpipam_config_error(*cfg), trust) {
                (Some(e), _) => r matches Err(got) && got@ == e,
                (None, Err(e)) => r matches Err(got) && got@ == e@,
                (None, Ok(tls)) => match crate::ipam::http::base_url(
                    cfg.url@,
                    "ipam.phpipam.url"@,
                ) {
                    Err(e) => r matches Err(got) && got@ == e,
                    Ok(base) => match phpipam_policy(*cfg) {
                        Err(e) => r matches Err(got) && got@ == e,
                        Ok(sources) => r matches Ok(backend) && {
                            &&& backend.api.api.base@ == base
                            &&& backend.api.api.tls == tls
                            &&& backend.api.api.headers@.len() == 1
                            &&& backend.api.api.headers@[0].0@ == "token"@
                            &&& backend.api.api.headers@[0].1@ == cfg.token@
                            &&& backend.api.app_id@ == trimmed(cfg.app_id@)
                            &&& backend.sources@ == sources
                            &&& backend.custom_field@ == cfg.custom_field@
                        },
                    },
                },
            },
    {
        match PhpIpamClient::new(cfg, trust) {
            Ok(client) => PhpIpamBackend::with_api(cfg, client),
            Err(e) => Err(e),
        }
    }
}

impl<A> Ipam for PhpIpamBackend<A> {
    open spec fn product(&self) -> Seq<char> {
        "phpIPAM"@
    }

    fn name(&self) -> (r: &'static str) {
        "phpIPAM"
    }
}

/// The values of a column are the parts of its entries between commas, in order,
/// each without the white space around it; blank parts are dropped.
pub proof fn a_column_is_cut_at_its_commas(
    a: Seq<Seq<char>>,
    b: Seq<Seq<char>>,
    part: Seq<char>,
)
    ensures
        not_blank(Seq::empty()).len() == 0,
        trimmed(part).len() > 0 ==> not_blank(seq![part]) == seq![trimmed(part)],
        trimmed(part).len() == 0 ==> not_blank(seq![part]).len() == 0,
        not_blank(a + b) == not_blank(a) + not_blank(b),
        listed(Seq::empty()).len() == 0,
        listed(seq![part]) == not_blank(pieces(part, ',')),
        listed(a + b) == listed(a) + listed(b),
    decreases b.len(),
{
    assert(seq![part].drop_last() =~= Seq::<Seq<char>>::empty());
    assert(not_blank(Seq::empty()) =~= Seq::<Seq<char>>::empty());
    assert(listed(Seq::empty()) =~= Seq::<Seq<char>>::empty());
    assert(trimmed(part).len() > 0 ==> not_blank(seq![part]) =~= seq![trimmed(part)]);
    assert(listed(seq![part]) =~= not_blank(pieces(part, ',')));
    if b.len() == 0 {
        assert(a + b =~= a);
        assert(not_blank(a) + not_blank(b) =~= not_blank(a));
        assert(listed(a) + listed(b) =~= listed(a));
    } else {
        let front = b.drop_last();
        a_column_is_cut_at_its_commas(a, front, part);
        assert((a + b).drop_last() =~= a + front);
        assert((a + b).last() == b.last());
        let cut = not_blank(pieces(b.last(), ','));
        assert(listed(a) + listed(front) + cut =~= listed(a) + (listed(front) + cut));
        if trimmed(b.last()).len() > 0 {
            let one = trimmed(b.last());
            assert((not_blank(a) + not_blank(front)).push(one) =~= not_blank(a) + not_blank(
                front,
            ).push(one));
        }
    }
}

/// The device of a list of rows is that of the first that has one.
pub proof fn the_first_device_decides(objects: Seq<PhpIpamAddress>)
    ensures
        first_device(objects) is None <==> forall|i: int|
            0 <= i < objects.len() ==> (#[trigger] objects[i]).device_id is None,
        forall|i: int|
            0 <= i < objects.len() && (#[trigger] objects[i]).device_id is Some && (forall|j: int|
                0 <= j < i ==> (#[trigger] objects[j]).device_id is None) ==> first_device(objects)
                == objects[i].device_id,
    decreases objects.len(),
{
    if objects.len() > 0 {
        let front = objects.drop_last();
        let n = objects.len() - 1;
        the_first_device_decides(front);
        assert(objects[n] == objects.last());
        assert forall|i: int| 0 <= i < front.len() implies front[i] == objects[i] by {}
        if first_device(objects) is None {
            assert forall|i: int| 0 <= i < objects.len() implies (
            #[trigger] objects[i]).device_id is None by {
                if i < n {
                    assert(front[i].device_id is None);
                }
            }
        }
        if forall|i: int| 0 <= i < objects.len() ==> (#[trigger] objects[i]).device_id is None {
            assert forall|i: int| 0 <= i < front.len() implies (
            #[trigger] front[i]).device_id is None by {
                assert(objects[i].device_id is None);
            }
            assert(objects[n].device_id is None);
        }
        assert forall|i: int|
            0 <= i < objects.len() && (#[trigger] objects[i]).device_id is Some && (forall|j: int|
                0 <= j < i ==> (#[trigger] objects[j]).device_id is None) implies first_device(
            objects,
        ) == objects[i].device_id by {
            if i < n {
                assert(front[i].device_id is Some);
                assert forall|j: int| 0 <= j < i implies (#[trigger] front[j]).device_id is None by {
                    assert(objects[j].device_id is None);
                }
            } else {
                assert forall|j: int| 0 <= j < front.len() implies (
                #[trigger] front[j]).device_id is None by {
                    assert(objects[j].device_id is None);
                }
            }
        }
    }
}

impl<A> PhpIpamBackend<A> {
    /// A name is granted exactly when it is the non-empty normal form of a row's
    /// hostname, and that is a source, or of a value of its column, and that is a
    /// source: each of the two counts whatever the other says.
    pub proof fn a_row_grants_by_each_of_its_sources(
        &self,
        objects: Seq<PhpIpamAddress>,
        n: Seq<char>,
    )
        ensures
            self.granted(objects).contains(n) <==> n.len() > 0 && exists|i: int|
                0 <= i < objects.len() && ({
                    ||| self.sources@.contains(Source::DnsName) && n == crate::ipam::normal(
                        (#[trigger] objects[i]).hostname@,
                    )
                    ||| self.sources@.contains(Source::CustomField) && in_column(
                        listed(field_entries(objects[i].fields@, self.custom_field@)),
                        n,
                    )
                }),
    {
        assert forall|i: int| 0 <= i < objects.len() implies (names_from(
            self.object_values(#[trigger] objects[i]),
        ).contains(n) <==> n.len() > 0 && ({
            ||| self.sources@.contains(Source::DnsName) && n == crate::ipam::normal(
                objects[i].hostname@,
            )
            ||| self.sources@.contains(Source::CustomField) && in_column(
                listed(field_entries(objects[i].fields@, self.custom_field@)),
                n,
            )
        })) by {
            let values = self.object_values(objects[i]);
            let column = listed(field_entries(objects[i].fields@, self.custom_field@));
            let named: int = if self.sources@.contains(Source::DnsName) {
                1
            } else {
                0
            };
            if names_from(values).contains(n) {
                let k = choose|k: int|
                    0 <= k < values.len() && n == crate::ipam::normal(#[trigger] values[k]);
                if k >= named {
                    assert(values[k] == column[k - named]);
                } else {
                    assert(values[k] == objects[i].hostname@);
                }
            }
            if self.sources@.contains(Source::DnsName) {
                assert(values[0] == objects[i].hostname@);
            }
            if self.sources@.contains(Source::CustomField) && in_column(column, n) {
                let k = choose|k: int|
                    0 <= k < column.len() && n == crate::ipam::normal(#[trigger] column[k]);
                assert(values[named + k] == column[k]);
            }
        }
        if self.granted(objects).contains(n) {
            let i = choose|i: int|
                0 <= i < objects.len() && names_from(
                    self.object_values(#[trigger] objects[i]),
                ).contains(n);
            assert(names_from(self.object_values(objects[i])).contains(n));
        }
    }

    /// An address speaks for itself exactly when the column is a source and one of its
    /// rows has a value there; a hostname alone does not count.
    pub proof fn an_address_speaks_by_its_column(&self, objects: Seq<PhpIpamAddress>)
        ensures
            self.answered(objects) <==> self.sources@.contains(Source::CustomField) && exists|
                i: int,
            |
                0 <= i < objects.len() && listed(
                    field_entries((#[trigger] objects[i]).fields@, self.custom_field@),
                ).len() > 0,
    {
        if self.answered(objects) {
            let i = choose|i: int| 0 <= i < objects.len() && self.speaks(#[trigger] objects[i]);
            assert(listed(field_entries(objects[i].fields@, self.custom_field@)).len() > 0);
        }
        if self.sources@.contains(Source::CustomField) && exists|i: int|
            0 <= i < objects.len() && listed(
                field_entries((#[trigger] objects[i]).fields@, self.custom_field@),
            ).len() > 0 {
            let i = choose|i: int|
                0 <= i < objects.len() && listed(
                    field_entries((#[trigger] objects[i]).fields@, self.custom_field@),
                ).len() > 0;
            assert(self.speaks(objects[i]));
        }
    }

    /// How a lookup goes on: an address without rows is unknown; its device is asked
    /// exactly when the device is a source, a row has one and the address did not speak
    /// for itself; anything else ends with the address's own names.
    pub proof fn what_is_asked_next(
        &self,
        ip: Seq<char>,
        objects: Vec<PhpIpamAddress>,
        error: String,
    )
        ensures
            self.on_search(ip, Err(error)) == LookupModel::Done(
                Err("phpIPAM lookup for "@ + ip + " failed: "@ + error@),
            ),
            self.on_search(ip, Ok(None)) == LookupModel::Done(Ok(None)),
            objects@.len() == 0 ==> self.on_search(ip, Ok(Some(objects))) == LookupModel::Done(
                Ok(None),
            ),
            self.on_search(ip, Ok(Some(objects))) is Device <==> self.sources@.contains(
                Source::Device,
            ) && !self.answered(objects@) && exists|i: int|
                0 <= i < objects@.len() && (#[trigger] objects@[i]).device_id is Some,
            self.on_search(ip, Ok(Some(objects))) matches LookupModel::Device { names, id }
                ==> names == self.granted(objects@) && first_device(objects@) == Some(id),
            objects@.len() > 0 && !(self.on_search(ip, Ok(Some(objects))) is Device)
                ==> self.on_search(ip, Ok(Some(objects))) == LookupModel::Done(
                Ok(Some(self.granted(objects@))),
            ),
    {
        the_first_device_decides(objects@);
        if forall|i: int| 0 <= i < objects@.len() ==> (#[trigger] objects@[i]).device_id is None {
        }
    }

    /// The device adds the non-empty normal forms of its column's values to the names
    /// so far, and nothing else, and the lookup ends; a failure ends it too.
    pub proof fn a_device_adds_its_column(
        &self,
        ip: Seq<char>,
        names: Set<Seq<char>>,
        id: u64,
        fields: Vec<(String, Json)>,
        error: String,
        n: Seq<char>,
    )
        ensures
            self.on_device(ip, names, id, Ok(fields)) is Done,
            self.on_device(ip, names, id, Ok(fields))->Done_0 is Ok && self.on_device(
                ip,
                names,
                id,
                Ok(fields),
            )->Done_0->Ok_0 is Some,
            self.on_device(ip, names, id, Ok(fields))->Done_0->Ok_0->Some_0.contains(n)
                <==> names.contains(n) || (n.len() > 0 && in_column(
                listed(field_entries(fields@, self.custom_field@)),
                n,
            )),
            self.on_device(ip, names, id, Err(error)) == LookupModel::Done(
                Err(
                    "phpIPAM lookup of device "@ + decimal(id as nat) + " for "@ + ip
                        + " failed: "@ + error@,
                ),
            ),
    {
    }
}

/// Whether a value is the normal form of one of a list.
pub open spec fn in_column(values: Seq<Seq<char>>, n: Seq<char>) -> bool {
    exists|k: int| 0 <= k < values.len() && n == crate::ipam::normal(#[trigger] values[k])
}

/// A section is accepted exactly when its sources are among the three that phpIPAM has
/// and the column is named where one of them reads it.
pub proof fn a_usable_policy_is_accepted(cfg: PhpIpamConfig)
    ensures
        phpipam_sources() == seq![Source::DnsName, Source::CustomField, Source::Device],
        ({
            let found = source_list(
                "phpIPAM"@,
                "ipam.phpipam.sources"@,
                texts(cfg.sources@),
                seq![Source::DnsName, Source::CustomField, Source::Device],
            );
            &&& phpipam_policy(cfg) is Ok <==> found is Ok && (found->Ok_0.contains(
                Source::CustomField,
            ) || found->Ok_0.contains(Source::Device) ==> trimmed(cfg.custom_field@).len() > 0)
            &&& phpipam_policy(cfg) is Ok ==> phpipam_policy(cfg) == found
            &&& found is Err ==> phpipam_policy(cfg) == found
        }),
{
}

/// The settings of a section that says nothing.
pub proof fn the_defaults_of_a_section(cfg: PhpIpamConfig)
    requires
        cfg.defaults(),
    ensures
        cfg.url@.len() == 0 && cfg.token@.len() == 0 && cfg.ca_cert_path@.len() == 0,
        !cfg.insecure_skip_verify,
        cfg.app_id@ == "acme"@,
        cfg.custom_field@ == "custom_acme_allowed_names"@,
        cfg.sources@.len() == 3 && cfg.sources@[0]@ == "dns_name"@ && cfg.sources@[1]@
            == "custom_field"@ && cfg.sources@[2]@ == "device"@,
{
    let s = texts(cfg.sources@);
    assert(s.len() == 3);
    assert(cfg.sources@.len() == s.len());
    assert(s[0] == cfg.sources@[0]@ && s[1] == cfg.sources@[1]@ && s[2] == cfg.sources@[2]@);
}

/// A section with sources that can be used and without the column they need is told so.
pub proof fn an_unusable_policy_is_told_why(cfg: PhpIpamConfig, found: Set<Source>)
    requires
        source_list("phpIPAM"@, "ipam.phpipam.sources"@, texts(cfg.sources@), phpipam_sources())
            == Ok::<Set<Source>, Seq<char>>(found),
    ensures
        (found.contains(Source::CustomField) || found.contains(Source::Device)) && trimmed(
            cfg.custom_field@,
        ).len() == 0 ==> phpipam_policy(cfg) == Err::<Set<Source>, Seq<char>>(
            "ipam.phpipam.custom_field is empty while ipam.phpipam.sources names `custom_field` or `device`; name the phpIPAM column holding the permitted names (default `custom_acme_allowed_names`)"@,
        ),
{
}

/// The product is called phpIPAM.
pub proof fn the_product_is_phpipam<A>(backend: PhpIpamBackend<A>)
    ensures
        backend.product() == "phpIPAM"@,
{
}

} // verus!
