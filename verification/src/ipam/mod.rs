//! IP address management: which names does an address own?
//!
//! An inventory reports what is true of an address; it never denies anything.
//! Every failure to obtain an answer is an [`IpamError`], and the only answer
//! that leads to a refusal is a fact about the address itself: that it is
//! unknown, or that a name is not among those it owns.
//!
//! Names are compared literally in their normal form, which has no capitals
//! and no trailing dot. There is no suffix rule and no wildcard expansion.

pub mod custom;
pub mod http;
pub mod netbox;
pub mod phpipam;

use crate::debug::{quoted_words, span, span_of};
use crate::faults::{first_of, first_of_next, first_of_none};
use crate::ipam::http::{base_url, tls_config, TlsTrust};
use crate::ipam::netbox::client::{netbox_config_error, NetboxClient};
use crate::ipam::netbox::{netbox_policy, NetboxBackend, NetboxConfig};
use crate::ipam::phpipam::client::{phpipam_config_error, PhpIpamClient};
use crate::ipam::phpipam::{phpipam_policy, PhpIpamBackend, PhpIpamConfig};
use crate::json::{find, lookup, Json};
use crate::sorted::{to_set_take, StringSet};
use crate::text::{
    cat3, cat5, cat7, chars_of, join, joined, lowercase, lowered, same, string_of, texts,
    texts_push, trim, trimmed,
};
use crate::time::Duration;
use vstd::prelude::*;
use vstd::string::*;

verus! {

/// Without the dots at the end.
pub open spec fn without_dots(s: Seq<char>) -> Seq<char>
    decreases s.len(),
{
    if s.len() > 0 && s.last() == '.' {
        without_dots(s.drop_last())
    } else {
        s
    }
}

/// The form in which names are compared.
pub open spec fn normal(s: Seq<char>) -> Seq<char> {
    lowered(without_dots(trimmed(s)))
}

/// Lowercased and stripped of a trailing dot, the form both sides compare in.
pub fn normalize(value: &str) -> (r: String)
    ensures
        r@ == normal(value@),
{
    let cs = chars_of(trim(value).as_str());
    let mut end: usize = cs.len();
    assert(cs@.take(end as int) == cs@);
    while end > 0 && cs[end - 1] == '.'
        invariant
            end <= cs@.len(),
            without_dots(cs@) == without_dots(cs@.take(end as int)),
        decreases end,
    {
        assert(cs@.take(end as int).drop_last() == cs@.take(end as int - 1));
        end -= 1;
    }
    assert(cs@.subrange(0, end as int) == cs@.take(end as int));
    lowercase(string_of(&cs, 0, end).as_str())
}

proof fn without_dots_front(s: Seq<char>)
    ensures
        without_dots(s).len() <= s.len(),
        without_dots(s) == s.take(without_dots(s).len() as int),
        without_dots(s).len() > 0 ==> without_dots(s).last() != '.',
    decreases s.len(),
{
    if s.len() > 0 && s.last() == '.' {
        without_dots_front(s.drop_last());
        let n = without_dots(s).len() as int;
        assert(s.drop_last().take(n) == s.take(n));
    } else {
        assert(s.take(s.len() as int) == s);
    }
}

/// A name in normal form has no capital letter and no trailing dot, and does
/// not begin with white space.
pub proof fn normal_form(s: Seq<char>)
    ensures
        forall|i: int| 0 <= i < normal(s).len() ==> !('A' <= #[trigger] normal(s)[i] <= 'Z'),
        normal(s).len() > 0 ==> normal(s).last() != '.',
        normal(s).len() > 0 ==> !crate::text::is_space(normal(s)[0]),
{
    let t = trimmed(s);
    crate::text::trimmed_piece(s);
    without_dots_front(t);
    let w = without_dots(t);
    if w.len() > 0 {
        assert(w[0] == t[0]);
        assert(normal(s)[0] == crate::text::lower_char(w[0]));
        assert(normal(s).last() == crate::text::lower_char(w.last()));
    }
}

/// Normalizing twice is normalizing once, wherever no white space is left at
/// the end (as it is in `a. .`, whose normal form is `a. `).
pub proof fn normalizing_is_idempotent(s: Seq<char>)
    requires
        normal(s).len() > 0 ==> !crate::text::is_space(normal(s).last()),
    ensures
        normal(normal(s)) == normal(s),
{
    let n = normal(s);
    normal_form(s);
    assert(trimmed(n) == n);
    assert(without_dots(n) == n);
    assert(lowered(n) =~= n);
}

/// What an inventory knows about one address.
#[derive(Debug, Clone, PartialEq, Eq)]
pub enum AddressNames {
    /// The inventory holds no record of this address at all.
    Unknown,
    /// The names it associates with the address, in normal form. None of them
    /// means: recorded, and entitled to nothing.
    Known(StringSet),
}

impl View for AddressNames {
    type V = Option<Set<Seq<char>>>;

    /// The names of a known address; `None` for an unknown one.
    open spec fn view(&self) -> Option<Set<Seq<char>>> {
        match self {
            AddressNames::Unknown => None,
            AddressNames::Known(names) => Some(names@),
        }
    }
}

/// A set of names with one more value taken in: its normal form, unless that is
/// empty.
pub open spec fn with_name(names: Set<Seq<char>>, value: Seq<char>) -> Set<Seq<char>> {
    if normal(value).len() == 0 {
        names
    } else {
        names.insert(normal(value))
    }
}

/// A set of names with each value of a list taken in.
pub open spec fn with_names(names: Set<Seq<char>>, values: Seq<Seq<char>>) -> Set<Seq<char>>
    decreases values.len(),
{
    if values.len() == 0 {
        names
    } else {
        with_name(with_names(names, values.drop_last()), values.last())
    }
}

/// The names that the values of a list stand for: every non-empty normal form.
pub open spec fn names_from(values: Seq<Seq<char>>) -> Set<Seq<char>> {
    Set::new(
        |n: Seq<char>|
            n.len() > 0 && exists|i: int| 0 <= i < values.len() && n == normal(#[trigger] values[i]),
    )
}

/// Taking in a list adds exactly the names that its values stand for.
pub proof fn with_names_is_union(names: Set<Seq<char>>, values: Seq<Seq<char>>)
    ensures
        with_names(names, values) == names.union(names_from(values)),
    decreases values.len(),
{
    if values.len() > 0 {
        let front = values.drop_last();
        with_names_is_union(names, front);
        assert forall|n: Seq<char>|
            names_from(values).contains(n) <==> (names_from(front).contains(n) || (n.len() > 0 && n
                == normal(values.last()))) by {
            if names_from(front).contains(n) {
                let i = choose|i: int| 0 <= i < front.len() && n == normal(#[trigger] front[i]);
                assert(n == normal(values[i]));
            }
            if names_from(values).contains(n) {
                let i = choose|i: int| 0 <= i < values.len() && n == normal(#[trigger] values[i]);
                if i < front.len() {
                    assert(n == normal(front[i]));
                }
            }
        }
    }
    assert(with_names(names, values) =~= names.union(names_from(values)));
}

/// Whether a set holds nothing but names in normal form, and no empty one.
pub open spec fn normalized(names: Set<Seq<char>>) -> bool {
    forall|n: Seq<char>| #[trigger]
        names.contains(n) ==> n.len() > 0 && exists|v: Seq<char>| n == normal(v)
}

/// What a list of values stands for is in normal form.
pub proof fn names_from_are_normal(values: Seq<Seq<char>>)
    ensures
        normalized(names_from(values)),
{
    assert forall|n: Seq<char>| #[trigger] names_from(values).contains(n) implies n.len() > 0
        && exists|v: Seq<char>| n == normal(v) by {
        let i = choose|i: int| 0 <= i < values.len() && n == normal(#[trigger] values[i]);
        assert(n == normal(values[i]));
    }
}

/// A name of a normalized set has no capital letter and no trailing dot.
pub proof fn normalized_names(names: Set<Seq<char>>, name: Seq<char>)
    requires
        normalized(names),
        names.contains(name),
    ensures
        name.len() > 0,
        name.last() != '.',
        forall|i: int| 0 <= i < name.len() ==> !('A' <= #[trigger] name[i] <= 'Z'),
{
    let v = choose|v: Seq<char>| name == normal(v);
    normal_form(v);
}

/// Adds a name in its normal form, ignoring an empty one.
fn insert_name(names: &mut StringSet, value: &str)
    ensures
        final(names)@ == with_name(old(names)@, value@),
{
    let name = normalize(value);
    if !name.as_str().is_empty() {
        names.insert(name);
    }
}

/// Adds each value of a list in its normal form, ignoring empty ones.
fn insert_names(names: &mut StringSet, values: &Vec<String>)
    ensures
        final(names)@ == with_names(old(names)@, texts(values@)),
{
    let ghost all = texts(values@);
    let mut i: usize = 0;
    assert(all.take(0) == Seq::<Seq<char>>::empty());
    while i < values.len()
        invariant
            i <= values@.len(),
            all == texts(values@),
            names@ == with_names(old(names)@, all.take(i as int)),
        decreases values@.len() - i,
    {
        assert(all.take(i as int + 1).drop_last() == all.take(i as int));
        assert(all.take(i as int + 1).last() == values@[i as int]@);
        insert_name(names, values[i].as_str());
        i += 1;
    }
    assert(all.take(i as int) == all);
}

/// The names of two lists, one after the other, are the names of either.
proof fn names_from_both(a: Seq<Seq<char>>, b: Seq<Seq<char>>)
    ensures
        names_from(a + b) == names_from(a).union(names_from(b)),
{
    assert forall|n: Seq<char>|
        names_from(a + b).contains(n) <==> names_from(a).contains(n) || names_from(b).contains(n) by {
        if names_from(a + b).contains(n) {
            let i = choose|i: int| 0 <= i < (a + b).len() && n == normal(#[trigger] (a + b)[i]);
            if i < a.len() {
                assert(n == normal(a[i]));
            } else {
                assert(n == normal(b[i - a.len()]));
            }
        }
        if names_from(a).contains(n) {
            let i = choose|i: int| 0 <= i < a.len() && n == normal(#[trigger] a[i]);
            assert((a + b)[i] == a[i]);
        }
        if names_from(b).contains(n) {
            let i = choose|i: int| 0 <= i < b.len() && n == normal(#[trigger] b[i]);
            assert((a + b)[i + a.len()] == b[i]);
        }
    }
    assert(names_from(a + b) =~= names_from(a).union(names_from(b)));
}

impl AddressNames {
    /// Every name is in normal form.
    pub open spec fn wf(&self) -> bool {
        self@ matches Some(names) ==> normalized(names)
    }

    /// A known address with no names yet; add them with [`Self::insert`].
    pub fn known() -> (r: AddressNames)
        ensures
            r@ == Some(Set::<Seq<char>>::empty()),
            r.wf(),
    {
        AddressNames::Known(StringSet::new())
    }

    /// Adds a name in its normal form, ignoring an empty one. Does nothing to
    /// an unknown address.
    pub fn insert(&mut self, value: &str)
        ensures
            final(self)@ == match old(self)@ {
                None => None,
                Some(names) => Some(with_name(names, value@)),
            },
            old(self).wf() ==> final(self).wf(),
    {
        if let AddressNames::Known(names) = self {
            insert_name(names, value);
        }
    }

    /// Whether the inventory holds a record of the address.
    pub fn is_known(&self) -> (r: bool)
        ensures
            r == (self@ is Some),
    {
        matches!(self, AddressNames::Known(_))
    }

    /// The names, or an empty set for an unknown address.
    pub fn names(&self) -> (r: StringSet)
        ensures
            r@ == match self@ {
                Some(names) => names,
                None => Set::empty(),
            },
    {
        match self {
            AddressNames::Known(names) => names.clone(),
            AddressNames::Unknown => StringSet::new(),
        }
    }
}

/// The inventory failed to reach a decision.
///
/// There is no variant for a refusal: a failure to look an address up is the
/// server's problem, never the client's.
#[derive(Debug, Clone, PartialEq, Eq)]
pub struct IpamError(pub String);

/// One place a permitted name may come from.
#[derive(Debug, Clone, Copy, PartialEq, Eq, PartialOrd, Ord, Hash, Structural)]
pub enum Source {
    /// The address object's own name.
    DnsName,
    /// The configured custom field, read from the address object itself.
    CustomField,
    /// The same custom field on the device or virtual machine the address is
    /// assigned to. A fallback: read only when the address object carried no
    /// value of its own.
    Device,
    /// Role-tagged service addresses on the same device. A union.
    Vip,
    /// The service addresses of an FHRP group the client's own interface is
    /// recorded as a member of. A union.
    Fhrp,
}

impl Source {
    /// The name this source is configured under.
    pub open spec fn label(self) -> Seq<char> {
        match self {
            Source::DnsName => "dns_name"@,
            Source::CustomField => "custom_field"@,
            Source::Device => "device"@,
            Source::Vip => "vip"@,
            Source::Fhrp => "fhrp"@,
        }
    }

    /// The name this source is configured under.
    pub fn as_str(self) -> (r: &'static str)
        ensures
            r@ == self.label(),
    {
        match self {
            Source::DnsName => "dns_name",
            Source::CustomField => "custom_field",
            Source::Device => "device",
            Source::Vip => "vip",
            Source::Fhrp => "fhrp",
        }
    }

    /// Every source.
    pub open spec fn every() -> Seq<Source> {
        seq![Source::DnsName, Source::CustomField, Source::Device, Source::Vip, Source::Fhrp]
    }

    /// Every source, for an error listing what was expected.
    pub fn all() -> (r: Vec<Source>)
        ensures
            r@ == Source::every(),
    {
        vec![Source::DnsName, Source::CustomField, Source::Device, Source::Vip, Source::Fhrp]
    }

    /// The source with the given name.
    pub open spec fn named(name: Seq<char>) -> Option<Source> {
        if name == "dns_name"@ {
            Some(Source::DnsName)
        } else if name == "custom_field"@ {
            Some(Source::CustomField)
        } else if name == "device"@ {
            Some(Source::Device)
        } else if name == "vip"@ {
            Some(Source::Vip)
        } else if name == "fhrp"@ {
            Some(Source::Fhrp)
        } else {
            None
        }
    }

    /// The source with the given name.
    pub fn parse(name: &str) -> (r: Option<Source>)
        ensures
            r == Source::named(name@),
    {
        if same(name, "dns_name") {
            Some(Source::DnsName)
        } else if same(name, "custom_field") {
            Some(Source::CustomField)
        } else if same(name, "device") {
            Some(Source::Device)
        } else if same(name, "vip") {
            Some(Source::Vip)
        } else if same(name, "fhrp") {
            Some(Source::Fhrp)
        } else {
            None
        }
    }
}

/// No two sources share a name.
pub proof fn source_labels_differ(a: Source, b: Source)
    requires
        a != b,
    ensures
        a.label() != b.label(),
{
    reveal_strlit("dns_name");
    reveal_strlit("custom_field");
    reveal_strlit("device");
    reveal_strlit("vip");
    reveal_strlit("fhrp");
    let (x, y) = (a.label(), b.label());
    assert(x.len() != y.len() || x[0] != y[0]);
}

/// Every source is found again under its own name, and a name finds only the
/// source that carries it.
pub proof fn source_names_round_trip(source: Source, name: Seq<char>)
    ensures
        Source::named(source.label()) == Some(source),
        Source::named(name) matches Some(found) ==> found.label() == name,
{
    match Source::named(source.label()) {
        Some(found) => {
            if found != source {
                source_labels_differ(found, source);
            }
        },
        None => {},
    }
}

impl Source {
    /// The name of the variant.
    pub open spec fn variant(self) -> Seq<char> {
        match self {
            Source::DnsName => "DnsName"@,
            Source::CustomField => "CustomField"@,
            Source::Device => "Device"@,
            Source::Vip => "Vip"@,
            Source::Fhrp => "Fhrp"@,
        }
    }

    fn variant_name(self) -> (r: &'static str)
        ensures
            r@ == self.variant(),
    {
        match self {
            Source::DnsName => "DnsName",
            Source::CustomField => "CustomField",
            Source::Device => "Device",
            Source::Vip => "Vip",
            Source::Fhrp => "Fhrp",
        }
    }

    /// The place of a source in the order they are listed in.
    spec fn rank(self) -> int {
        match self {
            Source::DnsName => 0,
            Source::CustomField => 1,
            Source::Device => 2,
            Source::Vip => 3,
            Source::Fhrp => 4,
        }
    }

    fn rank_of(self) -> (r: u8)
        ensures
            r == self.rank(),
    {
        match self {
            Source::DnsName => 0,
            Source::CustomField => 1,
            Source::Device => 2,
            Source::Vip => 3,
            Source::Fhrp => 4,
        }
    }
}

/// The sources a backend was configured with. A union of sets, so an order
/// would mean nothing; they are kept in a fixed one.
#[derive(Debug, PartialEq, Eq)]
pub struct Sources {
    members: Vec<Source>,
}

impl View for Sources {
    type V = Set<Source>;

    closed spec fn view(&self) -> Set<Source> {
        self.members@.to_set()
    }
}

/// The sources of a list that a set holds, each by its variant's name.
pub open spec fn shown(sources: Set<Source>, list: Seq<Source>) -> Seq<Seq<char>>
    decreases list.len(),
{
    if list.len() == 0 {
        Seq::empty()
    } else if sources.contains(list.last()) {
        shown(sources, list.drop_last()).push(list.last().variant())
    } else {
        shown(sources, list.drop_last())
    }
}

/// A set of sources as it is printed, in the order they are listed in.
pub open spec fn sources_of(sources: Set<Source>) -> Seq<char> {
    "{"@ + joined(shown(sources, Source::every()), ", "@) + "}"@
}

impl Sources {
    /// The sources as they are printed.
    pub fn describe(&self) -> (r: String)
        ensures
            r@ == sources_of(self@),
    {
        let all = Source::all();
        let mut names: Vec<String> = Vec::new();
        let mut i: usize = 0;
        assert(texts(names@) == shown(self@, all@.take(0)));
        while i < all.len()
            invariant
                i <= all@.len(),
                texts(names@) == shown(self@, all@.take(i as int)),
            decreases all@.len() - i,
        {
            assert(all@.take(i as int + 1).drop_last() == all@.take(i as int));
            if self.contains(&all[i]) {
                let name = all[i].variant_name().to_owned();
                proof {
                    texts_push(names@, name);
                }
                names.push(name);
            }
            i += 1;
        }
        assert(all@.take(i as int) == all@);
        crate::text::cat3("{", join(&names, ", ").as_str(), "}")
    }

    #[verifier::type_invariant]
    spec fn ordered(self) -> bool {
        forall|i: int, j: int|
            0 <= i < j < self.members@.len() ==> (#[trigger] self.members@[i]).rank() < (
            #[trigger] self.members@[j]).rank()
    }

    pub fn new() -> (r: Sources)
        ensures
            r@ == Set::<Source>::empty(),
    {
        let r = Sources { members: Vec::new() };
        assert(r@ =~= Set::<Source>::empty());
        r
    }

    pub fn insert(&mut self, source: Source)
        ensures
            final(self)@ == old(self)@.insert(source),
    {
        proof {
            use_type_invariant(&*self);
        }
        let mut at: usize = 0;
        while at < self.members.len() && self.members[at].rank_of() < source.rank_of()
            invariant
                at <= self.members@.len(),
                *self == *old(self),
                forall|i: int| 0 <= i < at ==> (#[trigger] self.members@[i]).rank() < source.rank(),
            decreases self.members@.len() - at,
        {
            at += 1;
        }
        if at < self.members.len() && self.members[at] == source {
            assert(self@.insert(source) =~= self@);
            return;
        }
        let ghost was = self.members@;
        proof {
            let new = was.insert(at as int, source);
            assert forall|i: int, j: int| 0 <= i < j < new.len() implies (#[trigger] new[i]).rank()
                < (#[trigger] new[j]).rank() by {
                if i != at {
                    assert(new[i] == was[if i < at { i } else { i - 1 }]);
                }
                if j != at {
                    assert(new[j] == was[if j < at { j } else { j - 1 }]);
                }
                if at < was.len() {
                    assert(was[at as int].rank() > source.rank());
                }
            }
        }
        let mut members: Vec<Source> = Vec::new();
        std::mem::swap(&mut self.members, &mut members);
        members.insert(at, source);
        self.members = members;
        proof {
            assert forall|s: Source| self@.contains(s) <==> (s == source || was.contains(s)) by {
                if was.contains(s) {
                    let i = choose|i: int| 0 <= i < was.len() && was[i] == s;
                    assert(self.members@[if i < at { i } else { i + 1 }] == s);
                }
                assert(self.members@[at as int] == source);
                if self.members@.contains(s) && s != source {
                    let i = choose|i: int| 0 <= i < self.members@.len() && self.members@[i] == s;
                    assert(was[if i < at { i } else { i - 1 }] == s);
                }
            }
            assert(self@ =~= old(self)@.insert(source));
        }
    }

    pub fn contains(&self, source: &Source) -> (r: bool)
        ensures
            r == self@.contains(*source),
    {
        lists(&self.members, *source)
    }

    /// How many sources there are.
    pub fn len(&self) -> (r: usize)
        ensures
            r == self@.len(),
            self@.finite(),
    {
        proof {
            use_type_invariant(self);
            assert(self.members@.no_duplicates());
            self.members@.unique_seq_to_set();
        }
        self.members.len()
    }
}

/// A source's name between backticks.
pub open spec fn quoted(source: Source) -> Seq<char> {
    "`"@ + source.label() + "`"@
}

/// `a`, `b`, `c`: the way an error lists what it expected.
pub open spec fn listing(sources: Seq<Source>) -> Seq<char> {
    joined(sources.map_values(|s: Source| quoted(s)), ", "@)
}

/// `a`, `b`, `c`: the way an error lists what it expected.
pub fn names_of(sources: &Vec<Source>) -> (r: String)
    ensures
        r@ == listing(sources@),
{
    let mut parts: Vec<String> = Vec::new();
    let ghost all = sources@.map_values(|s: Source| quoted(s));
    let mut i: usize = 0;
    assert(texts(parts@) == all.take(0));
    while i < sources.len()
        invariant
            i <= sources@.len(),
            all == sources@.map_values(|s: Source| quoted(s)),
            texts(parts@) == all.take(i as int),
        decreases sources@.len() - i,
    {
        let one = cat3("`", sources[i].as_str(), "`");
        proof {
            crate::text::texts_push(parts@, one);
            assert(all.take(i as int + 1) == all.take(i as int).push(one@));
        }
        parts.push(one);
        i += 1;
    }
    assert(all.take(i as int) == all);
    join(&parts, ", ")
}

/// What one entry of a `sources` list comes to.
pub open spec fn source_entry(
    backend: Seq<char>,
    setting: Seq<char>,
    value: Seq<char>,
    supported: Seq<Source>,
) -> Result<Source, Seq<char>> {
    let name = trimmed(value);
    match Source::named(name) {
        None => Err(
            setting + ": unknown source `"@ + name + "`; known sources are "@ + listing(
                Source::every(),
            ),
        ),
        Some(source) => if supported.contains(source) {
            Ok(source)
        } else {
            Err(
                setting + ": `"@ + name + "` is not a source "@ + backend + " has; it supports "@
                    + listing(supported),
            )
        },
    }
}

/// Why one entry of a `sources` list is none.
pub open spec fn source_fault(
    backend: Seq<char>,
    setting: Seq<char>,
    supported: Seq<Source>,
) -> spec_fn(Seq<char>) -> Option<Seq<char>> {
    |value: Seq<char>|
        match source_entry(backend, setting, value, supported) {
            Ok(_) => None,
            Err(e) => Some(e),
        }
}

/// The sources that the entries of a list name.
pub open spec fn sources_named(values: Seq<Seq<char>>) -> Seq<Source> {
    values.map_values(|value: Seq<char>| Source::named(trimmed(value))->Some_0)
}

/// What the entries of a `sources` list come to: the first bad one decides.
pub open spec fn source_entries(
    backend: Seq<char>,
    setting: Seq<char>,
    values: Seq<Seq<char>>,
    supported: Seq<Source>,
) -> Result<Set<Source>, Seq<char>> {
    match first_of(values, source_fault(backend, setting, supported)) {
        Some(e) => Err(e),
        None => Ok(sources_named(values).to_set()),
    }
}

/// What a whole `sources` list comes to.
pub open spec fn source_list(
    backend: Seq<char>,
    setting: Seq<char>,
    values: Seq<Seq<char>>,
    supported: Seq<Source>,
) -> Result<Set<Source>, Seq<char>> {
    if values.len() == 0 {
        Err(
            setting
                + " is empty; an inventory trusted for nothing can never permit a name, so every request would be refused. List at least one of: "@
                + listing(supported),
        )
    } else {
        source_entries(backend, setting, values, supported)
    }
}

/// Whether a list of sources holds the given one.
pub fn lists(sources: &Vec<Source>, source: Source) -> (r: bool)
    ensures
        r == sources@.contains(source),
{
    let mut i: usize = 0;
    while i < sources.len()
        invariant
            i <= sources@.len(),
            forall|j: int| 0 <= j < i ==> sources@[j] != source,
        decreases sources@.len() - i,
    {
        if sources[i] == source {
            return true;
        }
        i += 1;
    }
    false
}

/// Parses and validates a `sources` list against what one backend supports.
///
/// Empty, an unknown name, or a name that is not this backend's is an error.
pub fn parse_sources(
    backend: &str,
    setting: &str,
    values: &Vec<String>,
    supported: &Vec<Source>,
) -> (r: Result<Sources, String>)
    ensures
        match r {
            Ok(sources) => source_list(backend@, setting@, texts(values@), supported@) == Ok::<
                Set<Source>,
                Seq<char>,
            >(sources@),
            Err(e) => source_list(backend@, setting@, texts(values@), supported@) == Err::<
                Set<Source>,
                Seq<char>,
            >(e@),
        },
{
    if values.len() == 0 {
        return Err(
            cat3(
                setting,
                " is empty; an inventory trusted for nothing can never permit a name, so every request would be refused. List at least one of: ",
                names_of(supported).as_str(),
            ),
        );
    }
    let mut sources = Sources::new();
    let ghost all = texts(values@);
    let mut i: usize = 0;
    assert(all.take(0) == Seq::<Seq<char>>::empty());
    assert(sources@ =~= sources_named(all).take(0).to_set());
    while i < values.len()
        invariant
            i <= values@.len(),
            values@.len() > 0,
            all == texts(values@),
            first_of(all.take(i as int), source_fault(backend@, setting@, supported@)) is None,
            sources@ == sources_named(all).take(i as int).to_set(),
        decreases values@.len() - i,
    {
        proof {
            first_of_next(all, source_fault(backend@, setting@, supported@), i as int);
            to_set_take(sources_named(all), i as int);
        }
        let name = trim(values[i].as_str());
        match Source::parse(name.as_str()) {
            None => {
                let e = cat5(
                    setting,
                    ": unknown source `",
                    name.as_str(),
                    "`; known sources are ",
                    names_of(&Source::all()).as_str(),
                );
                return Err(e);
            },
            Some(source) => {
                if !lists(supported, source) {
                    let e = cat7(
                        setting,
                        ": `",
                        name.as_str(),
                        "` is not a source ",
                        backend,
                        " has; it supports ",
                        names_of(supported).as_str(),
                    );
                    return Err(e);
                }
                sources.insert(source);
            },
        }
        i += 1;
    }
    assert(all.take(i as int) == all);
    assert(sources_named(all).take(i as int) == sources_named(all));
    Ok(sources)
}

/// A list that is accepted names only sources the backend supports, and each of
/// its entries is among what comes back.
pub proof fn accepted_sources_are_supported(
    backend: Seq<char>,
    setting: Seq<char>,
    values: Seq<Seq<char>>,
    supported: Seq<Source>,
)
    ensures
        source_entries(backend, setting, values, supported) matches Ok(found) ==> {
            &&& forall|s: Source| #[trigger] found.contains(s) ==> supported.contains(s)
            &&& forall|s: Source| #[trigger]
                found.contains(s) <==> exists|i: int|
                    0 <= i < values.len() && Source::named(trimmed(#[trigger] values[i])) == Some(s)
        },
{
    let fault = source_fault(backend, setting, supported);
    first_of_none(values, fault);
    if first_of(values, fault) is None {
        let named = sources_named(values);
        assert forall|i: int| 0 <= i < values.len() implies Source::named(
            trimmed(#[trigger] values[i]),
        ) == Some(named[i]) && supported.contains(named[i]) by {
            assert(fault(values[i]) is None);
        }
        assert forall|s: Source| #[trigger] named.to_set().contains(s) <==> exists|i: int|
            0 <= i < values.len() && Source::named(trimmed(#[trigger] values[i])) == Some(s) by {
            if named.contains(s) {
                let i = choose|i: int| 0 <= i < named.len() && named[i] == s;
                assert(Source::named(trimmed(values[i])) == Some(s));
            }
            if exists|i: int|
                0 <= i < values.len() && Source::named(trimmed(#[trigger] values[i])) == Some(s) {
                let i = choose|i: int|
                    0 <= i < values.len() && Source::named(trimmed(#[trigger] values[i])) == Some(s);
                assert(named[i] == s);
            }
        }
    }
}

/// The strings of a list, in order; what is not a string is passed over.
pub open spec fn strings_of(items: Seq<Json>) -> Seq<Seq<char>>
    decreases items.len(),
{
    if items.len() == 0 {
        Seq::empty()
    } else {
        match items.last().text() {
            Some(s) => strings_of(items.drop_last()).push(s),
            None => strings_of(items.drop_last()),
        }
    }
}

/// A custom field's entries: a string is one, a list gives its strings, and
/// anything else, or nothing, gives none.
pub open spec fn field_entries(fields: Seq<(String, Json)>, field: Seq<char>) -> Seq<Seq<char>> {
    match lookup(fields, field) {
        Some(Json::Text(one)) => seq![one@],
        Some(Json::Array(items)) => strings_of(items@),
        _ => Seq::empty(),
    }
}

/// A custom field's entries, as a list of strings.
///
/// A multi-select field is a list and a plain text field a string; both are
/// accepted. Anything else is no reason to fail: the names simply do not come
/// from there.
pub fn field_values(fields: &Vec<(String, Json)>, field: &str) -> (r: Vec<String>)
    ensures
        texts(r@) == field_entries(fields@, field@),
{
    let mut out: Vec<String> = Vec::new();
    match find(fields, field) {
        Some(Json::Text(one)) => {
            out.push(one.clone());
            assert(texts(out@) == seq![one@]);
        },
        Some(Json::Array(items)) => {
            let mut i: usize = 0;
            assert(items@.take(0) == Seq::<Json>::empty());
            assert(texts(out@) == strings_of(items@.take(0)));
            while i < items.len()
                invariant
                    i <= items@.len(),
                    texts(out@) == strings_of(items@.take(i as int)),
                decreases items@.len() - i,
            {
                assert(items@.take(i as int + 1).drop_last() == items@.take(i as int));
                if let Json::Text(name) = &items[i] {
                    let one = name.clone();
                    proof {
                        crate::text::texts_push(out@, one);
                    }
                    out.push(one);
                }
                i += 1;
            }
            assert(items@.take(i as int) == items@);
        },
        _ => {
            assert(texts(out@) == Seq::<Seq<char>>::empty());
        },
    }
    out
}

/// A JSON value's type name.
pub open spec fn kind_of(value: Json) -> Seq<char> {
    match value {
        Json::Null => "null"@,
        Json::Bool(_) => "bool"@,
        Json::Number(_) => "number"@,
        Json::Text(_) => "string"@,
        Json::Array(_) => "array"@,
        Json::Object(_) => "object"@,
    }
}

/// A JSON value's type name, for a log line that should not carry the value.
pub fn value_kind(value: &Json) -> (r: &'static str)
    ensures
        r@ == kind_of(*value),
{
    match value {
        Json::Null => "null",
        Json::Bool(_) => "bool",
        Json::Number(_) => "number",
        Json::Text(_) => "string",
        Json::Array(_) => "array",
        Json::Object(_) => "object",
    }
}

/// An inventory that a profile consults.
pub trait Ipam {
    /// The product's name.
    spec fn product(&self) -> Seq<char>;

    /// The product's name, as it reads in a log line or a refusal.
    fn name(&self) -> (r: &'static str)
        ensures
            r@ == self.product(),
    ;
}

/// A configured inventory.
pub enum IpamBackend {
    Netbox(NetboxBackend<NetboxClient>),
    PhpIpam(PhpIpamBackend<PhpIpamClient>),
}

impl Ipam for IpamBackend {
    open spec fn product(&self) -> Seq<char> {
        match self {
            IpamBackend::Netbox(_) => "NetBox"@,
            IpamBackend::PhpIpam(_) => "phpIPAM"@,
        }
    }

    fn name(&self) -> (r: &'static str) {
        match self {
            IpamBackend::Netbox(backend) => backend.name(),
            IpamBackend::PhpIpam(backend) => backend.name(),
        }
    }
}

/// The configured backend plus the budget every lookup runs under. One budget
/// covers all the requests that answer one question.
pub struct IpamRegistry<B> {
    pub backend: B,
    pub timeout: Duration,
}

impl<B: Ipam> IpamRegistry<B> {
    /// Wraps a backend in its budget.
    pub fn new(backend: B, timeout: Duration) -> (r: IpamRegistry<B>)
        ensures
            r.backend == backend,
            r.timeout == timeout,
    {
        IpamRegistry { backend, timeout }
    }

    /// The backend's name, so a refusal can say which inventory refused.
    pub fn backend_name(&self) -> (r: &'static str)
        ensures
            r@ == self.backend.product(),
    {
        self.backend.name()
    }

    /// What may be shown of a registry: the backend's name and the budget.
    pub fn describe(&self) -> (r: String)
        ensures
            r@ == "IpamRegistry { backend: "@ + quoted_words(self.backend.product())
                + ", timeout: "@ + span_of(self.timeout@) + " }"@,
    {
        crate::text::cat5(
            "IpamRegistry { backend: ",
            crate::debug::quoted(self.backend.name()).as_str(),
            ", timeout: ",
            span(self.timeout).as_str(),
            " }",
        )
    }

    /// What one lookup comes to: the backend's own answer, or an error when the
    /// budget ran out first (`None`).
    pub fn names_for(&self, ip: &str, answer: Option<Result<AddressNames, IpamError>>) -> (r:
        Result<AddressNames, IpamError>)
        ensures
            match answer {
                Some(given) => r == given,
                None => r matches Err(e) && e.0@ == self.backend.product() + " lookup for "@ + ip@
                    + " timed out after "@ + crate::text::decimal(self.timeout@ / 1_000_000)
                    + "ms"@,
            },
    {
        match answer {
            Some(given) => given,
            None => Err(
                IpamError(
                    crate::text::cat6(
                        self.backend.name(),
                        " lookup for ",
                        ip,
                        " timed out after ",
                        crate::text::number(self.timeout.as_millis()).as_str(),
                        "ms",
                    ),
                ),
            ),
        }
    }
}

/// The `[ipam]` section.
#[derive(Debug, Clone, PartialEq, Eq)]
pub struct IpamConfig {
    pub backend: String,
    pub timeout_ms: u64,
    pub netbox: NetboxConfig,
    pub phpipam: PhpIpamConfig,
}

impl Default for IpamConfig {
    fn default() -> (r: IpamConfig)
        ensures
            r.backend@.len() == 0,
            r.timeout_ms == 5000,
            r.netbox.defaults(),
            r.phpipam.defaults(),
    {
        IpamConfig {
            backend: String::new(),
            timeout_ms: 5000,
            netbox: NetboxConfig::default(),
            phpipam: PhpIpamConfig::default(),
        }
    }
}

/// What the configured inventory trusts, and the setting that says so; nothing
/// when none is configured.
pub fn trust_wanted(cfg: &IpamConfig) -> (r: Option<(TlsTrust, &'static str)>)
    ensures
        match r {
            None => trimmed(cfg.backend@) != "netbox"@ && trimmed(cfg.backend@) != "phpipam"@,
            Some((trust, setting)) => {
                let (path, skip) = if trimmed(cfg.backend@) == "netbox"@ {
                    (cfg.netbox.ca_cert_path@, cfg.netbox.insecure_skip_verify)
                } else {
                    (cfg.phpipam.ca_cert_path@, cfg.phpipam.insecure_skip_verify)
                };
                &&& trimmed(cfg.backend@) == "netbox"@ ==> setting@ == "ipam.netbox.ca_cert_path"@
                &&& trimmed(cfg.backend@) != "netbox"@ ==> trimmed(cfg.backend@) == "phpipam"@
                    && setting@ == "ipam.phpipam.ca_cert_path"@
                &&& (trust is Anything) == skip
                &&& (trust is PublicRoots) == (!skip && trimmed(path).len() == 0)
                &&& trust matches TlsTrust::PublicRootsAnd(file) ==> file@ == trimmed(path)
            },
        },
{
    let backend = trim(cfg.backend.as_str());
    if same(backend.as_str(), "netbox") {
        Some(
            (
                tls_config(cfg.netbox.ca_cert_path.as_str(), cfg.netbox.insecure_skip_verify),
                "ipam.netbox.ca_cert_path",
            ),
        )
    } else if same(backend.as_str(), "phpipam") {
        Some(
            (
                tls_config(cfg.phpipam.ca_cert_path.as_str(), cfg.phpipam.insecure_skip_verify),
                "ipam.phpipam.ca_cert_path",
            ),
        )
    } else {
        None
    }
}

/// Builds the configured inventory, or `None` when none is configured.
///
/// `trust` is what came of loading the certificates that the configured
/// backend asks for. It contacts nothing: an inventory that is down at startup
/// is an outage, not a configuration error.
pub fn from_config(cfg: &IpamConfig, trust: Result<TlsTrust, String>) -> (r: Result<
    Option<IpamRegistry<IpamBackend>>,
    String,
>)
    ensures
        if trimmed(cfg.backend@).len() == 0 {
            r matches Ok(found) && found is None
        } else if trimmed(cfg.backend@) == "netbox"@ {
            match (netbox_config_error(cfg.netbox), trust) {
                (Some(e), _) => r matches Err(got) && got@ == e,
                (None, Err(e)) => r matches Err(got) && got@ == e@,
                (None, Ok(tls)) => match (
                    base_url(cfg.netbox.url@, "ipam.netbox.url"@),
                    netbox_policy(cfg.netbox),
                ) {
                    (Err(e), _) => r matches Err(got) && got@ == e,
                    (_, Err(e)) => r matches Err(got) && got@ == e,
                    (Ok(base), Ok(sources)) => r matches Ok(Some(registry)) && {
                        &&& registry.timeout@ == cfg.timeout_ms * 1_000_000
                        &&& registry.backend matches IpamBackend::Netbox(backend) && {
                            &&& backend.api.api.base@ == base
                            &&& backend.api.api.tls == tls
                            &&& backend.api.api.headers@.len() == 1
                            &&& backend.api.api.headers@[0].0@ == "authorization"@
                            &&& backend.api.api.headers@[0].1@ == "Token "@ + cfg.netbox.token@
                            &&& backend.sources@ == sources
                            &&& backend.custom_field@ == cfg.netbox.custom_field@
                            &&& texts(backend.vip_roles@) == texts(cfg.netbox.vip_roles@)
                        }
                    },
                },
            }
        } else if trimmed(cfg.backend@) == "phpipam"@ {
            match (phpipam_config_error(cfg.phpipam), trust) {
                (Some(e), _) => r matches Err(got) && got@ == e,
                (None, Err(e)) => r matches Err(got) && got@ == e@,
                (None, Ok(tls)) => match (
                    base_url(cfg.phpipam.url@, "ipam.phpipam.url"@),
                    phpipam_policy(cfg.phpipam),
                ) {
                    (Err(e), _) => r matches Err(got) && got@ == e,
                    (_, Err(e)) => r matches Err(got) && got@ == e,
                    (Ok(base), Ok(sources)) => r matches Ok(Some(registry)) && {
                        &&& registry.timeout@ == cfg.timeout_ms * 1_000_000
                        &&& registry.backend matches IpamBackend::PhpIpam(backend) && {
                            &&& backend.api.api.base@ == base
                            &&& backend.api.api.tls == tls
                            &&& backend.api.api.headers@.len() == 1
                            &&& backend.api.api.headers@[0].0@ == "token"@
                            &&& backend.api.api.headers@[0].1@ == cfg.phpipam.token@
                            &&& backend.api.app_id@ == trimmed(cfg.phpipam.app_id@)
                            &&& backend.sources@ == sources
                            &&& backend.custom_field@ == cfg.phpipam.custom_field@
                        }
                    },
                },
            }
        } else {
            r matches Err(e) && e@ == "unknown IPAM backend: "@ + trimmed(cfg.backend@)
                + " (expected `netbox` or `phpipam`)"@
        },
{
    let name = trim(cfg.backend.as_str());
    proof {
        reveal_strlit("netbox");
        reveal_strlit("phpipam");
    }
    let backend = if name.as_str().is_empty() {
        return Ok(None);
    } else if same(name.as_str(), "netbox") {
        match NetboxBackend::from_config(&cfg.netbox, trust) {
            Ok(backend) => IpamBackend::Netbox(backend),
            Err(e) => {
                return Err(e);
            },
        }
    } else if same(name.as_str(), "phpipam") {
        match PhpIpamBackend::from_config(&cfg.phpipam, trust) {
            Ok(backend) => IpamBackend::PhpIpam(backend),
            Err(e) => {
                return Err(e);
            },
        }
    } else {
        return Err(
            cat3(
                "unknown IPAM backend: ",
                name.as_str(),
                " (expected `netbox` or `phpipam`)",
            ),
        );
    };
    Ok(Some(IpamRegistry::new(backend, Duration::from_millis(cfg.timeout_ms))))
}

/// The normal form of a value is what is left without the white space around it and
/// then without the dots at its end, in small letters.
pub proof fn the_normal_form_drops_space_and_dots(s: Seq<char>)
    ensures
        exists|w: Seq<char>|
            normal(s) == #[trigger] lowered(w) && w.len() <= trimmed(s).len() && w == trimmed(
                s,
            ).take(w.len() as int) && (w.len() > 0 ==> w.last() != '.') && (forall|k: int|
                w.len() <= k < trimmed(s).len() ==> #[trigger] trimmed(s)[k] == '.'),
{
    let t = trimmed(s);
    without_dots_front(t);
    without_dots_rest(t);
    assert(normal(s) == lowered(without_dots(t)));
}

proof fn without_dots_rest(s: Seq<char>)
    ensures
        forall|k: int| without_dots(s).len() <= k < s.len() ==> #[trigger] s[k] == '.',
    decreases s.len(),
{
    if s.len() > 0 && s.last() == '.' {
        let front = s.drop_last();
        without_dots_rest(front);
        assert forall|k: int| without_dots(s).len() <= k < s.len() implies #[trigger] s[k]
            == '.' by {
            if k < front.len() {
                assert(front[k] == '.');
            }
        }
    }
}

/// Taking a value in keeps every name there was and adds its normal form, if that is
/// not empty, and nothing else.
pub proof fn taking_a_value_in(
    names: Set<Seq<char>>,
    value: Seq<char>,
    values: Seq<Seq<char>>,
    n: Seq<char>,
)
    ensures
        with_name(names, value).contains(n) <==> names.contains(n) || (n.len() > 0 && n == normal(
            value,
        )),
        with_names(names, values).contains(n) <==> names.contains(n) || (n.len() > 0 && exists|
            i: int,
        | 0 <= i < values.len() && n == normal(#[trigger] values[i])),
        names_from(values).contains(n) <==> n.len() > 0 && exists|i: int|
            0 <= i < values.len() && n == normal(#[trigger] values[i]),
{
    with_names_is_union(names, values);
}

/// Each source is configured under its own name.
pub proof fn sources_are_named(name: Seq<char>)
    ensures
        Source::named("dns_name"@) == Some(Source::DnsName),
        Source::named("custom_field"@) == Some(Source::CustomField),
        Source::named("device"@) == Some(Source::Device),
        Source::named("vip"@) == Some(Source::Vip),
        Source::named("fhrp"@) == Some(Source::Fhrp),
        Source::named(name) is Some ==> name == "dns_name"@ || name == "custom_field"@ || name
            == "device"@ || name == "vip"@ || name == "fhrp"@,
        Source::DnsName.label() == "dns_name"@,
        Source::CustomField.label() == "custom_field"@,
        Source::Device.label() == "device"@,
        Source::Vip.label() == "vip"@,
        Source::Fhrp.label() == "fhrp"@,
        forall|source: Source| #[trigger] Source::every().contains(source),
{
    source_names_round_trip(Source::DnsName, name);
    source_names_round_trip(Source::CustomField, name);
    source_names_round_trip(Source::Device, name);
    source_names_round_trip(Source::Vip, name);
    source_names_round_trip(Source::Fhrp, name);
    let all = Source::every();
    assert(all[0] == Source::DnsName && all[1] == Source::CustomField && all[2] == Source::Device
        && all[3] == Source::Vip && all[4] == Source::Fhrp);
    assert forall|source: Source| #[trigger] all.contains(source) by {
        match source {
            Source::DnsName => assert(all[0] == source),
            Source::CustomField => assert(all[1] == source),
            Source::Device => assert(all[2] == source),
            Source::Vip => assert(all[3] == source),
            Source::Fhrp => assert(all[4] == source),
        }
    }
}

/// A list of sources is accepted exactly when it is not empty and each entry, without
/// the white space around it, names a source that the backend has.
pub proof fn a_list_of_supported_sources_is_accepted(
    backend: Seq<char>,
    setting: Seq<char>,
    values: Seq<Seq<char>>,
    supported: Seq<Source>,
)
    ensures
        source_list(backend, setting, values, supported) is Ok <==> values.len() > 0 && forall|
            i: int,
        |
            0 <= i < values.len() ==> (Source::named(trimmed(#[trigger] values[i])) is Some
                && supported.contains(Source::named(trimmed(values[i]))->Some_0)),
        source_list(backend, setting, values, supported) matches Ok(found) ==> forall|s: Source|
            #[trigger] found.contains(s) <==> exists|i: int|
                0 <= i < values.len() && Source::named(trimmed(#[trigger] values[i])) == Some(s),
        values.len() == 0 ==> source_list(backend, setting, values, supported) == Err::<
            Set<Source>,
            Seq<char>,
        >(
            setting
                + " is empty; an inventory trusted for nothing can never permit a name, so every request would be refused. List at least one of: "@
                + listing(supported),
        ),
{
    accepted_sources_are_supported(backend, setting, values, supported);
    let fault = source_fault(backend, setting, supported);
    first_of_none(values, fault);
    assert forall|value: Seq<char>| (#[trigger] fault(value)) is None <==> (Source::named(
        trimmed(value),
    ) is Some && supported.contains(Source::named(trimmed(value))->Some_0)) by {}
    if source_list(backend, setting, values, supported) is Ok {
        assert forall|i: int| 0 <= i < values.len() implies (Source::named(
            trimmed(#[trigger] values[i]),
        ) is Some && supported.contains(Source::named(trimmed(values[i]))->Some_0)) by {
            assert(fault(values[i]) is None);
        }
    }
    if values.len() > 0 && forall|i: int|
        0 <= i < values.len() ==> (Source::named(trimmed(#[trigger] values[i])) is Some
            && supported.contains(Source::named(trimmed(values[i]))->Some_0)) {
        assert forall|i: int| 0 <= i < values.len() implies fault(#[trigger] values[i]) is None by {
            assert(Source::named(trimmed(values[i])) is Some);
        }
    }
}

/// What a bad entry of a list of sources is told.
pub proof fn a_bad_source_is_told_why(
    backend: Seq<char>,
    setting: Seq<char>,
    value: Seq<char>,
    supported: Seq<Source>,
)
    ensures
        Source::named(trimmed(value)) is None ==> source_entry(backend, setting, value, supported)
            == Err::<Source, Seq<char>>(
            setting + ": unknown source `"@ + trimmed(value) + "`; known sources are "@ + listing(
                Source::every(),
            ),
        ),
        Source::named(trimmed(value)) matches Some(s) && !supported.contains(s) ==> source_entry(
            backend,
            setting,
            value,
            supported,
        ) == Err::<Source, Seq<char>>(
            setting + ": `"@ + trimmed(value) + "` is not a source "@ + backend
                + " has; it supports "@ + listing(supported),
        ),
        Source::named(trimmed(value)) matches Some(s) && supported.contains(s) ==> source_entry(
            backend,
            setting,
            value,
            supported,
        ) == Ok::<Source, Seq<char>>(Source::named(trimmed(value))->Some_0),
{
}

/// The entries of a custom field are its one string, or the strings of its list in
/// their order; any other value, and no value, gives none.
pub proof fn a_field_gives_its_strings(
    fields: Seq<(String, Json)>,
    field: Seq<char>,
    a: Seq<Json>,
    b: Seq<Json>,
    item: Json,
)
    ensures
        lookup(fields, field) matches Some(Json::Text(one)) ==> field_entries(fields, field)
            == seq![one@],
        lookup(fields, field) matches Some(Json::Array(items)) ==> field_entries(fields, field)
            == strings_of(items@),
        !(lookup(fields, field) is Some && (lookup(fields, field)->Some_0 is Text || lookup(
            fields,
            field,
        )->Some_0 is Array)) ==> field_entries(fields, field).len() == 0,
        strings_of(Seq::empty()).len() == 0,
        item matches Json::Text(s) ==> strings_of(seq![item]) == seq![s@],
        !(item is Text) ==> strings_of(seq![item]).len() == 0,
        strings_of(a + b) == strings_of(a) + strings_of(b),
    decreases b.len(),
{
    assert(seq![item].drop_last() =~= Seq::<Json>::empty());
    assert(strings_of(Seq::<Json>::empty()) =~= Seq::<Seq<char>>::empty());
    assert(item matches Json::Text(s) ==> strings_of(seq![item]) =~= seq![s@]);
    if b.len() == 0 {
        assert(a + b =~= a);
        assert(strings_of(a) + strings_of(b) =~= strings_of(a));
    } else {
        let front = b.drop_last();
        a_field_gives_its_strings(fields, field, a, front, item);
        assert((a + b).drop_last() =~= a + front);
        assert((a + b).last() == b.last());
        match b.last().text() {
            Some(s) => {
                assert((strings_of(a) + strings_of(front)).push(s) =~= strings_of(a) + strings_of(
                    front,
                ).push(s));
            },
            None => {},
        }
    }
}

/// A type is called by its JSON name.
pub proof fn types_are_named(value: Json)
    ensures
        value is Null ==> kind_of(value) == "null"@,
        value is Bool ==> kind_of(value) == "bool"@,
        value is Number ==> kind_of(value) == "number"@,
        value is Text ==> kind_of(value) == "string"@,
        value is Array ==> kind_of(value) == "array"@,
        value is Object ==> kind_of(value) == "object"@,
{
}

/// An error lists sources by their names between backticks, with a comma between
/// each two.
pub proof fn sources_are_listed_by_name(sources: Seq<Source>)
    ensures
        listing(sources) == joined(
            Seq::new(sources.len(), |i: int| "`"@ + sources[i].label() + "`"@),
            ", "@,
        ),
{
    assert(sources.map_values(|s: Source| quoted(s)) =~= Seq::new(
        sources.len(),
        |i: int| "`"@ + sources[i].label() + "`"@,
    ));
}

/// Each product goes by its own name.
pub proof fn products_are_named(backend: IpamBackend)
    ensures
        backend is Netbox ==> backend.product() == "NetBox"@,
        backend is PhpIpam ==> backend.product() == "phpIPAM"@,
{
}

/// A set of sources is printed between braces, each source in it by its variant's name and
/// no other, in the order of the list.
pub proof fn sources_are_printed_by_name(sources: Set<Source>, list: Seq<Source>, source: Source)
    ensures
        sources_of(sources) == "{"@ + joined(shown(sources, Source::every()), ", "@) + "}"@,
        shown(sources, Seq::empty()).len() == 0,
        sources.contains(source) ==> shown(sources, list.push(source)) == shown(sources, list).push(
            source.variant(),
        ),
        !sources.contains(source) ==> shown(sources, list.push(source)) == shown(sources, list),
        Source::DnsName.variant() == "DnsName"@,
        Source::CustomField.variant() == "CustomField"@,
        Source::Device.variant() == "Device"@,
        Source::Vip.variant() == "Vip"@,
        Source::Fhrp.variant() == "Fhrp"@,
{
    assert(list.push(source).drop_last() =~= list);
}

} // verus!
