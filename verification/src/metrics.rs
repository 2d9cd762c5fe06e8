//! The process's counters, in the Prometheus text exposition format.
//!
//! Every label value comes from a closed set: a configured profile, a matched
//! route pattern, a status code, a problem type. A request that matched no route
//! is counted under one fixed label, never under its own path.

use crate::sorted::{before, before_irreflexive, before_total, before_transitive, precedes};
use crate::text::{
    begins, cat4, cat6, chars_of, decimal, join, joined, number, same, string_of, strip_prefix,
    texts, texts_push,
};
use vstd::prelude::*;
use vstd::string::*;

verus! {

/// Dictionary order of lists of strings.
pub open spec fn list_before(a: Seq<Seq<char>>, b: Seq<Seq<char>>) -> bool
    decreases a.len(),
{
    if b.len() == 0 {
        false
    } else if a.len() == 0 {
        true
    } else if a[0] != b[0] {
        before(a[0], b[0])
    } else {
        list_before(a.skip(1), b.skip(1))
    }
}

proof fn list_before_irreflexive(a: Seq<Seq<char>>)
    ensures
        !list_before(a, a),
    decreases a.len(),
{
    if a.len() > 0 {
        list_before_irreflexive(a.skip(1));
    }
}

proof fn list_before_transitive(a: Seq<Seq<char>>, b: Seq<Seq<char>>, c: Seq<Seq<char>>)
    requires
        list_before(a, b),
        list_before(b, c),
    ensures
        list_before(a, c),
    decreases a.len(),
{
    if a.len() > 0 {
        if a[0] == b[0] && b[0] == c[0] {
            list_before_transitive(a.skip(1), b.skip(1), c.skip(1));
        } else if a[0] != b[0] && b[0] != c[0] {
            before_transitive(a[0], b[0], c[0]);
            before_irreflexive(a[0]);
        }
    }
}

proof fn list_before_total(a: Seq<Seq<char>>, b: Seq<Seq<char>>)
    requires
        a != b,
    ensures
        list_before(a, b) || list_before(b, a),
    decreases a.len(),
{
    if a.len() == 0 {
        assert(b.len() > 0) by {
            if b.len() == 0 {
                assert(a =~= b);
            }
        }
    } else if b.len() > 0 {
        if a[0] != b[0] {
            before_total(a[0], b[0]);
        } else {
            if a.skip(1) == b.skip(1) {
                assert(a =~= seq![a[0]] + a.skip(1));
                assert(b =~= seq![b[0]] + b.skip(1));
            }
            list_before_total(a.skip(1), b.skip(1));
        }
    }
}

fn list_precedes(a: &Vec<String>, b: &Vec<String>) -> (r: bool)
    ensures
        r == list_before(texts(a@), texts(b@)),
{
    let ghost (x, y) = (texts(a@), texts(b@));
    let mut i: usize = 0;
    assert(x.skip(0) == x && y.skip(0) == y);
    while i < a.len() && i < b.len()
        invariant
            i <= a@.len(),
            i <= b@.len(),
            x == texts(a@),
            y == texts(b@),
            list_before(x, y) == list_before(x.skip(i as int), y.skip(i as int)),
        decreases a@.len() - i,
    {
        assert(x.skip(i as int).skip(1) == x.skip(i as int + 1));
        assert(y.skip(i as int).skip(1) == y.skip(i as int + 1));
        if !same(a[i].as_str(), b[i].as_str()) {
            return precedes(a[i].as_str(), b[i].as_str());
        }
        i += 1;
    }
    i < b.len()
}

/// The label values of one series, in the order of the family's label names,
/// and its count.
#[derive(Debug)]
struct Series {
    labels: Vec<String>,
    count: u64,
}

spec fn labels_of(series: Seq<Series>) -> Seq<Seq<Seq<char>>> {
    series.map_values(|s: Series| texts(s.labels@))
}

/// Strictly ascending.
pub open spec fn lists_ascend(keys: Seq<Seq<Seq<char>>>) -> bool {
    forall|i: int, j: int|
        0 <= i < j < keys.len() ==> list_before(#[trigger] keys[i], #[trigger] keys[j])
}

/// The counters of one metric family, walked in ascending order of their label
/// values.
pub struct Family {
    series: Vec<Series>,
}

impl View for Family {
    type V = Map<Seq<Seq<char>>, u64>;

    /// The count of each list of label values that was ever counted.
    closed spec fn view(&self) -> Map<Seq<Seq<char>>, u64> {
        Map::new(
            |k: Seq<Seq<char>>| labels_of(self.series@).contains(k),
            |k: Seq<Seq<char>>| self.series@[labels_of(self.series@).index_of(k)].count,
        )
    }
}

/// How often a list of label values was counted.
pub open spec fn count_in(counts: Map<Seq<Seq<char>>, u64>, labels: Seq<Seq<char>>) -> u64 {
    if counts.dom().contains(labels) {
        counts[labels]
    } else {
        0
    }
}

impl Family {
    #[verifier::type_invariant]
    spec fn ordered(self) -> bool {
        lists_ascend(labels_of(self.series@))
    }

    /// The lists of label values that were counted, ascending.
    pub closed spec fn order(&self) -> Seq<Seq<Seq<char>>> {
        labels_of(self.series@)
    }

    /// The walk is over exactly the lists that were counted, and it is fixed by
    /// them.
    pub proof fn order_is_the_domain(&self)
        ensures
            self.order().to_set() == self@.dom(),
    {
        assert(labels_of(self.series@).to_set() =~= self@.dom());
    }

    pub fn new() -> (r: Family)
        ensures
            r@ == Map::<Seq<Seq<char>>, u64>::empty(),
            r.order() == Seq::<Seq<Seq<char>>>::empty(),
    {
        let r = Family { series: Vec::new() };
        assert(r@ =~= Map::<Seq<Seq<char>>, u64>::empty());
        assert(r.order() =~= Seq::<Seq<Seq<char>>>::empty());
        r
    }

    proof fn distinct(&self)
        requires
            lists_ascend(labels_of(self.series@)),
        ensures
            labels_of(self.series@).no_duplicates(),
    {
        let ks = labels_of(self.series@);
        assert forall|i: int, j: int| 0 <= i < j < ks.len() implies ks[i] != ks[j] by {
            list_before_irreflexive(ks[i]);
            assert(list_before(ks[i], ks[j]));
        }
    }

    proof fn count_at(&self, i: int)
        requires
            lists_ascend(labels_of(self.series@)),
            0 <= i < self.series@.len(),
        ensures
            self@.dom().contains(labels_of(self.series@)[i]),
            self@[labels_of(self.series@)[i]] == self.series@[i].count,
    {
        let ks = labels_of(self.series@);
        self.distinct();
        let k = ks[i];
        assert(ks.contains(k));
        let j = ks.index_of(k);
        assert(0 <= j < ks.len() && ks[j] == k);
    }

    /// Where a list of label values stands, or where it would go.
    fn slot_of(&self, labels: &Vec<String>) -> (r: usize)
        requires
            lists_ascend(labels_of(self.series@)),
        ensures
            r <= self.series@.len(),
            forall|j: int|
                0 <= j < r ==> list_before(#[trigger] labels_of(self.series@)[j], texts(labels@)),
            forall|j: int|
                r <= j < self.series@.len() && (j > r || labels_of(self.series@)[j] != texts(
                    labels@,
                )) ==> list_before(texts(labels@), #[trigger] labels_of(self.series@)[j]),
            labels_of(self.series@).contains(texts(labels@)) == (r < self.series@.len()
                && labels_of(self.series@)[r as int] == texts(labels@)),
    {
        let mut i: usize = 0;
        let ghost ks = labels_of(self.series@);
        let ghost key = texts(labels@);
        while i < self.series.len() && list_precedes(&self.series[i].labels, labels)
            invariant
                i <= self.series@.len(),
                ks == labels_of(self.series@),
                key == texts(labels@),
                forall|j: int| 0 <= j < i ==> list_before(#[trigger] ks[j], key),
            decreases self.series@.len() - i,
        {
            i += 1;
        }
        proof {
            list_before_irreflexive(key);
            if i < ks.len() && ks[i as int] != key {
                list_before_total(ks[i as int], key);
            }
            assert forall|j: int| i <= j < ks.len() && (j > i || ks[j] != key) implies list_before(
                key,
                #[trigger] ks[j],
            ) by {
                if j > i {
                    assert(list_before(ks[i as int], ks[j]));
                    if ks[i as int] != key {
                        list_before_transitive(key, ks[i as int], ks[j]);
                    }
                }
            }
            if ks.contains(key) {
                let j = choose|j: int| 0 <= j < ks.len() && ks[j] == key;
                assert(j == i);
            }
        }
        i
    }

    /// How often a list of label values was counted.
    pub fn count(&self, labels: &Vec<String>) -> (r: u64)
        ensures
            r == count_in(self@, texts(labels@)),
    {
        proof {
            use_type_invariant(self);
        }
        let at: usize = self.slot_of(labels);
        if at < self.series.len() && same_lists(&self.series[at].labels, labels) {
            proof {
                self.count_at(at as int);
            }
            self.series[at].count
        } else {
            0
        }
    }

    /// Counts a list of label values once more.
    pub fn bump(&mut self, labels: Vec<String>)
        requires
            count_in(old(self)@, texts(labels@)) < u64::MAX,
        ensures
            final(self)@ == old(self)@.insert(
                texts(labels@),
                (count_in(old(self)@, texts(labels@)) + 1) as u64,
            ),
    {
        proof {
            use_type_invariant(&*self);
        }
        let ghost was = *self;
        let ghost ks = labels_of(self.series@);
        let ghost key = texts(labels@);
        let ghost want = was@.insert(key, (count_in(was@, key) + 1) as u64);
        let at: usize = self.slot_of(&labels);
        if at < self.series.len() && same_lists(&self.series[at].labels, &labels) {
            proof {
                was.count_at(at as int);
            }
            let count: u64 = self.series[at].count + 1;
            assert(labels_of(self.series@.update(at as int, Series { labels, count })) =~= ks);
            let mut series: Vec<Series> = Vec::new();
            std::mem::swap(&mut self.series, &mut series);
            series.set(at, Series { labels, count });
            self.series = series;
            proof {
                assert forall|k: Seq<Seq<char>>| ks.contains(k) implies self@[k] == want[k] by {
                    let j = ks.index_of(k);
                    assert(0 <= j < ks.len() && ks[j] == k);
                    self.count_at(j);
                    was.count_at(j);
                    if k == key {
                        was.distinct();
                        assert(j == at);
                    }
                }
                assert(self@ =~= want);
            }
            return;
        }
        proof {
            let new = ks.insert(at as int, key);
            assert(labels_of(self.series@.insert(at as int, Series { labels, count: 1 })) =~= new);
            assert forall|i: int, j: int| 0 <= i < j < new.len() implies list_before(
                #[trigger] new[i],
                #[trigger] new[j],
            ) by {
                if i != at {
                    assert(new[i] == ks[if i < at { i } else { i - 1 }]);
                }
                if j != at {
                    assert(new[j] == ks[if j < at { j } else { j - 1 }]);
                }
            }
        }
        let mut series: Vec<Series> = Vec::new();
        std::mem::swap(&mut self.series, &mut series);
        series.insert(at, Series { labels, count: 1 });
        self.series = series;
        proof {
            let new = labels_of(self.series@);
            self.count_at(at as int);
            assert forall|k: Seq<Seq<char>>| new.contains(k) <==> (k == key || ks.contains(k)) by {
                if ks.contains(k) {
                    let j = choose|j: int| 0 <= j < ks.len() && ks[j] == k;
                    assert(new[if j < at { j } else { j + 1 }] == k);
                }
                assert(new[at as int] == key);
                if new.contains(k) && k != key {
                    let j = choose|j: int| 0 <= j < new.len() && new[j] == k;
                    assert(ks[if j < at { j } else { j - 1 }] == k);
                }
            }
            assert forall|k: Seq<Seq<char>>| new.contains(k) implies self@[k] == want[k] by {
                if k != key {
                    let j = ks.index_of(k);
                    assert(0 <= j < ks.len() && ks[j] == k);
                    was.count_at(j);
                    let n = if j < at { j } else { j + 1 };
                    self.count_at(n);
                    assert(new[n] == k);
                }
            }
            assert(self@ =~= want);
        }
    }
}

fn same_lists(a: &Vec<String>, b: &Vec<String>) -> (r: bool)
    ensures
        r == (texts(a@) == texts(b@)),
{
    if a.len() != b.len() {
        assert(texts(a@).len() != texts(b@).len());
        return false;
    }
    let mut i: usize = 0;
    while i < a.len()
        invariant
            i <= a@.len() == b@.len(),
            forall|j: int| 0 <= j < i ==> texts(a@)[j] == texts(b@)[j],
        decreases a@.len() - i,
    {
        if !same(a[i].as_str(), b[i].as_str()) {
            assert(texts(a@)[i as int] != texts(b@)[i as int]);
            return false;
        }
        i += 1;
    }
    assert(texts(a@) =~= texts(b@));
    true
}

// ---------------------------------------------------------------- rendering
/// One character of a label value as the format writes it.
pub open spec fn escaped_char(c: char) -> Seq<char> {
    if c == '\\' {
        seq!['\\', '\\']
    } else if c == '"' {
        seq!['\\', '"']
    } else if c == '\n' {
        seq!['\\', 'n']
    } else {
        seq![c]
    }
}

/// A label value as the format writes it.
pub open spec fn escaped(s: Seq<char>) -> Seq<char>
    decreases s.len(),
{
    if s.len() == 0 {
        Seq::empty()
    } else {
        escaped(s.drop_last()) + escaped_char(s.last())
    }
}

/// Escapes a label value for the text exposition format, which knows three
/// escapes: for the backslash, the double quote and the newline.
pub fn escape_label(value: &str) -> (r: String)
    ensures
        r@ == escaped(value@),
{
    let cs = chars_of(value);
    let mut out = String::new();
    let mut i: usize = 0;
    assert(cs@.take(0) == Seq::<char>::empty());
    while i < cs.len()
        invariant
            i <= cs@.len(),
            out@ == escaped(cs@.take(i as int)),
        decreases cs@.len() - i,
    {
        let c = cs[i];
        let ghost held = out@;
        assert(cs@.take(i as int + 1).drop_last() == cs@.take(i as int));
        if c == '\\' {
            out.push('\\');
            out.push('\\');
        } else if c == '"' {
            out.push('\\');
            out.push('"');
        } else if c == '\n' {
            out.push('\\');
            out.push('n');
        } else {
            out.push(c);
        }
        assert(out@ == held + escaped_char(c));
        i += 1;
    }
    assert(cs@.take(i as int) == cs@);
    out
}

/// The label set of a series: `name="value"` for each, with commas between.
pub open spec fn label_parts(names: Seq<Seq<char>>, values: Seq<Seq<char>>) -> Seq<Seq<char>>
    recommends
        names.len() == values.len(),
{
    Seq::new(values.len(), |i: int| names[i] + "=\""@ + escaped(values[i]) + "\""@)
}

/// The line of one series.
pub open spec fn series_line(
    name: Seq<char>,
    names: Seq<Seq<char>>,
    values: Seq<Seq<char>>,
    count: u64,
) -> Seq<char> {
    name + "{"@ + joined(label_parts(names, values), ","@) + "} "@ + decimal(count as nat) + "\n"@
}

/// The lines of several series, one after the other.
pub open spec fn series_lines(
    name: Seq<char>,
    names: Seq<Seq<char>>,
    order: Seq<Seq<Seq<char>>>,
    counts: Map<Seq<Seq<char>>, u64>,
) -> Seq<char>
    decreases order.len(),
{
    if order.len() == 0 {
        Seq::empty()
    } else {
        series_lines(name, names, order.drop_last(), counts) + series_line(
            name,
            names,
            order.last(),
            counts[order.last()],
        )
    }
}

/// The two lines that declare a metric.
pub open spec fn declaration(name: Seq<char>, kind: Seq<char>, help: Seq<char>) -> Seq<char> {
    "# HELP "@ + name + " "@ + help + "\n# TYPE "@ + name + " "@ + kind + "\n"@
}

/// A whole family: its declaration, and a line for each series.
pub open spec fn family_text(
    name: Seq<char>,
    kind: Seq<char>,
    help: Seq<char>,
    names: Seq<Seq<char>>,
    family: Family,
) -> Seq<char> {
    declaration(name, kind, help) + series_lines(name, names, family.order(), family@)
}

fn render_labels(names: &Vec<&str>, values: &Vec<String>) -> (r: String)
    requires
        names@.len() == values@.len(),
    ensures
        r@ == joined(
            label_parts(names@.map_values(|s: &str| s@), texts(values@)),
            ","@,
        ),
{
    let ghost all = label_parts(names@.map_values(|s: &str| s@), texts(values@));
    let mut parts: Vec<String> = Vec::new();
    let mut i: usize = 0;
    assert(texts(parts@) == all.take(0));
    while i < values.len()
        invariant
            i <= values@.len() == names@.len(),
            all == label_parts(names@.map_values(|s: &str| s@), texts(values@)),
            texts(parts@) == all.take(i as int),
        decreases values@.len() - i,
    {
        let one = cat4(names[i], "=\"", escape_label(values[i].as_str()).as_str(), "\"");
        proof {
            texts_push(parts@, one);
            assert(all.take(i as int + 1) == all.take(i as int).push(one@));
        }
        parts.push(one);
        i += 1;
    }
    assert(all.take(i as int) == all);
    join(&parts, ",")
}

/// One metric family: its two metadata lines, then a line per series. A family
/// that nothing was counted in still declares itself.
pub fn render_family(
    out: &mut String,
    name: &str,
    kind: &str,
    help: &str,
    names: &Vec<&str>,
    family: &Family,
)
    requires
        forall|k: Seq<Seq<char>>| #[trigger] family@.dom().contains(k) ==> k.len() == names@.len(),
    ensures
        final(out)@ == old(out)@ + family_text(
            name@,
            kind@,
            help@,
            names@.map_values(|s: &str| s@),
            *family,
        ),
{
    proof {
        use_type_invariant(family);
    }
    let ghost labels = names@.map_values(|s: &str| s@);
    let ghost order = family.order();
    let mut text = cat4("# HELP ", name, " ", help);
    text.append("\n# TYPE ");
    text.append(name);
    text.append(" ");
    text.append(kind);
    text.append("\n");
    let ghost declared = text@;
    assert(declared == declaration(name@, kind@, help@));
    let mut i: usize = 0;
    assert(order.take(0) == Seq::<Seq<Seq<char>>>::empty());
    assert(text@ == declared + series_lines(name@, labels, order.take(0), family@));
    while i < family.series.len()
        invariant
            i <= family.series@.len(),
            lists_ascend(labels_of(family.series@)),
            order == labels_of(family.series@),
            labels == names@.map_values(|s: &str| s@),
            forall|k: Seq<Seq<char>>| #[trigger]
                family@.dom().contains(k) ==> k.len() == names@.len(),
            text@ == declared + series_lines(name@, labels, order.take(i as int), family@),
        decreases family.series@.len() - i,
    {
        let one = &family.series[i];
        proof {
            family.count_at(i as int);
            assert(order.take(i as int + 1).drop_last() == order.take(i as int));
            assert(order.take(i as int + 1).last() == texts(one.labels@));
        }
        let line = cat6(
            name,
            "{",
            render_labels(names, &one.labels).as_str(),
            "} ",
            number(one.count as u128).as_str(),
            "\n",
        );
        let ghost held = series_lines(name@, labels, order.take(i as int), family@);
        text.append(line.as_str());
        assert(declared + held + line@ == declared + (held + line@));
        i += 1;
    }
    assert(order.take(i as int) == order);
    out.append(text.as_str());
}

// ----------------------------------------------------------------- counting
/// A CA action, as the audit trail names it.
#[derive(Debug, Clone, Copy, PartialEq, Eq, Structural)]
pub enum AuditEvent {
    CertificateIssued,
    CertificateIssueFailed,
    CertificateRevoked,
    /// Any event that no series counts.
    Other,
}

/// What the audit trail records of a CA action.
#[derive(Debug, Clone, PartialEq, Eq)]
pub struct AuditRecord {
    pub event: AuditEvent,
    pub profile: String,
    pub reason: Option<String>,
}

/// The process's counters.
pub struct Metrics {
    requests: Family,
    certificates_issued: Family,
    certificate_issue_failures: Family,
}

/// The counters of the three families.
pub struct Counters {
    pub requests: Map<Seq<Seq<char>>, u64>,
    pub certificates_issued: Map<Seq<Seq<char>>, u64>,
    pub certificate_issue_failures: Map<Seq<Seq<char>>, u64>,
}

/// The reason a failure is counted under.
pub open spec fn reason_of(record: AuditRecord) -> Seq<char> {
    match record.reason {
        Some(reason) => reason@,
        None => "unknown"@,
    }
}

/// Counters with one list of label values counted once more.
pub open spec fn once_more(counts: Map<Seq<Seq<char>>, u64>, labels: Seq<Seq<char>>) -> Map<
    Seq<Seq<char>>,
    u64,
> {
    counts.insert(labels, (count_in(counts, labels) + 1) as u64)
}

/// The counters after an audit record: an issued certificate and a refused one
/// count, and nothing else does.
pub open spec fn after_audit(c: Counters, record: AuditRecord) -> Counters {
    match record.event {
        AuditEvent::CertificateIssued => Counters {
            certificates_issued: once_more(c.certificates_issued, seq![record.profile@]),
            ..c
        },
        AuditEvent::CertificateIssueFailed => Counters {
            certificate_issue_failures: once_more(
                c.certificate_issue_failures,
                seq![record.profile@, reason_of(record)],
            ),
            ..c
        },
        _ => c,
    }
}

/// Whether the counter that a record adds to can still be added to.
pub open spec fn audit_fits(c: Counters, record: AuditRecord) -> bool {
    match record.event {
        AuditEvent::CertificateIssued => count_in(c.certificates_issued, seq![record.profile@])
            < u64::MAX,
        AuditEvent::CertificateIssueFailed => count_in(
            c.certificate_issue_failures,
            seq![record.profile@, reason_of(record)],
        ) < u64::MAX,
        _ => true,
    }
}

impl View for Metrics {
    type V = Counters;

    closed spec fn view(&self) -> Counters {
        Counters {
            requests: self.requests@,
            certificates_issued: self.certificates_issued@,
            certificate_issue_failures: self.certificate_issue_failures@,
        }
    }
}

/// The lines about the database pool: its idle connections, and the others.
pub open spec fn pool_text(size: u32, idle: u64) -> Seq<char> {
    let busy: int = if size > idle {
        size - idle
    } else {
        0
    };
    "# HELP acme_proxy_database_pool_connections Connections in the SQLite pool.\n"@
        + "# TYPE acme_proxy_database_pool_connections gauge\n"@
        + "acme_proxy_database_pool_connections{state=\"idle\"} "@ + decimal(idle as nat) + "\n"@
        + "acme_proxy_database_pool_connections{state=\"busy\"} "@ + decimal(busy as nat) + "\n"@
}

impl Metrics {
    #[verifier::type_invariant]
    spec fn shaped(self) -> bool {
        &&& forall|k: Seq<Seq<char>>| #[trigger]
            self.requests@.dom().contains(k) ==> k.len() == 3
        &&& forall|k: Seq<Seq<char>>| #[trigger]
            self.certificates_issued@.dom().contains(k) ==> k.len() == 1
        &&& forall|k: Seq<Seq<char>>| #[trigger]
            self.certificate_issue_failures@.dom().contains(k) ==> k.len() == 2
    }

    /// The family of served requests.
    pub closed spec fn requests_family(&self) -> Family {
        self.requests
    }

    /// The family of issued certificates.
    pub closed spec fn issued_family(&self) -> Family {
        self.certificates_issued
    }

    /// The family of refused issuances.
    pub closed spec fn failures_family(&self) -> Family {
        self.certificate_issue_failures
    }

    /// The three families hold the counters.
    pub proof fn families_hold_the_counters(&self)
        ensures
            self.requests_family()@ == self@.requests,
            self.issued_family()@ == self@.certificates_issued,
            self.failures_family()@ == self@.certificate_issue_failures,
    {
    }

    pub fn new() -> (r: Metrics)
        ensures
            r@.requests == Map::<Seq<Seq<char>>, u64>::empty(),
            r@.certificates_issued == Map::<Seq<Seq<char>>, u64>::empty(),
            r@.certificate_issue_failures == Map::<Seq<Seq<char>>, u64>::empty(),
    {
        Metrics {
            requests: Family::new(),
            certificates_issued: Family::new(),
            certificate_issue_failures: Family::new(),
        }
    }

    /// What may be shown of the counters: their name alone. A text that changed
    /// with every request would tell no two configurations apart.
    pub fn describe(&self) -> (r: &'static str)
        ensures
            r@ == "Metrics"@,
    {
        "Metrics"
    }

    /// How often a request was counted.
    pub fn requests_counted(&self, profile: &str, route: &str, status: u16) -> (r: u64)
        ensures
            r == count_in(self@.requests, seq![profile@, route@, decimal(status as nat)]),
    {
        let labels = request_labels(profile, route, status);
        self.requests.count(&labels)
    }

    /// Counts one served request. `route` is a matched pattern, or the label of
    /// a request that matched none.
    pub fn record_request(&mut self, profile: &str, route: &str, status: u16)
        requires
            count_in(old(self)@.requests, seq![profile@, route@, decimal(status as nat)])
                < u64::MAX,
        ensures
            final(self)@ == (Counters {
                requests: once_more(
                    old(self)@.requests,
                    seq![profile@, route@, decimal(status as nat)],
                ),
                ..old(self)@
            }),
    {
        proof {
            use_type_invariant(&*self);
        }
        let labels = request_labels(profile, route, status);
        let mut family = Family::new();
        std::mem::swap(&mut self.requests, &mut family);
        family.bump(labels);
        self.requests = family;
    }

    /// How often what a record describes was counted; 0 where nothing counts it.
    pub fn audit_counted(&self, record: &AuditRecord) -> (r: u64)
        ensures
            r == match record.event {
                AuditEvent::CertificateIssued => count_in(
                    self@.certificates_issued,
                    seq![record.profile@],
                ),
                AuditEvent::CertificateIssueFailed => count_in(
                    self@.certificate_issue_failures,
                    seq![record.profile@, reason_of(*record)],
                ),
                _ => 0,
            },
            r < u64::MAX ==> audit_fits(self@, *record),
    {
        match record.event {
            AuditEvent::CertificateIssued => {
                let labels = issued_labels(record);
                self.certificates_issued.count(&labels)
            },
            AuditEvent::CertificateIssueFailed => {
                let labels = failure_labels(record);
                self.certificate_issue_failures.count(&labels)
            },
            _ => 0,
        }
    }

    /// Counts one CA action from the audit record that describes it, so that
    /// the counter and the trail cannot disagree.
    pub fn record_audit(&mut self, record: &AuditRecord)
        requires
            audit_fits(old(self)@, *record),
        ensures
            final(self)@ == after_audit(old(self)@, *record),
    {
        proof {
            use_type_invariant(&*self);
        }
        match record.event {
            AuditEvent::CertificateIssued => {
                let labels = issued_labels(record);
                let mut family = Family::new();
                std::mem::swap(&mut self.certificates_issued, &mut family);
                family.bump(labels);
                self.certificates_issued = family;
            },
            AuditEvent::CertificateIssueFailed => {
                let labels = failure_labels(record);
                let mut family = Family::new();
                std::mem::swap(&mut self.certificate_issue_failures, &mut family);
                family.bump(labels);
                self.certificate_issue_failures = family;
            },
            _ => {},
        }
    }

    /// What `render` writes.
    pub open spec fn rendering(&self, size: u32, idle: u64) -> Seq<char> {
        family_text(
            "acme_proxy_requests_total"@,
            "counter"@,
            "Requests served, by endpoint, matched route and response status."@,
            seq!["profile"@, "route"@, "status"@],
            self.requests_family(),
        ) + family_text(
            "acme_proxy_certificates_issued_total"@,
            "counter"@,
            "Certificates signed, by endpoint."@,
            seq!["profile"@],
            self.issued_family(),
        ) + family_text(
            "acme_proxy_certificate_issue_failures_total"@,
            "counter"@,
            "Issuance attempts the CA refused, by endpoint and ACME problem type."@,
            seq!["profile"@, "reason"@],
            self.failures_family(),
        ) + pool_text(size, idle)
    }

    /// Renders everything in the Prometheus text exposition format. `size` is
    /// every connection the database pool holds, and `idle` those not checked
    /// out. Series come out in ascending order of their label values.
    pub fn render(&self, size: u32, idle: u64) -> (r: String)
        ensures
            r@ == self.rendering(size, idle),
            lists_ascend(self.requests_family().order()),
            lists_ascend(self.issued_family().order()),
            lists_ascend(self.failures_family().order()),
    {
        proof {
            use_type_invariant(self);
            use_type_invariant(&self.requests);
            use_type_invariant(&self.certificates_issued);
            use_type_invariant(&self.certificate_issue_failures);
        }
        let mut out = String::new();
        let three: Vec<&str> = vec!["profile", "route", "status"];
        let one: Vec<&str> = vec!["profile"];
        let two: Vec<&str> = vec!["profile", "reason"];
        assert(three@.map_values(|s: &str| s@) == seq!["profile"@, "route"@, "status"@]);
        assert(one@.map_values(|s: &str| s@) == seq!["profile"@]);
        assert(two@.map_values(|s: &str| s@) == seq!["profile"@, "reason"@]);
        render_family(
            &mut out,
            "acme_proxy_requests_total",
            "counter",
            "Requests served, by endpoint, matched route and response status.",
            &three,
            &self.requests,
        );
        let ghost first = out@;
        render_family(
            &mut out,
            "acme_proxy_certificates_issued_total",
            "counter",
            "Certificates signed, by endpoint.",
            &one,
            &self.certificates_issued,
        );
        render_family(
            &mut out,
            "acme_proxy_certificate_issue_failures_total",
            "counter",
            "Issuance attempts the CA refused, by endpoint and ACME problem type.",
            &two,
            &self.certificate_issue_failures,
        );
        let busy: u64 = if size as u64 > idle {
            size as u64 - idle
        } else {
            0
        };
        let pool = crate::text::cat8(
            "# HELP acme_proxy_database_pool_connections Connections in the SQLite pool.\n",
            "# TYPE acme_proxy_database_pool_connections gauge\n",
            "acme_proxy_database_pool_connections{state=\"idle\"} ",
            number(idle as u128).as_str(),
            "\n",
            "acme_proxy_database_pool_connections{state=\"busy\"} ",
            number(busy as u128).as_str(),
            "\n",
        );
        assert(first == Seq::<char>::empty() + first);
        out.append(pool.as_str());
        assert(out@ == self.rendering(size, idle));
        out
    }
}

fn request_labels(profile: &str, route: &str, status: u16) -> (r: Vec<String>)
    ensures
        texts(r@) == seq![profile@, route@, decimal(status as nat)],
{
    let r: Vec<String> = vec![profile.to_owned(), route.to_owned(), number(status as u128)];
    assert(texts(r@) == seq![profile@, route@, decimal(status as nat)]);
    r
}

fn issued_labels(record: &AuditRecord) -> (r: Vec<String>)
    ensures
        texts(r@) == seq![record.profile@],
{
    let r: Vec<String> = vec![record.profile.clone()];
    assert(texts(r@) == seq![record.profile@]);
    r
}

fn failure_labels(record: &AuditRecord) -> (r: Vec<String>)
    ensures
        texts(r@) == seq![record.profile@, reason_of(*record)],
{
    let reason = match &record.reason {
        Some(reason) => reason.clone(),
        None => "unknown".to_owned(),
    };
    let r: Vec<String> = vec![record.profile.clone(), reason];
    assert(texts(r@) == seq![record.profile@, reason_of(*record)]);
    r
}

// -------------------------------------------------------------------- labels
/// Where a character first occurs; the length where it does not.
pub open spec fn first_at(s: Seq<char>, c: char) -> int
    decreases s.len(),
{
    if s.len() == 0 || s[0] == c {
        0
    } else {
        1 + first_at(s.skip(1), c)
    }
}

proof fn first_at_is_first(s: Seq<char>, c: char)
    ensures
        0 <= first_at(s, c) <= s.len(),
        first_at(s, c) < s.len() ==> s[first_at(s, c)] == c,
        forall|i: int| 0 <= i < first_at(s, c) ==> s[i] != c,
    decreases s.len(),
{
    if s.len() > 0 && s[0] != c {
        first_at_is_first(s.skip(1), c);
        assert forall|i: int| 0 <= i < first_at(s, c) implies s[i] != c by {
            if i > 0 {
                assert(s.skip(1)[i - 1] == s[i]);
            }
        }
    }
}

/// The profile and the route that a matched pattern counts under.
pub open spec fn path_labels(matched: Option<Seq<char>>) -> (Seq<char>, Seq<char>) {
    match matched {
        None => ("none"@, "<unmatched>"@),
        Some(path) => if begins(path, "/profile/"@) {
            let rest = path.skip("/profile/"@.len() as int);
            let at = first_at(rest, '/');
            if at < rest.len() {
                (rest.take(at), rest.skip(at))
            } else {
                (rest, "/"@)
            }
        } else {
            ("none"@, path)
        },
    }
}

/// Splits a matched route pattern into its profile and its route: the segment
/// after `/profile/`, and the rest.
pub fn split_matched_path(matched: Option<&str>) -> (r: (String, String))
    ensures
        (r.0@, r.1@) == path_labels(
            match matched {
                Some(path) => Some(path@),
                None => None,
            },
        ),
{
    let path = match matched {
        Some(path) => path,
        None => {
            return ("none".to_owned(), "<unmatched>".to_owned());
        },
    };
    match strip_prefix(path, "/profile/") {
        None => ("none".to_owned(), path.to_owned()),
        Some(rest) => {
            let cs = chars_of(rest.as_str());
            let mut i: usize = 0;
            assert(cs@.skip(0) == cs@);
            while i < cs.len() && cs[i] != '/'
                invariant
                    i <= cs@.len(),
                    first_at(cs@, '/') == i + first_at(cs@.skip(i as int), '/'),
                decreases cs@.len() - i,
            {
                assert(cs@.skip(i as int).skip(1) == cs@.skip(i as int + 1));
                i += 1;
            }
            if i < cs.len() {
                assert(cs@.subrange(0, i as int) == cs@.take(i as int));
                assert(cs@.subrange(i as int, cs@.len() as int) == cs@.skip(i as int));
                (string_of(&cs, 0, i), string_of(&cs, i, cs.len()))
            } else {
                (rest, "/".to_owned())
            }
        },
    }
}

/// A profile label never holds a slash, and under a profile the two labels
/// together give the pattern back.
pub proof fn a_profile_label_is_one_segment(path: Seq<char>)
    requires
        begins(path, "/profile/"@),
    ensures
        !path_labels(Some(path)).0.contains('/'),
        path_labels(Some(path)).0.len() + "/profile/"@.len() < path.len() ==> "/profile/"@
            + path_labels(Some(path)).0 + path_labels(Some(path)).1 == path,
{
    let rest = path.skip("/profile/"@.len() as int);
    first_at_is_first(rest, '/');
    let at = first_at(rest, '/');
    if at < rest.len() {
        assert("/profile/"@ + rest.take(at) + rest.skip(at) =~= path);
    }
}

/// Whatever is not under a profile counts as `none`; and all that matched
/// nothing counts as one series, whatever its path was.
pub proof fn root_routes_belong_to_no_profile(matched: Option<Seq<char>>)
    requires
        matched matches Some(path) ==> !begins(path, "/profile/"@),
    ensures
        path_labels(matched).0 == "none"@,
        matched is None ==> path_labels(matched).1 == "<unmatched>"@,
{
}

// ---------------------------------------------------------------------- laws
/// Whether a text, from its beginning, is a run of characters that stand for
/// themselves and of the three escapes.
pub open spec fn well_escaped(s: Seq<char>) -> bool
    decreases s.len(),
{
    if s.len() == 0 {
        true
    } else if s[0] == '\\' {
        s.len() >= 2 && (s[1] == '\\' || s[1] == '"' || s[1] == 'n') && well_escaped(s.skip(2))
    } else {
        s[0] != '"' && s[0] != '\n' && well_escaped(s.skip(1))
    }
}

/// What an escaped text stands for.
pub open spec fn unescaped(s: Seq<char>) -> Seq<char>
    decreases s.len(),
{
    if s.len() == 0 {
        Seq::empty()
    } else if s[0] == '\\' && s.len() >= 2 {
        seq![
            if s[1] == 'n' {
                '\n'
            } else {
                s[1]
            },
        ] + unescaped(s.skip(2))
    } else {
        seq![s[0]] + unescaped(s.skip(1))
    }
}

proof fn escaped_front(s: Seq<char>)
    requires
        s.len() > 0,
    ensures
        escaped(s) == escaped_char(s[0]) + escaped(s.skip(1)),
    decreases s.len(),
{
    if s.len() == 1 {
        assert(s.drop_last() =~= Seq::<char>::empty());
        assert(s.skip(1) =~= Seq::<char>::empty());
        assert(escaped(s.drop_last()) == Seq::<char>::empty());
        assert(escaped(s.skip(1)) == Seq::<char>::empty());
        assert(escaped(s) =~= escaped_char(s[0]));
        assert(escaped_char(s[0]) + Seq::<char>::empty() =~= escaped_char(s[0]));
    } else {
        escaped_front(s.drop_last());
        assert(s.drop_last().skip(1) =~= s.skip(1).drop_last());
        assert(escaped(s) =~= escaped_char(s[0]) + escaped(s.skip(1)));
    }
}

/// An escaped label value holds no bare quote, newline or backslash, and reads
/// back as the value: so two values are never written alike.
pub proof fn escaping_round_trips(s: Seq<char>)
    ensures
        well_escaped(escaped(s)),
        unescaped(escaped(s)) == s,
    decreases s.len(),
{
    if s.len() > 0 {
        escaped_front(s);
        let rest = s.skip(1);
        escaping_round_trips(rest);
        let e = escaped(s);
        if escaped_char(s[0]).len() == 2 {
            assert(e.skip(2) =~= escaped(rest));
        } else {
            assert(e.skip(1) =~= escaped(rest));
        }
        assert(seq![s[0]] + rest =~= s);
    } else {
        assert(unescaped(escaped(s)) =~= s);
    }
}

/// A counter never goes back: an audit record leaves every count of every
/// family as it was or one higher.
pub proof fn counters_never_go_back(c: Counters, record: AuditRecord, k: Seq<Seq<char>>)
    requires
        audit_fits(c, record),
    ensures
        count_in(after_audit(c, record).requests, k) == count_in(c.requests, k),
        count_in(c.certificates_issued, k) <= count_in(
            after_audit(c, record).certificates_issued,
            k,
        ) <= count_in(c.certificates_issued, k) + 1,
        count_in(c.certificate_issue_failures, k) <= count_in(
            after_audit(c, record).certificate_issue_failures,
            k,
        ) <= count_in(c.certificate_issue_failures, k) + 1,
{
}

proof fn same_walk(a: Seq<Seq<Seq<char>>>, b: Seq<Seq<Seq<char>>>)
    requires
        lists_ascend(a),
        lists_ascend(b),
        a.to_set() == b.to_set(),
    ensures
        a == b,
    decreases a.len(),
{
    if a.len() == 0 {
        if b.len() > 0 {
            assert(b.to_set().contains(b[0]));
            assert(a.contains(b[0]));
        }
        assert(a =~= b);
    } else {
        assert(a.to_set().contains(a[0]));
        assert(b.contains(a[0]));
        assert(b.to_set().contains(b[0]));
        assert(a.contains(b[0]));
        let i = choose|i: int| 0 <= i < b.len() && b[i] == a[0];
        let j = choose|j: int| 0 <= j < a.len() && a[j] == b[0];
        if i > 0 && j > 0 {
            assert(list_before(b[0], b[i]) && list_before(a[0], a[j]));
            list_before_transitive(a[0], b[0], a[0]);
            list_before_irreflexive(a[0]);
        }
        assert(a[0] == b[0]);
        let (x, y) = (a.skip(1), b.skip(1));
        assert forall|k: Seq<Seq<char>>| x.contains(k) <==> y.contains(k) by {
            list_before_irreflexive(a[0]);
            if x.contains(k) {
                let n = choose|n: int| 0 <= n < x.len() && x[n] == k;
                assert(a[n + 1] == k && list_before(a[0], a[n + 1]));
                assert(a.to_set().contains(k));
                assert(b.contains(k));
                let m = choose|m: int| 0 <= m < b.len() && b[m] == k;
                assert(y[m - 1] == k);
            }
            if y.contains(k) {
                let n = choose|n: int| 0 <= n < y.len() && y[n] == k;
                assert(b[n + 1] == k && list_before(b[0], b[n + 1]));
                assert(b.to_set().contains(k));
                assert(a.contains(k));
                let m = choose|m: int| 0 <= m < a.len() && a[m] == k;
                assert(x[m - 1] == k);
            }
        }
        assert(x.to_set() =~= y.to_set());
        assert forall|m: int, n: int| 0 <= m < n < x.len() implies list_before(
            #[trigger] x[m],
            #[trigger] x[n],
        ) by {
            assert(list_before(a[m + 1], a[n + 1]));
        }
        assert forall|m: int, n: int| 0 <= m < n < y.len() implies list_before(
            #[trigger] y[m],
            #[trigger] y[n],
        ) by {
            assert(list_before(b[m + 1], b[n + 1]));
        }
        same_walk(x, y);
        assert(a =~= seq![a[0]] + x);
        assert(b =~= seq![b[0]] + y);
    }
}

/// A rendering is stable: two families with the same counts, each walked in
/// ascending order, are rendered alike.
pub proof fn equal_counts_render_alike(
    a: Family,
    b: Family,
    name: Seq<char>,
    kind: Seq<char>,
    help: Seq<char>,
    names: Seq<Seq<char>>,
)
    requires
        a@ == b@,
        lists_ascend(a.order()),
        lists_ascend(b.order()),
    ensures
        family_text(name, kind, help, names, a) == family_text(name, kind, help, names, b),
{
    a.order_is_the_domain();
    b.order_is_the_domain();
    same_walk(a.order(), b.order());
}

/// A call that counts something.
pub enum Recording {
    Request { profile: Seq<char>, route: Seq<char>, status: u16 },
    Audit { record: AuditRecord },
}

/// The label values of a request.
pub open spec fn request_key(profile: Seq<char>, route: Seq<char>, status: u16) -> Seq<Seq<char>> {
    seq![profile, route, decimal(status as nat)]
}

/// The counters after one call.
pub open spec fn after_recording(c: Counters, call: Recording) -> Counters {
    match call {
        Recording::Request { profile, route, status } => Counters {
            requests: once_more(c.requests, request_key(profile, route, status)),
            ..c
        },
        Recording::Audit { record } => after_audit(c, record),
    }
}

/// The counters of a registry that was new before these calls.
pub open spec fn after_recordings(calls: Seq<Recording>) -> Counters
    decreases calls.len(),
{
    if calls.len() == 0 {
        Counters {
            requests: Map::empty(),
            certificates_issued: Map::empty(),
            certificate_issue_failures: Map::empty(),
        }
    } else {
        after_recording(after_recordings(calls.drop_last()), calls.last())
    }
}

/// How many of the calls are of one kind.
pub open spec fn calls_made(calls: Seq<Recording>, counts: spec_fn(Recording) -> bool) -> nat
    decreases calls.len(),
{
    if calls.len() == 0 {
        0
    } else {
        calls_made(calls.drop_last(), counts) + if counts(calls.last()) {
            1nat
        } else {
            0
        }
    }
}

/// A request with exactly these three arguments.
pub open spec fn of_request(profile: Seq<char>, route: Seq<char>, status: u16) -> spec_fn(
    Recording,
) -> bool {
    |call: Recording| call == Recording::Request { profile, route, status }
}

/// The issuing of a certificate on a profile.
pub open spec fn of_issue(profile: Seq<char>) -> spec_fn(Recording) -> bool {
    |call: Recording|
        call matches Recording::Audit { record } && record.event == AuditEvent::CertificateIssued
            && record.profile@ == profile
}

/// An issuance on a profile that was refused for a reason.
pub open spec fn of_failure(profile: Seq<char>, reason: Seq<char>) -> spec_fn(Recording) -> bool {
    |call: Recording|
        call matches Recording::Audit { record } && record.event
            == AuditEvent::CertificateIssueFailed && record.profile@ == profile && reason_of(record)
            == reason
}

/// A counter equals the number of calls with its labels, in whatever order they
/// came, and only what was recorded has a series.
pub proof fn a_counter_counts_its_calls(
    calls: Seq<Recording>,
    profile: Seq<char>,
    route: Seq<char>,
    status: u16,
    reason: Seq<char>,
)
    requires
        calls.len() <= u64::MAX,
    ensures
        ({
            let c = after_recordings(calls);
            let requests = calls_made(calls, of_request(profile, route, status));
            let issued = calls_made(calls, of_issue(profile));
            let failures = calls_made(calls, of_failure(profile, reason));
            &&& count_in(c.requests, request_key(profile, route, status)) == requests
            &&& c.requests.dom().contains(request_key(profile, route, status)) <==> requests > 0
            &&& count_in(c.certificates_issued, seq![profile]) == issued
            &&& c.certificates_issued.dom().contains(seq![profile]) <==> issued > 0
            &&& count_in(c.certificate_issue_failures, seq![profile, reason]) == failures
            &&& c.certificate_issue_failures.dom().contains(seq![profile, reason]) <==> failures > 0
            &&& requests <= calls.len() && issued <= calls.len() && failures <= calls.len()
        }),
    decreases calls.len(),
{
    if calls.len() > 0 {
        let last = calls.last();
        a_counter_counts_its_calls(calls.drop_last(), profile, route, status, reason);
        match last {
            Recording::Request { profile: p, route: r, status: s } => {
                let (a, b) = (request_key(p, r, s), request_key(profile, route, status));
                if a == b {
                    assert(a[0] == b[0] && a[1] == b[1] && a[2] == b[2]);
                    crate::text::decimals_differ(s as nat, status as nat);
                }
            },
            Recording::Audit { record } => {
                let (a, b) = (seq![record.profile@], seq![profile]);
                if a == b {
                    assert(a[0] == b[0]);
                }
                let (a, b) = (seq![record.profile@, reason_of(record)], seq![profile, reason]);
                if a == b {
                    assert(a[0] == b[0] && a[1] == b[1]);
                }
            },
        }
    }
}

proof fn a_series_has_its_line(
    name: Seq<char>,
    names: Seq<Seq<char>>,
    order: Seq<Seq<Seq<char>>>,
    counts: Map<Seq<Seq<char>>, u64>,
    at: int,
) -> (around: (Seq<char>, Seq<char>))
    requires
        0 <= at < order.len(),
    ensures
        series_lines(name, names, order, counts) == around.0 + series_line(
            name,
            names,
            order[at],
            counts[order[at]],
        ) + around.1,
    decreases order.len(),
{
    let line = series_line(name, names, order[at], counts[order[at]]);
    if at == order.len() - 1 {
        let head = series_lines(name, names, order.drop_last(), counts);
        assert(head + line =~= head + line + Seq::<char>::empty());
        (head, Seq::empty())
    } else {
        let (head, tail) = a_series_has_its_line(name, names, order.drop_last(), counts, at);
        let more = series_line(name, names, order.last(), counts[order.last()]);
        assert(head + line + tail + more =~= head + line + (tail + more));
        (head, tail + more)
    }
}

/// Whether a text shows a line somewhere.
pub open spec fn shows(text: Seq<char>, line: Seq<char>) -> bool {
    exists|head: Seq<char>, tail: Seq<char>| text == #[trigger] (head + line + tail)
}

/// What is rendered of the requests with some labels is the number of calls that
/// recorded them: a line with that number, and no series where there was no call.
pub proof fn a_rendered_counter_counts_its_calls(
    metrics: Metrics,
    calls: Seq<Recording>,
    profile: Seq<char>,
    route: Seq<char>,
    status: u16,
    size: u32,
    idle: u64,
)
    requires
        metrics@ == after_recordings(calls),
        calls.len() <= u64::MAX,
    ensures
        ({
            let made = calls_made(calls, of_request(profile, route, status));
            let key = request_key(profile, route, status);
            if made == 0 {
                !metrics.requests_family().order().contains(key)
            } else {
                shows(
                    metrics.rendering(size, idle),
                    series_line(
                        "acme_proxy_requests_total"@,
                        seq!["profile"@, "route"@, "status"@],
                        key,
                        made as u64,
                    ),
                )
            }
        }),
{
    a_counter_counts_its_calls(calls, profile, route, status, Seq::empty());
    metrics.families_hold_the_counters();
    let family = metrics.requests_family();
    family.order_is_the_domain();
    let key = request_key(profile, route, status);
    let made = calls_made(calls, of_request(profile, route, status));
    assert(family.order().to_set().contains(key) <==> family@.dom().contains(key));
    if made > 0 {
        let name = "acme_proxy_requests_total"@;
        let names = seq!["profile"@, "route"@, "status"@];
        let order = family.order();
        let at = choose|at: int| 0 <= at < order.len() && order[at] == key;
        let (before, after) = a_series_has_its_line(name, names, order, family@, at);
        let line = series_line(name, names, key, made as u64);
        let declared = declaration(
            name,
            "counter"@,
            "Requests served, by endpoint, matched route and response status."@,
        );
        let issued = family_text(
            "acme_proxy_certificates_issued_total"@,
            "counter"@,
            "Certificates signed, by endpoint."@,
            seq!["profile"@],
            metrics.issued_family(),
        );
        let failures = family_text(
            "acme_proxy_certificate_issue_failures_total"@,
            "counter"@,
            "Issuance attempts the CA refused, by endpoint and ACME problem type."@,
            seq!["profile"@, "reason"@],
            metrics.failures_family(),
        );
        let pool = pool_text(size, idle);
        assert(metrics.rendering(size, idle) == declared + (before + line + after) + issued
            + failures + pool);
        assert(declared + (before + line + after) + issued + failures + pool =~= (declared + before)
            + line + (after + issued + failures + pool));
    }
}

/// The three characters that would break a label are each written as a backslash and a
/// mark, and every other as itself, in order.
pub proof fn three_characters_are_escaped(s: Seq<char>, c: char)
    ensures
        escaped_char('\\') == seq!['\\', '\\'],
        escaped_char('"') == seq!['\\', '"'],
        escaped_char('\n') == seq!['\\', 'n'],
        c != '\\' && c != '"' && c != '\n' ==> escaped_char(c) == seq![c],
        escaped(Seq::empty()).len() == 0,
        escaped(s.push(c)) == escaped(s) + escaped_char(c),
{
    assert(s.push(c).drop_last() =~= s);
}

/// A line shows the metric, each label with its own value in quotes, and the count.
pub proof fn a_line_shows_labels_and_count(
    name: Seq<char>,
    names: Seq<Seq<char>>,
    values: Seq<Seq<char>>,
    count: u64,
)
    requires
        names.len() == values.len(),
    ensures
        series_line(name, names, values, count) == name + "{"@ + joined(
            Seq::new(values.len(), |i: int| names[i] + "=\""@ + escaped(values[i]) + "\""@),
            ","@,
        ) + "} "@ + decimal(count as nat) + "\n"@,
{
}

/// A family shows its two declarations and then a line for each of its series, in order,
/// with the count of that series.
pub proof fn a_family_shows_each_of_its_series(
    name: Seq<char>,
    kind: Seq<char>,
    help: Seq<char>,
    names: Seq<Seq<char>>,
    family: Family,
    order: Seq<Seq<Seq<char>>>,
    key: Seq<Seq<char>>,
    counts: Map<Seq<Seq<char>>, u64>,
)
    ensures
        family_text(name, kind, help, names, family) == "# HELP "@ + name + " "@ + help
            + "\n# TYPE "@ + name + " "@ + kind + "\n"@ + series_lines(
            name,
            names,
            family.order(),
            family@,
        ),
        series_lines(name, names, Seq::empty(), counts).len() == 0,
        series_lines(name, names, order.push(key), counts) == series_lines(
            name,
            names,
            order,
            counts,
        ) + series_line(name, names, key, counts[key]),
{
    assert(order.push(key).drop_last() =~= order);
}

/// A scrape shows the three families, requests first, and then the pool: its idle
/// connections, and the others.
pub proof fn a_scrape_shows_three_families_and_the_pool(metrics: Metrics, size: u32, idle: u64)
    ensures
        metrics.rendering(size, idle) == family_text(
            "acme_proxy_requests_total"@,
            "counter"@,
            "Requests served, by endpoint, matched route and response status."@,
            seq!["profile"@, "route"@, "status"@],
            metrics.requests_family(),
        ) + family_text(
            "acme_proxy_certificates_issued_total"@,
            "counter"@,
            "Certificates signed, by endpoint."@,
            seq!["profile"@],
            metrics.issued_family(),
        ) + family_text(
            "acme_proxy_certificate_issue_failures_total"@,
            "counter"@,
            "Issuance attempts the CA refused, by endpoint and ACME problem type."@,
            seq!["profile"@, "reason"@],
            metrics.failures_family(),
        ) + pool_text(size, idle),
        ({
            let shown = |busy: nat|
                "# HELP acme_proxy_database_pool_connections Connections in the SQLite pool.\n"@
                    + "# TYPE acme_proxy_database_pool_connections gauge\n"@
                    + "acme_proxy_database_pool_connections{state=\"idle\"} "@ + decimal(
                    idle as nat,
                ) + "\n"@ + "acme_proxy_database_pool_connections{state=\"busy\"} "@ + decimal(busy)
                    + "\n"@;
            &&& idle <= size ==> pool_text(size, idle) == shown((size - idle) as nat)
            &&& idle > size ==> pool_text(size, idle) == shown(0)
        }),
{
}

/// Counting once more adds one to the counter of those labels and leaves every other as it
/// is.
pub proof fn counting_adds_one(
    counts: Map<Seq<Seq<char>>, u64>,
    labels: Seq<Seq<char>>,
    other: Seq<Seq<char>>,
)
    requires
        count_in(counts, labels) < u64::MAX,
    ensures
        count_in(once_more(counts, labels), labels) == count_in(counts, labels) + 1,
        once_more(counts, labels).dom().contains(labels),
        other != labels ==> count_in(once_more(counts, labels), other) == count_in(counts, other)
            && (once_more(counts, labels).dom().contains(other) <==> counts.dom().contains(other)),
        counts.dom().contains(other) ==> count_in(counts, other) == counts[other],
        !counts.dom().contains(other) ==> count_in(counts, other) == 0,
{
}

/// An issued certificate counts for its profile, and a refused one for its profile and its
/// reason; nothing else that is recorded counts, and no record counts a request.
pub proof fn a_record_counts_in_its_own_family(c: Counters, record: AuditRecord)
    ensures
        after_audit(c, record).requests == c.requests,
        record.event == AuditEvent::CertificateIssued ==> after_audit(c, record).certificates_issued
            == once_more(c.certificates_issued, seq![record.profile@]) && after_audit(
            c,
            record,
        ).certificate_issue_failures == c.certificate_issue_failures,
        record.event == AuditEvent::CertificateIssueFailed ==> after_audit(
            c,
            record,
        ).certificates_issued == c.certificates_issued,
        record.event == AuditEvent::CertificateIssueFailed && record.reason is Some ==> after_audit(
            c,
            record,
        ).certificate_issue_failures == once_more(
            c.certificate_issue_failures,
            seq![record.profile@, record.reason->Some_0@],
        ),
        record.event == AuditEvent::CertificateIssueFailed && record.reason is None ==> after_audit(
            c,
            record,
        ).certificate_issue_failures == once_more(
            c.certificate_issue_failures,
            seq![record.profile@, "unknown"@],
        ),
        record.event != AuditEvent::CertificateIssued && record.event
            != AuditEvent::CertificateIssueFailed ==> after_audit(c, record) == c,
{
}

/// A record can be counted exactly while its own counter is not at its end.
pub proof fn a_record_fits_below_the_end(c: Counters, record: AuditRecord)
    ensures
        record.event == AuditEvent::CertificateIssued ==> (audit_fits(c, record) <==> count_in(
            c.certificates_issued,
            seq![record.profile@],
        ) < u64::MAX),
        record.event == AuditEvent::CertificateIssueFailed ==> (audit_fits(c, record) <==> count_in(
            c.certificate_issue_failures,
            seq![record.profile@, reason_of(record)],
        ) < u64::MAX),
        record.event != AuditEvent::CertificateIssued && record.event
            != AuditEvent::CertificateIssueFailed ==> audit_fits(c, record),
{
}

/// A path under a profile is counted for that profile and by the rest of the path; any
/// other by itself, and for none.
pub proof fn a_path_is_counted_by_profile_and_rest(profile: Seq<char>, rest: Seq<char>, path: Seq<char>)
    requires
        !profile.contains('/'),
        rest.len() > 0 ==> rest[0] == '/',
    ensures
        rest.len() > 0 ==> path_labels(Some("/profile/"@ + profile + rest)) == (profile, rest),
        path_labels(Some("/profile/"@ + profile)) == (profile, "/"@),
        !begins(path, "/profile/"@) ==> path_labels(Some(path)) == ("none"@, path),
        path_labels(None) == ("none"@, "<unmatched>"@),
{
    let head = "/profile/"@;
    let (a, b) = (head + profile + rest, head + profile);
    assert(a.take(head.len() as int) =~= head);
    assert(b.take(head.len() as int) =~= head);
    assert(a.skip(head.len() as int) =~= profile + rest);
    assert(b.skip(head.len() as int) =~= profile);
    first_at_is_first(profile + rest, '/');
    first_at_is_first(profile, '/');
    let at = first_at(profile + rest, '/');
    if rest.len() > 0 {
        let whole = profile + rest;
        assert(whole[profile.len() as int] == '/');
        if at < profile.len() {
            assert(profile[at] == '/');
            assert(profile.contains('/'));
        }
        assert(at == profile.len());
        assert(whole.take(at) =~= profile);
        assert(whole.skip(at) =~= rest);
    }
    let end = first_at(profile, '/');
    if end < profile.len() {
        assert(profile[end] == '/');
        assert(profile.contains('/'));
    }
}

/// Lists of labels are in order by the first label in which they differ.
pub proof fn the_first_label_decides(
    front: Seq<Seq<char>>,
    a: Seq<char>,
    b: Seq<char>,
    x: Seq<Seq<char>>,
    y: Seq<Seq<char>>,
)
    ensures
        before(a, b) ==> list_before(front + seq![a] + x, front + seq![b] + y),
        list_before(front, front + seq![a] + x),
    decreases front.len(),
{
    let (p, q) = (front + seq![a] + x, front + seq![b] + y);
    if front.len() == 0 {
        assert(p[0] == a && q[0] == b);
        if before(a, b) {
            crate::sorted::before_irreflexive(a);
        }
    } else {
        let rest = front.skip(1);
        the_first_label_decides(rest, a, b, x, y);
        assert(p.skip(1) =~= rest + seq![a] + x);
        assert(q.skip(1) =~= rest + seq![b] + y);
        assert(p[0] == front[0] && q[0] == front[0]);
    }
}

} // verus!
