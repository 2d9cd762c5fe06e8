//! The periodic expiry digest: one message per profile, listing the certificates
//! that approach their end.
//!
//! The unit is the profile and the period, not the certificate: a renewal does
//! not stop its predecessor from expiring. That one certificate was replaced by
//! another is a note beside it, never a reason to leave it out.

use crate::jobs::{clamp_i64, later, JobHandler, JobOutcome, JobSpec};
use crate::json::Json;
use crate::sorted::StringMap;
use crate::text::texts;
use crate::time::Duration;
use vstd::prelude::*;
use vstd::string::*;

verus! {

/// The end of a certificate that cannot be read.
pub const UNPARSABLE_NOT_AFTER: i64 = 0;

/// How many rows without an end one pass looks into.
pub const BACKFILL_BATCH: i64 = 500;

/// The `[notify.expiry]` section.
#[derive(Debug, Clone, Copy, PartialEq, Eq)]
pub struct ExpiryNotifyConfig {
    pub lead_days: u64,
    pub interval_days: u64,
    pub max_entries: u64,
}

impl Default for ExpiryNotifyConfig {
    fn default() -> (r: ExpiryNotifyConfig)
        ensures
            r.lead_days == 0,
            r.interval_days == 7,
            r.max_entries == 100,
    {
        ExpiryNotifyConfig { lead_days: 0, interval_days: 7, max_entries: 100 }
    }
}

/// One profile's digest settings.
#[derive(Debug, Clone, Copy, PartialEq, Eq, Structural)]
pub struct ExpirySettings {
    pub lead: Duration,
    pub lead_days: u64,
    pub interval: Duration,
    pub max_entries: i64,
}

/// Whether the days of a section that asks for a digest can be counted in
/// seconds.
pub open spec fn countable(config: ExpiryNotifyConfig) -> bool {
    config.lead_days > 0 ==> config.lead_days * 86_400 <= u64::MAX && config.interval_days * 86_400
        <= u64::MAX
}

/// Whether settings are those a section asks for.
pub open spec fn settings_of(settings: ExpirySettings, config: ExpiryNotifyConfig) -> bool {
    &&& settings.lead@ == config.lead_days * 86_400_000_000_000
    &&& settings.lead_days == config.lead_days
    &&& settings.interval@ == (if config.interval_days < 1 {
        1
    } else {
        config.interval_days
    }) * 86_400_000_000_000
    &&& settings.max_entries == if config.max_entries < 1 {
        1
    } else if config.max_entries > i64::MAX {
        i64::MAX
    } else {
        config.max_entries as i64
    }
}

impl ExpirySettings {
    /// The settings of a profile; none where `lead_days` is 0, which means off.
    /// The interval is at least a day: none at all would send without end.
    pub fn from_config(config: &ExpiryNotifyConfig) -> (r: Option<ExpirySettings>)
        requires
            countable(*config),
        ensures
            match r {
                Some(settings) => config.lead_days > 0 && settings_of(settings, *config),
                None => config.lead_days == 0,
            },
    {
        if config.lead_days == 0 {
            return None;
        }
        let days: u64 = if config.interval_days < 1 {
            1
        } else {
            config.interval_days
        };
        let max_entries: i64 = if config.max_entries < 1 {
            1
        } else if config.max_entries > 0x7fff_ffff_ffff_ffff {
            i64::MAX
        } else {
            config.max_entries as i64
        };
        Some(
            ExpirySettings {
                lead: Duration::from_secs(config.lead_days * 86_400),
                lead_days: config.lead_days,
                interval: Duration::from_secs(days * 86_400),
                max_entries,
            },
        )
    }
}

/// The end of a chain's leaf, from what could be read of its validity (its
/// beginning and its end).
pub fn leaf_not_after(validity: Option<(i64, i64)>) -> (r: i64)
    ensures
        r == match validity {
            Some((_, not_after)) => not_after,
            None => UNPARSABLE_NOT_AFTER,
        },
{
    match validity {
        Some((_, not_after)) => not_after,
        None => UNPARSABLE_NOT_AFTER,
    }
}

/// What a pass writes about the rows without an end.
#[derive(Debug, PartialEq, Eq)]
pub struct Backfill {
    /// Which row gets which end, in order.
    pub stamps: Vec<(String, i64)>,
    pub stamped: u64,
    pub unparsable: u64,
}

/// The end that a row gets.
pub open spec fn stamp_of(validity: Option<(i64, i64)>) -> i64 {
    match validity {
        Some((_, not_after)) => not_after,
        None => UNPARSABLE_NOT_AFTER,
    }
}

/// How many rows get an end that could be read.
pub open spec fn readable(rows: Seq<(String, Option<(i64, i64)>)>) -> nat
    decreases rows.len(),
{
    if rows.len() == 0 {
        0
    } else {
        readable(rows.drop_last()) + if stamp_of(rows.last().1) == UNPARSABLE_NOT_AFTER {
            0nat
        } else {
            1nat
        }
    }
}

/// What a pass writes about the rows without an end. A row that cannot be read
/// is recorded as such, so that it is looked into once and not on every pass.
pub fn backfill(rows: &Vec<(String, Option<(i64, i64)>)>) -> (r: Backfill)
    ensures
        r.stamps@.len() == rows@.len(),
        forall|i: int|
            0 <= i < rows@.len() ==> (#[trigger] r.stamps@[i]).0@ == rows@[i].0@ && r.stamps@[i].1
                == stamp_of(rows@[i].1),
        r.stamped == readable(rows@),
        r.stamped + r.unparsable == rows@.len(),
{
    let mut stamps: Vec<(String, i64)> = Vec::new();
    let mut stamped: u64 = 0;
    let mut unparsable: u64 = 0;
    let mut i: usize = 0;
    assert(rows@.take(0) == Seq::<(String, Option<(i64, i64)>)>::empty());
    while i < rows.len()
        invariant
            i <= rows@.len(),
            stamps@.len() == i,
            forall|j: int|
                0 <= j < i ==> (#[trigger] stamps@[j]).0@ == rows@[j].0@ && stamps@[j].1
                    == stamp_of(rows@[j].1),
            stamped == readable(rows@.take(i as int)),
            stamped + unparsable == i,
        decreases rows@.len() - i,
    {
        assert(rows@.take(i as int + 1).drop_last() == rows@.take(i as int));
        let not_after: i64 = leaf_not_after(rows[i].1);
        if not_after == UNPARSABLE_NOT_AFTER {
            unparsable += 1;
        } else {
            stamped += 1;
        }
        stamps.push((rows[i].0.clone(), not_after));
        i += 1;
    }
    assert(rows@.take(i as int) == rows@);
    Backfill { stamps, stamped, unparsable }
}

/// Which certificates a digest asks for.
#[derive(Debug, Clone, PartialEq, Eq)]
pub struct ExpiringQuery {
    pub profile: String,
    /// Those that end before this instant, in epoch seconds.
    pub before: i64,
    pub with_superseded: bool,
    pub limit: i64,
    pub offset: i64,
}

/// A certificate as the listing gives it.
#[derive(Debug, Clone, PartialEq, Eq)]
pub struct ExpiringOrder {
    pub order_id: String,
    pub account_id: String,
    pub cert_serial: Option<String>,
    pub identifiers: Vec<String>,
    pub not_after: Option<i64>,
    pub days_remaining: i64,
    pub superseded_by: Option<String>,
}

/// A certificate as a digest lists it.
#[derive(Debug, Clone, PartialEq, Eq)]
pub struct ExpiringCertificate {
    pub order_id: String,
    pub account_id: String,
    pub cert_serial: String,
    pub identifiers: Vec<String>,
    pub not_after: i64,
    pub days_remaining: i64,
    pub superseded_by: Option<String>,
}

/// One profile's digest.
#[derive(Debug, Clone, PartialEq, Eq)]
pub struct CertificatesExpiringData {
    pub profile: String,
    pub generated_at: i64,
    pub lead_days: u64,
    /// How many there are, listed or not.
    pub total: i64,
    pub certificates: Vec<ExpiringCertificate>,
}

/// What one digest asks for: everything of the profile that ends within the
/// lead, replaced or not.
pub fn expiring_query(profile: &str, settings: &ExpirySettings, now: i64) -> (r: ExpiringQuery)
    ensures
        r.profile@ == profile@,
        r.before == clamp_i64(
            now + if settings.lead@ / 1_000_000_000 <= i64::MAX {
                (settings.lead@ / 1_000_000_000) as int
            } else {
                0
            },
        ),
        r.with_superseded,
        r.limit == settings.max_entries,
        r.offset == 0,
{
    let secs: u64 = settings.lead.as_secs();
    let lead: i64 = if secs > 0x7fff_ffff_ffff_ffff {
        0
    } else {
        secs as i64
    };
    ExpiringQuery {
        profile: profile.to_owned(),
        before: later(now, lead),
        with_superseded: true,
        limit: settings.max_entries,
        offset: 0,
    }
}

/// Whether a digest lists a certificate as the listing gave it.
pub open spec fn lists(line: ExpiringCertificate, order: ExpiringOrder) -> bool {
    &&& line.order_id == order.order_id
    &&& line.account_id == order.account_id
    &&& line.cert_serial@ == match order.cert_serial {
        Some(serial) => serial@,
        None => Seq::empty(),
    }
    &&& line.identifiers == order.identifiers
    &&& line.not_after == match order.not_after {
        Some(at) => at,
        None => 0,
    }
    &&& line.days_remaining == order.days_remaining
    &&& line.superseded_by == order.superseded_by
}

/// The digest of a listing; none where nothing is about to end. Silence is what
/// it looks like when everything is renewed.
pub fn collect(
    profile: &str,
    settings: &ExpirySettings,
    now: i64,
    entries: Vec<ExpiringOrder>,
    total: i64,
) -> (r: Option<CertificatesExpiringData>)
    ensures
        match r {
            None => entries@.len() == 0,
            Some(data) => {
                &&& entries@.len() > 0
                &&& data.profile@ == profile@
                &&& data.generated_at == now
                &&& data.lead_days == settings.lead_days
                &&& data.total == total
                &&& data.certificates@.len() == entries@.len()
                &&& forall|i: int|
                    0 <= i < entries@.len() ==> lists(#[trigger] data.certificates@[i], entries@[i])
                &&& forall|i: int|
                    0 <= i < entries@.len() ==> texts((#[trigger] data.certificates@[i]).identifiers@)
                        == texts(entries@[i].identifiers@)
            },
        },
{
    if entries.len() == 0 {
        return None;
    }
    let ghost given = entries@;
    let mut rest = entries;
    let mut reversed: Vec<ExpiringCertificate> = Vec::new();
    while rest.len() > 0
        invariant
            rest@.len() + reversed@.len() == given.len(),
            rest@ == given.take(rest@.len() as int),
            forall|i: int|
                0 <= i < reversed@.len() ==> lists(
                    #[trigger] reversed@[i],
                    given[given.len() - 1 - i],
                ),
        decreases rest@.len(),
    {
        let ghost held = reversed@;
        let ghost before = rest@;
        match rest.pop() {
            Some(order) => {
                let cert_serial = match order.cert_serial {
                    Some(serial) => serial,
                    None => String::new(),
                };
                let not_after: i64 = match order.not_after {
                    Some(at) => at,
                    None => 0,
                };
                reversed.push(
                    ExpiringCertificate {
                        order_id: order.order_id,
                        account_id: order.account_id,
                        cert_serial,
                        identifiers: order.identifiers,
                        not_after,
                        days_remaining: order.days_remaining,
                        superseded_by: order.superseded_by,
                    },
                );
                assert(order == given[before.len() - 1]);
                assert(rest@ =~= given.take(rest@.len() as int));
            },
            None => {},
        }
    }
    let mut certificates: Vec<ExpiringCertificate> = Vec::new();
    let ghost all = reversed@;
    while reversed.len() > 0
        invariant
            reversed@.len() + certificates@.len() == given.len(),
            all.len() == given.len(),
            reversed@ == all.take(reversed@.len() as int),
            forall|i: int|
                0 <= i < all.len() ==> lists(#[trigger] all[i], given[given.len() - 1 - i]),
            forall|i: int|
                0 <= i < certificates@.len() ==> lists(#[trigger] certificates@[i], given[i]),
        decreases reversed@.len(),
    {
        let ghost before = reversed@;
        match reversed.pop() {
            Some(line) => {
                assert(line == all[before.len() - 1]);
                certificates.push(line);
                assert(reversed@ =~= all.take(reversed@.len() as int));
            },
            None => {},
        }
    }
    Some(
        CertificatesExpiringData {
            profile: profile.to_owned(),
            generated_at: now,
            lead_days: settings.lead_days,
            total,
            certificates,
        },
    )
}

/// The digest, over every profile that configured one.
#[derive(Debug)]
pub struct ExpiryDigestJob {
    profiles: StringMap<ExpirySettings>,
}

/// The settings of the last of the profiles that has the given name and asks for
/// a digest.
pub open spec fn digest_of(
    profiles: Seq<(String, ExpiryNotifyConfig)>,
    name: Seq<char>,
) -> Option<ExpiryNotifyConfig>
    decreases profiles.len(),
{
    if profiles.len() == 0 {
        None
    } else if profiles.last().0@ == name && profiles.last().1.lead_days > 0 {
        Some(profiles.last().1)
    } else {
        digest_of(profiles.drop_last(), name)
    }
}

/// Whether a map holds for a name what the profiles ask for.
pub open spec fn digest_for(
    map: Map<Seq<char>, ExpirySettings>,
    profiles: Seq<(String, ExpiryNotifyConfig)>,
    name: Seq<char>,
) -> bool {
    match digest_of(profiles, name) {
        Some(config) => map.dom().contains(name) && settings_of(map[name], config),
        None => !map.dom().contains(name),
    }
}

/// Whether a map of settings is what the profiles ask for.
pub open spec fn digests(
    map: Map<Seq<char>, ExpirySettings>,
    profiles: Seq<(String, ExpiryNotifyConfig)>,
) -> bool {
    forall|name: Seq<char>| #[trigger] digest_for(map, profiles, name)
}

/// Whether a job is the digest row of a profile.
pub open spec fn digest_row(job: JobSpec, profile: Seq<char>, now: i64) -> bool {
    &&& job.kind@ == "notify_expiry_digest"@
    &&& job.key@ == profile
    &&& job.run_at == now
    &&& job.deadline is None
    &&& job.max_attempts is None
    &&& job.payload matches Json::Object(members) && members@.len() == 0
}

/// What an attempt is to do.
pub enum DigestPlan {
    /// The profile is gone, or wants no digest any more: the row ends here.
    Retire,
    /// Put every profile's row in the queue, fill in what is missing, and send.
    Go(ExpirySettings),
}

/// What became of a digest.
#[derive(Debug)]
pub enum DigestStep {
    /// Nothing is about to end.
    Skipped,
    Send(CertificatesExpiringData),
    Failed(String),
}

impl ExpiryDigestJob {
    pub closed spec fn map(&self) -> Map<Seq<char>, ExpirySettings> {
        self.profiles@
    }

    pub closed spec fn order(&self) -> Seq<Seq<char>> {
        self.profiles.keys_in_order()
    }

    /// The handler for the profiles that ask for a digest; none where not one
    /// does.
    pub fn from_profiles(profiles: &Vec<(String, ExpiryNotifyConfig)>) -> (r: Option<
        ExpiryDigestJob,
    >)
        requires
            forall|i: int| 0 <= i < profiles@.len() ==> countable((#[trigger] profiles@[i]).1),
        ensures
            match r {
                Some(job) => digests(job.map(), profiles@) && exists|name: Seq<char>|
                    digest_of(profiles@, name) is Some,
                None => forall|name: Seq<char>| digest_of(profiles@, name) is None,
            },
    {
        let mut map: StringMap<ExpirySettings> = StringMap::new();
        let mut i: usize = 0;
        assert(profiles@.take(0) == Seq::<(String, ExpiryNotifyConfig)>::empty());
        while i < profiles.len()
            invariant
                i <= profiles@.len(),
                forall|j: int| 0 <= j < profiles@.len() ==> countable((#[trigger] profiles@[j]).1),
                digests(map@, profiles@.take(i as int)),
            decreases profiles@.len() - i,
        {
            assert(profiles@.take(i as int + 1).drop_last() == profiles@.take(i as int));
            let ghost was = map@;
            assert(countable(profiles@[i as int].1));
            if let Some(settings) = ExpirySettings::from_config(&profiles[i].1) {
                map.insert(profiles[i].0.clone(), settings);
            }
            proof {
                let upto = profiles@.take(i as int + 1);
                assert(upto.last() == profiles@[i as int]);
                assert forall|name: Seq<char>| #[trigger] digest_for(map@, upto, name) by {
                    assert(digest_for(was, profiles@.take(i as int), name));
                }
            }
            i += 1;
        }
        assert(profiles@.take(i as int) == profiles@);
        if map.is_empty() {
            proof {
                assert forall|name: Seq<char>| digest_of(profiles@, name) is None by {
                    assert(digest_for(map@, profiles@, name));
                    assert(!map@.dom().contains(name));
                }
            }
            return None;
        }
        proof {
            map.keys_are_the_domain();
            let name = map.keys_in_order()[0];
            assert(map.keys_in_order().to_set().contains(name));
            assert(map@.dom().contains(name));
            assert(digest_for(map@, profiles@, name));
            assert(digest_of(profiles@, name) is Some);
        }
        Some(ExpiryDigestJob { profiles: map })
    }

    /// What an attempt at a profile's row is to do.
    pub fn plan(&self, profile: &str) -> (r: DigestPlan)
        ensures
            match r {
                DigestPlan::Retire => !self.map().dom().contains(profile@),
                DigestPlan::Go(settings) => self.map().dom().contains(profile@) && settings
                    == self.map()[profile@],
            },
    {
        match self.profiles.get(profile) {
            Some(settings) => DigestPlan::Go(*settings),
            None => DigestPlan::Retire,
        }
    }

    /// The rows to put in the queue: one for each profile, in ascending order of
    /// their names. A profile that has a live one keeps it.
    pub fn reconcile(&self, now: i64) -> (r: Vec<JobSpec>)
        ensures
            r@.len() == self.order().len(),
            self.order().to_set() == self.map().dom(),
            crate::sorted::ascending(self.order()),
            forall|i: int|
                0 <= i < r@.len() ==> digest_row(#[trigger] r@[i], self.order()[i], now),
    {
        proof {
            self.profiles.keys_are_the_domain();
        }
        let names = self.profiles.keys();
        let mut out: Vec<JobSpec> = Vec::new();
        let mut i: usize = 0;
        assert(texts(names@).len() == names@.len());
        while i < names.len()
            invariant
                i <= names@.len(),
                out@.len() == i,
                texts(names@) == self.order(),
                crate::sorted::ascending(self.order()),
                forall|j: int|
                    0 <= j < i ==> digest_row(#[trigger] out@[j], self.order()[j], now),
            decreases names@.len() - i,
        {
            assert(texts(names@)[i as int] == names@[i as int]@);
            let spec = JobSpec::now("notify_expiry_digest", names[i].as_str(), now);
            let ghost held = out@;
            out.push(spec);
            assert forall|j: int| 0 <= j < i + 1 implies digest_row(
                #[trigger] out@[j],
                self.order()[j],
                now,
            ) by {
                if j < i {
                    assert(out@[j] == held[j]);
                }
            }
            i += 1;
        }
        out
    }
}

/// What became of a digest that was asked for.
pub fn digest_step(
    profile: &str,
    settings: &ExpirySettings,
    now: i64,
    listing: Result<(Vec<ExpiringOrder>, i64), String>,
) -> (r: DigestStep)
    ensures
        match listing {
            Err(error) => r == DigestStep::Failed(error),
            Ok((entries, total)) => if entries@.len() == 0 {
                r is Skipped
            } else {
                r matches DigestStep::Send(data) && {
                    &&& data.profile@ == profile@
                    &&& data.generated_at == now
                    &&& data.lead_days == settings.lead_days
                    &&& data.total == total
                    &&& data.certificates@.len() == entries@.len()
                    &&& forall|i: int|
                        0 <= i < entries@.len() ==> lists(
                            #[trigger] data.certificates@[i],
                            entries@[i],
                        )
                    &&& forall|i: int|
                        0 <= i < entries@.len() ==> texts(
                            (#[trigger] data.certificates@[i]).identifiers@,
                        ) == texts(entries@[i].identifiers@)
                }
            },
        },
{
    match listing {
        Err(error) => DigestStep::Failed(error),
        Ok((entries, total)) => match collect(profile, settings, now, entries, total) {
            Some(data) => DigestStep::Send(data),
            None => DigestStep::Skipped,
        },
    }
}

/// What an attempt ends with, whatever became of the digest: the row of a
/// profile that is gone ends, and every other goes on. Never a failure, which
/// would stop the digest for good.
pub fn run(plan: &DigestPlan) -> (r: JobOutcome)
    ensures
        match plan {
            DigestPlan::Retire => r == JobOutcome::Done,
            DigestPlan::Go(settings) => r == JobOutcome::Reschedule(settings.interval),
        },
{
    match plan {
        DigestPlan::Retire => JobOutcome::Done,
        DigestPlan::Go(settings) => JobOutcome::Reschedule(settings.interval),
    }
}

impl JobHandler for ExpiryDigestJob {
    open spec fn kind_name(&self) -> Seq<char> {
        "notify_expiry_digest"@
    }

    fn kind(&self) -> (r: &'static str) {
        "notify_expiry_digest"
    }
}

/// A line of a digest is the order it lists, member by member: every identifier of
/// it, in order, and nothing made up but for what the order lacks.
pub proof fn a_line_is_the_order_it_lists(line: ExpiringCertificate, order: ExpiringOrder)
    requires
        lists(line, order),
    ensures
        line.order_id@ == order.order_id@,
        line.account_id@ == order.account_id@,
        line.identifiers@.len() == order.identifiers@.len(),
        forall|i: int|
            0 <= i < order.identifiers@.len() ==> (#[trigger] line.identifiers@[i])@
                == order.identifiers@[i]@,
        order.cert_serial matches Some(serial) ==> line.cert_serial@ == serial@,
        order.cert_serial is None ==> line.cert_serial@.len() == 0,
        order.not_after matches Some(at) ==> line.not_after == at,
        order.not_after is None ==> line.not_after == 0,
        line.days_remaining == order.days_remaining,
        line.superseded_by is Some <==> order.superseded_by is Some,
        order.superseded_by matches Some(by) ==> line.superseded_by->Some_0@ == by@,
{
}

/// Settings count their section's days in whole days, with an interval of one day
/// at least and one entry at least.
pub proof fn settings_count_whole_days(settings: ExpirySettings, config: ExpiryNotifyConfig)
    requires
        settings_of(settings, config),
    ensures
        settings.lead@ == config.lead_days * 24 * 60 * 60 * 1_000_000_000,
        settings.lead_days == config.lead_days,
        config.interval_days >= 1 ==> settings.interval@ == config.interval_days * 24 * 60 * 60
            * 1_000_000_000,
        config.interval_days == 0 ==> settings.interval@ == 24 * 60 * 60 * 1_000_000_000,
        settings.max_entries >= 1,
        1 <= config.max_entries <= i64::MAX ==> settings.max_entries == config.max_entries,
        config.max_entries == 0 ==> settings.max_entries == 1,
        config.max_entries > i64::MAX ==> settings.max_entries == i64::MAX,
{
}

/// The days of a section that asks for no digest are not counted at all; those of
/// any other are, in seconds of a `u64`.
pub proof fn only_a_digest_counts_days(config: ExpiryNotifyConfig)
    ensures
        countable(config) <==> config.lead_days == 0 || (config.lead_days * 86_400 <= u64::MAX
            && config.interval_days * 86_400 <= u64::MAX),
{
}

/// A row is stamped with the end of its certificate; with 0 where that cannot be
/// read.
pub proof fn a_row_is_stamped_with_its_end(begin: i64, end: i64)
    ensures
        stamp_of(Some((begin, end))) == end,
        stamp_of(None) == 0,
        UNPARSABLE_NOT_AFTER == 0,
{
}

/// Rows are counted one by one: a row counts as read exactly when its end is read
/// and is not the mark of one that cannot be.
pub proof fn rows_are_counted_one_by_one(
    rows: Seq<(String, Option<(i64, i64)>)>,
    id: String,
    validity: Option<(i64, i64)>,
)
    ensures
        readable(Seq::empty()) == 0,
        validity is Some && validity->Some_0.1 != 0 ==> readable(rows.push((id, validity)))
            == readable(rows) + 1,
        validity is None || validity->Some_0.1 == 0 ==> readable(rows.push((id, validity)))
            == readable(rows),
{
    assert(rows.push((id, validity)).drop_last() =~= rows);
}

/// A profile gets a digest exactly when its section asks for one, by a lead of at
/// least a day; of several sections of one name the last that asks decides.
pub proof fn a_digest_is_asked_for_by_a_lead(
    profiles: Seq<(String, ExpiryNotifyConfig)>,
    name: Seq<char>,
)
    ensures
        digest_of(profiles, name) is Some <==> exists|i: int|
            0 <= i < profiles.len() && (#[trigger] profiles[i]).0@ == name
                && profiles[i].1.lead_days > 0,
        forall|i: int|
            0 <= i < profiles.len() && (#[trigger] profiles[i]).0@ == name
                && profiles[i].1.lead_days > 0 && (forall|j: int|
                i < j < profiles.len() ==> !((#[trigger] profiles[j]).0@ == name
                    && profiles[j].1.lead_days > 0)) ==> digest_of(profiles, name) == Some(
                profiles[i].1,
            ),
    decreases profiles.len(),
{
    if profiles.len() > 0 {
        let front = profiles.drop_last();
        let n = profiles.len() - 1;
        a_digest_is_asked_for_by_a_lead(front, name);
        assert(profiles[n] == profiles.last());
        assert forall|i: int| 0 <= i < front.len() implies front[i] == profiles[i] by {}
        if exists|i: int|
            0 <= i < front.len() && (#[trigger] front[i]).0@ == name && front[i].1.lead_days > 0 {
            let i = choose|i: int|
                0 <= i < front.len() && (#[trigger] front[i]).0@ == name && front[i].1.lead_days
                    > 0;
            assert(profiles[i].0@ == name);
        }
        if exists|i: int|
            0 <= i < profiles.len() && (#[trigger] profiles[i]).0@ == name
                && profiles[i].1.lead_days > 0 {
            let i = choose|i: int|
                0 <= i < profiles.len() && (#[trigger] profiles[i]).0@ == name
                    && profiles[i].1.lead_days > 0;
            if i < n {
                assert(front[i].0@ == name);
            }
        }
        assert forall|i: int|
            0 <= i < profiles.len() && (#[trigger] profiles[i]).0@ == name
                && profiles[i].1.lead_days > 0 && (forall|j: int|
                i < j < profiles.len() ==> !((#[trigger] profiles[j]).0@ == name
                    && profiles[j].1.lead_days > 0)) implies digest_of(profiles, name) == Some(
            profiles[i].1,
        ) by {
            if i < n {
                assert(!(profiles[n].0@ == name && profiles[n].1.lead_days > 0));
                assert(front[i].0@ == name);
                assert forall|j: int| i < j < front.len() implies !((#[trigger] front[j]).0@
                    == name && front[j].1.lead_days > 0) by {
                    assert(!(profiles[j].0@ == name && profiles[j].1.lead_days > 0));
                }
            }
        }
    }
}

/// A handler holds the settings of every profile that asks for a digest, and of no
/// other.
pub proof fn a_handler_holds_who_asks(
    map: Map<Seq<char>, ExpirySettings>,
    profiles: Seq<(String, ExpiryNotifyConfig)>,
    name: Seq<char>,
)
    requires
        digests(map, profiles),
    ensures
        map.dom().contains(name) <==> exists|i: int|
            0 <= i < profiles.len() && (#[trigger] profiles[i]).0@ == name
                && profiles[i].1.lead_days > 0,
        map.dom().contains(name) ==> digest_of(profiles, name) is Some && settings_of(
            map[name],
            digest_of(profiles, name)->Some_0,
        ),
{
    a_digest_is_asked_for_by_a_lead(profiles, name);
    assert(digest_for(map, profiles, name));
}

/// The row of a profile's digest is keyed by the profile and due at once.
pub proof fn a_digest_row_is_due_at_once(job: JobSpec, profile: Seq<char>, now: i64)
    requires
        digest_row(job, profile, now),
    ensures
        job.kind@ == "notify_expiry_digest"@,
        job.key@ == profile,
        job.run_at == now,
        job.deadline is None,
        job.max_attempts is None,
        job.payload is Object && job.payload->Object_0@.len() == 0,
{
}

} // verus!
