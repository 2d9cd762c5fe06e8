//! Operator notifications for ACME lifecycle events.
//!
//! A notification can never affect the ACME response that triggered it:
//! dispatching one writes a row to the durable queue for each backend that wants
//! the event, and a delivery is retried from there. One row per occurrence and
//! backend, so that a retry never sends again to a backend that succeeded.

pub mod custom;
pub mod email;
pub mod entries;
pub mod event;
pub mod expiry;
pub mod job;
pub mod mattermost;
pub mod template;
pub mod webhook;

use crate::debug::{list, list_of, quoted, quoted_words};
use crate::faults::{first_of, first_of_next};
use crate::jobs::JobSpec;
use crate::json::Json;
use crate::sorted::{StringMap, StringSet};
use crate::text::{cat2, cat3, cat5, same, texts, texts_push};
use custom::{custom_built, custom_fault, CustomNotifyConfig, CustomScriptNotifier};
use email::{email_built, email_fault, EmailNotifier, EmailNotifyConfig};
use entries::{resolve_named_entries, selection_fault};
use event::{all_kinds, all_notify_events, writes, EventModel, NotifyEvent};
use webhook::{webhook_built, webhook_fault, WebhookNotifier, WebhookNotifyConfig};
use vstd::prelude::*;
use vstd::string::*;

verus! {

/// A notification channel.
pub trait NotifyBackend {
    /// The name this backend runs under.
    spec fn channel(&self) -> Seq<char>;

    /// The configuration name this backend runs under, used in logs.
    fn name(&self) -> (r: &'static str)
        ensures
            r@ == self.channel(),
    ;
}

/// Why a notify backend failed to deliver, and whether asking again could help.
#[derive(Debug, Clone, PartialEq, Eq)]
pub struct NotifyError {
    detail: String,
    retryable: bool,
}

/// A failed delivery, in terms of sequences.
pub struct NotifyErrorModel {
    pub detail: Seq<char>,
    pub retryable: bool,
}

impl View for NotifyError {
    type V = NotifyErrorModel;

    closed spec fn view(&self) -> NotifyErrorModel {
        NotifyErrorModel { detail: self.detail@, retryable: self.retryable }
    }
}

impl NotifyError {
    /// A failure that may not recur: a refused connection, a timeout, a 503.
    pub fn new(detail: &str) -> (r: NotifyError)
        ensures
            r@ == (NotifyErrorModel { detail: detail@, retryable: true }),
    {
        NotifyError { detail: detail.to_owned(), retryable: true }
    }

    /// A failure that will repeat identically however often it is tried.
    pub fn permanent(detail: &str) -> (r: NotifyError)
        ensures
            r@ == (NotifyErrorModel { detail: detail@, retryable: false }),
    {
        NotifyError { detail: detail.to_owned(), retryable: false }
    }

    /// Whether another attempt could plausibly succeed.
    pub fn retryable(&self) -> (r: bool)
        ensures
            r == self@.retryable,
    {
        self.retryable
    }

    /// How the error reads.
    pub fn message(&self) -> (r: &str)
        ensures
            r@ == self@.detail,
    {
        self.detail.as_str()
    }
}

/// The six kinds, as a configuration lists them.
pub fn every_kind() -> (r: Vec<String>)
    ensures
        texts(r@) == all_kinds(),
{
    let all = all_notify_events();
    let ghost want = all@.map_values(|s: &str| s@);
    let mut out: Vec<String> = Vec::new();
    let mut i: usize = 0;
    assert(texts(out@) == want.take(0));
    while i < all.len()
        invariant
            i <= all@.len(),
            want == all@.map_values(|s: &str| s@),
            texts(out@) == want.take(i as int),
        decreases all@.len() - i,
    {
        let one = all[i].to_owned();
        proof {
            crate::text::texts_push(out@, one);
            assert(want.take(i as int + 1) == want.take(i as int).push(one@));
        }
        out.push(one);
        i += 1;
    }
    assert(want.take(i as int) == want);
    out
}

/// The kinds as an error lists them.
pub open spec fn kinds_listing() -> Seq<char> {
    "[\"profile_mounted\", \"account_created\", \"account_deactivated\", \"certificate_issued\", \"certificate_revoked\", \"challenge_failed\"]"@
}

/// The complaint about an event that is not one of the six.
pub open spec fn event_fault(field: Seq<char>) -> spec_fn(Seq<char>) -> Option<Seq<char>> {
    |event: Seq<char>|
        if all_kinds().contains(event) {
            None
        } else {
            Some(
                field + ": unknown event `"@ + event + "` (expected one of "@ + kinds_listing()
                    + ")"@,
            )
        }
}

/// The complaint about the first event of a list that is not one of the six.
pub open spec fn events_fault(field: Seq<char>, events: Seq<Seq<char>>) -> Option<Seq<char>> {
    first_of(events, event_fault(field))
}

fn is_kind(name: &str) -> (r: bool)
    ensures
        r == all_kinds().contains(name@),
{
    let all = every_kind();
    crate::text::list_contains(&all, name)
}

/// An `events` list naming something that is no event is a startup error: a typo
/// here must not mean that a notification never fires.
pub fn validate_events(field: &str, events: &Vec<String>) -> (r: Result<(), String>)
    ensures
        match r {
            Ok(_) => events_fault(field@, texts(events@)) is None,
            Err(e) => events_fault(field@, texts(events@)) == Some(e@),
        },
{
    let ghost all = texts(events@);
    let mut i: usize = 0;
    assert(all.take(0) == Seq::<Seq<char>>::empty());
    while i < events.len()
        invariant
            i <= events@.len(),
            all == texts(events@),
            events_fault(field@, all.take(i as int)) is None,
        decreases events@.len() - i,
    {
        proof {
            first_of_next(all, event_fault(field@), i as int);
        }
        if !is_kind(events[i].as_str()) {
            return Err(
                crate::text::cat6(
                    field,
                    ": unknown event `",
                    events[i].as_str(),
                    "` (expected one of ",
                    "[\"profile_mounted\", \"account_created\", \"account_deactivated\", \"certificate_issued\", \"certificate_revoked\", \"challenge_failed\"]",
                    ")",
                ),
            );
        }
        i += 1;
    }
    assert(all.take(i as int) == all);
    Ok(())
}

/// One configured backend, under the id a queued job addresses it by.
///
/// The id comes from the configuration (`email`, `webhook:<entry>`,
/// `custom:<entry>`), so that it is the same after a restart and tells two
/// entries of one kind apart.
pub struct BackendSlot<B> {
    id: String,
    events: StringSet,
    backend: B,
}

impl<B> BackendSlot<B> {
    pub closed spec fn ident(&self) -> Seq<char> {
        self.id@
    }

    /// The kinds of event that are let through.
    pub closed spec fn admits(&self) -> Set<Seq<char>> {
        self.events@
    }

    pub closed spec fn target(&self) -> B {
        self.backend
    }

    /// The id a job payload names this backend by.
    pub fn id(&self) -> (r: &str)
        ensures
            r@ == self.ident(),
    {
        self.id.as_str()
    }

    /// Whether this backend's `events` list lets an event through.
    pub fn wants(&self, event: &NotifyEvent) -> (r: bool)
        ensures
            r == self.admits().contains(event@.kind),
    {
        self.events.contains(event.kind())
    }

    /// The backend itself.
    pub fn backend(&self) -> (r: &B)
        ensures
            *r == self.target(),
    {
        &self.backend
    }

    pub fn new(id: &str, backend: B, events: &Vec<String>) -> (r: BackendSlot<B>)
        ensures
            r.ident() == id@,
            r.target() == backend,
            r.admits() == texts(events@).to_set(),
    {
        BackendSlot { id: id.to_owned(), events: StringSet::from_list(events), backend }
    }
}

/// The ids of those slots that let a kind of event through, in order.
pub open spec fn wanting<B>(slots: Seq<BackendSlot<B>>, kind: Seq<char>) -> Seq<Seq<char>>
    decreases slots.len(),
{
    if slots.len() == 0 {
        Seq::empty()
    } else if slots.last().admits().contains(kind) {
        wanting(slots.drop_last(), kind).push(slots.last().ident())
    } else {
        wanting(slots.drop_last(), kind)
    }
}

/// Whether a JSON value is the payload of one delivery.
pub open spec fn delivers(
    payload: Json,
    profile: Seq<char>,
    backend: Seq<char>,
    event: EventModel,
) -> bool {
    payload matches Json::Object(members) && {
        &&& members@.len() == 3
        &&& members@[0].0@ == "profile"@ && members@[0].1.text() == Some(profile)
        &&& members@[1].0@ == "backend"@ && members@[1].1.text() == Some(backend)
        &&& members@[2].0@ == "event"@ && writes(members@[2].1, event)
    }
}

/// Whether a job is the delivery of an event to one backend.
pub open spec fn is_delivery(
    job: JobSpec,
    profile: Seq<char>,
    backend: Seq<char>,
    event: EventModel,
    delivery_id: Seq<char>,
    now: i64,
) -> bool {
    &&& job.kind@ == "notify_deliver"@
    &&& job.key@ == delivery_id + ":"@ + backend
    &&& delivers(job.payload, profile, backend, event)
    &&& job.run_at == now
    &&& job.deadline is None
    &&& job.max_attempts is None
}

/// The configured notify backends of one profile.
pub struct NotifyDispatcher<B> {
    profile: String,
    slots: Vec<BackendSlot<B>>,
}

/// The ids of slots, in order.
pub open spec fn slot_ids<B>(slots: Seq<BackendSlot<B>>) -> Seq<Seq<char>> {
    slots.map_values(|slot: BackendSlot<B>| slot.ident())
}

/// The slot with an id, the first if there are several.
pub open spec fn slot_named<B>(slots: Seq<BackendSlot<B>>, id: Seq<char>) -> Option<BackendSlot<B>>
    decreases slots.len(),
{
    if slots.len() == 0 {
        None
    } else {
        match slot_named(slots.drop_last(), id) {
            Some(slot) => Some(slot),
            None => if slots.last().ident() == id {
                Some(slots.last())
            } else {
                None
            },
        }
    }
}

impl<B> NotifyDispatcher<B> {
    pub closed spec fn profile_name(&self) -> Seq<char> {
        self.profile@
    }

    pub closed spec fn slot_list(&self) -> Seq<BackendSlot<B>> {
        self.slots@
    }

    /// A dispatcher over the given slots.
    pub fn new(profile: &str, slots: Vec<BackendSlot<B>>) -> (r: NotifyDispatcher<B>)
        ensures
            r.profile_name() == profile@,
            r.slot_list() == slots@,
    {
        NotifyDispatcher { profile: profile.to_owned(), slots }
    }

    /// A dispatcher without backends, which queues nothing.
    pub fn disabled() -> (r: NotifyDispatcher<B>)
        ensures
            r.profile_name() == "default"@,
            r.slot_list() == Seq::<BackendSlot<B>>::empty(),
    {
        NotifyDispatcher::new("default", Vec::new())
    }

    /// What may be shown of a dispatcher: its profile and the ids of its slots.
    pub fn describe(&self) -> (r: String)
        ensures
            r@ == "NotifyDispatcher { profile: "@ + quoted_words(self.profile_name())
                + ", backends: "@ + list_of(slot_ids(self.slot_list())) + " }"@,
    {
        let mut ids: Vec<String> = Vec::new();
        let mut i: usize = 0;
        let ghost all = slot_ids(self.slots@);
        assert(texts(ids@) == all.take(0));
        while i < self.slots.len()
            invariant
                i <= self.slots@.len(),
                all == slot_ids(self.slots@),
                texts(ids@) == all.take(i as int),
            decreases self.slots@.len() - i,
        {
            let id = self.slots[i].id().to_owned();
            proof {
                texts_push(ids@, id);
                assert(all.take(i as int + 1) == all.take(i as int).push(id@));
            }
            ids.push(id);
            i += 1;
        }
        assert(all.take(i as int) == all);
        cat5(
            "NotifyDispatcher { profile: ",
            quoted(self.profile.as_str()).as_str(),
            ", backends: ",
            list(&ids).as_str(),
            " }",
        )
    }

    /// The profile whose section this dispatcher was built from.
    pub fn profile(&self) -> (r: &str)
        ensures
            r@ == self.profile_name(),
    {
        self.profile.as_str()
    }

    /// The backend registered under `id`, if it is still configured.
    pub fn slot(&self, id: &str) -> (r: Option<&BackendSlot<B>>)
        ensures
            match r {
                Some(slot) => slot_named(self.slot_list(), id@) == Some(*slot),
                None => slot_named(self.slot_list(), id@) is None,
            },
    {
        let mut i: usize = 0;
        assert(self.slots@.take(0) == Seq::<BackendSlot<B>>::empty());
        while i < self.slots.len()
            invariant
                i <= self.slots@.len(),
                slot_named(self.slots@.take(i as int), id@) is None,
            decreases self.slots@.len() - i,
        {
            assert(self.slots@.take(i as int + 1).drop_last() == self.slots@.take(i as int));
            if same(self.slots[i].id(), id) {
                proof {
                    slot_found(self.slots@, id@, i as int + 1);
                }
                return Some(&self.slots[i]);
            }
            i += 1;
        }
        assert(self.slots@.take(i as int) == self.slots@);
        None
    }

    /// The jobs that deliver an event, one for each backend that wants it. They
    /// share the delivery id, which is new with each call, so that a second
    /// occurrence of the same event is a second notification.
    pub fn dispatch(&self, event: &NotifyEvent, delivery_id: &str, now: i64) -> (r: Vec<JobSpec>)
        ensures
            r@.len() == wanting(self.slot_list(), event@.kind).len(),
            forall|i: int|
                0 <= i < r@.len() ==> is_delivery(
                    #[trigger] r@[i],
                    self.profile_name(),
                    wanting(self.slot_list(), event@.kind)[i],
                    event@,
                    delivery_id@,
                    now,
                ),
    {
        let ghost all = self.slots@;
        let ghost kind = event@.kind;
        let mut out: Vec<JobSpec> = Vec::new();
        let mut i: usize = 0;
        assert(all.take(0) == Seq::<BackendSlot<B>>::empty());
        while i < self.slots.len()
            invariant
                i <= self.slots@.len(),
                all == self.slots@,
                kind == event@.kind,
                out@.len() == wanting(all.take(i as int), kind).len(),
                forall|j: int|
                    0 <= j < out@.len() ==> is_delivery(
                        #[trigger] out@[j],
                        self.profile@,
                        wanting(all.take(i as int), kind)[j],
                        event@,
                        delivery_id@,
                        now,
                    ),
            decreases self.slots@.len() - i,
        {
            assert(all.take(i as int + 1).drop_last() == all.take(i as int));
            let slot = &self.slots[i];
            if slot.wants(event) {
                let mut members: Vec<(String, Json)> = Vec::new();
                members.push(("profile".to_owned(), Json::Text(self.profile.clone())));
                members.push(("backend".to_owned(), Json::Text(slot.id().to_owned())));
                members.push(("event".to_owned(), event.payload()));
                let key = cat3(delivery_id, ":", slot.id());
                let spec = JobSpec::now("notify_deliver", key.as_str(), now).with_payload(
                    Json::Object(members),
                );
                let ghost held = out@;
                out.push(spec);
                proof {
                    let ids = wanting(all.take(i as int + 1), kind);
                    assert(ids == wanting(all.take(i as int), kind).push(slot.ident()));
                    assert forall|j: int| 0 <= j < out@.len() implies is_delivery(
                        #[trigger] out@[j],
                        self.profile@,
                        ids[j],
                        event@,
                        delivery_id@,
                        now,
                    ) by {
                        if j < held.len() {
                            assert(out@[j] == held[j]);
                        }
                    }
                }
            }
            i += 1;
        }
        assert(all.take(i as int) == all);
        out
    }

    /// The jobs that deliver an event, under an id of their own.
    pub fn dispatch_now(&self, event: &NotifyEvent, now: i64) -> (r: Vec<JobSpec>)
        ensures
            exists|delivery_id: Seq<char>| #[trigger]
                crate::ids::uuid_text(delivery_id) && {
                    &&& r@.len() == wanting(self.slot_list(), event@.kind).len()
                    &&& forall|i: int|
                        0 <= i < r@.len() ==> is_delivery(
                            #[trigger] r@[i],
                            self.profile_name(),
                            wanting(self.slot_list(), event@.kind)[i],
                            event@,
                            delivery_id,
                            now,
                        )
                },
    {
        let delivery_id = crate::ids::fresh_uuid();
        self.dispatch(event, delivery_id.as_str(), now)
    }

    /// The backend that a delivery goes to; nothing where none is configured
    /// under that id any more.
    pub fn deliver(&self, id: &str) -> (r: Option<&B>)
        ensures
            match r {
                Some(backend) => slot_named(self.slot_list(), id@) matches Some(slot)
                    && slot.target() == *backend,
                None => slot_named(self.slot_list(), id@) is None,
            },
    {
        match self.slot(id) {
            Some(slot) => Some(slot.backend()),
            None => None,
        }
    }
}

proof fn slot_found<B>(slots: Seq<BackendSlot<B>>, id: Seq<char>, n: int)
    requires
        0 <= n <= slots.len(),
        slot_named(slots.take(n), id) is Some,
    ensures
        slot_named(slots, id) == slot_named(slots.take(n), id),
    decreases slots.len(),
{
    if n == slots.len() {
        assert(slots.take(n) == slots);
    } else {
        assert(slots.drop_last().take(n) == slots.take(n));
        slot_found(slots.drop_last(), id, n);
    }
}

// ------------------------------------------------------------- configuration
/// The `[notify]` section.
#[derive(Debug)]
pub struct NotifyConfig {
    pub enabled: Vec<String>,
    pub email: EmailNotifyConfig,
    pub webhook_enabled: Vec<String>,
    pub webhook: StringMap<WebhookNotifyConfig>,
    pub custom_enabled: Vec<String>,
    pub custom: StringMap<CustomNotifyConfig>,
}

impl Default for NotifyConfig {
    fn default() -> (r: NotifyConfig)
        ensures
            r.enabled@.len() == 0,
            r.email.defaults(),
            r.webhook_enabled@.len() == 0,
            r.webhook@ == Map::<Seq<char>, WebhookNotifyConfig>::empty(),
            r.custom_enabled@.len() == 0,
            r.custom@ == Map::<Seq<char>, CustomNotifyConfig>::empty(),
    {
        NotifyConfig {
            enabled: Vec::new(),
            email: EmailNotifyConfig::default(),
            webhook_enabled: Vec::new(),
            webhook: StringMap::new(),
            custom_enabled: Vec::new(),
            custom: StringMap::new(),
        }
    }
}

/// A backend that is switched on.
pub enum Backend {
    Email(EmailNotifier),
    Webhook(WebhookNotifier),
    Custom(CustomScriptNotifier),
}

impl NotifyBackend for Backend {
    open spec fn channel(&self) -> Seq<char> {
        match self {
            Backend::Email(_) => "email"@,
            Backend::Webhook(_) => "webhook"@,
            Backend::Custom(_) => "custom"@,
        }
    }

    fn name(&self) -> (r: &'static str) {
        match self {
            Backend::Email(backend) => backend.name(),
            Backend::Webhook(backend) => backend.name(),
            Backend::Custom(backend) => backend.name(),
        }
    }
}

/// A slot that a section asks for.
pub enum SlotPlan {
    Email,
    Webhook(Seq<char>),
    Custom(Seq<char>),
}

/// The id of a slot.
pub open spec fn slot_id(plan: SlotPlan) -> Seq<char> {
    match plan {
        SlotPlan::Email => "email"@,
        SlotPlan::Webhook(name) => "webhook:"@ + name,
        SlotPlan::Custom(name) => "custom:"@ + name,
    }
}

/// Whether a slot is the one that was asked for.
pub open spec fn slot_built(slot: BackendSlot<Backend>, plan: SlotPlan, cfg: NotifyConfig) -> bool {
    &&& slot.ident() == slot_id(plan)
    &&& match plan {
        SlotPlan::Email => {
            &&& slot.admits() == texts(cfg.email.events@).to_set()
            &&& slot.target() matches Backend::Email(n) && email_built(n, cfg.email)
        },
        SlotPlan::Webhook(name) => {
            &&& slot.admits() == texts(cfg.webhook@[name].events@).to_set()
            &&& slot.target() matches Backend::Webhook(n) && webhook_built(
                n,
                name,
                cfg.webhook@[name],
            )
        },
        SlotPlan::Custom(name) => {
            &&& slot.admits() == texts(cfg.custom@[name].events@).to_set()
            &&& slot.target() matches Backend::Custom(n) && custom_built(n, cfg.custom@[name])
        },
    }
}

/// Whether a list of slots is the one that was asked for.
pub open spec fn all_built(
    slots: Seq<BackendSlot<Backend>>,
    plans: Seq<SlotPlan>,
    cfg: NotifyConfig,
) -> bool {
    &&& slots.len() == plans.len()
    &&& forall|i: int| 0 <= i < slots.len() ==> slot_built(#[trigger] slots[i], plans[i], cfg)
}

/// One of two faults, the first first.
pub open spec fn either(a: Option<Seq<char>>, b: Option<Seq<char>>) -> Option<Seq<char>> {
    if a is Some {
        a
    } else {
        b
    }
}

/// Why a custom entry gives no slot.
pub open spec fn custom_entry_fault(name: Seq<char>, cfg: CustomNotifyConfig) -> Option<Seq<char>> {
    either(
        events_fault("notify.custom."@ + name + ".events"@, texts(cfg.events@)),
        custom_fault(cfg),
    )
}

/// Why a custom entry of a section gives no slot.
pub open spec fn custom_named_fault(entries: Map<Seq<char>, CustomNotifyConfig>) -> spec_fn(
    Seq<char>,
) -> Option<Seq<char>> {
    |name: Seq<char>| custom_entry_fault(name, entries[name])
}

/// Why the first of the custom entries that gives no slot gives none.
pub open spec fn custom_entries_fault(
    entries: Map<Seq<char>, CustomNotifyConfig>,
    names: Seq<Seq<char>>,
) -> Option<Seq<char>> {
    first_of(names, custom_named_fault(entries))
}

/// Why a section's custom entries give no slots.
pub open spec fn custom_slots_fault(cfg: NotifyConfig) -> Option<Seq<char>> {
    either(
        selection_fault(
            "notify.custom"@,
            "notify.custom_enabled"@,
            "custom"@,
            cfg.custom@.dom(),
            texts(cfg.custom_enabled@),
        ),
        custom_entries_fault(cfg.custom@, texts(cfg.custom_enabled@)),
    )
}

/// Why a webhook entry gives no slot.
pub open spec fn webhook_entry_fault(name: Seq<char>, cfg: WebhookNotifyConfig) -> Option<
    Seq<char>,
> {
    either(
        events_fault("notify.webhook."@ + name + ".events"@, texts(cfg.events@)),
        webhook_fault(name, cfg),
    )
}

/// Why a webhook entry of a section gives no slot.
pub open spec fn webhook_named_fault(entries: Map<Seq<char>, WebhookNotifyConfig>) -> spec_fn(
    Seq<char>,
) -> Option<Seq<char>> {
    |name: Seq<char>| webhook_entry_fault(name, entries[name])
}

/// Why the first of the webhook entries that gives no slot gives none.
pub open spec fn webhook_entries_fault(
    entries: Map<Seq<char>, WebhookNotifyConfig>,
    names: Seq<Seq<char>>,
) -> Option<Seq<char>> {
    first_of(names, webhook_named_fault(entries))
}

/// Why a section's webhook entries give no slots.
pub open spec fn webhook_slots_fault(cfg: NotifyConfig) -> Option<Seq<char>> {
    either(
        selection_fault(
            "notify.webhook"@,
            "notify.webhook_enabled"@,
            "webhook"@,
            cfg.webhook@.dom(),
            texts(cfg.webhook_enabled@),
        ),
        webhook_entries_fault(cfg.webhook@, texts(cfg.webhook_enabled@)),
    )
}

/// Whether no webhook entry that is switched on configures more headers than a
/// request can hold.
pub open spec fn headers_fit(cfg: NotifyConfig) -> bool {
    texts(cfg.enabled@).contains("webhook"@) ==> entry_headers_fit(cfg)
}

/// Whether no selected webhook entry configures more headers than a request can
/// hold.
pub open spec fn entry_headers_fit(cfg: NotifyConfig) -> bool {
    forall|name: Seq<char>| #[trigger]
        cfg.webhook@.dom().contains(name) && texts(cfg.webhook_enabled@).contains(name)
            ==> cfg.webhook@[name].headers.keys_in_order().len() <= 6_551
}

/// Why a name in `enabled` gives no slots.
pub open spec fn backend_fault(cfg: NotifyConfig, name: Seq<char>) -> Option<Seq<char>> {
    if name == "email"@ {
        either(
            events_fault("notify.email.events"@, texts(cfg.email.events@)),
            email_fault(cfg.email),
        )
    } else if name == "webhook"@ {
        webhook_slots_fault(cfg)
    } else if name == "custom"@ {
        custom_slots_fault(cfg)
    } else if name == "mattermost"@ {
        Some(
            "notify.enabled: `mattermost` was replaced by `webhook`. Use notify.enabled = [\"webhook\"] with a [notify.webhook.<name>] entry whose `url` is the incoming webhook URL; the default `body` is already the payload Mattermost accepts. `channel` and `username` move into that `body`"@,
        )
    } else {
        Some("unknown notify backend: "@ + name)
    }
}

/// Why a name in a section's `enabled` gives no slots.
pub open spec fn name_fault(cfg: NotifyConfig) -> spec_fn(Seq<char>) -> Option<Seq<char>> {
    |name: Seq<char>| backend_fault(cfg, name)
}

/// Why the first of the names that gives no slots gives none.
pub open spec fn enabled_fault(cfg: NotifyConfig, names: Seq<Seq<char>>) -> Option<Seq<char>> {
    first_of(names, name_fault(cfg))
}

/// The slots that a name in `enabled` asks for.
pub open spec fn plans_of(cfg: NotifyConfig, name: Seq<char>) -> Seq<SlotPlan> {
    if name == "email"@ {
        seq![SlotPlan::Email]
    } else if name == "webhook"@ {
        texts(cfg.webhook_enabled@).map_values(|n: Seq<char>| SlotPlan::Webhook(n))
    } else if name == "custom"@ {
        texts(cfg.custom_enabled@).map_values(|n: Seq<char>| SlotPlan::Custom(n))
    } else {
        Seq::empty()
    }
}

/// The slots that a section asks for, in order.
pub open spec fn plans(cfg: NotifyConfig, names: Seq<Seq<char>>) -> Seq<SlotPlan>
    decreases names.len(),
{
    if names.len() == 0 {
        Seq::empty()
    } else {
        plans(cfg, names.drop_last()) + plans_of(cfg, names.last())
    }
}

/// One slot per selected custom entry, under `custom:<entry>`.
pub fn build_custom_slots(cfg: &NotifyConfig) -> (r: Result<Vec<BackendSlot<Backend>>, String>)
    ensures
        match r {
            Ok(slots) => custom_slots_fault(*cfg) is None && all_built(
                slots@,
                plans_of(*cfg, "custom"@),
                *cfg,
            ),
            Err(e) => custom_slots_fault(*cfg) == Some(e@),
        },
{
    if let Err(e) = resolve_named_entries(
        "notify.custom",
        "notify.custom_enabled",
        "custom",
        &cfg.custom,
        &cfg.custom_enabled,
    ) {
        return Err(e);
    }
    let ghost names = texts(cfg.custom_enabled@);
    let ghost want = names.map_values(|n: Seq<char>| SlotPlan::Custom(n));
    proof {
        backend_names_differ();
    }
    let mut out: Vec<BackendSlot<Backend>> = Vec::new();
    let mut i: usize = 0;
    assert(names.take(0) == Seq::<Seq<char>>::empty());
    while i < cfg.custom_enabled.len()
        invariant
            i <= cfg.custom_enabled@.len(),
            names == texts(cfg.custom_enabled@),
            want == names.map_values(|n: Seq<char>| SlotPlan::Custom(n)),
            selection_fault(
                "notify.custom"@,
                "notify.custom_enabled"@,
                "custom"@,
                cfg.custom@.dom(),
                names,
            ) is None,
            forall|j: int|
                0 <= j < names.len() ==> cfg.custom@.dom().contains((#[trigger] names[j])),
            custom_entries_fault(cfg.custom@, names.take(i as int)) is None,
            all_built(out@, want.take(i as int), *cfg),
        decreases cfg.custom_enabled@.len() - i,
    {
        let name = cfg.custom_enabled[i].as_str();
        assert(names[i as int] == name@);
        proof {
            first_of_next(names, custom_named_fault(cfg.custom@), i as int);
        }
        match cfg.custom.get(name) {
            Some(entry) => {
                let field = cat3("notify.custom.", name, ".events");
                if let Err(e) = validate_events(field.as_str(), &entry.events) {
                    return Err(e);
                }
                match CustomScriptNotifier::from_config(entry) {
                    Err(e) => {
                        return Err(e);
                    },
                    Ok(backend) => {
                        let id = cat2("custom:", name);
                        let slot = BackendSlot::new(
                            id.as_str(),
                            Backend::Custom(backend),
                            &entry.events,
                        );
                        assert(want[i as int] == SlotPlan::Custom(name@));
                        assert(slot_built(slot, want[i as int], *cfg));
                        out.push(slot);
                    },
                }
            },
            None => {},
        }
        i += 1;
    }
    assert(names.take(i as int) == names);
    assert(want.take(i as int) == want);
    Ok(out)
}

/// One slot per selected webhook entry, under `webhook:<entry>`.
pub fn build_webhook_slots(cfg: &NotifyConfig) -> (r: Result<Vec<BackendSlot<Backend>>, String>)
    requires
        entry_headers_fit(*cfg),
    ensures
        match r {
            Ok(slots) => webhook_slots_fault(*cfg) is None && all_built(
                slots@,
                plans_of(*cfg, "webhook"@),
                *cfg,
            ),
            Err(e) => webhook_slots_fault(*cfg) == Some(e@),
        },
{
    if let Err(e) = resolve_named_entries(
        "notify.webhook",
        "notify.webhook_enabled",
        "webhook",
        &cfg.webhook,
        &cfg.webhook_enabled,
    ) {
        return Err(e);
    }
    let ghost names = texts(cfg.webhook_enabled@);
    let ghost want = names.map_values(|n: Seq<char>| SlotPlan::Webhook(n));
    proof {
        backend_names_differ();
    }
    let mut out: Vec<BackendSlot<Backend>> = Vec::new();
    let mut i: usize = 0;
    assert(names.take(0) == Seq::<Seq<char>>::empty());
    while i < cfg.webhook_enabled.len()
        invariant
            i <= cfg.webhook_enabled@.len(),
            entry_headers_fit(*cfg),
            names == texts(cfg.webhook_enabled@),
            want == names.map_values(|n: Seq<char>| SlotPlan::Webhook(n)),
            selection_fault(
                "notify.webhook"@,
                "notify.webhook_enabled"@,
                "webhook"@,
                cfg.webhook@.dom(),
                names,
            ) is None,
            forall|j: int|
                0 <= j < names.len() ==> cfg.webhook@.dom().contains((#[trigger] names[j])),
            webhook_entries_fault(cfg.webhook@, names.take(i as int)) is None,
            all_built(out@, want.take(i as int), *cfg),
        decreases cfg.webhook_enabled@.len() - i,
    {
        let name = cfg.webhook_enabled[i].as_str();
        assert(names[i as int] == name@);
        proof {
            first_of_next(names, webhook_named_fault(cfg.webhook@), i as int);
        }
        assert(names.contains(name@));
        match cfg.webhook.get(name) {
            Some(entry) => {
                let field = cat3("notify.webhook.", name, ".events");
                if let Err(e) = validate_events(field.as_str(), &entry.events) {
                    return Err(e);
                }
                match WebhookNotifier::from_config(name, entry) {
                    Err(e) => {
                        return Err(e);
                    },
                    Ok(backend) => {
                        let id = cat2("webhook:", name);
                        let slot = BackendSlot::new(
                            id.as_str(),
                            Backend::Webhook(backend),
                            &entry.events,
                        );
                        assert(want[i as int] == SlotPlan::Webhook(name@));
                        assert(slot_built(slot, want[i as int], *cfg));
                        out.push(slot);
                    },
                }
            },
            None => {},
        }
        i += 1;
    }
    assert(names.take(i as int) == names);
    assert(want.take(i as int) == want);
    Ok(out)
}

proof fn backend_names_differ()
    ensures
        "email"@ != "webhook"@,
        "email"@ != "custom"@,
        "webhook"@ != "custom"@,
        "mattermost"@ != "email"@,
        "mattermost"@ != "webhook"@,
        "mattermost"@ != "custom"@,
{
    reveal_strlit("email");
    reveal_strlit("webhook");
    reveal_strlit("custom");
    reveal_strlit("mattermost");
    assert("email"@.len() == 5 && "webhook"@.len() == 7 && "custom"@.len() == 6
        && "mattermost"@.len() == 10);
}

fn build_slots(cfg: &NotifyConfig, name: &str) -> (r: Result<Vec<BackendSlot<Backend>>, String>)
    requires
        name@ == "webhook"@ ==> entry_headers_fit(*cfg),
    ensures
        match r {
            Ok(slots) => backend_fault(*cfg, name@) is None && all_built(
                slots@,
                plans_of(*cfg, name@),
                *cfg,
            ),
            Err(e) => backend_fault(*cfg, name@) == Some(e@),
        },
{
    proof {
        backend_names_differ();
    }
    if same(name, "email") {
        if let Err(e) = validate_events("notify.email.events", &cfg.email.events) {
            return Err(e);
        }
        match EmailNotifier::from_config(&cfg.email) {
            Err(e) => Err(e),
            Ok(backend) => {
                let slot = BackendSlot::new("email", Backend::Email(backend), &cfg.email.events);
                assert(slot_built(slot, SlotPlan::Email, *cfg));
                let mut slots: Vec<BackendSlot<Backend>> = Vec::new();
                slots.push(slot);
                Ok(slots)
            },
        }
    } else if same(name, "webhook") {
        build_webhook_slots(cfg)
    } else if same(name, "custom") {
        build_custom_slots(cfg)
    } else if same(name, "mattermost") {
        Err(
            "notify.enabled: `mattermost` was replaced by `webhook`. Use notify.enabled = [\"webhook\"] with a [notify.webhook.<name>] entry whose `url` is the incoming webhook URL; the default `body` is already the payload Mattermost accepts. `channel` and `username` move into that `body`".to_owned(),
        )
    } else {
        Err(cat2("unknown notify backend: ", name))
    }
}

/// Builds the configured dispatcher of a profile. The first fault of the section
/// is a startup error.
pub fn from_config(profile: &str, cfg: &NotifyConfig) -> (r: Result<
    NotifyDispatcher<Backend>,
    String,
>)
    requires
        headers_fit(*cfg),
    ensures
        match r {
            Ok(dispatcher) => {
                &&& enabled_fault(*cfg, texts(cfg.enabled@)) is None
                &&& dispatcher.profile_name() == profile@
                &&& all_built(
                    dispatcher.slot_list(),
                    plans(*cfg, texts(cfg.enabled@)),
                    *cfg,
                )
            },
            Err(e) => enabled_fault(*cfg, texts(cfg.enabled@)) == Some(e@),
        },
{
    let ghost names = texts(cfg.enabled@);
    let mut slots: Vec<BackendSlot<Backend>> = Vec::new();
    let mut i: usize = 0;
    assert(names.take(0) == Seq::<Seq<char>>::empty());
    while i < cfg.enabled.len()
        invariant
            i <= cfg.enabled@.len(),
            headers_fit(*cfg),
            names == texts(cfg.enabled@),
            enabled_fault(*cfg, names.take(i as int)) is None,
            all_built(slots@, plans(*cfg, names.take(i as int)), *cfg),
        decreases cfg.enabled@.len() - i,
    {
        let name = cfg.enabled[i].as_str();
        assert(names.take(i as int + 1).drop_last() == names.take(i as int));
        assert(names.take(i as int + 1).last() == name@);
        assert(names[i as int] == name@ && names.contains(name@));
        proof {
            first_of_next(names, name_fault(*cfg), i as int);
        }
        match build_slots(cfg, name) {
            Err(e) => {
                return Err(e);
            },
            Ok(built) => {
                let ghost (a, b) = (slots@, built@);
                let mut built = built;
                slots.append(&mut built);
                proof {
                    let (p, q) = (plans(*cfg, names.take(i as int)), plans_of(*cfg, name@));
                    assert forall|j: int| 0 <= j < slots@.len() implies slot_built(
                        #[trigger] slots@[j],
                        (p + q)[j],
                        *cfg,
                    ) by {
                        if j < a.len() {
                            assert(slots@[j] == a[j]);
                        } else {
                            assert(slots@[j] == b[j - a.len()]);
                        }
                    }
                }
            },
        }
        i += 1;
    }
    assert(names.take(i as int) == names);
    Ok(NotifyDispatcher::new(profile, slots))
}

/// A profile and its section.
#[derive(Debug)]
pub struct ProfileConfig {
    pub name: String,
    pub notify: NotifyConfig,
}

/// The dispatcher of each profile.
#[verifier::reject_recursive_types(B)]
pub struct Notifiers<B> {
    dispatchers: StringMap<NotifyDispatcher<B>>,
}

impl<B> Notifiers<B> {
    pub closed spec fn map(&self) -> Map<Seq<char>, NotifyDispatcher<B>> {
        self.dispatchers@
    }

    pub fn new(dispatchers: StringMap<NotifyDispatcher<B>>) -> (r: Notifiers<B>)
        ensures
            r.map() == dispatchers@,
    {
        Notifiers { dispatchers }
    }

    /// The dispatcher of a profile, if it is mounted.
    pub fn get(&self, profile: &str) -> (r: Option<&NotifyDispatcher<B>>)
        ensures
            match r {
                Some(dispatcher) => self.map().dom().contains(profile@) && *dispatcher
                    == self.map()[profile@],
                None => !self.map().dom().contains(profile@),
            },
    {
        self.dispatchers.get(profile)
    }

    /// Every dispatcher, under the name of its profile.
    pub fn dispatchers(self) -> (r: StringMap<NotifyDispatcher<B>>)
        ensures
            r@ == self.map(),
    {
        self.dispatchers
    }
}

/// Why a profile's section gives no dispatcher.
pub open spec fn profile_fault() -> spec_fn(ProfileConfig) -> Option<Seq<char>> {
    |profile: ProfileConfig|
        match enabled_fault(profile.notify, texts(profile.notify.enabled@)) {
            Some(fault) => Some("profile `"@ + profile.name@ + "`: "@ + fault),
            None => None,
        }
}

/// Why the first of the profiles whose section gives no dispatcher gives none.
pub open spec fn profiles_fault(profiles: Seq<ProfileConfig>) -> Option<Seq<char>> {
    first_of(profiles, profile_fault())
}

/// The last of the profiles with a name.
pub open spec fn profile_named(profiles: Seq<ProfileConfig>, name: Seq<char>) -> Option<
    ProfileConfig,
>
    decreases profiles.len(),
{
    if profiles.len() == 0 {
        None
    } else if profiles.last().name@ == name {
        Some(profiles.last())
    } else {
        profile_named(profiles.drop_last(), name)
    }
}

/// Whether a map holds for a name what the profiles ask for: the dispatcher of
/// the profile of that name, or nothing where there is none.
pub open spec fn registers(
    map: Map<Seq<char>, NotifyDispatcher<Backend>>,
    profiles: Seq<ProfileConfig>,
    name: Seq<char>,
) -> bool {
    match profile_named(profiles, name) {
        Some(profile) => {
            &&& map.dom().contains(name)
            &&& map[name].profile_name() == name
            &&& all_built(
                map[name].slot_list(),
                plans(profile.notify, texts(profile.notify.enabled@)),
                profile.notify,
            )
        },
        None => !map.dom().contains(name),
    }
}

/// Whether a map holds a dispatcher for each profile, as its section asks for
/// it, and no other.
pub open spec fn registered(
    map: Map<Seq<char>, NotifyDispatcher<Backend>>,
    profiles: Seq<ProfileConfig>,
) -> bool {
    forall|name: Seq<char>| #[trigger] registers(map, profiles, name)
}

/// Builds one dispatcher per profile, under the name of the profile.
pub fn build_registry(profiles: &Vec<ProfileConfig>) -> (r: Result<
    StringMap<NotifyDispatcher<Backend>>,
    String,
>)
    requires
        forall|i: int| 0 <= i < profiles@.len() ==> headers_fit((#[trigger] profiles@[i]).notify),
    ensures
        match r {
            Ok(map) => profiles_fault(profiles@) is None && registered(map@, profiles@),
            Err(e) => profiles_fault(profiles@) == Some(e@),
        },
{
    let mut map: StringMap<NotifyDispatcher<Backend>> = StringMap::new();
    let mut i: usize = 0;
    assert(profiles@.take(0) == Seq::<ProfileConfig>::empty());
    while i < profiles.len()
        invariant
            i <= profiles@.len(),
            forall|j: int|
                0 <= j < profiles@.len() ==> headers_fit((#[trigger] profiles@[j]).notify),
            profiles_fault(profiles@.take(i as int)) is None,
            registered(map@, profiles@.take(i as int)),
        decreases profiles@.len() - i,
    {
        let profile = &profiles[i];
        let ghost upto = profiles@.take(i as int + 1);
        assert(upto.drop_last() == profiles@.take(i as int));
        assert(upto.last() == profiles@[i as int]);
        proof {
            first_of_next(profiles@, profile_fault(), i as int);
        }
        assert(headers_fit(profiles@[i as int].notify));
        match from_config(profile.name.as_str(), &profile.notify) {
            Err(error) => {
                return Err(
                    crate::text::cat4("profile `", profile.name.as_str(), "`: ", error.as_str()),
                );
            },
            Ok(dispatcher) => {
                let ghost was = map@;
                map.insert(profile.name.clone(), dispatcher);
                proof {
                    assert forall|name: Seq<char>| #[trigger] registers(map@, upto, name) by {
                        assert(registers(was, profiles@.take(i as int), name));
                    }
                }
            },
        }
        i += 1;
    }
    assert(profiles@.take(i as int) == profiles@);
    Ok(map)
}

// ---------------------------------------------------------------------- laws
/// Two slots have one id only where they are the same slot: an entry's name
/// tells it apart from every other of its kind, and the kinds from each other.
pub proof fn slot_ids_tell_apart(a: SlotPlan, b: SlotPlan)
    requires
        slot_id(a) == slot_id(b),
    ensures
        a == b,
{
    reveal_strlit("email");
    reveal_strlit("webhook:");
    reveal_strlit("custom:");
    let (x, y) = (slot_id(a), slot_id(b));
    assert(a is Email ==> x.len() == 5 && x[0] == 'e');
    assert(b is Email ==> y.len() == 5 && y[0] == 'e');
    assert(a is Webhook ==> x[0] == 'w');
    assert(b is Webhook ==> y[0] == 'w');
    assert(a is Custom ==> x[0] == 'c');
    assert(b is Custom ==> y[0] == 'c');
    match (a, b) {
        (SlotPlan::Webhook(m), SlotPlan::Webhook(n)) => {
            assert(m =~= x.skip(8));
            assert(n =~= y.skip(8));
        },
        (SlotPlan::Custom(m), SlotPlan::Custom(n)) => {
            assert(m =~= x.skip(7));
            assert(n =~= y.skip(7));
        },
        _ => {},
    }
}

/// A dispatcher queues nothing for an event that no backend wants, and one row
/// for each backend where all want it.
pub proof fn one_row_per_wanting_backend<B>(slots: Seq<BackendSlot<B>>, kind: Seq<char>)
    ensures
        wanting(slots, kind).len() <= slots.len(),
        (forall|i: int| 0 <= i < slots.len() ==> !(#[trigger] slots[i]).admits().contains(kind))
            ==> wanting(slots, kind).len() == 0,
        (forall|i: int| 0 <= i < slots.len() ==> (#[trigger] slots[i]).admits().contains(kind))
            ==> wanting(slots, kind) == slots.map_values(|s: BackendSlot<B>| s.ident()),
    decreases slots.len(),
{
    let ids = slots.map_values(|s: BackendSlot<B>| s.ident());
    if slots.len() > 0 {
        let front = slots.drop_last();
        one_row_per_wanting_backend(front, kind);
        assert(slots[slots.len() - 1] == slots.last());
        if forall|i: int| 0 <= i < slots.len() ==> (#[trigger] slots[i]).admits().contains(kind) {
            assert forall|i: int| 0 <= i < front.len() implies (
            #[trigger] front[i]).admits().contains(kind) by {
                assert(front[i] == slots[i]);
            }
            assert(front.map_values(|s: BackendSlot<B>| s.ident()).push(slots.last().ident())
                =~= ids);
        }
        if forall|i: int| 0 <= i < slots.len() ==> !(#[trigger] slots[i]).admits().contains(kind) {
            assert forall|i: int| 0 <= i < front.len() implies !(
            #[trigger] front[i]).admits().contains(kind) by {
                assert(front[i] == slots[i]);
            }
        }
    } else {
        assert(wanting(slots, kind) =~= ids);
    }
}

/// Two occurrences are two notifications: rows of dispatches with different ids
/// never hold the same key, whatever the backends are called.
pub proof fn occurrences_do_not_collide(a: Seq<char>, b: Seq<char>, x: Seq<char>, y: Seq<char>)
    requires
        a.len() == b.len(),
        a != b,
    ensures
        a + ":"@ + x != b + ":"@ + y,
{
    let (p, q) = (a + ":"@ + x, b + ":"@ + y);
    if p == q {
        assert(p.take(a.len() as int) =~= a);
        assert(q.take(b.len() as int) =~= b);
    }
}

/// An `events` list is accepted exactly when each of its members is one of the six
/// kinds; the first that is none is named.
pub proof fn events_are_of_the_six_kinds(field: Seq<char>, events: Seq<Seq<char>>)
    ensures
        events_fault(field, events) is None <==> forall|i: int|
            0 <= i < events.len() ==> all_kinds().contains(#[trigger] events[i]),
        forall|i: int|
            0 <= i < events.len() && !all_kinds().contains(#[trigger] events[i]) && (forall|j: int|
                0 <= j < i ==> all_kinds().contains(#[trigger] events[j])) ==> events_fault(
                field,
                events,
            ) == Some(
                field + ": unknown event `"@ + events[i] + "` (expected one of "@
                    + "[\"profile_mounted\", \"account_created\", \"account_deactivated\", \"certificate_issued\", \"certificate_revoked\", \"challenge_failed\"]"@
                    + ")"@,
            ),
{
    let fault = event_fault(field);
    crate::faults::first_of_none(events, fault);
    assert forall|e: Seq<char>| (#[trigger] fault(e)) is None <==> all_kinds().contains(e) by {}
    if events_fault(field, events) is None {
        assert forall|i: int| 0 <= i < events.len() implies all_kinds().contains(
            #[trigger] events[i],
        ) by {
            assert(fault(events[i]) is None);
        }
    }
    if forall|i: int| 0 <= i < events.len() ==> all_kinds().contains(#[trigger] events[i]) {
        assert forall|i: int| 0 <= i < events.len() implies fault(#[trigger] events[i]) is None by {
            assert(all_kinds().contains(events[i]));
        }
    }
    assert forall|i: int|
        0 <= i < events.len() && !all_kinds().contains(#[trigger] events[i]) && (forall|j: int|
            0 <= j < i ==> all_kinds().contains(#[trigger] events[j])) implies events_fault(
        field,
        events,
    ) == Some(
        field + ": unknown event `"@ + events[i] + "` (expected one of "@
            + "[\"profile_mounted\", \"account_created\", \"account_deactivated\", \"certificate_issued\", \"certificate_revoked\", \"challenge_failed\"]"@
            + ")"@,
    ) by {
        assert forall|j: int| 0 <= j < i implies fault(#[trigger] events[j]) is None by {
            assert(all_kinds().contains(events[j]));
        }
        crate::faults::the_first_fault_decides(events, fault, i);
    }
}

/// An event goes to each slot that lets its kind through, once and in order, and to no
/// other.
pub proof fn an_event_goes_to_who_wants_it<B>(
    slots: Seq<BackendSlot<B>>,
    slot: BackendSlot<B>,
    kind: Seq<char>,
)
    ensures
        wanting(Seq::<BackendSlot<B>>::empty(), kind).len() == 0,
        slot.admits().contains(kind) ==> wanting(slots.push(slot), kind) == wanting(
            slots,
            kind,
        ).push(slot.ident()),
        !slot.admits().contains(kind) ==> wanting(slots.push(slot), kind) == wanting(slots, kind),
{
    assert(slots.push(slot).drop_last() =~= slots);
}

/// A slot is found by its own id, the first of several; and where none has the id, none
/// is.
pub proof fn a_slot_is_found_by_its_id<B>(slots: Seq<BackendSlot<B>>, id: Seq<char>)
    ensures
        slot_named(slots, id) is None <==> forall|i: int|
            0 <= i < slots.len() ==> (#[trigger] slots[i]).ident() != id,
        forall|i: int|
            0 <= i < slots.len() && (#[trigger] slots[i]).ident() == id && (forall|j: int|
                0 <= j < i ==> (#[trigger] slots[j]).ident() != id) ==> slot_named(slots, id)
                == Some(slots[i]),
    decreases slots.len(),
{
    if slots.len() > 0 {
        let front = slots.drop_last();
        let n = slots.len() - 1;
        a_slot_is_found_by_its_id(front, id);
        assert(slots[n] == slots.last());
        assert forall|i: int| 0 <= i < front.len() implies front[i] == slots[i] by {}
        if slot_named(slots, id) is None {
            assert forall|i: int| 0 <= i < slots.len() implies (#[trigger] slots[i]).ident()
                != id by {
                if i < n {
                    assert(front[i].ident() != id);
                }
            }
        }
        if forall|i: int| 0 <= i < slots.len() ==> (#[trigger] slots[i]).ident() != id {
            assert forall|i: int| 0 <= i < front.len() implies (#[trigger] front[i]).ident()
                != id by {
                assert(slots[i].ident() != id);
            }
            assert(slots[n].ident() != id);
        }
        assert forall|i: int|
            0 <= i < slots.len() && (#[trigger] slots[i]).ident() == id && (forall|j: int|
                0 <= j < i ==> (#[trigger] slots[j]).ident() != id) implies slot_named(slots, id)
            == Some(slots[i]) by {
            if i < n {
                assert(front[i].ident() == id);
                assert forall|j: int| 0 <= j < i implies (#[trigger] front[j]).ident() != id by {
                    assert(slots[j].ident() != id);
                }
            } else {
                assert forall|j: int| 0 <= j < front.len() implies (#[trigger] front[j]).ident()
                    != id by {
                    assert(slots[j].ident() != id);
                }
            }
        }
    }
}

/// The job of a delivery carries the profile, the backend and the whole event, is due at
/// once, and is keyed by the occurrence and the backend.
pub proof fn a_delivery_carries_its_event(
    job: JobSpec,
    profile: Seq<char>,
    backend: Seq<char>,
    event: EventModel,
    id: Seq<char>,
    now: i64,
)
    requires
        is_delivery(job, profile, backend, event, id, now),
    ensures
        job.kind@ == "notify_deliver"@,
        job.key@ == id + ":"@ + backend,
        job.run_at == now,
        job.deadline is None,
        job.max_attempts is None,
        job.payload is Object && job.payload->Object_0@.len() == 3,
        job.payload->Object_0@[0].0@ == "profile"@ && job.payload->Object_0@[0].1.text() == Some(
            profile,
        ),
        job.payload->Object_0@[1].0@ == "backend"@ && job.payload->Object_0@[1].1.text() == Some(
            backend,
        ),
        job.payload->Object_0@[2].0@ == "event"@ && writes(job.payload->Object_0@[2].1, event),
{
}

/// The ids of slots, one for one.
pub proof fn ids_are_one_for_one<B>(slots: Seq<BackendSlot<B>>)
    ensures
        slot_ids(slots).len() == slots.len(),
        forall|i: int| 0 <= i < slots.len() ==> #[trigger] slot_ids(slots)[i] == slots[i].ident(),
{
}

/// A slot is addressed as `email`, or by its kind and its entry's name.
pub proof fn slots_are_addressed_by_kind_and_entry(name: Seq<char>)
    ensures
        slot_id(SlotPlan::Email) == "email"@,
        slot_id(SlotPlan::Webhook(name)) == "webhook:"@ + name,
        slot_id(SlotPlan::Custom(name)) == "custom:"@ + name,
{
}

/// A slot that was built is the one that was asked for: its address, the events of its own
/// section, and a backend made of that section.
pub proof fn a_slot_is_made_of_its_section(
    slot: BackendSlot<Backend>,
    cfg: NotifyConfig,
    name: Seq<char>,
    kind: Seq<char>,
)
    ensures
        slot_built(slot, SlotPlan::Email, cfg) ==> slot.ident() == "email"@ && slot.target() is Email
            && email_built(slot.target()->Email_0, cfg.email) && (slot.admits().contains(kind)
            <==> texts(cfg.email.events@).contains(kind)),
        slot_built(slot, SlotPlan::Webhook(name), cfg) ==> slot.ident() == "webhook:"@ + name
            && slot.target() is Webhook && webhook_built(
            slot.target()->Webhook_0,
            name,
            cfg.webhook@[name],
        ) && (slot.admits().contains(kind) <==> texts(cfg.webhook@[name].events@).contains(kind)),
        slot_built(slot, SlotPlan::Custom(name), cfg) ==> slot.ident() == "custom:"@ + name
            && slot.target() is Custom && custom_built(slot.target()->Custom_0, cfg.custom@[name])
            && (slot.admits().contains(kind) <==> texts(cfg.custom@[name].events@).contains(kind)),
{
}

/// Slots are built one for one.
pub proof fn slots_are_built_one_for_one(
    slots: Seq<BackendSlot<Backend>>,
    plans: Seq<SlotPlan>,
    cfg: NotifyConfig,
)
    ensures
        all_built(slots, plans, cfg) <==> slots.len() == plans.len() && forall|i: int|
            0 <= i < slots.len() ==> slot_built(#[trigger] slots[i], plans[i], cfg),
{
}

/// What a name in `enabled` asks for: one slot of email, or one of each entry that is
/// switched on, in order.
pub proof fn a_name_asks_for_its_entries(
    cfg: NotifyConfig,
    names: Seq<Seq<char>>,
    name: Seq<char>,
)
    ensures
        plans_of(cfg, "email"@).len() == 1 && plans_of(cfg, "email"@)[0] == SlotPlan::Email,
        plans_of(cfg, "webhook"@).len() == cfg.webhook_enabled@.len(),
        forall|i: int|
            0 <= i < cfg.webhook_enabled@.len() ==> #[trigger] plans_of(cfg, "webhook"@)[i]
                == SlotPlan::Webhook(cfg.webhook_enabled@[i]@),
        plans_of(cfg, "custom"@).len() == cfg.custom_enabled@.len(),
        forall|i: int|
            0 <= i < cfg.custom_enabled@.len() ==> #[trigger] plans_of(cfg, "custom"@)[i]
                == SlotPlan::Custom(cfg.custom_enabled@[i]@),
        plans(cfg, Seq::empty()).len() == 0,
        plans(cfg, names.push(name)) == plans(cfg, names) + plans_of(cfg, name),
{
    backend_names_differ();
    assert(names.push(name).drop_last() =~= names);
}

/// A name in `enabled` is accepted exactly when it is one of the three backends and its
/// sections are; the replaced and the unknown are told so.
pub proof fn a_backend_is_accepted_by_its_sections(cfg: NotifyConfig, name: Seq<char>)
    ensures
        backend_fault(cfg, name) is None ==> name == "email"@ || name == "webhook"@ || name
            == "custom"@,
        backend_fault(cfg, "email"@) is None <==> events_fault(
            "notify.email.events"@,
            texts(cfg.email.events@),
        ) is None && email_fault(cfg.email) is None,
        backend_fault(cfg, "webhook"@) == webhook_slots_fault(cfg),
        backend_fault(cfg, "custom"@) == custom_slots_fault(cfg),
        events_fault("notify.email.events"@, texts(cfg.email.events@)) is Some ==> backend_fault(
            cfg,
            "email"@,
        ) == events_fault("notify.email.events"@, texts(cfg.email.events@)),
        events_fault("notify.email.events"@, texts(cfg.email.events@)) is None ==> backend_fault(
            cfg,
            "email"@,
        ) == email_fault(cfg.email),
        backend_fault(cfg, "mattermost"@) == Some(
            "notify.enabled: `mattermost` was replaced by `webhook`. Use notify.enabled = [\"webhook\"] with a [notify.webhook.<name>] entry whose `url` is the incoming webhook URL; the default `body` is already the payload Mattermost accepts. `channel` and `username` move into that `body`"@,
        ),
        name != "email"@ && name != "webhook"@ && name != "custom"@ && name != "mattermost"@
            ==> backend_fault(cfg, name) == Some("unknown notify backend: "@ + name),
{
    backend_names_differ();
}

/// Webhooks are accepted exactly when at least one entry is switched on, each name has an
/// entry, and each entry's events and settings are accepted; custom scripts likewise.
pub proof fn entries_are_accepted_one_by_one(cfg: NotifyConfig)
    ensures
        webhook_slots_fault(cfg) is None <==> {
            &&& selection_fault(
                "notify.webhook"@,
                "notify.webhook_enabled"@,
                "webhook"@,
                cfg.webhook@.dom(),
                texts(cfg.webhook_enabled@),
            ) is None
            &&& forall|i: int|
                0 <= i < cfg.webhook_enabled@.len() ==> webhook_entry_accepted(
                    (#[trigger] texts(cfg.webhook_enabled@)[i]),
                    cfg.webhook@[texts(cfg.webhook_enabled@)[i]],
                )
        },
        custom_slots_fault(cfg) is None <==> {
            &&& selection_fault(
                "notify.custom"@,
                "notify.custom_enabled"@,
                "custom"@,
                cfg.custom@.dom(),
                texts(cfg.custom_enabled@),
            ) is None
            &&& forall|i: int|
                0 <= i < cfg.custom_enabled@.len() ==> custom_entry_accepted(
                    (#[trigger] texts(cfg.custom_enabled@)[i]),
                    cfg.custom@[texts(cfg.custom_enabled@)[i]],
                )
        },
{
    let (w, c) = (texts(cfg.webhook_enabled@), texts(cfg.custom_enabled@));
    let (wf, cf) = (webhook_named_fault(cfg.webhook@), custom_named_fault(cfg.custom@));
    crate::faults::first_of_none(w, wf);
    crate::faults::first_of_none(c, cf);
    assert forall|n: Seq<char>| (#[trigger] wf(n)) is None <==> webhook_entry_accepted(
        n,
        cfg.webhook@[n],
    ) by {}
    assert forall|n: Seq<char>| (#[trigger] cf(n)) is None <==> custom_entry_accepted(
        n,
        cfg.custom@[n],
    ) by {}
    if first_of(w, wf) is None {
        assert forall|i: int| 0 <= i < w.len() implies webhook_entry_accepted(
            #[trigger] w[i],
            cfg.webhook@[w[i]],
        ) by {
            assert(wf(w[i]) is None);
        }
    }
    if forall|i: int|
        0 <= i < w.len() ==> webhook_entry_accepted(#[trigger] w[i], cfg.webhook@[w[i]]) {
        assert forall|i: int| 0 <= i < w.len() implies wf(#[trigger] w[i]) is None by {
            assert(webhook_entry_accepted(w[i], cfg.webhook@[w[i]]));
        }
    }
    if first_of(c, cf) is None {
        assert forall|i: int| 0 <= i < c.len() implies custom_entry_accepted(
            #[trigger] c[i],
            cfg.custom@[c[i]],
        ) by {
            assert(cf(c[i]) is None);
        }
    }
    if forall|i: int|
        0 <= i < c.len() ==> custom_entry_accepted(#[trigger] c[i], cfg.custom@[c[i]]) {
        assert forall|i: int| 0 <= i < c.len() implies cf(#[trigger] c[i]) is None by {
            assert(custom_entry_accepted(c[i], cfg.custom@[c[i]]));
        }
    }
}

/// Whether a webhook entry has only events of the six kinds and usable settings.
pub open spec fn webhook_entry_accepted(name: Seq<char>, cfg: WebhookNotifyConfig) -> bool {
    events_fault("notify.webhook."@ + name + ".events"@, texts(cfg.events@)) is None
        && webhook_fault(name, cfg) is None
}

/// Whether a custom entry has only events of the six kinds and usable settings.
pub open spec fn custom_entry_accepted(name: Seq<char>, cfg: CustomNotifyConfig) -> bool {
    events_fault("notify.custom."@ + name + ".events"@, texts(cfg.events@)) is None && custom_fault(
        cfg,
    ) is None
}

/// A section, and a list of profiles, is accepted exactly when each of its members is; the
/// fault of a profile names it.
pub proof fn profiles_are_accepted_one_by_one(
    cfg: NotifyConfig,
    names: Seq<Seq<char>>,
    profiles: Seq<ProfileConfig>,
    profile: ProfileConfig,
)
    ensures
        enabled_fault(cfg, names) is None <==> forall|i: int|
            0 <= i < names.len() ==> backend_fault(cfg, #[trigger] names[i]) is None,
        profiles_fault(profiles) is None <==> forall|i: int|
            0 <= i < profiles.len() ==> enabled_fault(
                (#[trigger] profiles[i]).notify,
                texts(profiles[i].notify.enabled@),
            ) is None,
        profiles_fault(profiles) is None && enabled_fault(
            profile.notify,
            texts(profile.notify.enabled@),
        ) is Some ==> profiles_fault(profiles.push(profile)) == Some(
            "profile `"@ + profile.name@ + "`: "@ + enabled_fault(
                profile.notify,
                texts(profile.notify.enabled@),
            )->Some_0,
        ),
        profiles_fault(profiles) is Some ==> profiles_fault(profiles.push(profile))
            == profiles_fault(profiles),
{
    let (nf, pf) = (name_fault(cfg), profile_fault());
    crate::faults::first_of_none(names, nf);
    crate::faults::first_of_none(profiles, pf);
    assert(profiles.push(profile).drop_last() =~= profiles);
    assert forall|n: Seq<char>| #[trigger] nf(n) == backend_fault(cfg, n) by {}
    assert forall|p: ProfileConfig| (#[trigger] pf(p)) is None <==> enabled_fault(
        p.notify,
        texts(p.notify.enabled@),
    ) is None by {}
    if enabled_fault(cfg, names) is None {
        assert forall|i: int| 0 <= i < names.len() implies backend_fault(
            cfg,
            #[trigger] names[i],
        ) is None by {
            assert(nf(names[i]) is None);
        }
    }
    if forall|i: int| 0 <= i < names.len() ==> backend_fault(cfg, #[trigger] names[i]) is None {
        assert forall|i: int| 0 <= i < names.len() implies nf(#[trigger] names[i]) is None by {
            assert(backend_fault(cfg, names[i]) is None);
        }
    }
    if profiles_fault(profiles) is None {
        assert forall|i: int| 0 <= i < profiles.len() implies enabled_fault(
            (#[trigger] profiles[i]).notify,
            texts(profiles[i].notify.enabled@),
        ) is None by {
            assert(pf(profiles[i]) is None);
        }
    }
    if forall|i: int|
        0 <= i < profiles.len() ==> enabled_fault(
            (#[trigger] profiles[i]).notify,
            texts(profiles[i].notify.enabled@),
        ) is None {
        assert forall|i: int| 0 <= i < profiles.len() implies pf(#[trigger] profiles[i])
            is None by {
            assert(enabled_fault(profiles[i].notify, texts(profiles[i].notify.enabled@)) is None);
        }
    }
}

/// A registry holds a dispatcher for every profile, under its name and with the slots of
/// its section, and no other.
pub proof fn a_registry_holds_every_profile(
    map: Map<Seq<char>, NotifyDispatcher<Backend>>,
    profiles: Seq<ProfileConfig>,
    i: int,
    name: Seq<char>,
)
    requires
        registered(map, profiles),
        0 <= i < profiles.len(),
        forall|j: int|
            i < j < profiles.len() ==> (#[trigger] profiles[j]).name@ != profiles[i].name@,
    ensures
        map.dom().contains(profiles[i].name@),
        map[profiles[i].name@].profile_name() == profiles[i].name@,
        all_built(
            map[profiles[i].name@].slot_list(),
            plans(profiles[i].notify, texts(profiles[i].notify.enabled@)),
            profiles[i].notify,
        ),
        (forall|j: int| 0 <= j < profiles.len() ==> (#[trigger] profiles[j]).name@ != name)
            ==> !map.dom().contains(name),
{
    assert(registers(map, profiles, profiles[i].name@));
    assert(registers(map, profiles, name));
    the_last_profile_of_a_name(profiles, i);
    no_profile_of_a_name(profiles, name);
}

proof fn the_last_profile_of_a_name(profiles: Seq<ProfileConfig>, i: int)
    requires
        0 <= i < profiles.len(),
        forall|j: int|
            i < j < profiles.len() ==> (#[trigger] profiles[j]).name@ != profiles[i].name@,
    ensures
        profile_named(profiles, profiles[i].name@) == Some(profiles[i]),
    decreases profiles.len(),
{
    let n = profiles.len() - 1;
    assert(profiles[n] == profiles.last());
    if i < n {
        let front = profiles.drop_last();
        assert(profiles[n].name@ != profiles[i].name@);
        assert forall|j: int| i < j < front.len() implies (#[trigger] front[j]).name@
            != front[i].name@ by {
            assert(profiles[j].name@ != profiles[i].name@);
        }
        the_last_profile_of_a_name(front, i);
    }
}

proof fn no_profile_of_a_name(profiles: Seq<ProfileConfig>, name: Seq<char>)
    ensures
        (forall|j: int| 0 <= j < profiles.len() ==> (#[trigger] profiles[j]).name@ != name)
            ==> profile_named(profiles, name) is None,
    decreases profiles.len(),
{
    if profiles.len() > 0 && forall|j: int|
        0 <= j < profiles.len() ==> (#[trigger] profiles[j]).name@ != name {
        let front = profiles.drop_last();
        assert forall|j: int| 0 <= j < front.len() implies (#[trigger] front[j]).name@ != name by {
            assert(profiles[j].name@ != name);
        }
        no_profile_of_a_name(front, name);
        assert(profiles[profiles.len() - 1].name@ != name);
    }
}

/// An entry's events are looked at first, under the entry's own setting, and its settings
/// then.
pub proof fn an_entrys_events_come_first(
    name: Seq<char>,
    hook: WebhookNotifyConfig,
    script: CustomNotifyConfig,
)
    ensures
        ({
            let fault = events_fault("notify.webhook."@ + name + ".events"@, texts(hook.events@));
            &&& fault is Some ==> webhook_entry_fault(name, hook) == fault
            &&& fault is None ==> webhook_entry_fault(name, hook) == webhook_fault(name, hook)
        }),
        ({
            let fault = events_fault("notify.custom."@ + name + ".events"@, texts(script.events@));
            &&& fault is Some ==> custom_entry_fault(name, script) == fault
            &&& fault is None ==> custom_entry_fault(name, script) == custom_fault(script)
        }),
{
}

/// Where webhooks are enabled, no selected entry holds more headers than a request can.
pub proof fn selected_headers_are_bounded(cfg: NotifyConfig, name: Seq<char>)
    requires
        headers_fit(cfg),
        texts(cfg.enabled@).contains("webhook"@),
        texts(cfg.webhook_enabled@).contains(name),
        cfg.webhook@.dom().contains(name),
    ensures
        cfg.webhook@[name].headers.keys_in_order().len() <= 6_551,
{
}

} // verus!
