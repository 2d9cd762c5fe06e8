//! One queued notification delivery, as a durable job.

use super::event::{read_event, every_event_round_trips, EventModel, NotifyEvent};
use super::{delivers, slot_named, NotifyDispatcher, NotifyError};
use crate::jobs::{JobHandler, JobOutcome};
use crate::json::{lookup, Json};
use crate::sorted::StringMap;
use crate::text::{cat2, cat3, cat5};
use vstd::prelude::*;
use vstd::string::*;

verus! {

/// What a claimed row says it wants delivered.
#[derive(Debug, PartialEq, Eq)]
pub struct Delivery {
    pub profile: String,
    pub backend: String,
    pub event: NotifyEvent,
}

/// A delivery, in terms of sequences.
pub struct DeliveryModel {
    pub profile: Seq<char>,
    pub backend: Seq<char>,
    pub event: EventModel,
}

impl View for Delivery {
    type V = DeliveryModel;

    open spec fn view(&self) -> DeliveryModel {
        DeliveryModel { profile: self.profile@, backend: self.backend@, event: self.event@ }
    }
}

/// The text of a member of an object; nothing where there is none.
pub open spec fn text_member(payload: Json, name: Seq<char>) -> Option<Seq<char>> {
    match payload.member(name) {
        Some(value) => value.text(),
        None => None,
    }
}

/// What a payload reads as, or why it cannot be read.
pub open spec fn read_delivery(payload: Json) -> Result<DeliveryModel, Seq<char>> {
    match (text_member(payload, "profile"@), text_member(payload, "backend"@)) {
        (None, _) => Err("the job payload names no profile"@),
        (_, None) => Err("the job payload names no backend"@),
        (Some(profile), Some(backend)) => match payload.member("event"@) {
            None => Err("the job payload carries no event"@),
            Some(event) => match read_event(event) {
                Err(error) => Err("the job payload's event does not parse: "@ + error),
                Ok(event) => Ok(DeliveryModel { profile, backend, event }),
            },
        },
    }
}

fn member_text<'a>(payload: &'a Json, name: &str) -> (r: Option<&'a str>)
    ensures
        match r {
            Some(s) => text_member(*payload, name@) == Some(s@),
            None => text_member(*payload, name@) is None,
        },
{
    match payload.get(name) {
        Some(value) => value.as_str(),
        None => None,
    }
}

impl Delivery {
    /// Reads a payload back. Every failure is permanent: the row is written
    /// already, and reading it again cannot change it.
    pub fn parse(payload: &Json) -> (r: Result<Delivery, String>)
        ensures
            match r {
                Ok(delivery) => read_delivery(*payload) == Ok::<DeliveryModel, Seq<char>>(
                    delivery@,
                ),
                Err(e) => read_delivery(*payload) == Err::<DeliveryModel, Seq<char>>(e@),
            },
    {
        let profile = match member_text(payload, "profile") {
            Some(profile) => profile,
            None => {
                return Err("the job payload names no profile".to_owned());
            },
        };
        let backend = match member_text(payload, "backend") {
            Some(backend) => backend,
            None => {
                return Err("the job payload names no backend".to_owned());
            },
        };
        let event = match payload.get("event") {
            Some(event) => event,
            None => {
                return Err("the job payload carries no event".to_owned());
            },
        };
        match NotifyEvent::from_payload(event) {
            Ok(event) => Ok(
                Delivery { profile: profile.to_owned(), backend: backend.to_owned(), event },
            ),
            Err(error) => Err(
                cat2("the job payload's event does not parse: ", error.as_str()),
            ),
        }
    }
}

/// Delivers queued notifications, for every profile.
#[verifier::reject_recursive_types(B)]
pub struct NotifyJob<B> {
    dispatchers: StringMap<NotifyDispatcher<B>>,
}

/// What an attempt is to do.
pub enum Plan<'a, B> {
    /// Retire the job, for this reason.
    Retire(String),
    /// Hand the event to the backend.
    Send { delivery: Delivery, backend: &'a B },
}

/// Why a delivery is retired without being tried: nothing about any of these can
/// change before the next attempt.
pub open spec fn retirement<B>(
    dispatchers: Map<Seq<char>, NotifyDispatcher<B>>,
    payload: Json,
) -> Option<Seq<char>> {
    match read_delivery(payload) {
        Err(reason) => Some(reason),
        Ok(delivery) => if !dispatchers.dom().contains(delivery.profile) {
            Some(
                "no profile `"@ + delivery.profile
                    + "` is mounted, so its notification cannot be delivered"@,
            )
        } else if slot_named(dispatchers[delivery.profile].slot_list(), delivery.backend) is None {
            Some(
                "profile `"@ + delivery.profile + "` has no notify backend `"@ + delivery.backend
                    + "` configured any more"@,
            )
        } else {
            None
        },
    }
}

impl<B> NotifyJob<B> {
    pub closed spec fn map(&self) -> Map<Seq<char>, NotifyDispatcher<B>> {
        self.dispatchers@
    }

    pub fn new(dispatchers: StringMap<NotifyDispatcher<B>>) -> (r: NotifyJob<B>)
        ensures
            r.map() == dispatchers@,
    {
        NotifyJob { dispatchers }
    }

    /// What an attempt at a row is to do.
    pub fn plan(&self, payload: &Json) -> (r: Plan<'_, B>)
        ensures
            match r {
                Plan::Retire(reason) => retirement(self.map(), *payload) == Some(reason@),
                Plan::Send { delivery, backend } => {
                    &&& retirement(self.map(), *payload) is None
                    &&& read_delivery(*payload) == Ok::<DeliveryModel, Seq<char>>(delivery@)
                    &&& slot_named(
                        self.map()[delivery@.profile].slot_list(),
                        delivery@.backend,
                    ) matches Some(slot) && slot.target() == *backend
                },
            },
    {
        let delivery = match Delivery::parse(payload) {
            Ok(delivery) => delivery,
            Err(reason) => {
                return Plan::Retire(reason);
            },
        };
        let dispatcher = match self.dispatchers.get(delivery.profile.as_str()) {
            Some(dispatcher) => dispatcher,
            None => {
                return Plan::Retire(
                    cat3(
                        "no profile `",
                        delivery.profile.as_str(),
                        "` is mounted, so its notification cannot be delivered",
                    ),
                );
            },
        };
        match dispatcher.deliver(delivery.backend.as_str()) {
            Some(backend) => Plan::Send { delivery, backend },
            None => Plan::Retire(
                cat5(
                    "profile `",
                    delivery.profile.as_str(),
                    "` has no notify backend `",
                    delivery.backend.as_str(),
                    "` configured any more",
                ),
            ),
        }
    }

    /// The end of the line for one notification: what can still be named of it,
    /// the profile, the backend and the kind of event.
    pub fn abandon(&self, payload: &Json) -> (r: (String, String, String))
        ensures
            match read_delivery(*payload) {
                Ok(delivery) => r.0@ == delivery.profile && r.1@ == delivery.backend && r.2@
                    == delivery.event.kind,
                Err(_) => r.0@.len() == 0 && r.1@.len() == 0 && r.2@.len() == 0,
            },
    {
        match Delivery::parse(payload) {
            Ok(delivery) => {
                let kind = delivery.event.kind().to_owned();
                (delivery.profile, delivery.backend, kind)
            },
            Err(_) => (String::new(), String::new(), String::new()),
        }
    }
}

/// What a retired delivery ends with.
pub fn retired(reason: String) -> (r: JobOutcome)
    ensures
        r == JobOutcome::Failed(reason),
{
    JobOutcome::Failed(reason)
}

/// What an attempt ends with, from what the backend said.
pub fn run(sent: &Result<(), NotifyError>) -> (r: JobOutcome)
    ensures
        match sent {
            Ok(_) => r == JobOutcome::Done,
            Err(error) => if error@.retryable {
                r matches JobOutcome::Retry(reason) && reason@ == error@.detail
            } else {
                r matches JobOutcome::Failed(reason) && reason@ == error@.detail
            },
        },
{
    match sent {
        Ok(()) => JobOutcome::Done,
        Err(error) => {
            let reason = error.message().to_owned();
            if error.retryable() {
                JobOutcome::Retry(reason)
            } else {
                JobOutcome::Failed(reason)
            }
        },
    }
}

impl<B> JobHandler for NotifyJob<B> {
    open spec fn kind_name(&self) -> Seq<char> {
        "notify_deliver"@
    }

    fn kind(&self) -> (r: &'static str) {
        "notify_deliver"
    }
}

/// A queued delivery survives: the payload of a row reads back as the profile,
/// the backend and the event that it was written for.
pub proof fn a_queued_delivery_reads_back(
    payload: Json,
    profile: Seq<char>,
    backend: Seq<char>,
    event: NotifyEvent,
)
    requires
        delivers(payload, profile, backend, event@),
    ensures
        read_delivery(payload) == Ok::<DeliveryModel, Seq<char>>(
            DeliveryModel { profile, backend, event: event@ },
        ),
{
    let members = payload->Object_0@;
    reveal_strlit("profile");
    reveal_strlit("backend");
    reveal_strlit("event");
    assert("profile"@[0] != "backend"@[0]);
    let rest = members.skip(1);
    let last = rest.skip(1);
    assert(rest[0] == members[1]);
    assert(last[0] == members[2]);
    assert(lookup(members, "profile"@) == Some(members[0].1));
    assert(lookup(rest, "backend"@) == Some(members[1].1));
    assert(lookup(members, "backend"@) == Some(members[1].1));
    assert(lookup(last, "event"@) == Some(members[2].1));
    assert("event"@.len() != "backend"@.len() && "event"@.len() != "profile"@.len());
    assert(lookup(rest, "event"@) == lookup(last, "event"@));
    assert(lookup(members, "event"@) == lookup(rest, "event"@));
    every_event_round_trips(event, members[2].1);
}

/// A delivery that was queued for a backend of a dispatcher is handed to that
/// very backend as long as it stays configured: it is retired only when its
/// profile or its backend is gone.
pub proof fn a_queued_delivery_reaches_its_backend<B>(
    dispatchers: Map<Seq<char>, NotifyDispatcher<B>>,
    payload: Json,
    profile: Seq<char>,
    backend: Seq<char>,
    event: NotifyEvent,
)
    requires
        delivers(payload, profile, backend, event@),
    ensures
        retirement(dispatchers, payload) is None <==> (dispatchers.dom().contains(profile)
            && slot_named(dispatchers[profile].slot_list(), backend) is Some),
{
    a_queued_delivery_reads_back(payload, profile, backend, event);
}

/// A payload reads as a delivery exactly when it names a profile and a backend by
/// strings and carries an event that reads; the delivery is then those three.
pub proof fn a_delivery_is_read_whole(payload: Json)
    ensures
        read_delivery(payload) is Ok <==> {
            &&& payload.member("profile"@) is Some && payload.member("profile"@)->Some_0.text() is Some
            &&& payload.member("backend"@) is Some && payload.member("backend"@)->Some_0.text() is Some
            &&& payload.member("event"@) is Some && read_event(
                payload.member("event"@)->Some_0,
            ) is Ok
        },
        read_delivery(payload) matches Ok(delivery) ==> {
            &&& Some(delivery.profile) == payload.member("profile"@)->Some_0.text()
            &&& Some(delivery.backend) == payload.member("backend"@)->Some_0.text()
            &&& Ok::<EventModel, Seq<char>>(delivery.event) == read_event(
                payload.member("event"@)->Some_0,
            )
        },
{
}

/// What an unreadable payload is told, the first of what it lacks first.
pub proof fn an_unreadable_delivery_is_told_why(payload: Json)
    ensures
        ({
            let profiled = text_member(payload, "profile"@) is Some;
            let addressed = profiled && text_member(payload, "backend"@) is Some;
            &&& !profiled ==> read_delivery(payload) == Err::<DeliveryModel, Seq<char>>(
                "the job payload names no profile"@,
            )
            &&& profiled && !addressed ==> read_delivery(payload) == Err::<
                DeliveryModel,
                Seq<char>,
            >("the job payload names no backend"@)
            &&& addressed && payload.member("event"@) is None ==> read_delivery(payload) == Err::<
                DeliveryModel,
                Seq<char>,
            >("the job payload carries no event"@)
            &&& addressed && payload.member("event"@) is Some && read_event(
                payload.member("event"@)->Some_0,
            ) is Err ==> read_delivery(payload) == Err::<DeliveryModel, Seq<char>>(
                "the job payload's event does not parse: "@ + read_event(
                    payload.member("event"@)->Some_0,
                )->Err_0,
            )
        }),
{
}

/// A delivery is tried exactly when it reads, its profile is mounted and that profile
/// has its backend; otherwise it is retired, and told which of the three it is.
pub proof fn a_delivery_is_tried_where_it_can_go<B>(
    dispatchers: Map<Seq<char>, NotifyDispatcher<B>>,
    payload: Json,
)
    ensures
        retirement(dispatchers, payload) is None <==> {
            &&& read_delivery(payload) is Ok
            &&& dispatchers.dom().contains(read_delivery(payload)->Ok_0.profile)
            &&& slot_named(
                dispatchers[read_delivery(payload)->Ok_0.profile].slot_list(),
                read_delivery(payload)->Ok_0.backend,
            ) is Some
        },
        read_delivery(payload) matches Err(why) ==> retirement(dispatchers, payload) == Some(why),
        read_delivery(payload) matches Ok(d) && !dispatchers.dom().contains(d.profile)
            ==> retirement(dispatchers, payload) == Some(
            "no profile `"@ + read_delivery(payload)->Ok_0.profile
                + "` is mounted, so its notification cannot be delivered"@,
        ),
        read_delivery(payload) matches Ok(d) && dispatchers.dom().contains(d.profile)
            && slot_named(dispatchers[d.profile].slot_list(), d.backend) is None ==> retirement(
            dispatchers,
            payload,
        ) == Some(
            "profile `"@ + read_delivery(payload)->Ok_0.profile + "` has no notify backend `"@
                + read_delivery(payload)->Ok_0.backend + "` configured any more"@,
        ),
{
}

/// A delivery is its profile, its backend and its event.
pub proof fn a_delivery_is_its_members(delivery: Delivery)
    ensures
        delivery@.profile == delivery.profile@,
        delivery@.backend == delivery.backend@,
        delivery@.event == delivery.event@,
{
}

} // verus!
