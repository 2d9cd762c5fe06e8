//! The lifecycle events, what they carry, and how they are written down.
//!
//! An event is written as an object whose `hook` member names its kind, beside
//! the event's own fields. That is what a script reads on its stdin, and what a
//! queued delivery keeps across a restart.

use crate::debug::{quoted, quoted_words};
use crate::faults::{first_of, first_of_next, first_of_none};
use crate::json::{find, lookup, Json, Number};
use crate::text::{
    cat2, cat3, cat4, cat5, cat6, decimal, join, joined, number, same, signed_decimal, signed_number,
    texts, texts_push,
};
use vstd::prelude::*;
use vstd::string::*;

verus! {

/// A profile was mounted.
#[derive(Debug, Clone, PartialEq, Eq)]
pub struct ProfileMountedData {
    pub profile: String,
}

/// A client registered a new account. It need not have given a contact.
#[derive(Debug, Clone, PartialEq, Eq)]
pub struct AccountCreatedData {
    pub profile: String,
    pub account_id: String,
    pub contact: Vec<String>,
    pub client_ip: Option<String>,
}

/// An account was deactivated, for good.
#[derive(Debug, Clone, PartialEq, Eq)]
pub struct AccountDeactivatedData {
    pub profile: String,
    pub account_id: String,
    pub client_ip: Option<String>,
}

/// A certificate was signed.
#[derive(Debug, Clone, PartialEq, Eq)]
pub struct CertificateIssuedData {
    pub profile: String,
    pub order_id: String,
    pub account_id: String,
    /// The serial in hexadecimal.
    pub cert_serial: String,
    /// The names the certificate covers.
    pub identifiers: Vec<String>,
    pub client_ip: Option<String>,
}

/// A certificate was withdrawn.
#[derive(Debug, Clone, PartialEq, Eq)]
pub struct CertificateRevokedData {
    pub profile: String,
    pub order_id: String,
    pub account_id: String,
    pub cert_serial: String,
    /// The RFC 5280 reason code, if one was given; that is not the same as 0.
    pub reason: Option<u32>,
    pub client_ip: Option<String>,
}

/// A validation attempt did not succeed.
#[derive(Debug, Clone, PartialEq, Eq)]
pub struct ChallengeFailedData {
    pub profile: String,
    pub order_id: String,
    pub account_id: String,
    pub authz_id: String,
    pub challenge_id: String,
    pub challenge_type: String,
    pub identifier: String,
    pub error: String,
    pub client_ip: Option<String>,
}

/// One lifecycle event. `client_ip` is absent where no request was in scope.
#[derive(Debug, Clone, PartialEq, Eq)]
pub enum NotifyEvent {
    ProfileMounted(ProfileMountedData),
    AccountCreated(AccountCreatedData),
    AccountDeactivated(AccountDeactivatedData),
    CertificateIssued(CertificateIssuedData),
    CertificateRevoked(CertificateRevokedData),
    ChallengeFailed(ChallengeFailedData),
}

/// The value of one field of an event.
#[derive(Debug, PartialEq, Eq)]
pub enum EventField {
    Text(String),
    MaybeText(Option<String>),
    List(Vec<String>),
    MaybeCode(Option<u32>),
}

/// A field's value, in terms of sequences.
pub enum FieldModel {
    Text(Seq<char>),
    MaybeText(Option<Seq<char>>),
    List(Seq<Seq<char>>),
    MaybeCode(Option<u32>),
}

impl View for EventField {
    type V = FieldModel;

    open spec fn view(&self) -> FieldModel {
        match self {
            EventField::Text(s) => FieldModel::Text(s@),
            EventField::MaybeText(s) => FieldModel::MaybeText(optional_text(*s)),
            EventField::List(v) => FieldModel::List(texts(v@)),
            EventField::MaybeCode(n) => FieldModel::MaybeCode(*n),
        }
    }
}

/// The characters of an optional string.
pub open spec fn optional_text(s: Option<String>) -> Option<Seq<char>> {
    match s {
        Some(t) => Some(t@),
        None => None,
    }
}

/// An event: its kind, and its fields in order.
pub struct EventModel {
    pub kind: Seq<char>,
    pub fields: Seq<(Seq<char>, FieldModel)>,
}

/// The six kinds.
pub open spec fn all_kinds() -> Seq<Seq<char>> {
    seq![
        "profile_mounted"@,
        "account_created"@,
        "account_deactivated"@,
        "certificate_issued"@,
        "certificate_revoked"@,
        "challenge_failed"@,
    ]
}

/// Every event kind there is.
pub fn all_notify_events() -> (r: Vec<&'static str>)
    ensures
        r@.map_values(|s: &str| s@) == all_kinds(),
{
    let r: Vec<&'static str> = vec![
        "profile_mounted",
        "account_created",
        "account_deactivated",
        "certificate_issued",
        "certificate_revoked",
        "challenge_failed",
    ];
    assert(r@.map_values(|s: &str| s@) == all_kinds());
    r
}

impl View for NotifyEvent {
    type V = EventModel;

    open spec fn view(&self) -> EventModel {
        EventModel { kind: self.kind_name(), fields: self.field_list() }
    }
}

impl NotifyEvent {
    pub open spec fn kind_name(&self) -> Seq<char> {
        match self {
            NotifyEvent::ProfileMounted(_) => "profile_mounted"@,
            NotifyEvent::AccountCreated(_) => "account_created"@,
            NotifyEvent::AccountDeactivated(_) => "account_deactivated"@,
            NotifyEvent::CertificateIssued(_) => "certificate_issued"@,
            NotifyEvent::CertificateRevoked(_) => "certificate_revoked"@,
            NotifyEvent::ChallengeFailed(_) => "challenge_failed"@,
        }
    }

    pub open spec fn field_list(&self) -> Seq<(Seq<char>, FieldModel)> {
        match self {
            NotifyEvent::ProfileMounted(d) => seq![("profile"@, FieldModel::Text(d.profile@))],
            NotifyEvent::AccountCreated(d) => seq![
                ("profile"@, FieldModel::Text(d.profile@)),
                ("account_id"@, FieldModel::Text(d.account_id@)),
                ("contact"@, FieldModel::List(texts(d.contact@))),
                ("client_ip"@, FieldModel::MaybeText(optional_text(d.client_ip))),
            ],
            NotifyEvent::AccountDeactivated(d) => seq![
                ("profile"@, FieldModel::Text(d.profile@)),
                ("account_id"@, FieldModel::Text(d.account_id@)),
                ("client_ip"@, FieldModel::MaybeText(optional_text(d.client_ip))),
            ],
            NotifyEvent::CertificateIssued(d) => seq![
                ("profile"@, FieldModel::Text(d.profile@)),
                ("order_id"@, FieldModel::Text(d.order_id@)),
                ("account_id"@, FieldModel::Text(d.account_id@)),
                ("cert_serial"@, FieldModel::Text(d.cert_serial@)),
                ("identifiers"@, FieldModel::List(texts(d.identifiers@))),
                ("client_ip"@, FieldModel::MaybeText(optional_text(d.client_ip))),
            ],
            NotifyEvent::CertificateRevoked(d) => seq![
                ("profile"@, FieldModel::Text(d.profile@)),
                ("order_id"@, FieldModel::Text(d.order_id@)),
                ("account_id"@, FieldModel::Text(d.account_id@)),
                ("cert_serial"@, FieldModel::Text(d.cert_serial@)),
                ("reason"@, FieldModel::MaybeCode(d.reason)),
                ("client_ip"@, FieldModel::MaybeText(optional_text(d.client_ip))),
            ],
            NotifyEvent::ChallengeFailed(d) => seq![
                ("profile"@, FieldModel::Text(d.profile@)),
                ("order_id"@, FieldModel::Text(d.order_id@)),
                ("account_id"@, FieldModel::Text(d.account_id@)),
                ("authz_id"@, FieldModel::Text(d.authz_id@)),
                ("challenge_id"@, FieldModel::Text(d.challenge_id@)),
                ("challenge_type"@, FieldModel::Text(d.challenge_type@)),
                ("identifier"@, FieldModel::Text(d.identifier@)),
                ("error"@, FieldModel::Text(d.error@)),
                ("client_ip"@, FieldModel::MaybeText(optional_text(d.client_ip))),
            ],
        }
    }

    /// The event kind name, which is also the stem of its templates.
    pub fn kind(&self) -> (r: &'static str)
        ensures
            r@ == self@.kind,
    {
        match self {
            NotifyEvent::ProfileMounted(_) => "profile_mounted",
            NotifyEvent::AccountCreated(_) => "account_created",
            NotifyEvent::AccountDeactivated(_) => "account_deactivated",
            NotifyEvent::CertificateIssued(_) => "certificate_issued",
            NotifyEvent::CertificateRevoked(_) => "certificate_revoked",
            NotifyEvent::ChallengeFailed(_) => "challenge_failed",
        }
    }

    /// The profile this event happened on: always the first field.
    pub fn profile(&self) -> (r: &str)
        ensures
            self@.fields[0] == ("profile"@, FieldModel::Text(r@)),
    {
        match self {
            NotifyEvent::ProfileMounted(data) => data.profile.as_str(),
            NotifyEvent::AccountCreated(data) => data.profile.as_str(),
            NotifyEvent::AccountDeactivated(data) => data.profile.as_str(),
            NotifyEvent::CertificateIssued(data) => data.profile.as_str(),
            NotifyEvent::CertificateRevoked(data) => data.profile.as_str(),
            NotifyEvent::ChallengeFailed(data) => data.profile.as_str(),
        }
    }

    pub open spec fn client_address(&self) -> Option<Seq<char>> {
        match self {
            NotifyEvent::ProfileMounted(_) => None,
            NotifyEvent::AccountCreated(d) => optional_text(d.client_ip),
            NotifyEvent::AccountDeactivated(d) => optional_text(d.client_ip),
            NotifyEvent::CertificateIssued(d) => optional_text(d.client_ip),
            NotifyEvent::CertificateRevoked(d) => optional_text(d.client_ip),
            NotifyEvent::ChallengeFailed(d) => optional_text(d.client_ip),
        }
    }

    /// The client address, when a request was in scope.
    pub fn client_ip(&self) -> (r: Option<&str>)
        ensures
            match r {
                Some(ip) => self.client_address() == Some(ip@),
                None => self.client_address() is None,
            },
    {
        let ip = match self {
            NotifyEvent::ProfileMounted(_) => {
                return None;
            },
            NotifyEvent::AccountCreated(data) => &data.client_ip,
            NotifyEvent::AccountDeactivated(data) => &data.client_ip,
            NotifyEvent::CertificateIssued(data) => &data.client_ip,
            NotifyEvent::CertificateRevoked(data) => &data.client_ip,
            NotifyEvent::ChallengeFailed(data) => &data.client_ip,
        };
        match ip {
            Some(ip) => Some(ip.as_str()),
            None => None,
        }
    }

    pub open spec fn account(&self) -> Option<Seq<char>> {
        match self {
            NotifyEvent::ProfileMounted(_) => None,
            NotifyEvent::AccountCreated(d) => Some(d.account_id@),
            NotifyEvent::AccountDeactivated(d) => Some(d.account_id@),
            NotifyEvent::CertificateIssued(d) => Some(d.account_id@),
            NotifyEvent::CertificateRevoked(d) => Some(d.account_id@),
            NotifyEvent::ChallengeFailed(d) => Some(d.account_id@),
        }
    }

    /// The account id, when the event has one.
    pub fn account_id(&self) -> (r: Option<&str>)
        ensures
            match r {
                Some(id) => self.account() == Some(id@),
                None => self.account() is None,
            },
    {
        match self {
            NotifyEvent::ProfileMounted(_) => None,
            NotifyEvent::AccountCreated(data) => Some(data.account_id.as_str()),
            NotifyEvent::AccountDeactivated(data) => Some(data.account_id.as_str()),
            NotifyEvent::CertificateIssued(data) => Some(data.account_id.as_str()),
            NotifyEvent::CertificateRevoked(data) => Some(data.account_id.as_str()),
            NotifyEvent::ChallengeFailed(data) => Some(data.account_id.as_str()),
        }
    }

    pub open spec fn order(&self) -> Option<Seq<char>> {
        match self {
            NotifyEvent::CertificateIssued(d) => Some(d.order_id@),
            NotifyEvent::CertificateRevoked(d) => Some(d.order_id@),
            NotifyEvent::ChallengeFailed(d) => Some(d.order_id@),
            _ => None,
        }
    }

    /// The order id, when the event has one.
    pub fn order_id(&self) -> (r: Option<&str>)
        ensures
            match r {
                Some(id) => self.order() == Some(id@),
                None => self.order() is None,
            },
    {
        match self {
            NotifyEvent::ProfileMounted(_) => None,
            NotifyEvent::AccountCreated(_) => None,
            NotifyEvent::AccountDeactivated(_) => None,
            NotifyEvent::CertificateIssued(data) => Some(data.order_id.as_str()),
            NotifyEvent::CertificateRevoked(data) => Some(data.order_id.as_str()),
            NotifyEvent::ChallengeFailed(data) => Some(data.order_id.as_str()),
        }
    }

    pub open spec fn serial(&self) -> Option<Seq<char>> {
        match self {
            NotifyEvent::CertificateIssued(d) => Some(d.cert_serial@),
            NotifyEvent::CertificateRevoked(d) => Some(d.cert_serial@),
            _ => None,
        }
    }

    /// The certificate serial, when the event has one.
    pub fn cert_serial(&self) -> (r: Option<&str>)
        ensures
            match r {
                Some(serial) => self.serial() == Some(serial@),
                None => self.serial() is None,
            },
    {
        match self {
            NotifyEvent::ProfileMounted(_) => None,
            NotifyEvent::AccountCreated(_) => None,
            NotifyEvent::AccountDeactivated(_) => None,
            NotifyEvent::CertificateIssued(data) => Some(data.cert_serial.as_str()),
            NotifyEvent::CertificateRevoked(data) => Some(data.cert_serial.as_str()),
            NotifyEvent::ChallengeFailed(_) => None,
        }
    }

    pub open spec fn identifiers(&self) -> Seq<Seq<char>> {
        match self {
            NotifyEvent::CertificateIssued(d) => texts(d.identifiers@),
            _ => Seq::empty(),
        }
    }

    /// The names the event is about, with commas between them.
    pub fn identifiers_joined(&self) -> (r: String)
        ensures
            r@ == joined(self.identifiers(), ","@),
    {
        match self {
            NotifyEvent::CertificateIssued(data) => join(&data.identifiers, ","),
            _ => String::new(),
        }
    }

    /// The fields of the event, in order.
    pub fn fields(&self) -> (r: Vec<(&'static str, EventField)>)
        ensures
            field_models(r@) == self@.fields,
    {
        let r: Vec<(&'static str, EventField)> = match self {
            NotifyEvent::ProfileMounted(d) => vec![("profile", text_of(&d.profile))],
            NotifyEvent::AccountCreated(d) => vec![
                ("profile", text_of(&d.profile)),
                ("account_id", text_of(&d.account_id)),
                ("contact", list_of(&d.contact)),
                ("client_ip", maybe_of(&d.client_ip)),
            ],
            NotifyEvent::AccountDeactivated(d) => vec![
                ("profile", text_of(&d.profile)),
                ("account_id", text_of(&d.account_id)),
                ("client_ip", maybe_of(&d.client_ip)),
            ],
            NotifyEvent::CertificateIssued(d) => vec![
                ("profile", text_of(&d.profile)),
                ("order_id", text_of(&d.order_id)),
                ("account_id", text_of(&d.account_id)),
                ("cert_serial", text_of(&d.cert_serial)),
                ("identifiers", list_of(&d.identifiers)),
                ("client_ip", maybe_of(&d.client_ip)),
            ],
            NotifyEvent::CertificateRevoked(d) => vec![
                ("profile", text_of(&d.profile)),
                ("order_id", text_of(&d.order_id)),
                ("account_id", text_of(&d.account_id)),
                ("cert_serial", text_of(&d.cert_serial)),
                ("reason", EventField::MaybeCode(d.reason)),
                ("client_ip", maybe_of(&d.client_ip)),
            ],
            NotifyEvent::ChallengeFailed(d) => vec![
                ("profile", text_of(&d.profile)),
                ("order_id", text_of(&d.order_id)),
                ("account_id", text_of(&d.account_id)),
                ("authz_id", text_of(&d.authz_id)),
                ("challenge_id", text_of(&d.challenge_id)),
                ("challenge_type", text_of(&d.challenge_type)),
                ("identifier", text_of(&d.identifier)),
                ("error", text_of(&d.error)),
                ("client_ip", maybe_of(&d.client_ip)),
            ],
        };
        assert(field_models(r@) =~= self@.fields);
        r
    }

    /// The event written down: its kind under `hook`, then its fields.
    pub fn payload(&self) -> (r: Json)
        ensures
            writes(r, self@),
    {
        let fields = self.fields();
        let mut members: Vec<(String, Json)> = Vec::new();
        members.push(("hook".to_owned(), Json::Text(self.kind().to_owned())));
        let mut i: usize = 0;
        while i < fields.len()
            invariant
                i <= fields@.len(),
                members@.len() == i + 1,
                members@[0].0@ == "hook"@,
                members@[0].1.text() == Some(self@.kind),
                field_models(fields@) == self@.fields,
                forall|j: int|
                    0 <= j < i ==> (#[trigger] members@[j + 1]).0@ == self@.fields[j].0
                        && value_writes(members@[j + 1].1, self@.fields[j].1),
            decreases fields@.len() - i,
        {
            let value = field_json(&fields[i].1);
            assert(field_models(fields@)[i as int] == (fields@[i as int].0@, fields@[i as int].1@));
            let ghost held = members@;
            members.push((fields[i].0.to_owned(), value));
            assert forall|j: int| 0 <= j < i + 1 implies (#[trigger] members@[j + 1]).0@
                == self@.fields[j].0 && value_writes(members@[j + 1].1, self@.fields[j].1) by {
                if j < i {
                    assert(members@[j + 1] == held[j + 1]);
                }
            }
            i += 1;
        }
        assert(field_models(fields@).len() == fields@.len());
        Json::Object(members)
    }
}

/// The names and values of a list of fields.
pub open spec fn field_models(fields: Seq<(&'static str, EventField)>) -> Seq<
    (Seq<char>, FieldModel),
> {
    fields.map_values(|f: (&'static str, EventField)| (f.0@, f.1@))
}

fn text_of(s: &String) -> (r: EventField)
    ensures
        r@ == FieldModel::Text(s@),
{
    EventField::Text(s.clone())
}

fn list_of(v: &Vec<String>) -> (r: EventField)
    ensures
        r@ == FieldModel::List(texts(v@)),
{
    EventField::List(crate::text::copies(v))
}

fn maybe_of(s: &Option<String>) -> (r: EventField)
    ensures
        r@ == FieldModel::MaybeText(optional_text(*s)),
{
    match s {
        Some(t) => EventField::MaybeText(Some(t.clone())),
        None => EventField::MaybeText(None),
    }
}

/// Whether a list of JSON values is a list of strings, these ones.
pub open spec fn all_text(items: Seq<Json>, list: Seq<Seq<char>>) -> bool {
    &&& items.len() == list.len()
    &&& forall|i: int| 0 <= i < items.len() ==> (#[trigger] items[i]).text() == Some(list[i])
}

/// Whether a JSON value writes a field's value down.
pub open spec fn value_writes(value: Json, field: FieldModel) -> bool {
    match field {
        FieldModel::Text(s) => value.text() == Some(s),
        FieldModel::MaybeText(Some(s)) => value.text() == Some(s),
        FieldModel::MaybeText(None) => value is Null,
        FieldModel::List(list) => value matches Json::Array(items) && all_text(items@, list),
        FieldModel::MaybeCode(Some(n)) => value == Json::Number(Number::Whole(n as u64)),
        FieldModel::MaybeCode(None) => value is Null,
    }
}

/// Whether a JSON value writes an event down.
pub open spec fn writes(value: Json, event: EventModel) -> bool {
    value matches Json::Object(members) && {
        &&& members@.len() == event.fields.len() + 1
        &&& members@[0].0@ == "hook"@
        &&& members@[0].1.text() == Some(event.kind)
        &&& forall|j: int|
            0 <= j < event.fields.len() ==> (#[trigger] members@[j + 1]).0@ == event.fields[j].0
                && value_writes(members@[j + 1].1, event.fields[j].1)
    }
}

fn field_json(field: &EventField) -> (r: Json)
    ensures
        value_writes(r, field@),
{
    match field {
        EventField::Text(s) => Json::Text(s.clone()),
        EventField::MaybeText(Some(s)) => Json::Text(s.clone()),
        EventField::MaybeText(None) => Json::Null,
        EventField::MaybeCode(Some(n)) => Json::Number(Number::Whole(*n as u64)),
        EventField::MaybeCode(None) => Json::Null,
        EventField::List(v) => {
            let mut items: Vec<Json> = Vec::new();
            let mut i: usize = 0;
            while i < v.len()
                invariant
                    i <= v@.len(),
                    all_text(items@, texts(v@).take(i as int)),
                decreases v@.len() - i,
            {
                items.push(Json::Text(v[i].clone()));
                i += 1;
            }
            assert(texts(v@).take(i as int) =~= texts(v@));
            Json::Array(items)
        },
    }
}

// ------------------------------------------------------------------ reading
/// What a field may hold.
#[derive(Debug, Clone, Copy, PartialEq, Eq, Structural)]
pub enum Shape {
    Text,
    MaybeText,
    List,
    MaybeCode,
}

/// The fields of a kind of event, in order.
pub open spec fn schema(kind: Seq<char>) -> Option<Seq<(Seq<char>, Shape)>> {
    if kind == "profile_mounted"@ {
        Some(seq![("profile"@, Shape::Text)])
    } else if kind == "account_created"@ {
        Some(
            seq![
                ("profile"@, Shape::Text),
                ("account_id"@, Shape::Text),
                ("contact"@, Shape::List),
                ("client_ip"@, Shape::MaybeText),
            ],
        )
    } else if kind == "account_deactivated"@ {
        Some(
            seq![
                ("profile"@, Shape::Text),
                ("account_id"@, Shape::Text),
                ("client_ip"@, Shape::MaybeText),
            ],
        )
    } else if kind == "certificate_issued"@ {
        Some(
            seq![
                ("profile"@, Shape::Text),
                ("order_id"@, Shape::Text),
                ("account_id"@, Shape::Text),
                ("cert_serial"@, Shape::Text),
                ("identifiers"@, Shape::List),
                ("client_ip"@, Shape::MaybeText),
            ],
        )
    } else if kind == "certificate_revoked"@ {
        Some(
            seq![
                ("profile"@, Shape::Text),
                ("order_id"@, Shape::Text),
                ("account_id"@, Shape::Text),
                ("cert_serial"@, Shape::Text),
                ("reason"@, Shape::MaybeCode),
                ("client_ip"@, Shape::MaybeText),
            ],
        )
    } else if kind == "challenge_failed"@ {
        Some(
            seq![
                ("profile"@, Shape::Text),
                ("order_id"@, Shape::Text),
                ("account_id"@, Shape::Text),
                ("authz_id"@, Shape::Text),
                ("challenge_id"@, Shape::Text),
                ("challenge_type"@, Shape::Text),
                ("identifier"@, Shape::Text),
                ("error"@, Shape::Text),
                ("client_ip"@, Shape::MaybeText),
            ],
        )
    } else {
        None
    }
}

/// What a value is called where another was expected.
pub open spec fn unexpected(value: Json) -> Seq<char> {
    match value {
        Json::Null => "null"@,
        Json::Bool(true) => "boolean `true`"@,
        Json::Bool(false) => "boolean `false`"@,
        Json::Number(Number::Whole(n)) => "integer `"@ + decimal(n as nat) + "`"@,
        Json::Number(Number::Negative(n)) => "integer `"@ + signed_decimal(n as int) + "`"@,
        Json::Number(Number::Fraction(text)) => "floating point `"@ + text@ + "`"@,
        Json::Text(s) => "string "@ + quoted_words(s@),
        Json::Array(_) => "sequence"@,
        Json::Object(_) => "map"@,
    }
}

/// The complaint about a value of the wrong type.
pub open spec fn wrong_type(value: Json, expected: Seq<char>) -> Seq<char> {
    "invalid type: "@ + unexpected(value) + ", expected "@ + expected
}

/// The complaint about a value that is out of range.
pub open spec fn wrong_value(value: Json, expected: Seq<char>) -> Seq<char> {
    "invalid value: "@ + unexpected(value) + ", expected "@ + expected
}

/// Why an item of a list of strings is none.
pub open spec fn item_fault() -> spec_fn(Json) -> Option<Seq<char>> {
    |item: Json|
        match item {
            Json::Text(_) => None,
            _ => Some(wrong_type(item, "a string"@)),
        }
}

/// What a value reads as, for a field of the given shape, or why it does not.
pub open spec fn read_value(value: Json, shape: Shape) -> Result<FieldModel, Seq<char>> {
    match (shape, value) {
        (Shape::Text, Json::Text(s)) => Ok(FieldModel::Text(s@)),
        (Shape::Text, _) => Err(wrong_type(value, "a string"@)),
        (Shape::MaybeText, Json::Null) => Ok(FieldModel::MaybeText(None)),
        (Shape::MaybeText, Json::Text(s)) => Ok(FieldModel::MaybeText(Some(s@))),
        (Shape::MaybeText, _) => Err(wrong_type(value, "a string"@)),
        (Shape::List, Json::Array(items)) => match first_of(items@, item_fault()) {
            Some(fault) => Err(fault),
            None => Ok(
                FieldModel::List(Seq::new(items@.len(), |i: int| items@[i].text()->Some_0)),
            ),
        },
        (Shape::List, _) => Err(wrong_type(value, "a sequence"@)),
        (Shape::MaybeCode, Json::Null) => Ok(FieldModel::MaybeCode(None)),
        (Shape::MaybeCode, Json::Number(Number::Whole(n))) => if n <= u32::MAX {
            Ok(FieldModel::MaybeCode(Some(n as u32)))
        } else {
            Err(wrong_value(value, "u32"@))
        },
        (Shape::MaybeCode, Json::Number(Number::Negative(_))) => Err(wrong_value(value, "u32"@)),
        (Shape::MaybeCode, _) => Err(wrong_type(value, "u32"@)),
    }
}

/// The complaint about a field that is left out.
pub open spec fn missing(name: Seq<char>) -> Seq<char> {
    "missing field `"@ + name + "`"@
}

/// What a field of an object reads as, or why it does not. An optional field may
/// be left out.
pub open spec fn read_member(members: Seq<(String, Json)>, field: (Seq<char>, Shape)) -> Result<
    FieldModel,
    Seq<char>,
> {
    match (lookup(members, field.0), field.1) {
        (Some(value), shape) => read_value(value, shape),
        (None, Shape::MaybeText) => Ok(FieldModel::MaybeText(None)),
        (None, Shape::MaybeCode) => Ok(FieldModel::MaybeCode(None)),
        (None, _) => Err(missing(field.0)),
    }
}

/// The fault of what was read, if there is one.
pub open spec fn fault_of(read: Result<FieldModel, Seq<char>>) -> Option<Seq<char>> {
    match read {
        Ok(_) => None,
        Err(fault) => Some(fault),
    }
}

/// The shape of the field of a name.
pub open spec fn shape_in(fields: Seq<(Seq<char>, Shape)>, name: Seq<char>) -> Option<Shape>
    decreases fields.len(),
{
    if fields.len() == 0 {
        None
    } else if fields[0].0 == name {
        Some(fields[0].1)
    } else {
        shape_in(fields.skip(1), name)
    }
}

/// Why a member of an object does not read as the field of its name. One that is
/// no field is passed over.
pub open spec fn member_fault(fields: Seq<(Seq<char>, Shape)>) -> spec_fn((String, Json)) -> Option<
    Seq<char>,
> {
    |member: (String, Json)|
        match shape_in(fields, member.0@) {
            Some(shape) => fault_of(read_value(member.1, shape)),
            None => None,
        }
}

/// Why a field does not read from an object.
pub open spec fn field_fault(members: Seq<(String, Json)>) -> spec_fn(
    (Seq<char>, Shape),
) -> Option<Seq<char>> {
    |field: (Seq<char>, Shape)| fault_of(read_member(members, field))
}

/// The fields that an object reads as, or why it does not. Its members are looked
/// at first, in their order, and then what is left out, in the fields' order.
pub open spec fn read_members(
    members: Seq<(String, Json)>,
    fields: Seq<(Seq<char>, Shape)>,
) -> Result<Seq<FieldModel>, Seq<char>> {
    match first_of(members, member_fault(fields)) {
        Some(fault) => Err(fault),
        None => match first_of(fields, field_fault(members)) {
            Some(fault) => Err(fault),
            None => Ok(
                Seq::new(fields.len(), |i: int| read_member(members, fields[i])->Ok_0),
            ),
        },
    }
}

/// So many elements.
pub open spec fn elements(n: nat) -> Seq<char> {
    if n == 1 {
        "1 element"@
    } else {
        decimal(n) + " elements"@
    }
}

/// The numbers from 0 up to `n`.
pub open spec fn indices(n: nat) -> Seq<int> {
    Seq::new(n, |i: int| i)
}

/// What the data of a kind of event is called.
pub open spec fn data_name(kind: Seq<char>) -> Seq<char> {
    if kind == "profile_mounted"@ {
        "ProfileMountedData"@
    } else if kind == "account_created"@ {
        "AccountCreatedData"@
    } else if kind == "account_deactivated"@ {
        "AccountDeactivatedData"@
    } else if kind == "certificate_issued"@ {
        "CertificateIssuedData"@
    } else if kind == "certificate_revoked"@ {
        "CertificateRevokedData"@
    } else {
        "ChallengeFailedData"@
    }
}

/// Why the field of a place does not read from the list that follows the kind.
pub open spec fn element_fault(
    kind: Seq<char>,
    items: Seq<Json>,
    fields: Seq<(Seq<char>, Shape)>,
) -> spec_fn(int) -> Option<Seq<char>> {
    |i: int|
        if i + 1 >= items.len() {
            Some(
                "invalid length "@ + decimal(i as nat) + ", expected struct "@ + data_name(kind)
                    + " with "@ + elements(fields.len()),
            )
        } else {
            fault_of(read_value(items[i + 1], fields[i].1))
        }
}

/// The fields that a list reads as, or why it does not. The kind comes first, and
/// then every field in order, none left out.
pub open spec fn read_elements(
    kind: Seq<char>,
    items: Seq<Json>,
    fields: Seq<(Seq<char>, Shape)>,
) -> Result<Seq<FieldModel>, Seq<char>> {
    match first_of(indices(fields.len()), element_fault(kind, items, fields)) {
        Some(fault) => Err(fault),
        None => if items.len() > fields.len() + 1 {
            Err(
                "invalid length "@ + decimal((items.len() - 1) as nat) + ", expected "@ + elements(
                    fields.len(),
                ) + " in sequence"@,
            )
        } else {
            Ok(Seq::new(fields.len(), |i: int| read_value(items[i + 1], fields[i].1)->Ok_0))
        },
    }
}

/// The kind that a value names, or why it names none.
pub open spec fn read_kind(value: Json) -> Result<Seq<char>, Seq<char>> {
    match value {
        Json::Text(kind) => if schema(kind@) is Some {
            Ok(kind@)
        } else {
            Err(
                "unknown variant `"@ + kind@
                    + "`, expected one of `profile_mounted`, `account_created`, `account_deactivated`, `certificate_issued`, `certificate_revoked`, `challenge_failed`"@,
            )
        },
        _ => Err(wrong_type(value, "variant identifier"@)),
    }
}

/// An event of a kind, from what its fields read as.
pub open spec fn event_of(
    kind: Seq<char>,
    fields: Seq<(Seq<char>, Shape)>,
    read: Result<Seq<FieldModel>, Seq<char>>,
) -> Result<EventModel, Seq<char>> {
    match read {
        Err(fault) => Err(fault),
        Ok(values) => Ok(
            EventModel { kind, fields: Seq::new(fields.len(), |i: int| (fields[i].0, values[i])) },
        ),
    }
}

/// What a written event reads as, or why it cannot be read: an object whose
/// `hook` names its kind, or a list that begins with the kind.
pub open spec fn read_event(value: Json) -> Result<EventModel, Seq<char>> {
    match value {
        Json::Object(members) => match lookup(members@, "hook"@) {
            None => Err(missing("hook"@)),
            Some(tag) => match read_kind(tag) {
                Err(fault) => Err(fault),
                Ok(kind) => {
                    let fields = schema(kind)->Some_0;
                    event_of(kind, fields, read_members(members@, fields))
                },
            },
        },
        Json::Array(items) => if items@.len() == 0 {
            Err(missing("hook"@))
        } else {
            match read_kind(items@[0]) {
                Err(fault) => Err(fault),
                Ok(kind) => {
                    let fields = schema(kind)->Some_0;
                    event_of(kind, fields, read_elements(kind, items@, fields))
                },
            }
        },
        _ => Err(wrong_type(value, "internally tagged enum NotifyEvent"@)),
    }
}

fn unexpected_text(value: &Json) -> (r: String)
    ensures
        r@ == unexpected(*value),
{
    match value {
        Json::Null => "null".to_owned(),
        Json::Bool(true) => "boolean `true`".to_owned(),
        Json::Bool(false) => "boolean `false`".to_owned(),
        Json::Number(Number::Whole(n)) => cat3("integer `", number(*n as u128).as_str(), "`"),
        Json::Number(Number::Negative(n)) => cat3("integer `", signed_number(*n).as_str(), "`"),
        Json::Number(Number::Fraction(text)) => cat3("floating point `", text.as_str(), "`"),
        Json::Text(s) => cat2("string ", quoted(s.as_str()).as_str()),
        Json::Array(_) => "sequence".to_owned(),
        Json::Object(_) => "map".to_owned(),
    }
}

fn type_fault(value: &Json, expected: &str) -> (r: String)
    ensures
        r@ == wrong_type(*value, expected@),
{
    cat4("invalid type: ", unexpected_text(value).as_str(), ", expected ", expected)
}

fn value_fault(value: &Json, expected: &str) -> (r: String)
    ensures
        r@ == wrong_value(*value, expected@),
{
    cat4("invalid value: ", unexpected_text(value).as_str(), ", expected ", expected)
}

fn read_texts(items: &Vec<Json>) -> (r: Result<Vec<String>, String>)
    ensures
        match r {
            Ok(list) => first_of(items@, item_fault()) is None && texts(list@) =~= Seq::new(
                items@.len(),
                |i: int| items@[i].text()->Some_0,
            ),
            Err(fault) => first_of(items@, item_fault()) == Some(fault@),
        },
{
    let mut out: Vec<String> = Vec::new();
    let mut i: usize = 0;
    assert(items@.take(0).len() == 0);
    while i < items.len()
        invariant
            i <= items@.len(),
            out@.len() == i,
            first_of(items@.take(i as int), item_fault()) is None,
            forall|j: int|
                0 <= j < i ==> (#[trigger] texts(out@)[j]) == items@[j].text()->Some_0,
        decreases items@.len() - i,
    {
        proof {
            first_of_next(items@, item_fault(), i as int);
        }
        match &items[i] {
            Json::Text(s) => {
                let one = s.clone();
                proof {
                    texts_push(out@, one);
                }
                out.push(one);
            },
            item => {
                return Err(type_fault(item, "a string"));
            },
        }
        i += 1;
    }
    assert(items@.take(i as int) == items@);
    Ok(out)
}

/// What was read of a field, in terms of sequences.
pub open spec fn read_model(read: Result<EventField, String>) -> Result<FieldModel, Seq<char>> {
    match read {
        Ok(field) => Ok(field@),
        Err(fault) => Err(fault@),
    }
}

fn read_field(value: &Json, shape: Shape) -> (r: Result<EventField, String>)
    ensures
        read_model(r) == read_value(*value, shape),
{
    match (shape, value) {
        (Shape::Text, Json::Text(s)) => Ok(EventField::Text(s.clone())),
        (Shape::Text, _) => Err(type_fault(value, "a string")),
        (Shape::MaybeText, Json::Null) => Ok(EventField::MaybeText(None)),
        (Shape::MaybeText, Json::Text(s)) => Ok(EventField::MaybeText(Some(s.clone()))),
        (Shape::MaybeText, _) => Err(type_fault(value, "a string")),
        (Shape::List, Json::Array(items)) => match read_texts(items) {
            Ok(list) => Ok(EventField::List(list)),
            Err(fault) => Err(fault),
        },
        (Shape::List, _) => Err(type_fault(value, "a sequence")),
        (Shape::MaybeCode, Json::Null) => Ok(EventField::MaybeCode(None)),
        (Shape::MaybeCode, Json::Number(Number::Whole(n))) => if *n <= u32::MAX as u64 {
            Ok(EventField::MaybeCode(Some(*n as u32)))
        } else {
            Err(value_fault(value, "u32"))
        },
        (Shape::MaybeCode, Json::Number(Number::Negative(_))) => Err(value_fault(value, "u32")),
        (Shape::MaybeCode, _) => Err(type_fault(value, "u32")),
    }
}

/// The names and shapes of a list.
pub open spec fn shapes(list: Seq<(&'static str, Shape)>) -> Seq<(Seq<char>, Shape)> {
    list.map_values(|f: (&'static str, Shape)| (f.0@, f.1))
}

fn schema_of(kind: &str) -> (r: Option<Vec<(&'static str, Shape)>>)
    ensures
        match r {
            Some(list) => schema(kind@) == Some(shapes(list@)),
            None => schema(kind@) is None,
        },
{
    let r: Vec<(&'static str, Shape)> = if same(kind, "profile_mounted") {
        vec![("profile", Shape::Text)]
    } else if same(kind, "account_created") {
        vec![
            ("profile", Shape::Text),
            ("account_id", Shape::Text),
            ("contact", Shape::List),
            ("client_ip", Shape::MaybeText),
        ]
    } else if same(kind, "account_deactivated") {
        vec![
            ("profile", Shape::Text),
            ("account_id", Shape::Text),
            ("client_ip", Shape::MaybeText),
        ]
    } else if same(kind, "certificate_issued") {
        vec![
            ("profile", Shape::Text),
            ("order_id", Shape::Text),
            ("account_id", Shape::Text),
            ("cert_serial", Shape::Text),
            ("identifiers", Shape::List),
            ("client_ip", Shape::MaybeText),
        ]
    } else if same(kind, "certificate_revoked") {
        vec![
            ("profile", Shape::Text),
            ("order_id", Shape::Text),
            ("account_id", Shape::Text),
            ("cert_serial", Shape::Text),
            ("reason", Shape::MaybeCode),
            ("client_ip", Shape::MaybeText),
        ]
    } else if same(kind, "challenge_failed") {
        vec![
            ("profile", Shape::Text),
            ("order_id", Shape::Text),
            ("account_id", Shape::Text),
            ("authz_id", Shape::Text),
            ("challenge_id", Shape::Text),
            ("challenge_type", Shape::Text),
            ("identifier", Shape::Text),
            ("error", Shape::Text),
            ("client_ip", Shape::MaybeText),
        ]
    } else {
        return None;
    };
    assert(shapes(r@) =~= schema(kind@)->Some_0);
    Some(r)
}

fn data_of(kind: &str) -> (r: &'static str)
    ensures
        r@ == data_name(kind@),
{
    if same(kind, "profile_mounted") {
        "ProfileMountedData"
    } else if same(kind, "account_created") {
        "AccountCreatedData"
    } else if same(kind, "account_deactivated") {
        "AccountDeactivatedData"
    } else if same(kind, "certificate_issued") {
        "CertificateIssuedData"
    } else if same(kind, "certificate_revoked") {
        "CertificateRevokedData"
    } else {
        "ChallengeFailedData"
    }
}

fn elements_text(n: usize) -> (r: String)
    ensures
        r@ == elements(n as nat),
{
    if n == 1 {
        "1 element".to_owned()
    } else {
        cat2(number(n as u128).as_str(), " elements")
    }
}

fn shape_of(list: &Vec<(&'static str, Shape)>, name: &str) -> (r: Option<Shape>)
    ensures
        r == shape_in(shapes(list@), name@),
{
    let ghost all = shapes(list@);
    let mut i: usize = 0;
    assert(all.skip(0) == all);
    while i < list.len()
        invariant
            i <= list@.len(),
            all == shapes(list@),
            shape_in(all, name@) == shape_in(all.skip(i as int), name@),
        decreases list@.len() - i,
    {
        let ghost rest = all.skip(i as int);
        assert(rest[0] == all[i as int]);
        assert(rest.skip(1) == all.skip(i as int + 1));
        if same(list[i].0, name) {
            return Some(list[i].1);
        }
        i += 1;
    }
    None
}

/// The values of a list of fields.
pub open spec fn values_of(values: Seq<EventField>) -> Seq<FieldModel> {
    values.map_values(|value: EventField| value@)
}

/// What was read of several fields, in terms of sequences.
pub open spec fn read_models(read: Result<Vec<EventField>, String>) -> Result<
    Seq<FieldModel>,
    Seq<char>,
> {
    match read {
        Ok(values) => Ok(values_of(values@)),
        Err(fault) => Err(fault@),
    }
}

fn member_faults(members: &Vec<(String, Json)>, list: &Vec<(&'static str, Shape)>) -> (r: Option<
    String,
>)
    ensures
        optional_text(r) == first_of(members@, member_fault(shapes(list@))),
{
    let mut i: usize = 0;
    assert(members@.take(0).len() == 0);
    while i < members.len()
        invariant
            i <= members@.len(),
            first_of(members@.take(i as int), member_fault(shapes(list@))) is None,
        decreases members@.len() - i,
    {
        proof {
            first_of_next(members@, member_fault(shapes(list@)), i as int);
        }
        if let Some(shape) = shape_of(list, members[i].0.as_str()) {
            let read = read_field(&members[i].1, shape);
            if let Err(fault) = read {
                return Some(fault);
            }
        }
        i += 1;
    }
    assert(members@.take(i as int) == members@);
    None
}

fn member_values(members: &Vec<(String, Json)>, list: &Vec<(&'static str, Shape)>) -> (r: Result<
    Vec<EventField>,
    String,
>)
    ensures
        read_models(r) == read_members(members@, shapes(list@)),
{
    if let Some(fault) = member_faults(members, list) {
        return Err(fault);
    }
    let ghost all = shapes(list@);
    let mut values: Vec<EventField> = Vec::new();
    let mut i: usize = 0;
    assert(all.take(0).len() == 0);
    while i < list.len()
        invariant
            i <= list@.len(),
            all == shapes(list@),
            values@.len() == i,
            first_of(members@, member_fault(all)) is None,
            first_of(all.take(i as int), field_fault(members@)) is None,
            forall|j: int|
                0 <= j < i ==> values_of(values@)[j] == read_member(
                    members@,
                    #[trigger] all[j],
                )->Ok_0,
        decreases list@.len() - i,
    {
        let (name, shape) = list[i];
        assert(all[i as int] == (name@, shape));
        proof {
            first_of_next(all, field_fault(members@), i as int);
        }
        let read = match find(members, name) {
            Some(value) => read_field(value, shape),
            None => match shape {
                Shape::MaybeText => Ok(EventField::MaybeText(None)),
                Shape::MaybeCode => Ok(EventField::MaybeCode(None)),
                _ => Err(cat3("missing field `", name, "`")),
            },
        };
        assert(read_model(read) == read_member(members@, all[i as int]));
        let ghost held = values_of(values@);
        match read {
            Ok(field) => {
                values.push(field);
                assert(values_of(values@) =~= held.push(field@));
            },
            Err(fault) => {
                return Err(fault);
            },
        }
        i += 1;
    }
    assert(all.take(i as int) == all);
    assert(values_of(values@) =~= read_members(members@, all)->Ok_0);
    Ok(values)
}

fn element_values(
    kind: &str,
    items: &Vec<Json>,
    list: &Vec<(&'static str, Shape)>,
) -> (r: Result<Vec<EventField>, String>)
    requires
        items@.len() > 0,
    ensures
        read_models(r) == read_elements(kind@, items@, shapes(list@)),
{
    let ghost all = shapes(list@);
    let ghost fault = element_fault(kind@, items@, all);
    let ghost places = indices(all.len());
    let mut values: Vec<EventField> = Vec::new();
    let mut i: usize = 0;
    assert(places.take(0).len() == 0);
    while i < list.len()
        invariant
            i <= list@.len(),
            all == shapes(list@),
            items@.len() > 0,
            fault == element_fault(kind@, items@, all),
            places == indices(all.len()),
            values@.len() == i,
            i < items@.len(),
            first_of(places.take(i as int), fault) is None,
            forall|j: int|
                0 <= j < i ==> values_of(values@)[j] == read_value(
                    items@[j + 1],
                    (#[trigger] all[j]).1,
                )->Ok_0,
        decreases list@.len() - i,
    {
        let shape = list[i].1;
        assert(all[i as int].1 == shape && places[i as int] == i);
        proof {
            first_of_next(places, fault, i as int);
        }
        if i + 1 >= items.len() {
            return Err(
                cat6(
                    "invalid length ",
                    number(i as u128).as_str(),
                    ", expected struct ",
                    data_of(kind),
                    " with ",
                    elements_text(list.len()).as_str(),
                ),
            );
        }
        let ghost held = values_of(values@);
        match read_field(&items[i + 1], shape) {
            Ok(field) => {
                values.push(field);
                assert(values_of(values@) =~= held.push(field@));
            },
            Err(fault) => {
                return Err(fault);
            },
        }
        i += 1;
    }
    assert(places.take(i as int) == places);
    if items.len() - 1 > list.len() {
        return Err(
            cat5(
                "invalid length ",
                number((items.len() - 1) as u128).as_str(),
                ", expected ",
                elements_text(list.len()).as_str(),
                " in sequence",
            ),
        );
    }
    assert(values_of(values@) =~= read_elements(kind@, items@, all)->Ok_0);
    Ok(values)
}

fn take_text(values: &mut Vec<EventField>) -> (r: String)
    requires
        old(values)@.len() > 0,
        old(values)@.last() is Text,
    ensures
        final(values)@ == old(values)@.drop_last(),
        old(values)@.last()@ == FieldModel::Text(r@),
{
    match values.pop() {
        Some(EventField::Text(s)) => s,
        _ => String::new(),
    }
}

fn take_maybe(values: &mut Vec<EventField>) -> (r: Option<String>)
    requires
        old(values)@.len() > 0,
        old(values)@.last() is MaybeText,
    ensures
        final(values)@ == old(values)@.drop_last(),
        old(values)@.last()@ == FieldModel::MaybeText(optional_text(r)),
{
    match values.pop() {
        Some(EventField::MaybeText(s)) => s,
        _ => None,
    }
}

fn take_list(values: &mut Vec<EventField>) -> (r: Vec<String>)
    requires
        old(values)@.len() > 0,
        old(values)@.last() is List,
    ensures
        final(values)@ == old(values)@.drop_last(),
        old(values)@.last()@ == FieldModel::List(texts(r@)),
{
    match values.pop() {
        Some(EventField::List(v)) => v,
        _ => Vec::new(),
    }
}

fn take_code(values: &mut Vec<EventField>) -> (r: Option<u32>)
    requires
        old(values)@.len() > 0,
        old(values)@.last() is MaybeCode,
    ensures
        final(values)@ == old(values)@.drop_last(),
        old(values)@.last()@ == FieldModel::MaybeCode(r),
{
    match values.pop() {
        Some(EventField::MaybeCode(n)) => n,
        _ => None,
    }
}

/// Whether a field's value has the given shape.
pub open spec fn fits(field: FieldModel, shape: Shape) -> bool {
    match shape {
        Shape::Text => field is Text,
        Shape::MaybeText => field is MaybeText,
        Shape::List => field is List,
        Shape::MaybeCode => field is MaybeCode,
    }
}

/// Builds an event of a kind from the values of its fields.
fn build(kind: &str, values: Vec<EventField>) -> (r: NotifyEvent)
    requires
        schema(kind@) matches Some(fields) && {
            &&& fields.len() == values@.len()
            &&& forall|i: int| 0 <= i < fields.len() ==> fits((#[trigger] values@[i])@, fields[i].1)
        },
    ensures
        r@.kind == kind@,
        r@.fields == Seq::new(
            values@.len(),
            |i: int| (schema(kind@)->Some_0[i].0, values@[i]@),
        ),
{
    let ghost given = values@;
    let ghost fields = schema(kind@)->Some_0;
    let mut values = values;
    assert forall|i: int| 0 <= i < fields.len() implies fits((#[trigger] given[i])@, fields[i].1) by {
    }
    let r = if same(kind, "profile_mounted") {
        assert(fits(given[0]@, Shape::Text));
        let profile = take_text(&mut values);
        NotifyEvent::ProfileMounted(ProfileMountedData { profile })
    } else if same(kind, "account_created") {
        assert(fits(given[0]@, fields[0].1) && fits(given[1]@, fields[1].1) && fits(
            given[2]@,
            fields[2].1,
        ) && fits(given[3]@, fields[3].1));
        let client_ip = take_maybe(&mut values);
        let contact = take_list(&mut values);
        let account_id = take_text(&mut values);
        let profile = take_text(&mut values);
        NotifyEvent::AccountCreated(AccountCreatedData { profile, account_id, contact, client_ip })
    } else if same(kind, "account_deactivated") {
        assert(fits(given[0]@, fields[0].1) && fits(given[1]@, fields[1].1) && fits(
            given[2]@,
            fields[2].1,
        ));
        let client_ip = take_maybe(&mut values);
        let account_id = take_text(&mut values);
        let profile = take_text(&mut values);
        NotifyEvent::AccountDeactivated(AccountDeactivatedData { profile, account_id, client_ip })
    } else if same(kind, "certificate_issued") {
        assert(fits(given[0]@, fields[0].1) && fits(given[1]@, fields[1].1) && fits(
            given[2]@,
            fields[2].1,
        ) && fits(given[3]@, fields[3].1) && fits(given[4]@, fields[4].1) && fits(
            given[5]@,
            fields[5].1,
        ));
        let client_ip = take_maybe(&mut values);
        let identifiers = take_list(&mut values);
        let cert_serial = take_text(&mut values);
        let account_id = take_text(&mut values);
        let order_id = take_text(&mut values);
        let profile = take_text(&mut values);
        NotifyEvent::CertificateIssued(
            CertificateIssuedData {
                profile,
                order_id,
                account_id,
                cert_serial,
                identifiers,
                client_ip,
            },
        )
    } else if same(kind, "certificate_revoked") {
        assert(fits(given[0]@, fields[0].1) && fits(given[1]@, fields[1].1) && fits(
            given[2]@,
            fields[2].1,
        ) && fits(given[3]@, fields[3].1) && fits(given[4]@, fields[4].1) && fits(
            given[5]@,
            fields[5].1,
        ));
        let client_ip = take_maybe(&mut values);
        let reason = take_code(&mut values);
        let cert_serial = take_text(&mut values);
        let account_id = take_text(&mut values);
        let order_id = take_text(&mut values);
        let profile = take_text(&mut values);
        NotifyEvent::CertificateRevoked(
            CertificateRevokedData { profile, order_id, account_id, cert_serial, reason, client_ip },
        )
    } else {
        assert(fits(given[0]@, fields[0].1) && fits(given[1]@, fields[1].1) && fits(
            given[2]@,
            fields[2].1,
        ) && fits(given[3]@, fields[3].1) && fits(given[4]@, fields[4].1) && fits(
            given[5]@,
            fields[5].1,
        ) && fits(given[6]@, fields[6].1) && fits(given[7]@, fields[7].1) && fits(
            given[8]@,
            fields[8].1,
        ));
        let client_ip = take_maybe(&mut values);
        let error = take_text(&mut values);
        let identifier = take_text(&mut values);
        let challenge_type = take_text(&mut values);
        let challenge_id = take_text(&mut values);
        let authz_id = take_text(&mut values);
        let account_id = take_text(&mut values);
        let order_id = take_text(&mut values);
        let profile = take_text(&mut values);
        NotifyEvent::ChallengeFailed(
            ChallengeFailedData {
                profile,
                order_id,
                account_id,
                authz_id,
                challenge_id,
                challenge_type,
                identifier,
                error,
                client_ip,
            },
        )
    };
    assert(r@.fields =~= Seq::new(
        given.len(),
        |i: int| (schema(kind@)->Some_0[i].0, given[i]@),
    ));
    r
}

proof fn read_fits(value: Json, shape: Shape)
    ensures
        read_value(value, shape) matches Ok(field) ==> fits(field, shape),
{
}

/// The kind that a value names.
fn kind_of(value: &Json) -> (r: Result<&str, String>)
    ensures
        match r {
            Ok(kind) => read_kind(*value) == Ok::<Seq<char>, Seq<char>>(kind@),
            Err(fault) => read_kind(*value) == Err::<Seq<char>, Seq<char>>(fault@),
        },
{
    match value {
        Json::Text(kind) => if schema_of(kind.as_str()).is_some() {
            Ok(kind.as_str())
        } else {
            Err(
                cat3(
                    "unknown variant `",
                    kind.as_str(),
                    "`, expected one of `profile_mounted`, `account_created`, `account_deactivated`, `certificate_issued`, `certificate_revoked`, `challenge_failed`",
                ),
            )
        },
        _ => Err(type_fault(value, "variant identifier")),
    }
}

/// Builds an event of a kind from what was read of its fields.
fn event_from(
    kind: &str,
    list: &Vec<(&'static str, Shape)>,
    read: Result<Vec<EventField>, String>,
) -> (r: Result<NotifyEvent, String>)
    requires
        schema(kind@) == Some(shapes(list@)),
        read matches Ok(values) ==> values@.len() == list@.len() && forall|i: int|
            0 <= i < list@.len() ==> fits((#[trigger] values@[i])@, shapes(list@)[i].1),
    ensures
        event_model(r) == event_of(kind@, shapes(list@), read_models(read)),
{
    match read {
        Err(fault) => Err(fault),
        Ok(values) => {
            let event = build(kind, values);
            assert(event@.fields =~= event_of(
                kind@,
                shapes(list@),
                read_models(Ok::<Vec<EventField>, String>(values)),
            )->Ok_0.fields);
            Ok(event)
        },
    }
}

/// What was read, in terms of sequences.
pub open spec fn event_model(read: Result<NotifyEvent, String>) -> Result<EventModel, Seq<char>> {
    match read {
        Ok(event) => Ok(event@),
        Err(fault) => Err(fault@),
    }
}

impl NotifyEvent {
    /// Reads an event that was written down.
    pub fn from_payload(payload: &Json) -> (r: Result<NotifyEvent, String>)
        ensures
            match r {
                Ok(event) => read_event(*payload) == Ok::<EventModel, Seq<char>>(event@),
                Err(fault) => read_event(*payload) == Err::<EventModel, Seq<char>>(fault@),
            },
    {
        let tag = match payload {
            Json::Object(members) => find(members, "hook"),
            Json::Array(items) => if items.len() > 0 {
                Some(&items[0])
            } else {
                None
            },
            _ => {
                return Err(type_fault(payload, "internally tagged enum NotifyEvent"));
            },
        };
        let kind = match tag {
            None => {
                return Err(cat3("missing field `", "hook", "`"));
            },
            Some(tag) => match kind_of(tag) {
                Ok(kind) => kind,
                Err(fault) => {
                    return Err(fault);
                },
            },
        };
        match (schema_of(kind), payload) {
            (Some(list), Json::Object(members)) => {
                let read = member_values(members, &list);
                proof {
                    let fields = shapes(list@);
                    if read is Ok {
                        let values = read->Ok_0;
                        assert(values_of(values@).len() == fields.len());
                        first_of_none(fields, field_fault(members@));
                        assert forall|i: int| 0 <= i < list@.len() implies fits(
                            (#[trigger] values@[i])@,
                            fields[i].1,
                        ) by {
                            assert(values_of(values@)[i] == values@[i]@);
                            assert(field_fault(members@)(fields[i]) is None);
                            if let Some(value) = lookup(members@, fields[i].0) {
                                read_fits(value, fields[i].1);
                            }
                        }
                    }
                }
                event_from(kind, &list, read)
            },
            (Some(list), Json::Array(items)) => {
                let read = element_values(kind, items, &list);
                proof {
                    let fields = shapes(list@);
                    if read is Ok {
                        let values = read->Ok_0;
                        assert(values_of(values@).len() == fields.len());
                        let places = indices(fields.len());
                        let fault = element_fault(kind@, items@, fields);
                        first_of_none(places, fault);
                        assert forall|i: int| 0 <= i < list@.len() implies fits(
                            (#[trigger] values@[i])@,
                            fields[i].1,
                        ) by {
                            assert(values_of(values@)[i] == values@[i]@);
                            assert(fault(places[i]) is None);
                            read_fits(items@[i + 1], fields[i].1);
                        }
                    }
                }
                event_from(kind, &list, read)
            },
            _ => Err(String::new()),
        }
    }
}

// ---------------------------------------------------------------------- laws
proof fn lookup_at(members: Seq<(String, Json)>, i: int)
    requires
        0 <= i < members.len(),
        forall|j: int| 0 <= j < i ==> (#[trigger] members[j]).0@ != members[i].0@,
    ensures
        lookup(members, members[i].0@) == Some(members[i].1),
    decreases i,
{
    if i > 0 {
        let rest = members.skip(1);
        assert(members[0].0@ != members[i].0@);
        assert forall|j: int| 0 <= j < i - 1 implies (#[trigger] rest[j]).0@ != rest[i - 1].0@ by {
            assert(rest[j] == members[j + 1]);
        }
        lookup_at(rest, i - 1);
    }
}

/// The fields of an event have different names, and none is called `hook`.
proof fn field_names_differ(event: NotifyEvent)
    ensures
        forall|i: int, j: int|
            0 <= i < j < event@.fields.len() ==> (#[trigger] event@.fields[i]).0 != (
            #[trigger] event@.fields[j]).0,
        forall|i: int|
            0 <= i < event@.fields.len() ==> (#[trigger] event@.fields[i]).0 != "hook"@,
{
    reveal_strlit("hook");
    reveal_strlit("profile");
    reveal_strlit("order_id");
    reveal_strlit("account_id");
    reveal_strlit("authz_id");
    reveal_strlit("challenge_id");
    reveal_strlit("challenge_type");
    reveal_strlit("identifier");
    reveal_strlit("identifiers");
    reveal_strlit("error");
    reveal_strlit("client_ip");
    reveal_strlit("cert_serial");
    reveal_strlit("reason");
    reveal_strlit("contact");
    // Told apart by their length, or else by their first, third or last character.
    assert forall|i: int, j: int| 0 <= i < j < event@.fields.len() implies (
    #[trigger] event@.fields[i]).0 != (#[trigger] event@.fields[j]).0 by {
        let (x, y) = (event@.fields[i].0, event@.fields[j].0);
        assert(x.len() != y.len() || x[0] != y[0] || x[1] != y[1] || x[2] != y[2] || x.last()
            != y.last());
    }
    assert forall|i: int| 0 <= i < event@.fields.len() implies (#[trigger] event@.fields[i]).0
        != "hook"@ by {
        assert(event@.fields[i].0.len() != 4);
    }
}

/// The schema of an event's kind names its fields, in order, with their shapes.
proof fn schema_matches(event: NotifyEvent)
    ensures
        schema(event@.kind) matches Some(fields) && {
            &&& fields.len() == event@.fields.len()
            &&& forall|i: int|
                0 <= i < fields.len() ==> (#[trigger] fields[i]).0 == event@.fields[i].0 && fits(
                    event@.fields[i].1,
                    fields[i].1,
                )
        },
{
    reveal_strlit("profile_mounted");
    reveal_strlit("account_created");
    reveal_strlit("account_deactivated");
    reveal_strlit("certificate_issued");
    reveal_strlit("certificate_revoked");
    reveal_strlit("challenge_failed");
    assert("profile_mounted"@.len() == 15 && "account_created"@.len() == 15);
    assert("account_deactivated"@.len() == 19 && "certificate_revoked"@.len() == 19);
    assert("certificate_issued"@.len() == 18 && "challenge_failed"@.len() == 16);
    assert("profile_mounted"@[0] != "account_created"@[0]);
    assert("account_deactivated"@[0] != "certificate_revoked"@[0]);
    let fields = schema(event@.kind)->Some_0;
    match event {
        NotifyEvent::ProfileMounted(_) => assert(fields.len() == 1),
        NotifyEvent::AccountCreated(_) => assert(fields.len() == 4),
        NotifyEvent::AccountDeactivated(_) => assert(fields.len() == 3),
        NotifyEvent::CertificateIssued(_) => assert(fields.len() == 6),
        NotifyEvent::CertificateRevoked(_) => assert(fields.len() == 6),
        NotifyEvent::ChallengeFailed(_) => assert(fields.len() == 9),
    }
}

proof fn written_value_reads_back(value: Json, field: FieldModel, shape: Shape)
    requires
        value_writes(value, field),
        fits(field, shape),
    ensures
        read_value(value, shape) == Ok::<FieldModel, Seq<char>>(field),
{
    match field {
        FieldModel::List(list) => {
            let items = value->Array_0@;
            first_of_none(items, item_fault());
            assert forall|i: int| 0 <= i < items.len() implies item_fault()(
                #[trigger] items[i],
            ) is None by {
                assert(items[i].text() is Some);
            }
            assert(read_value(value, shape)->Ok_0->List_0 =~= list);
        },
        _ => {},
    }
}

proof fn shape_at(fields: Seq<(Seq<char>, Shape)>, i: int)
    requires
        0 <= i < fields.len(),
        forall|j: int| 0 <= j < i ==> (#[trigger] fields[j]).0 != fields[i].0,
    ensures
        shape_in(fields, fields[i].0) == Some(fields[i].1),
    decreases i,
{
    if i > 0 {
        let rest = fields.skip(1);
        assert(fields[0].0 != fields[i].0);
        assert forall|j: int| 0 <= j < i - 1 implies (#[trigger] rest[j]).0 != rest[i - 1].0 by {
            assert(rest[j] == fields[j + 1]);
        }
        shape_at(rest, i - 1);
    }
}

proof fn no_shape(fields: Seq<(Seq<char>, Shape)>, name: Seq<char>)
    requires
        forall|i: int| 0 <= i < fields.len() ==> (#[trigger] fields[i]).0 != name,
    ensures
        shape_in(fields, name) is None,
    decreases fields.len(),
{
    if fields.len() > 0 {
        let rest = fields.skip(1);
        assert(fields[0].0 != name);
        assert forall|i: int| 0 <= i < rest.len() implies (#[trigger] rest[i]).0 != name by {
            assert(rest[i] == fields[i + 1]);
        }
        no_shape(rest, name);
    }
}

/// A queued event survives: however an event was written down, it reads back as
/// itself.
pub proof fn every_event_round_trips(event: NotifyEvent, written: Json)
    requires
        writes(written, event@),
    ensures
        read_event(written) == Ok::<EventModel, Seq<char>>(event@),
{
    field_names_differ(event);
    schema_matches(event);
    let members = written->Object_0@;
    let fields = schema(event@.kind)->Some_0;
    assert(lookup(members, "hook"@) == Some(members[0].1));
    assert(read_kind(members[0].1) == Ok::<Seq<char>, Seq<char>>(event@.kind));
    assert forall|i: int| 0 <= i < fields.len() implies read_member(
        members,
        #[trigger] fields[i],
    ) == Ok::<FieldModel, Seq<char>>(event@.fields[i].1) && lookup(members, fields[i].0) == Some(
        members[i + 1].1,
    ) by {
        assert(members[i + 1].0@ == event@.fields[i].0);
        assert forall|j: int| 0 <= j < i + 1 implies (#[trigger] members[j]).0@ != members[i
            + 1].0@ by {
            if j > 0 {
                assert(members[(j - 1) + 1].0@ == event@.fields[j - 1].0);
                assert(event@.fields[j - 1].0 != event@.fields[i].0);
            }
        }
        lookup_at(members, i + 1);
        written_value_reads_back(members[i + 1].1, event@.fields[i].1, fields[i].1);
    }
    first_of_none(fields, field_fault(members));
    assert forall|i: int| 0 <= i < fields.len() implies field_fault(members)(
        #[trigger] fields[i],
    ) is None by {
        assert(read_member(members, fields[i]) is Ok);
    }
    first_of_none(members, member_fault(fields));
    assert forall|i: int| 0 <= i < members.len() implies member_fault(fields)(
        #[trigger] members[i],
    ) is None by {
        if i == 0 {
            assert forall|j: int| 0 <= j < fields.len() implies (#[trigger] fields[j]).0
                != "hook"@ by {
                assert(fields[j].0 == event@.fields[j].0);
            }
            no_shape(fields, "hook"@);
        } else {
            assert(members[(i - 1) + 1].0@ == event@.fields[i - 1].0);
            assert forall|j: int| 0 <= j < i - 1 implies (#[trigger] fields[j]).0 != fields[i
                - 1].0 by {
                assert(fields[j].0 == event@.fields[j].0);
                assert(event@.fields[j].0 != event@.fields[i - 1].0);
            }
            shape_at(fields, i - 1);
            assert(read_member(members, fields[i - 1]) is Ok);
        }
    }
    assert(read_event(written)->Ok_0.fields =~= event@.fields);
}

/// Every event's kind is one of the six.
pub proof fn every_kind_is_listed(event: NotifyEvent)
    ensures
        all_kinds().contains(event@.kind),
{
    let all = all_kinds();
    match event {
        NotifyEvent::ProfileMounted(_) => assert(all[0] == event@.kind),
        NotifyEvent::AccountCreated(_) => assert(all[1] == event@.kind),
        NotifyEvent::AccountDeactivated(_) => assert(all[2] == event@.kind),
        NotifyEvent::CertificateIssued(_) => assert(all[3] == event@.kind),
        NotifyEvent::CertificateRevoked(_) => assert(all[4] == event@.kind),
        NotifyEvent::ChallengeFailed(_) => assert(all[5] == event@.kind),
    }
}

/// The six kinds, in the order they are listed in.
pub proof fn the_six_kinds(kind: Seq<char>)
    ensures
        all_kinds().len() == 6,
        all_kinds()[0] == "profile_mounted"@ && all_kinds()[1] == "account_created"@,
        all_kinds()[2] == "account_deactivated"@ && all_kinds()[3] == "certificate_issued"@,
        all_kinds()[4] == "certificate_revoked"@ && all_kinds()[5] == "challenge_failed"@,
        schema(kind) is Some <==> all_kinds().contains(kind),
{
    let all = all_kinds();
    assert(all[0] == "profile_mounted"@ && all[1] == "account_created"@ && all[2]
        == "account_deactivated"@ && all[3] == "certificate_issued"@ && all[4]
        == "certificate_revoked"@ && all[5] == "challenge_failed"@);
    if all.contains(kind) {
        let i = choose|i: int| 0 <= i < all.len() && all[i] == kind;
        assert(i == 0 || i == 1 || i == 2 || i == 3 || i == 4 || i == 5);
    }
}

/// An event is shown by its kind and by its own data, every field under its own name
/// and none left out, the profile first.
pub proof fn an_event_shows_its_own_data(event: NotifyEvent)
    ensures
        match event {
            NotifyEvent::ProfileMounted(d) => event@.kind == "profile_mounted"@
                && event@.fields.len() == 1 && event@.fields[0] == (
                "profile"@,
                FieldModel::Text(d.profile@),
            ),
            NotifyEvent::AccountCreated(d) => event@.kind == "account_created"@
                && event@.fields.len() == 4 && event@.fields[0] == (
                "profile"@,
                FieldModel::Text(d.profile@),
            ) && event@.fields[1] == ("account_id"@, FieldModel::Text(d.account_id@))
                && event@.fields[2] == ("contact"@, FieldModel::List(texts(d.contact@)))
                && event@.fields[3] == (
                "client_ip"@,
                FieldModel::MaybeText(optional_text(d.client_ip)),
            ),
            NotifyEvent::AccountDeactivated(d) => event@.kind == "account_deactivated"@
                && event@.fields.len() == 3 && event@.fields[0] == (
                "profile"@,
                FieldModel::Text(d.profile@),
            ) && event@.fields[1] == ("account_id"@, FieldModel::Text(d.account_id@))
                && event@.fields[2] == (
                "client_ip"@,
                FieldModel::MaybeText(optional_text(d.client_ip)),
            ),
            NotifyEvent::CertificateIssued(d) => event@.kind == "certificate_issued"@
                && event@.fields.len() == 6 && event@.fields[0] == (
                "profile"@,
                FieldModel::Text(d.profile@),
            ) && event@.fields[1] == ("order_id"@, FieldModel::Text(d.order_id@))
                && event@.fields[2] == ("account_id"@, FieldModel::Text(d.account_id@))
                && event@.fields[3] == ("cert_serial"@, FieldModel::Text(d.cert_serial@))
                && event@.fields[4] == ("identifiers"@, FieldModel::List(texts(d.identifiers@)))
                && event@.fields[5] == (
                "client_ip"@,
                FieldModel::MaybeText(optional_text(d.client_ip)),
            ),
            NotifyEvent::CertificateRevoked(d) => event@.kind == "certificate_revoked"@
                && event@.fields.len() == 6 && event@.fields[0] == (
                "profile"@,
                FieldModel::Text(d.profile@),
            ) && event@.fields[1] == ("order_id"@, FieldModel::Text(d.order_id@))
                && event@.fields[2] == ("account_id"@, FieldModel::Text(d.account_id@))
                && event@.fields[3] == ("cert_serial"@, FieldModel::Text(d.cert_serial@))
                && event@.fields[4] == ("reason"@, FieldModel::MaybeCode(d.reason))
                && event@.fields[5] == (
                "client_ip"@,
                FieldModel::MaybeText(optional_text(d.client_ip)),
            ),
            NotifyEvent::ChallengeFailed(d) => event@.kind == "challenge_failed"@
                && event@.fields.len() == 9 && event@.fields[0] == (
                "profile"@,
                FieldModel::Text(d.profile@),
            ) && event@.fields[1] == ("order_id"@, FieldModel::Text(d.order_id@))
                && event@.fields[2] == ("account_id"@, FieldModel::Text(d.account_id@))
                && event@.fields[3] == ("authz_id"@, FieldModel::Text(d.authz_id@))
                && event@.fields[4] == ("challenge_id"@, FieldModel::Text(d.challenge_id@))
                && event@.fields[5] == ("challenge_type"@, FieldModel::Text(d.challenge_type@))
                && event@.fields[6] == ("identifier"@, FieldModel::Text(d.identifier@))
                && event@.fields[7] == ("error"@, FieldModel::Text(d.error@)) && event@.fields[8]
                == ("client_ip"@, FieldModel::MaybeText(optional_text(d.client_ip))),
        },
{
}

/// What an event says of its client, its account, its order, its certificate and its
/// names is what its data say; where they say nothing, neither does it.
pub proof fn an_event_speaks_from_its_data(event: NotifyEvent)
    ensures
        match event {
            NotifyEvent::ProfileMounted(d) => event.client_address() is None
                && event.account() is None && event.order() is None && event.serial() is None
                && event.identifiers().len() == 0,
            NotifyEvent::AccountCreated(d) => event.client_address() == optional_text(d.client_ip)
                && event.account() == Some(d.account_id@) && event.order() is None
                && event.serial() is None && event.identifiers().len() == 0,
            NotifyEvent::AccountDeactivated(d) => event.client_address() == optional_text(
                d.client_ip,
            ) && event.account() == Some(d.account_id@) && event.order() is None
                && event.serial() is None && event.identifiers().len() == 0,
            NotifyEvent::CertificateIssued(d) => event.client_address() == optional_text(
                d.client_ip,
            ) && event.account() == Some(d.account_id@) && event.order() == Some(d.order_id@)
                && event.serial() == Some(d.cert_serial@) && event.identifiers() == texts(
                d.identifiers@,
            ),
            NotifyEvent::CertificateRevoked(d) => event.client_address() == optional_text(
                d.client_ip,
            ) && event.account() == Some(d.account_id@) && event.order() == Some(d.order_id@)
                && event.serial() == Some(d.cert_serial@) && event.identifiers().len() == 0,
            NotifyEvent::ChallengeFailed(d) => event.client_address() == optional_text(d.client_ip)
                && event.account() == Some(d.account_id@) && event.order() == Some(d.order_id@)
                && event.serial() is None && event.identifiers().len() == 0,
        },
{
}

/// A field is its own value, and a list of fields is one for one.
pub proof fn a_field_is_its_own_value(
    text: String,
    list: Vec<String>,
    code: Option<u32>,
    all: Seq<(&'static str, EventField)>,
)
    ensures
        EventField::Text(text)@ == FieldModel::Text(text@),
        EventField::MaybeText(Some(text))@ == FieldModel::MaybeText(Some(text@)),
        EventField::MaybeText(None)@ == FieldModel::MaybeText(None),
        EventField::List(list)@ == FieldModel::List(texts(list@)),
        EventField::MaybeCode(code)@ == FieldModel::MaybeCode(code),
        optional_text(Some(text)) == Some(text@),
        optional_text(None) is None,
        field_models(all).len() == all.len(),
        forall|i: int|
            0 <= i < all.len() ==> #[trigger] field_models(all)[i] == (all[i].0@, all[i].1@),
{
}

/// An event is written as an object: its kind under `hook`, then each field under its
/// name, a string as itself, a list as its strings, a number as itself, and nothing as
/// `null`.
pub proof fn an_event_is_written_field_by_field(value: Json, event: EventModel, i: int)
    requires
        writes(value, event),
        0 <= i < event.fields.len(),
    ensures
        value is Object,
        value->Object_0@.len() == event.fields.len() + 1,
        value->Object_0@[0].0@ == "hook"@,
        value->Object_0@[0].1.text() == Some(event.kind),
        value->Object_0@[i + 1].0@ == event.fields[i].0,
        event.fields[i].1 matches FieldModel::Text(s) ==> value->Object_0@[i + 1].1.text() == Some(
            s,
        ),
        event.fields[i].1 matches FieldModel::MaybeText(Some(s)) ==> value->Object_0@[i
            + 1].1.text() == Some(s),
        event.fields[i].1 == FieldModel::MaybeText(None) ==> value->Object_0@[i + 1].1 is Null,
        event.fields[i].1 matches FieldModel::MaybeCode(Some(n)) ==> value->Object_0@[i
            + 1].1.whole() == Some(n as u64),
        event.fields[i].1 == FieldModel::MaybeCode(None) ==> value->Object_0@[i + 1].1 is Null,
        event.fields[i].1 matches FieldModel::List(list) ==> {
            let written = value->Object_0@[i + 1].1;
            &&& written is Array && written->Array_0@.len() == list.len()
            &&& forall|k: int|
                0 <= k < list.len() ==> (#[trigger] written->Array_0@[k]).text() == Some(list[k])
        },
{
    assert(value->Object_0@[i + 1].0@ == event.fields[i].0 && value_writes(
        value->Object_0@[i + 1].1,
        event.fields[i].1,
    ));
}

/// What fits a field: a string fits a text; a list of strings fits a list; a whole number
/// of 32 bits fits a code; and `null` fits what may be missing. What is read is then the
/// value itself.
pub proof fn a_field_reads_what_fits_it(value: Json)
    ensures
        read_value(value, Shape::Text) is Ok <==> value is Text,
        read_value(value, Shape::Text) matches Ok(field) ==> field == FieldModel::Text(
            value.text()->Some_0,
        ),
        read_value(value, Shape::MaybeText) is Ok <==> value is Text || value is Null,
        value is Null ==> read_value(value, Shape::MaybeText) == Ok::<FieldModel, Seq<char>>(
            FieldModel::MaybeText(None),
        ),
        value is Text ==> read_value(value, Shape::MaybeText) == Ok::<FieldModel, Seq<char>>(
            FieldModel::MaybeText(value.text()),
        ),
        read_value(value, Shape::List) is Ok <==> value is Array && forall|i: int|
            0 <= i < value->Array_0@.len() ==> (#[trigger] value->Array_0@[i]) is Text,
        read_value(value, Shape::List) matches Ok(field) ==> {
            &&& field is List && field->List_0.len() == value->Array_0@.len()
            &&& forall|i: int|
                0 <= i < value->Array_0@.len() ==> Some(#[trigger] field->List_0[i])
                    == value->Array_0@[i].text()
        },
        read_value(value, Shape::MaybeCode) is Ok <==> value is Null || (value.whole() is Some
            && value.whole()->Some_0 <= 4_294_967_295),
        value is Null ==> read_value(value, Shape::MaybeCode) == Ok::<FieldModel, Seq<char>>(
            FieldModel::MaybeCode(None),
        ),
        value.whole() is Some && value.whole()->Some_0 <= 4_294_967_295 ==> read_value(
            value,
            Shape::MaybeCode,
        ) == Ok::<FieldModel, Seq<char>>(
            FieldModel::MaybeCode(Some(value.whole()->Some_0 as u32)),
        ),
{
    if value is Array {
        let items = value->Array_0@;
        first_of_none(items, item_fault());
        assert forall|i: int| 0 <= i < items.len() implies (item_fault()(#[trigger] items[i])
            is None <==> items[i] is Text) by {}
        if first_of(items, item_fault()) is None {
            assert forall|i: int| 0 <= i < items.len() implies (#[trigger] items[i]) is Text by {
                assert(item_fault()(items[i]) is None);
            }
        }
    }
}

/// What does not fit is called by what it is, and by what was expected of it.
pub proof fn what_does_not_fit_is_told_why(value: Json, expected: Seq<char>)
    ensures
        wrong_type(value, expected) == "invalid type: "@ + unexpected(value) + ", expected "@
            + expected,
        wrong_value(value, expected) == "invalid value: "@ + unexpected(value) + ", expected "@
            + expected,
        value is Null ==> unexpected(value) == "null"@,
        value == Json::Bool(true) ==> unexpected(value) == "boolean `true`"@,
        value == Json::Bool(false) ==> unexpected(value) == "boolean `false`"@,
        value.whole() matches Some(n) ==> unexpected(value) == "integer `"@ + decimal(n as nat)
            + "`"@,
        value matches Json::Number(Number::Negative(n)) ==> unexpected(value) == "integer `"@
            + signed_decimal(n as int) + "`"@,
        value matches Json::Number(Number::Fraction(t)) ==> unexpected(value)
            == "floating point `"@ + t@ + "`"@,
        value.text() matches Some(s) ==> unexpected(value) == "string "@ + quoted_words(s),
        value is Array ==> unexpected(value) == "sequence"@,
        value is Object ==> unexpected(value) == "map"@,
        !(value is Text) ==> read_value(value, Shape::Text) == Err::<FieldModel, Seq<char>>(
            wrong_type(value, "a string"@),
        ),
        !(value is Text) && !(value is Null) ==> read_value(value, Shape::MaybeText) == Err::<
            FieldModel,
            Seq<char>,
        >(wrong_type(value, "a string"@)),
        !(value is Array) ==> read_value(value, Shape::List) == Err::<FieldModel, Seq<char>>(
            wrong_type(value, "a sequence"@),
        ),
        value.whole() matches Some(n) && n > 4_294_967_295 ==> read_value(value, Shape::MaybeCode)
            == Err::<FieldModel, Seq<char>>(wrong_value(value, "u32"@)),
        !(value is Null) && !(value is Number) ==> read_value(value, Shape::MaybeCode) == Err::<
            FieldModel,
            Seq<char>,
        >(wrong_type(value, "u32"@)),
{
}

/// An object reads exactly when every member that is a field fits it and no field is left
/// out but those that may be; each field is then read from its own member, and one left
/// out is nothing.
pub proof fn an_object_reads_by_its_members(
    members: Seq<(String, Json)>,
    fields: Seq<(Seq<char>, Shape)>,
)
    ensures
        read_members(members, fields) is Ok <==> {
            &&& forall|i: int|
                0 <= i < members.len() && shape_in(fields, (#[trigger] members[i]).0@) is Some
                    ==> read_value(
                    members[i].1,
                    shape_in(fields, members[i].0@)->Some_0,
                ) is Ok
            &&& forall|i: int|
                0 <= i < fields.len() ==> read_member(members, #[trigger] fields[i]) is Ok
        },
        read_members(members, fields) matches Ok(values) ==> {
            &&& values.len() == fields.len()
            &&& forall|i: int|
                0 <= i < fields.len() ==> Ok::<FieldModel, Seq<char>>(values[i]) == read_member(
                    members,
                    #[trigger] fields[i],
                )
        },
{
    let (mf, ff) = (member_fault(fields), field_fault(members));
    first_of_none(members, mf);
    first_of_none(fields, ff);
    assert forall|m: (String, Json)| (#[trigger] mf(m)) is None <==> (shape_in(fields, m.0@) is Some
        ==> read_value(m.1, shape_in(fields, m.0@)->Some_0) is Ok) by {}
    assert forall|f: (Seq<char>, Shape)| (#[trigger] ff(f)) is None <==> read_member(members, f)
        is Ok by {}
    if read_members(members, fields) is Ok {
        assert forall|i: int|
            0 <= i < members.len() && shape_in(fields, (#[trigger] members[i]).0@)
                is Some implies read_value(
            members[i].1,
            shape_in(fields, members[i].0@)->Some_0,
        ) is Ok by {
            assert(mf(members[i]) is None);
        }
        assert forall|i: int| 0 <= i < fields.len() implies read_member(
            members,
            #[trigger] fields[i],
        ) is Ok by {
            assert(ff(fields[i]) is None);
        }
    }
    if (forall|i: int|
        0 <= i < members.len() && shape_in(fields, (#[trigger] members[i]).0@) is Some
            ==> read_value(members[i].1, shape_in(fields, members[i].0@)->Some_0) is Ok) && (forall|
        i: int,
    | 0 <= i < fields.len() ==> read_member(members, #[trigger] fields[i]) is Ok) {
        assert forall|i: int| 0 <= i < members.len() implies mf(#[trigger] members[i]) is None by {
            if shape_in(fields, members[i].0@) is Some {
                assert(read_value(members[i].1, shape_in(fields, members[i].0@)->Some_0) is Ok);
            }
        }
        assert forall|i: int| 0 <= i < fields.len() implies ff(#[trigger] fields[i]) is None by {
            assert(read_member(members, fields[i]) is Ok);
        }
    }
}

/// A field is read from the member of its name. Only what may be missing may be left out.
pub proof fn a_field_is_read_from_its_member(
    members: Seq<(String, Json)>,
    name: Seq<char>,
    shape: Shape,
)
    ensures
        lookup(members, name) matches Some(value) ==> read_member(members, (name, shape))
            == read_value(value, shape),
        lookup(members, name) is None && shape is MaybeText ==> read_member(members, (name, shape))
            == Ok::<FieldModel, Seq<char>>(FieldModel::MaybeText(None)),
        lookup(members, name) is None && shape is MaybeCode ==> read_member(members, (name, shape))
            == Ok::<FieldModel, Seq<char>>(FieldModel::MaybeCode(None)),
        lookup(members, name) is None && (shape is Text || shape is List) ==> read_member(
            members,
            (name, shape),
        ) == Err::<FieldModel, Seq<char>>("missing field `"@ + name + "`"@),
{
}

/// What is read as an event is an object with a `hook`, or a list that begins with one;
/// the `hook` names one of the six kinds, and the event is of that kind.
pub proof fn an_event_is_read_by_its_hook(value: Json)
    ensures
        read_event(value) is Ok ==> value is Object || value is Array,
        !(value is Object) && !(value is Array) ==> read_event(value) == Err::<
            EventModel,
            Seq<char>,
        >(wrong_type(value, "internally tagged enum NotifyEvent"@)),
        value is Object && value.member("hook"@) is None ==> read_event(value) == Err::<
            EventModel,
            Seq<char>,
        >("missing field `hook`"@),
        value is Array && value->Array_0@.len() == 0 ==> read_event(value) == Err::<
            EventModel,
            Seq<char>,
        >("missing field `hook`"@),
        value is Object && read_event(value) is Ok ==> value.member("hook"@) is Some
            && value.member("hook"@)->Some_0.text() == Some(read_event(value)->Ok_0.kind)
            && all_kinds().contains(read_event(value)->Ok_0.kind),
        value is Array && read_event(value) is Ok ==> value->Array_0@.len() > 0
            && value->Array_0@[0].text() == Some(read_event(value)->Ok_0.kind)
            && all_kinds().contains(read_event(value)->Ok_0.kind),
{
    reveal_strlit("missing field `hook`");
    reveal_strlit("missing field `");
    reveal_strlit("hook");
    reveal_strlit("`");
    assert("missing field `"@ + "hook"@ + "`"@ =~= "missing field `hook`"@);
    if read_event(value) is Ok {
        the_six_kinds(read_event(value)->Ok_0.kind);
    }
}

/// A `hook` is taken exactly when it is a string that is one of the six kinds.
pub proof fn a_hook_is_one_of_the_six(value: Json)
    ensures
        read_kind(value) is Ok <==> value.text() is Some && all_kinds().contains(
            value.text()->Some_0,
        ),
        read_kind(value) matches Ok(kind) ==> value.text() == Some(kind),
        value.text() is None ==> read_kind(value) == Err::<Seq<char>, Seq<char>>(
            wrong_type(value, "variant identifier"@),
        ),
        value.text() is Some && !all_kinds().contains(value.text()->Some_0) ==> read_kind(value)
            == Err::<Seq<char>, Seq<char>>(
            "unknown variant `"@ + value.text()->Some_0
                + "`, expected one of `profile_mounted`, `account_created`, `account_deactivated`, `certificate_issued`, `certificate_revoked`, `challenge_failed`"@,
        ),
{
    if value is Text {
        the_six_kinds(value.text()->Some_0);
    }
}

/// A list reads exactly when it holds the kind and then each field in its place, each
/// fitting, and nothing more.
pub proof fn a_list_reads_by_place(
    kind: Seq<char>,
    items: Seq<Json>,
    fields: Seq<(Seq<char>, Shape)>,
)
    requires
        items.len() > 0,
    ensures
        read_elements(kind, items, fields) is Ok <==> items.len() == fields.len() + 1 && forall|
            i: int,
        | 0 <= i < fields.len() ==> read_value(items[i + 1], (#[trigger] fields[i]).1) is Ok,
        read_elements(kind, items, fields) matches Ok(values) ==> {
            &&& values.len() == fields.len()
            &&& forall|i: int|
                0 <= i < fields.len() ==> Ok::<FieldModel, Seq<char>>(values[i]) == read_value(
                    items[i + 1],
                    (#[trigger] fields[i]).1,
                )
        },
{
    let places = indices(fields.len());
    let fault = element_fault(kind, items, fields);
    first_of_none(places, fault);
    assert forall|i: int| 0 <= i < fields.len() implies (fault(#[trigger] places[i]) is None <==> i
        + 1 < items.len() && read_value(items[i + 1], fields[i].1) is Ok) by {
        assert(places[i] == i);
    }
    if read_elements(kind, items, fields) is Ok {
        assert forall|i: int| 0 <= i < fields.len() implies i + 1 < items.len() && read_value(
            items[i + 1],
            (#[trigger] fields[i]).1,
        ) is Ok by {
            assert(fault(places[i]) is None);
        }
        if fields.len() > 0 {
            let last = fields.len() - 1;
            assert(read_value(items[last + 1], fields[last].1) is Ok);
        }
    }
    if items.len() == fields.len() + 1 && forall|i: int|
        0 <= i < fields.len() ==> read_value(items[i + 1], (#[trigger] fields[i]).1) is Ok {
        assert forall|i: int| 0 <= i < places.len() implies fault(#[trigger] places[i]) is None by {
            assert(read_value(items[i + 1], fields[i].1) is Ok);
        }
    }
}

/// A list that does not read is told why: the first place that is missing, with what was
/// expected there, or that holds what does not fit; and else that there is too much.
pub proof fn a_list_is_told_of_by_place(
    kind: Seq<char>,
    items: Seq<Json>,
    fields: Seq<(Seq<char>, Shape)>,
    place: int,
)
    requires
        items.len() > 0,
        0 <= place <= fields.len(),
        place < items.len(),
        forall|i: int| 0 <= i < place ==> read_value(items[i + 1], (#[trigger] fields[i]).1) is Ok,
    ensures
        place < fields.len() && items.len() == place + 1 ==> read_elements(kind, items, fields)
            == Err::<Seq<FieldModel>, Seq<char>>(
            "invalid length "@ + decimal(place as nat) + ", expected struct "@ + data_name(kind)
                + " with "@ + elements(fields.len()),
        ),
        place < fields.len() && items.len() > place + 1 && read_value(
            items[place + 1],
            fields[place].1,
        ) is Err ==> read_elements(kind, items, fields) == Err::<Seq<FieldModel>, Seq<char>>(
            read_value(items[place + 1], fields[place].1)->Err_0,
        ),
        place == fields.len() && items.len() > fields.len() + 1 ==> read_elements(
            kind,
            items,
            fields,
        ) == Err::<Seq<FieldModel>, Seq<char>>(
            "invalid length "@ + decimal((items.len() - 1) as nat) + ", expected "@ + elements(
                fields.len(),
            ) + " in sequence"@,
        ),
{
    let places = indices(fields.len());
    let fault = element_fault(kind, items, fields);
    assert forall|i: int| 0 <= i < place implies fault(#[trigger] places[i]) is None by {
        assert(places[i] == i);
        assert(read_value(items[i + 1], fields[i].1) is Ok);
    }
    if place < fields.len() {
        assert(places[place] == place);
        if fault(places[place]) is Some {
            crate::faults::the_first_fault_decides(places, fault, place);
        }
    } else {
        first_of_none(places, fault);
    }
}

/// What the data of each kind is called, and how a number of elements reads.
pub proof fn data_and_elements_are_named(n: nat)
    ensures
        data_name("profile_mounted"@) == "ProfileMountedData"@,
        data_name("account_created"@) == "AccountCreatedData"@,
        data_name("account_deactivated"@) == "AccountDeactivatedData"@,
        data_name("certificate_issued"@) == "CertificateIssuedData"@,
        data_name("certificate_revoked"@) == "CertificateRevokedData"@,
        data_name("challenge_failed"@) == "ChallengeFailedData"@,
        elements(1) == "1 element"@,
        n != 1 ==> elements(n) == decimal(n) + " elements"@,
        indices(n).len() == n && forall|i: int| 0 <= i < n ==> #[trigger] indices(n)[i] == i,
{
    reveal_strlit("profile_mounted");
    reveal_strlit("account_created");
    reveal_strlit("account_deactivated");
    reveal_strlit("certificate_issued");
    reveal_strlit("certificate_revoked");
    reveal_strlit("challenge_failed");
    assert("challenge_failed"@[1] == 'h' && "profile_mounted"@[0] == 'p' && "account_created"@[0]
        == 'a' && "certificate_issued"@[1] == 'e');
    assert("certificate_revoked"@[0] == 'c' && "account_deactivated"@[0] == 'a');
    assert("account_created"@.len() != "account_deactivated"@.len());
    assert("certificate_issued"@.len() != "certificate_revoked"@.len());
}

/// What was read stands for itself: a field, several fields, an event, and the words of a
/// refusal.
pub proof fn what_was_read_stands_for_itself(
    field: EventField,
    values: Vec<EventField>,
    event: NotifyEvent,
    fault: String,
    list: Seq<(&'static str, Shape)>,
)
    ensures
        read_model(Ok(field)) == Ok::<FieldModel, Seq<char>>(field@),
        read_model(Err(fault)) == Err::<FieldModel, Seq<char>>(fault@),
        read_models(Ok(values)) == Ok::<Seq<FieldModel>, Seq<char>>(values_of(values@)),
        read_models(Err(fault)) == Err::<Seq<FieldModel>, Seq<char>>(fault@),
        event_model(Ok(event)) == Ok::<EventModel, Seq<char>>(event@),
        event_model(Err(fault)) == Err::<EventModel, Seq<char>>(fault@),
        values_of(values@).len() == values@.len(),
        forall|i: int| 0 <= i < values@.len() ==> #[trigger] values_of(values@)[i] == values@[i]@,
        shapes(list).len() == list.len(),
        forall|i: int| 0 <= i < list.len() ==> #[trigger] shapes(list)[i] == (list[i].0@, list[i].1),
{
}

} // verus!
