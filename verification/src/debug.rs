//! Values as `std` prints them for debugging.

use crate::text::{cat3, join, joined, texts, texts_push};
use crate::time::Duration;
use vstd::prelude::*;
use vstd::string::*;

verus! {

/// A text in double quotes, escaped as `std` prints it for debugging.
pub uninterp spec fn quoted_words(s: Seq<char>) -> Seq<char>;

/// The `Debug` form of a `str`: a function of the text, which the name
/// `quoted_words` stands for.
#[verifier::external_body]
pub(crate) fn quoted(s: &str) -> (r: String)
    ensures
        r@ == quoted_words(s@),
{
    format!("{:?}", s)
}

/// A span of so many seconds and nanoseconds as `std` prints it for debugging:
/// `1.5s`, `100ms`.
pub uninterp spec fn span_words(secs: u64, nanos: u32) -> Seq<char>;

/// The `Debug` form of a `std::time::Duration`: a function of its seconds and of
/// the nanoseconds beyond them, which the name `span_words` stands for.
/// `Duration::new` panics where a whole second of nanoseconds is one too many.
#[verifier::external_body]
fn span_text(secs: u64, nanos: u32) -> (r: String)
    requires
        nanos < 1_000_000_000,
    ensures
        r@ == span_words(secs, nanos),
{
    format!("{:?}", std::time::Duration::new(secs, nanos))
}

/// A span, given in nanoseconds, as it is printed.
pub open spec fn span_of(span: nat) -> Seq<char> {
    span_words((span / 1_000_000_000) as u64, (span % 1_000_000_000) as u32)
}

/// A span as it is printed.
pub fn span(d: Duration) -> (r: String)
    ensures
        r@ == span_of(d@),
{
    let nanos: u128 = d.as_nanos();
    span_text(d.as_secs(), (nanos % 1_000_000_000) as u32)
}

/// A list of texts as it is printed.
pub open spec fn list_of(items: Seq<Seq<char>>) -> Seq<char> {
    "["@ + joined(items.map_values(|item: Seq<char>| quoted_words(item)), ", "@) + "]"@
}

/// A list of texts as it is printed.
pub fn list(items: &Vec<String>) -> (r: String)
    ensures
        r@ == list_of(texts(items@)),
{
    let ghost all = texts(items@).map_values(|item: Seq<char>| quoted_words(item));
    let mut parts: Vec<String> = Vec::new();
    let mut i: usize = 0;
    assert(texts(parts@) == all.take(0));
    while i < items.len()
        invariant
            i <= items@.len(),
            all == texts(items@).map_values(|item: Seq<char>| quoted_words(item)),
            texts(parts@) == all.take(i as int),
        decreases items@.len() - i,
    {
        let one = quoted(items[i].as_str());
        proof {
            texts_push(parts@, one);
            assert(all.take(i as int + 1) == all.take(i as int).push(one@));
        }
        parts.push(one);
        i += 1;
    }
    assert(all.take(i as int) == all);
    cat3("[", join(&parts, ", ").as_str(), "]")
}

/// A text that may be missing, as it is printed.
pub open spec fn maybe_of(item: Option<Seq<char>>) -> Seq<char> {
    match item {
        Some(text) => "Some("@ + quoted_words(text) + ")"@,
        None => "None"@,
    }
}

/// A text that may be missing, as it is printed.
pub fn maybe(item: &Option<String>) -> (r: String)
    ensures
        r@ == maybe_of(match item {
            Some(text) => Some(text@),
            None => None,
        }),
{
    match item {
        Some(text) => cat3("Some(", quoted(text.as_str()).as_str(), ")"),
        None => "None".to_owned(),
    }
}

/// A list is printed with each of its members in quotes, in order, with a comma between
/// each two; a missing text by its name, and one that is there in quotes.
pub proof fn members_are_printed_in_quotes(items: Seq<Seq<char>>, text: Seq<char>)
    ensures
        list_of(items) == "["@ + joined(
            Seq::new(items.len(), |i: int| quoted_words(items[i])),
            ", "@,
        ) + "]"@,
        maybe_of(Some(text)) == "Some("@ + quoted_words(text) + ")"@,
        maybe_of(None) == "None"@,
{
    assert(items.map_values(|item: Seq<char>| quoted_words(item)) =~= Seq::new(
        items.len(),
        |i: int| quoted_words(items[i]),
    ));
}

/// A span is printed by its seconds and the nanoseconds beyond them.
pub proof fn a_span_is_printed_by_its_parts(secs: u64, nanos: u32)
    requires
        nanos < 1_000_000_000,
    ensures
        span_of((secs * 1_000_000_000 + nanos) as nat) == span_words(secs, nanos),
{
    let n = (secs * 1_000_000_000 + nanos) as nat;
    assert(n / 1_000_000_000 == secs && n % 1_000_000_000 == nanos);
}

} // verus!
