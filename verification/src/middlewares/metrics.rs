//! Counts one served request.

use crate::metrics::{count_in, once_more, path_labels, split_matched_path, Counters, Metrics};
use crate::text::decimal;
use vstd::prelude::*;

verus! {

/// The characters of an optional text.
pub open spec fn matched_text(matched: Option<&str>) -> Option<Seq<char>> {
    match matched {
        Some(path) => Some(path@),
        None => None,
    }
}

/// The label values that a request is counted under.
pub open spec fn request_key(matched: Option<Seq<char>>, status: u16) -> Seq<Seq<char>> {
    seq![path_labels(matched).0, path_labels(matched).1, decimal(status as nat)]
}

/// Counts one served request under the route pattern it matched. A counter that
/// is at its end stays there.
pub fn record_request(metrics: &mut Metrics, matched: Option<&str>, status: u16)
    ensures
        final(metrics)@ == if count_in(
            old(metrics)@.requests,
            request_key(matched_text(matched), status),
        ) < u64::MAX {
            Counters {
                requests: once_more(
                    old(metrics)@.requests,
                    request_key(matched_text(matched), status),
                ),
                ..old(metrics)@
            }
        } else {
            old(metrics)@
        },
{
    let (profile, route) = split_matched_path(matched);
    if metrics.requests_counted(profile.as_str(), route.as_str(), status) < u64::MAX {
        metrics.record_request(profile.as_str(), route.as_str(), status);
    }
}

/// A request is counted under three labels: the profile, the route and the status
/// in decimal.
pub proof fn a_request_is_counted_under_three_labels(matched: Option<Seq<char>>, status: u16)
    ensures
        request_key(matched, status).len() == 3,
        request_key(matched, status)[0] == path_labels(matched).0,
        request_key(matched, status)[1] == path_labels(matched).1,
        request_key(matched, status)[2] == decimal(status as nat),
{
}

/// A matched path is its text.
pub proof fn a_matched_path_is_its_text(path: &str)
    ensures
        matched_text(Some(path)) == Some(path@),
        matched_text(None) is None,
{
}

} // verus!
