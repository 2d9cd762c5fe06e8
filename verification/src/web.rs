//! URLs and HTTP statuses.

use vstd::prelude::*;
use vstd::string::*;

verus! {

/// What `url::Url::parse` makes of a text: the serialization, the scheme and the
/// host of the URL, or the reason there is none.
pub uninterp spec fn url_parsed(input: Seq<char>) -> Result<UrlModel, Seq<char>>;

/// A URL as far as it is looked into.
#[derive(Debug, Clone, PartialEq, Eq)]
pub struct WebUrl {
    /// The whole URL, serialized.
    pub text: String,
    pub scheme: String,
    pub host: Option<String>,
}

/// A URL, in terms of sequences.
pub struct UrlModel {
    pub text: Seq<char>,
    pub scheme: Seq<char>,
    pub host: Option<Seq<char>>,
}

impl View for WebUrl {
    type V = UrlModel;

    open spec fn view(&self) -> UrlModel {
        UrlModel {
            text: self.text@,
            scheme: self.scheme@,
            host: match self.host {
                Some(host) => Some(host@),
                None => None,
            },
        }
    }
}

/// `url::Url::parse`: a function of the text alone, which the name
/// `url_parsed` stands for.
#[verifier::external_body]
pub(crate) fn parse_url(input: &str) -> (r: Result<WebUrl, String>)
    ensures
        match r {
            Ok(url) => url_parsed(input@) == Ok::<UrlModel, Seq<char>>(url@),
            Err(e) => url_parsed(input@) == Err::<UrlModel, Seq<char>>(e@),
        },
{
    match url::Url::parse(input) {
        Ok(url) => Ok(
            WebUrl {
                text: url.as_str().to_owned(),
                scheme: url.scheme().to_owned(),
                host: url.host_str().map(|host| host.to_owned()),
            },
        ),
        Err(error) => Err(error.to_string()),
    }
}

/// A status code with its reason phrase, as `hyper::StatusCode` is displayed.
pub uninterp spec fn status_line(code: u16) -> Seq<char>;

/// The display form of `hyper::StatusCode`, which the name `status_line` stands
/// for. A code is a number from 100 to 999.
#[verifier::external_body]
pub(crate) fn status_text(code: u16) -> (r: String)
    requires
        100 <= code <= 999,
    ensures
        r@ == status_line(code),
{
    match hyper::StatusCode::from_u16(code) {
        Ok(status) => status.to_string(),
        Err(error) => error.to_string(),
    }
}

/// Whether a status says that the request succeeded.
pub open spec fn is_success(status: u16) -> bool {
    200 <= status < 300
}

/// A success is a status from 200 to 299.
pub proof fn success_is_the_two_hundreds(status: u16)
    ensures
        is_success(status) <==> status / 100 == 2,
{
}

} // verus!
