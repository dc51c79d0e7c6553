//! Web addresses that a plugin shows to people.

use vstd::prelude::*;

use crate::text::{same, text_of};

verus! {

/// What an address is judged by.
pub struct UrlFacts {
    pub scheme: String,
    pub host: Option<String>,
    pub username: String,
    pub password: Option<String>,
}

/// What an address is judged by, as mathematical values.
pub struct UrlView {
    pub scheme: Seq<char>,
    pub host: Option<Seq<char>>,
    pub username: Seq<char>,
    pub password: Option<Seq<char>>,
}

impl View for UrlFacts {
    type V = UrlView;

    open spec fn view(&self) -> UrlView {
        UrlView {
            scheme: self.scheme@,
            host: text_of(self.host),
            username: self.username@,
            password: text_of(self.password),
        }
    }
}

/// The parts of the address that a text holds.
pub uninterp spec fn parsed_url(text: Seq<char>) -> Option<UrlView>;

/// Calls `url::Url::parse` and takes the scheme, the host, the user name and the password; what it
/// reads is named [`parsed_url`].
#[verifier::external_body]
fn parse_url(text: &str) -> (facts: Option<UrlFacts>)
    ensures
        facts is Some == parsed_url(text@) is Some,
        facts matches Some(f) ==> parsed_url(text@) == Some(f@),
{
    url::Url::parse(text).ok().map(|url| UrlFacts {
        scheme: url.scheme().to_owned(),
        host: url.host_str().map(str::to_owned),
        username: url.username().to_owned(),
        password: url.password().map(str::to_owned),
    })
}

/// The parts of a web address that leads to a host and carries no login.
pub open spec fn is_plain_web_url(url: UrlView) -> bool {
    (url.scheme == "http"@ || url.scheme == "https"@) && url.host is Some && url.username.len()
        == 0 && url.password is None
}

/// A text that holds a web address which leads to a host and carries no login.
pub open spec fn is_web_address(text: Seq<char>) -> bool {
    match parsed_url(text) {
        Some(url) => is_plain_web_url(url),
        None => false,
    }
}

/// Whether the parts of an address are those of a web address without a login.
pub fn plain_web_url(facts: &UrlFacts) -> (r: bool)
    ensures
        r == is_plain_web_url(facts@),
{
    (same(facts.scheme.as_str(), "http") || same(facts.scheme.as_str(), "https"))
        && facts.host.is_some() && facts.username.as_str().is_empty() && facts.password.is_none()
}

/// Whether a text holds a web address without a login.
pub fn web_address(text: &str) -> (r: bool)
    ensures
        r == is_web_address(text@),
{
    match parse_url(text) {
        Some(facts) => plain_web_url(&facts),
        None => false,
    }
}

/// People are shown only addresses of the web, in the open or secured, that lead to a host and carry
/// neither a name nor a password.
pub proof fn shown_addresses(text: Seq<char>)
    ensures
        is_web_address(text) <==> {
            let url = parsed_url(text);
            &&& url is Some
            &&& url->0.scheme == "http"@ || url->0.scheme == "https"@
            &&& url->0.host is Some
            &&& url->0.username.len() == 0
            &&& url->0.password is None
        },
{
}

} // verus!
