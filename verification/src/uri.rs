//! What this crate takes on trust from the `url` crate.
//!
//! Nothing here is proved. Each item gives a name to what one function of
//! `url` returns, so that contracts elsewhere can speak of it.

use vstd::prelude::*;
use url::Url;

verus! {

/// `url::Url`, a parsed URL. Its contents are not visible to proofs.
#[verifier::external_type_specification]
#[verifier::external_body]
pub struct ExUrl(url::Url);

/// `url::ParseError`, the reason why a text is no URL.
#[verifier::external_type_specification]
#[verifier::external_body]
pub struct ExUrlParseError(url::ParseError);

/// What `Url::parse` returns for `input`.
pub uninterp spec fn url_parse(input: Seq<char>) -> Result<Url, url::ParseError>;

/// What `Url::host_str` returns for `url`.
pub uninterp spec fn url_host_str(url: Url) -> Option<Seq<char>>;

/// What `Url::port_or_known_default` returns for `url`.
pub uninterp spec fn url_port_or_known_default(url: Url) -> Option<u16>;

/// `Url::parse` reads an absolute URL from a text. Its result depends on the
/// text alone; this is all that is claimed here.
pub assume_specification[ Url::parse ](input: &str) -> (r: Result<Url, url::ParseError>)
    ensures
        r == url_parse(input@),
;

/// `Url::host_str` gives the host of a URL as it is written in the URL's
/// serialization, or nothing where the URL has no host.
pub assume_specification<'a>[ Url::host_str ](url: &'a Url) -> (r: Option<&'a str>)
    ensures
        match r {
            Some(host) => url_host_str(*url) == Some(host@),
            None => url_host_str(*url) is None,
        },
;

/// `Url::port_or_known_default` gives the port written in a URL or, without
/// one, the default port of the URL's scheme where it knows one.
pub assume_specification[ Url::port_or_known_default ](url: &Url) -> (r: Option<u16>)
    ensures
        r == url_port_or_known_default(*url),
;

} // verus!
