//! URLs as text: what the `url` crate makes of a text, and of an identifier
//! joined onto a base.

use vstd::prelude::*;
use url::Url;

verus! {

/// The error type of the `url` crate.
#[verifier::external_type_specification]
#[verifier::external_body]
pub struct ExParseError(url::ParseError);

/// What `url::Url::parse` makes of `text`: the URL in its serialized form, or
/// `None` where `text` is no absolute URL.
pub uninterp spec fn url_parse(text: Seq<char>) -> Option<Seq<char>>;

/// What `url::Url::join` gives for the URL that `base` parses to and the
/// reference `reference`: the joined URL in its serialized form, or `None`
/// where `base` is no URL or the join fails.
pub uninterp spec fn url_join(base: Seq<char>, reference: Seq<char>) -> Option<Seq<char>>;

/// Calls `url::Url::parse` on `text` and gives the URL in its serialized form
/// (`Url::as_str`). Claimed of it: the outcome depends on `text` alone, so it
/// is named `url_parse`; an error comes back as it is.
#[verifier::external_body]
pub(crate) fn parse_url(text: &str) -> (parsed: Result<String, url::ParseError>)
    ensures
        match parsed {
            Ok(serialized) => url_parse(text@) == Some(serialized@),
            Err(_) => url_parse(text@) is None,
        },
{
    match Url::parse(text) {
        Ok(url) => Ok(url.as_str().to_string()),
        Err(error) => Err(error),
    }
}

/// Calls `url::Url::parse` on `base` and `url::Url::join` on the result with
/// `reference`, and gives the joined URL in its serialized form
/// (`Url::as_str`). Claimed of it: the outcome depends on the two texts alone,
/// so it is named `url_join`; an error of either call comes back as it is.
#[verifier::external_body]
pub(crate) fn join_url(base: &str, reference: &str) -> (joined: Result<String, url::ParseError>)
    ensures
        match joined {
            Ok(serialized) => url_join(base@, reference@) == Some(serialized@),
            Err(_) => url_join(base@, reference@) is None,
        },
{
    match Url::parse(base) {
        Ok(parsed) => match parsed.join(reference) {
            Ok(url) => Ok(url.as_str().to_string()),
            Err(error) => Err(error),
        },
        Err(error) => Err(error),
    }
}

/// Calls `to_string` on an error of the `url` crate, which gives its
/// description. Nothing is claimed of the text.
#[verifier::external_body]
pub(crate) fn parse_error_text(error: &url::ParseError) -> (text: String) {
    error.to_string()
}

} // verus!
