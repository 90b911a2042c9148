//! Values that are never shown unless they are explicitly exposed.

use core::str::FromStr;
use secrecy::ExposeSecret;
use secrecy::Secret;
use vstd::prelude::*;
use zksync_basic_types::url::SensitiveUrl;

verus! {

/// A secret text, kept in a `secrecy::Secret`. It is zeroed when dropped, its
/// `Debug` output is redacted, and the only way to the raw text is
/// [`SensitiveString::expose`].
///
/// The verifier cannot be told of `Secret` itself, whose parameter is bound
/// by a trait of its crate, so it does not look into this struct: what the
/// secret holds is known to it as [`secret_text`] only.
#[verifier::external_body]
#[derive(Debug)]
pub struct SensitiveString {
    inner: Secret<String>,
}

/// The text that a secret holds.
pub uninterp spec fn secret_text(s: SensitiveString) -> Seq<char>;

/// `secrecy::Secret::new`: the new secret holds exactly the given text.
#[verifier::external_body]
fn secret_new(text: String) -> (s: SensitiveString)
    ensures
        secret_text(s) == text@,
{
    SensitiveString { inner: Secret::new(text) }
}

/// `secrecy::ExposeSecret::expose_secret`: hands out the text that the secret
/// holds.
#[verifier::external_body]
fn secret_expose(s: &SensitiveString) -> (text: &String)
    ensures
        text@ == secret_text(*s),
{
    s.inner.expose_secret()
}

/// `Clone` of `secrecy::Secret`: the copy holds the same text.
#[verifier::external_body]
fn secret_clone(s: &SensitiveString) -> (copy: SensitiveString)
    ensures
        secret_text(copy) == secret_text(*s),
{
    SensitiveString { inner: s.inner.clone() }
}

impl View for SensitiveString {
    type V = Seq<char>;

    open spec fn view(&self) -> Seq<char> {
        secret_text(*self)
    }
}

impl SensitiveString {
    /// Wraps `text`.
    pub fn new(text: String) -> (s: Self)
        ensures
            s@ == text@,
    {
        secret_new(text)
    }

    /// The raw text.
    pub fn expose(&self) -> (text: &String)
        ensures
            text@ == self@,
    {
        secret_expose(self)
    }

    /// Whether two secrets hold the same text.
    pub fn same_text(&self, other: &Self) -> (same: bool)
        ensures
            same == (self@ == other@),
    {
        *self.expose() == *other.expose()
    }
}

impl PartialEq for SensitiveString {
    fn eq(&self, other: &Self) -> (same: bool) {
        self.same_text(other)
    }
}

impl vstd::std_specs::cmp::PartialEqSpecImpl for SensitiveString {
    open spec fn obeys_eq_spec() -> bool {
        true
    }

    open spec fn eq_spec(&self, other: &Self) -> bool {
        self@ == other@
    }
}

impl Clone for SensitiveString {
    fn clone(&self) -> (copy: Self)
        ensures
            copy@ == self@,
    {
        secret_clone(self)
    }
}

/// `zksync_basic_types::url::SensitiveUrl`: a URL whose `Debug` output hides
/// the user name and the password.
#[verifier::external_type_specification]
#[verifier::external_body]
pub struct ExSensitiveUrl(SensitiveUrl);

/// `Clone` of `SensitiveUrl`, which the type derives: the copy is the same
/// URL.
pub assume_specification[ <SensitiveUrl as Clone>::clone ](url: &SensitiveUrl) -> (copy:
    SensitiveUrl)
    ensures
        copy == *url,
;

/// The serialization of the URL that a `SensitiveUrl` holds.
pub uninterp spec fn url_text(url: SensitiveUrl) -> Seq<char>;

/// The serialization of the URL that `text` parses to, if it parses.
pub uninterp spec fn parsed_url_text(text: Seq<char>) -> Option<Seq<char>>;

/// `SensitiveUrl::from_str`: parses `text` as a URL; `None` where the parser
/// rejects it.
#[verifier::external_body]
fn url_from_str(text: &str) -> (parsed: Option<SensitiveUrl>)
    ensures
        match parsed {
            Some(url) => parsed_url_text(text@) == Some(url_text(url)),
            None => parsed_url_text(text@) is None,
        },
{
    SensitiveUrl::from_str(text).ok()
}

/// `SensitiveUrl::expose_str`: the serialization of the URL. Parsing it again
/// gives the same serialization, which the `url` crate keeps as an invariant
/// of every URL.
#[verifier::external_body]
fn url_expose_str(url: &SensitiveUrl) -> (text: &str)
    ensures
        text@ == url_text(*url),
        parsed_url_text(text@) == Some(text@),
{
    url.expose_str()
}

/// Parses `text` as a URL; `None` where it is none.
pub fn parse_url(text: &str) -> (parsed: Option<SensitiveUrl>)
    ensures
        match parsed {
            Some(url) => parsed_url_text(text@) == Some(url_text(url)),
            None => parsed_url_text(text@) is None,
        },
{
    url_from_str(text)
}

/// The serialization of `url`, which is in normal form: parsing it again
/// gives the same text.
pub fn expose_url_str(url: &SensitiveUrl) -> (text: &str)
    ensures
        text@ == url_text(*url),
        parsed_url_text(text@) == Some(text@),
{
    url_expose_str(url)
}

} // verus!
