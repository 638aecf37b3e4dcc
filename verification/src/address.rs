//! Addresses: parsing and resolving references against a base, done by the
//! `url` crate.

use vstd::prelude::*;

verus! {

/// The serialisation of the address that `url::Url::parse` reads from a text,
/// or `None` where it reads none.
pub uninterp spec fn url_parse(text: Seq<char>) -> Option<Seq<char>>;

/// The serialisation of the address that `url::Url::join` gives for a
/// reference against a base, or `None` where the base does not parse or the
/// reference cannot be resolved.
pub uninterp spec fn url_join(base: Seq<char>, reference: Seq<char>) -> Option<Seq<char>>;

/// Calls `url::Url::parse` and hands back the parsed address in its
/// serialised form. Nothing is claimed beyond the result being the one
/// that the parser gives for this text.
#[verifier::external_body]
pub(crate) fn parse_url(text: &str) -> (r: Option<String>)
    ensures
        r is Some == url_parse(text@) is Some,
        r is Some ==> r->0@ == url_parse(text@)->0,
{
    match url::Url::parse(text) {
        Ok(u) => Some(String::from(u)),
        Err(_) => None,
    }
}

/// Calls `url::Url::join` on the base address with the given reference and
/// hands back the resolved address in its serialised form.
#[verifier::external_body]
pub(crate) fn join_url(base: &str, reference: &str) -> (r: Option<String>)
    ensures
        r is Some == url_join(base@, reference@) is Some,
        r is Some ==> r->0@ == url_join(base@, reference@)->0,
{
    match url::Url::parse(base) {
        Ok(b) => match b.join(reference) {
            Ok(u) => Some(String::from(u)),
            Err(_) => None,
        },
        Err(_) => None,
    }
}

/// The serialisation of an address once `url::Url::set_path` has emptied
/// its path, or `None` where the text does not parse.
pub uninterp spec fn url_base(text: Seq<char>) -> Option<Seq<char>>;

/// Parses the address with `url::Url::parse`, empties its path with
/// `url::Url::set_path` and hands back the serialised form.
#[verifier::external_body]
pub(crate) fn base_of_url(text: &str) -> (r: Option<String>)
    ensures
        r is Some == url_base(text@) is Some,
        r is Some ==> r->0@ == url_base(text@)->0,
{
    match url::Url::parse(text) {
        Ok(mut u) => {
            u.set_path("");
            Some(String::from(u))
        },
        Err(_) => None,
    }
}

} // verus!
