//! Addresses, as the `url` crate reads them.

use crate::errors::Failure;
use vstd::prelude::*;

verus! {

/// The error of `url` on reading an address, carried through unread.
#[verifier::external_type_specification]
#[verifier::external_body]
pub struct ExUrlError(url::ParseError);

/// The address that `url` reads from `input`, in the form in which `url`
/// writes it; none where `url` does not take `input` for an absolute address.
pub uninterp spec fn parsed_url(input: Seq<char>) -> Option<Seq<char>>;

/// The address that `url` reads from `reference` taken relative to the
/// address `base`, in the form in which `url` writes it; none where `base` is
/// no absolute address or `url` makes no address of the two.
pub uninterp spec fn joined_url(base: Seq<char>, reference: Seq<char>) -> Option<Seq<char>>;

/// `url::Url::parse`, with the address handed back as the text that `url`
/// holds for it.
#[verifier::external_body]
fn parse_url(input: &str) -> (r: Result<String, url::ParseError>)
    ensures
        match r {
            Ok(address) => parsed_url(input@) == Some(address@),
            Err(_) => parsed_url(input@) is None,
        },
{
    url::Url::parse(input).map(String::from)
}

/// `url::Url::join` on the address that `url::Url::parse` reads from `base`,
/// with the address handed back as the text that `url` holds for it.
#[verifier::external_body]
fn join_url(base: &str, reference: &str) -> (r: Result<String, url::ParseError>)
    ensures
        match r {
            Ok(address) => joined_url(base@, reference@) == Some(address@),
            Err(_) => joined_url(base@, reference@) is None,
        },
{
    url::Url::parse(base)?.join(reference).map(String::from)
}

/// Reads an absolute address from `input` and hands it back as `url` writes
/// it. It fails where `url` does not take `input` for an absolute address.
pub fn parse_address(input: &str) -> (r: Result<String, Failure>)
    ensures
        match parsed_url(input@) {
            Some(address) => r matches Ok(url) && url@ == address,
            None => r matches Err(failure) && failure is Url,
        },
{
    match parse_url(input) {
        Ok(url) => Ok(url),
        Err(error) => Err(Failure::Url(error)),
    }
}

/// Reads an address from `reference` taken relative to the address `base`
/// and hands it back as `url` writes it. It fails where `base` is no absolute
/// address or `url` makes no address of the two.
pub fn join_address(base: &str, reference: &str) -> (r: Result<String, Failure>)
    ensures
        match joined_url(base@, reference@) {
            Some(address) => r matches Ok(url) && url@ == address,
            None => r matches Err(failure) && failure is Url,
        },
{
    match join_url(base, reference) {
        Ok(url) => Ok(url),
        Err(error) => Err(Failure::Url(error)),
    }
}

} // verus!
