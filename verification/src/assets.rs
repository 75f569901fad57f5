//! The addresses of the assets of an HTML page: which attributes hold one,
//! and what becomes of a relative one under a base address.

use crate::address::{join_address, joined_url, parse_address, parsed_url};
use crate::errors::Failure;
use crate::text::same;
use vstd::prelude::*;

verus! {

/// The name of the attribute that holds the address of the asset of an
/// element named `element`, for the elements that have one: `src` for a
/// `script` and for an `img`, `href` for a `link`.
pub open spec fn asset_attribute_of(element: Seq<char>) -> Option<Seq<char>> {
    if element == "script"@ || element == "img"@ {
        Some("src"@)
    } else if element == "link"@ {
        Some("href"@)
    } else {
        None
    }
}

/// The name of the attribute that holds the address of the asset of an
/// element named `element`, if such an element has one.
pub fn asset_attribute(element: &str) -> (attribute: Option<&'static str>)
    ensures
        match asset_attribute_of(element@) {
            Some(name) => attribute matches Some(found) && found@ == name,
            None => attribute is None,
        },
{
    if same(element, "script") || same(element, "img") {
        Some("src")
    } else if same(element, "link") {
        Some("href")
    } else {
        None
    }
}

/// What the value `attribute_value` of an attribute that holds an address
/// becomes under the base address `base_url`: nothing new where the value is
/// an absolute address already, else the value taken relative to the base.
/// It fails where the value is not absolute and no address comes of the value
/// and the base.
pub fn prepend_base_url(base_url: &str, attribute_value: &str) -> (r: Result<
    Option<String>,
    Failure,
>)
    ensures
        match parsed_url(attribute_value@) {
            Some(_) => r matches Ok(None),
            None => match joined_url(base_url@, attribute_value@) {
                Some(address) => r matches Ok(Some(url)) && url@ == address,
                None => r matches Err(failure) && failure is Url,
            },
        },
{
    match parse_address(attribute_value) {
        Ok(_) => Ok(None),
        Err(_) => match join_address(base_url, attribute_value) {
            Ok(url) => Ok(Some(url)),
            Err(failure) => Err(failure),
        },
    }
}

} // verus!
