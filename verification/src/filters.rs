//! The filters that templates can use on top of the built-in ones.

use vstd::prelude::*;
use vstd::string::StringExecFns;

verus! {

/// The HTML that `pulldown_cmark` renders the Markdown text `text` to, with
/// all of its extensions switched on.
pub uninterp spec fn markdown_html(text: Seq<char>) -> Seq<char>;

/// `pulldown_cmark::Parser::new_ext` with all options, rendered by
/// `pulldown_cmark::html::push_html` into a string of its own.
#[verifier::external_body]
fn render_markdown(text: &str) -> (html: String)
    ensures
        html@ == markdown_html(text@),
{
    let parser = pulldown_cmark::Parser::new_ext(text, pulldown_cmark::Options::all());
    let mut output = String::new();
    pulldown_cmark::html::push_html(&mut output, parser);
    output
}

/// What the `markdown` filter says of a value that is no string.
pub open spec fn not_a_string() -> Seq<char> {
    "Expected the incoming value to be a string"@
}

/// The `markdown` filter: renders a value that is a string, taken as
/// Markdown, to HTML. `value` is the string that the incoming value is, or
/// nothing where it is no string, which the filter refuses.
pub fn markdown(value: Option<&str>) -> (r: Result<String, String>)
    ensures
        match value {
            Some(text) => r matches Ok(html) && html@ == markdown_html(text@),
            None => r matches Err(message) && message@ == not_a_string(),
        },
{
    match value {
        Some(text) => Ok(render_markdown(text)),
        None => Err(String::from_str("Expected the incoming value to be a string")),
    }
}

} // verus!
