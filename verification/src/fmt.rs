//! The external formatting collaborator: the emitted token stream is handed
//! to a formatter that returns canonically indented text, or an error where
//! the stream is not syntactically valid target-language code.

use vstd::prelude::*;

use rust_format::Formatter;

verus! {

/// What the external formatter returns on a given text: the canonically
/// formatted text, or nothing where the text does not parse as
/// target-language code. The result depends on the characters alone.
pub uninterp spec fn formatted_of(s: Seq<char>) -> Option<Seq<char>>;

/// Relies on rust_format's `PrettyPlease::format_str`: it parses the source
/// text and pretty-prints the syntax tree, a pure function of the text; on a
/// text that does not parse it returns an error, whose message this wrapper
/// renders.
#[verifier::external_body]
pub(crate) fn format_source(src: &String) -> (r: Result<String, String>)
    ensures
        r is Ok <==> formatted_of(src@) is Some,
        r is Ok ==> formatted_of(src@) == Some(r->Ok_0@),
{
    match rust_format::PrettyPlease::default().format_str(src.as_str()) {
        Ok(t) => Ok(t),
        Err(e) => Err(e.to_string()),
    }
}

} // verus!
