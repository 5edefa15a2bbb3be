//! The translation pipeline: extract the recognized declarations from the
//! input module, build and populate the intermediate program representation,
//! serialize it, and hand the text to the external formatter.
//!
//! Every error aborts the whole translation; no text is produced on failure.

use vstd::prelude::*;

use crate::emit::{emit, emit_spec};
use crate::extract::{extract, run_extract, StateV};
use crate::fmt::{format_source, formatted_of};
use crate::ipr::{ErrorV, ProgramV, TranspileError};
use crate::model::{InputModule, ModuleItem};
use crate::populate::{build_program, build_spec};

verus! {

/// What translating a module yields: the formatted target-language text,
/// or the first failure in extraction order, a missing program class, the
/// first failure in population order, or a formatting failure.
pub open spec fn transpile_spec(items: Seq<ModuleItem>) -> Result<Seq<char>, ErrorV> {
    match run_extract(items) {
        Err(e) => Err(e),
        Ok(st) => match build_spec(st) {
            Err(e) => Err(e),
            Ok(p) => match formatted_of(emit_spec(p)) {
                Some(t) => Ok(t),
                None => Err(ErrorV::FormatFailure),
            },
        },
    }
}

/// Translate a parsed input module into formatted target-language source
/// text. On any failure no text is produced: the caller writes the result
/// to its destination only on success.
pub fn transpile(module: InputModule) -> (r: Result<String, TranspileError>)
    ensures
        match r {
            Ok(t) => transpile_spec(module.body@) == Ok::<_, ErrorV>(t@),
            Err(e) => transpile_spec(module.body@) == Err::<Seq<char>, _>(e@),
        },
{
    let ex = match extract(module) {
        Ok(x) => x,
        Err(e) => {
            return Err(e);
        },
    };
    let p = match build_program(ex) {
        Ok(x) => x,
        Err(e) => {
            return Err(e);
        },
    };
    let text = emit(&p);
    match format_source(&text) {
        Ok(t) => Ok(t),
        Err(m) => Err(TranspileError::FormatFailure(m)),
    }
}

} // verus!
