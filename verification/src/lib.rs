//! Attribute-style function rewriting: parse a directive's token sequence
//! into an external command name, then rewrite the annotated function so that
//! its original body runs only when that command can actually be launched on
//! the host at run time.
//!
//! The whole library is one transformation, applied once per directive
//! occurrence: the directive parser ([`directive`]) reduces the directive's
//! argument tokens to a command name, and the function rewriter ([`rewrite`])
//! emits a new function with the same attributes and signature whose body
//! guards the original body behind a runtime probe of that command.  The
//! guard's runtime behaviour is modelled in [`guard`].  Nothing persists
//! across invocations; each expansion maps two immutable inputs to one
//! immutable output.

use vstd::prelude::*;

pub mod directive;
pub mod guard;
pub mod rewrite;

use crate::directive::{
    all_supported, command_name_of, parse_command_name, token_supported, token_text,
    DirectiveError, DirectiveToken,
};
use crate::rewrite::{generate_guarded, generated_source, FunctionParts};

verus! {

/// The whole transformation: parse the directive's tokens into a command
/// name, then emit the guarded rewrite of the annotated function.
///
/// Succeeds exactly when every directive token is supported; the result is
/// then the generated function's source text for the parsed command name,
/// with the function's attributes and signature passed through verbatim.
/// Otherwise the first unsupported token is reported by its text, and the
/// expansion is a compile-time failure.
pub fn has_command(attr_tokens: &Vec<DirectiveToken>, function: &FunctionParts) -> (r: Result<
    String,
    DirectiveError,
>)
    ensures
        r is Ok <==> all_supported(attr_tokens@),
        match r {
            Ok(out) => out@ == generated_source(command_name_of(attr_tokens@), *function),
            Err(e) => exists|j: int|
                0 <= j < attr_tokens@.len() && !token_supported(#[trigger] attr_tokens@[j]) && (
                forall|i: int| 0 <= i < j ==> token_supported(#[trigger] attr_tokens@[i]))
                    && e.token_text@ == token_text(attr_tokens@[j]),
        },
{
    let command = match parse_command_name(attr_tokens) {
        Ok(c) => c,
        Err(e) => {
            return Err(e);
        },
    };
    Ok(generate_guarded(&command, function))
}

} // verus!
