//! The directive parser: reduces the free-form token sequence supplied as the
//! directive's argument to a single command-name string.
//!
//! Command names are often split by the host tokenizer into several tokens (a
//! hyphenated name arrives as identifier / punctuation / identifier / ...), so
//! the parser concatenates the text of every accepted token in order.  Commas
//! are reserved as separators and silently skipped.  Any other token kind, a
//! literal or a nested group, is a fatal directive error that carries the
//! offending token's text.

use vstd::prelude::*;
use vstd::string::StringExecFns;

verus! {

/// One lexical token of the directive's argument list, as the host tokenizer
/// hands it over: an identifier, a single punctuation character, a literal
/// (string, number, ...), or a nested group of tokens. Literals and groups
/// carry their textual rendering, which is all the parser ever reports of
/// them.
#[derive(Debug, Clone, PartialEq, Eq)]
pub enum DirectiveToken {
    Ident(String),
    Punct(char),
    Literal(String),
    Group(String),
}

/// What the parser does with one token: append its text to the command name,
/// skip it as a separator, or reject the whole directive.
#[derive(Debug, Clone, Copy, PartialEq, Eq, Structural)]
pub enum TokenAction {
    AppendText,
    Skip,
    Reject,
}

/// A directive that could not be parsed; carries the text of the first
/// unsupported token, for the compile-time diagnostic.
#[derive(Debug, Clone, PartialEq, Eq)]
pub struct DirectiveError {
    pub token_text: String,
}

/// The textual rendering of a token.
pub open spec fn token_text(t: DirectiveToken) -> Seq<char> {
    match t {
        DirectiveToken::Ident(s) => s@,
        DirectiveToken::Punct(c) => seq![c],
        DirectiveToken::Literal(s) => s@,
        DirectiveToken::Group(s) => s@,
    }
}

/// How the parser treats a token: identifiers and non-comma punctuation are
/// appended, commas are skipped, anything else aborts the directive.
pub open spec fn token_action(t: DirectiveToken) -> TokenAction {
    match t {
        DirectiveToken::Ident(_) => TokenAction::AppendText,
        DirectiveToken::Punct(c) => if c == ',' {
            TokenAction::Skip
        } else {
            TokenAction::AppendText
        },
        DirectiveToken::Literal(_) => TokenAction::Reject,
        DirectiveToken::Group(_) => TokenAction::Reject,
    }
}

/// A token the parser accepts (appends or skips, never rejects).
pub open spec fn token_supported(t: DirectiveToken) -> bool {
    token_action(t) != TokenAction::Reject
}

/// What one token contributes to the command name: its text if appended,
/// nothing if skipped or rejected.
pub open spec fn token_contribution(t: DirectiveToken) -> Seq<char> {
    if token_action(t) == TokenAction::AppendText {
        token_text(t)
    } else {
        Seq::empty()
    }
}

/// Every token of the sequence is supported.
pub open spec fn all_supported(ts: Seq<DirectiveToken>) -> bool {
    forall|i: int| 0 <= i < ts.len() ==> token_supported(#[trigger] ts[i])
}

/// The command name a token sequence denotes: the concatenation, in order, of
/// each token's contribution.
pub open spec fn command_name_of(ts: Seq<DirectiveToken>) -> Seq<char>
    decreases ts.len(),
{
    if ts.len() == 0 {
        Seq::empty()
    } else {
        command_name_of(ts.drop_last()) + token_contribution(ts.last())
    }
}

/// Extending the sequence by one token appends that token's contribution.
proof fn lemma_command_name_step(ts: Seq<DirectiveToken>, i: int)
    requires
        0 <= i < ts.len(),
    ensures
        command_name_of(ts.take(i + 1)) == command_name_of(ts.take(i)) + token_contribution(ts[i]),
{
    assert(ts.take(i + 1).drop_last() =~= ts.take(i));
    assert(ts.take(i + 1).last() == ts[i]);
}

/// Classification of a single token, kept separate from the accumulation so
/// that the parser's treatment of each token kind is one pure decision.
pub fn classify_token(t: &DirectiveToken) -> (r: TokenAction)
    ensures
        r == token_action(*t),
{
    match t {
        DirectiveToken::Ident(_) => TokenAction::AppendText,
        DirectiveToken::Punct(c) => if *c == ',' {
            TokenAction::Skip
        } else {
            TokenAction::AppendText
        },
        DirectiveToken::Literal(_) => TokenAction::Reject,
        DirectiveToken::Group(_) => TokenAction::Reject,
    }
}

/// Relies on std's `String::push`: appends the given character to the end of
/// the string.
pub assume_specification[ String::push ](s: &mut String, c: char)
    ensures
        final(s)@ == old(s)@ + seq![c],
;

/// Parses a directive token sequence into a command name.
///
/// Succeeds exactly when every token is an identifier or a punctuation
/// character; the result is then the concatenation of each token's text in
/// order, with commas removed.  The first literal or group token aborts the
/// parse and is reported by its text.
pub fn parse_command_name(tokens: &Vec<DirectiveToken>) -> (r: Result<String, DirectiveError>)
    ensures
        r is Ok <==> all_supported(tokens@),
        match r {
            Ok(name) => name@ == command_name_of(tokens@),
            Err(e) => exists|j: int|
                0 <= j < tokens@.len() && !token_supported(#[trigger] tokens@[j])
                    && (forall|i: int| 0 <= i < j ==> token_supported(#[trigger] tokens@[i]))
                    && e.token_text@ == token_text(tokens@[j]),
        },
{
    let mut command = String::new();
    let n = tokens.len();
    let mut i: usize = 0;
    while i < n
        invariant
            n == tokens@.len(),
            0 <= i <= n,
            command@ == command_name_of(tokens@.take(i as int)),
            forall|k: int| 0 <= k < i ==> token_supported(#[trigger] tokens@[k]),
        decreases n - i,
    {
        match classify_token(&tokens[i]) {
            TokenAction::AppendText => {
                match &tokens[i] {
                    DirectiveToken::Ident(s) => {
                        command.append(s.as_str());
                    },
                    DirectiveToken::Punct(c) => {
                        command.push(*c);
                    },
                    DirectiveToken::Literal(_) => {
                        assert(false);
                    },
                    DirectiveToken::Group(_) => {
                        assert(false);
                    },
                }
            },
            TokenAction::Skip => {},
            TokenAction::Reject => {
                let text = match &tokens[i] {
                    DirectiveToken::Ident(s) => s.clone(),
                    DirectiveToken::Punct(c) => {
                        assert(false);
                        String::new()
                    },
                    DirectiveToken::Literal(s) => s.clone(),
                    DirectiveToken::Group(s) => s.clone(),
                };
                assert(0 <= i < tokens@.len() && !token_supported(tokens@[i as int])
                    && (forall|k: int| 0 <= k < i ==> token_supported(#[trigger] tokens@[k]))
                    && text@ == token_text(tokens@[i as int]));
                return Err(DirectiveError { token_text: text });
            },
        }
        proof {
            lemma_command_name_step(tokens@, i as int);
        }
        i = i + 1;
    }
    proof {
        assert(tokens@.take(n as int) =~= tokens@);
    }
    Ok(command)
}

} // verus!
