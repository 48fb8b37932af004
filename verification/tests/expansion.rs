use has_command::directive::{
    classify_token, parse_command_name, DirectiveToken, TokenAction,
};
use has_command::has_command;
use has_command::rewrite::{generate_guarded, FunctionParts};

fn ident(s: &str) -> DirectiveToken {
    DirectiveToken::Ident(s.to_string())
}

fn literal(s: &str) -> DirectiveToken {
    DirectiveToken::Literal(s.to_string())
}

fn group(s: &str) -> DirectiveToken {
    DirectiveToken::Group(s.to_string())
}

#[test]
fn parses_hyphenated_name() {
    let tokens = vec![
        ident("not"),
        DirectiveToken::Punct('-'),
        ident("a"),
        DirectiveToken::Punct('-'),
        ident("command"),
    ];
    assert_eq!(parse_command_name(&tokens), Ok("not-a-command".to_string()));
}

#[test]
fn parses_single_identifier() {
    let tokens = vec![ident("ls")];
    assert_eq!(parse_command_name(&tokens), Ok("ls".to_string()));
}

#[test]
fn parses_dotted_name() {
    let tokens = vec![ident("run"), DirectiveToken::Punct('.'), ident("sh")];
    assert_eq!(parse_command_name(&tokens), Ok("run.sh".to_string()));
}

#[test]
fn skips_commas() {
    let tokens = vec![ident("ls"), DirectiveToken::Punct(','), ident("ps")];
    assert_eq!(parse_command_name(&tokens), Ok("lsps".to_string()));
}

#[test]
fn empty_directive_gives_empty_name() {
    let tokens: Vec<DirectiveToken> = vec![];
    assert_eq!(parse_command_name(&tokens), Ok(String::new()));
}

#[test]
fn rejects_string_literal() {
    let tokens = vec![literal("\"ls\"")];
    let err = parse_command_name(&tokens).unwrap_err();
    assert_eq!(err.token_text, "\"ls\"");
}

#[test]
fn rejects_numeric_literal() {
    let tokens = vec![ident("ls"), literal("42")];
    let err = parse_command_name(&tokens).unwrap_err();
    assert_eq!(err.token_text, "42");
}

#[test]
fn rejects_nested_group() {
    let tokens = vec![group("(a b)")];
    let err = parse_command_name(&tokens).unwrap_err();
    assert_eq!(err.token_text, "(a b)");
}

#[test]
fn reports_first_unsupported_token() {
    let tokens = vec![ident("ls"), literal("1"), literal("2")];
    let err = parse_command_name(&tokens).unwrap_err();
    assert_eq!(err.token_text, "1");
}

#[test]
fn classifies_each_token_kind() {
    assert_eq!(classify_token(&ident("ls")), TokenAction::AppendText);
    assert_eq!(classify_token(&DirectiveToken::Punct('-')), TokenAction::AppendText);
    assert_eq!(classify_token(&DirectiveToken::Punct(',')), TokenAction::Skip);
    assert_eq!(classify_token(&literal("\"x\"")), TokenAction::Reject);
    assert_eq!(classify_token(&group("{ }")), TokenAction::Reject);
}

#[test]
fn generates_guard_around_body() {
    let parts = FunctionParts {
        attrs: vec!["#[test]".to_string()],
        signature: "fn run_ls()".to_string(),
        body: "{ ls(); }".to_string(),
    };
    let out = generate_guarded(&"ls".to_string(), &parts);
    assert_eq!(
        out,
        "#[test]\nfn run_ls() { use std::process::Command; \
         match Command::new(\"ls\").output() { Err(_) => {}, Ok(_) => { ls(); } } }"
    );
}

#[test]
fn generates_without_attributes() {
    let parts = FunctionParts {
        attrs: vec![],
        signature: "fn f()".to_string(),
        body: "{}".to_string(),
    };
    let out = generate_guarded(&"x".to_string(), &parts);
    assert_eq!(
        out,
        "fn f() { use std::process::Command; \
         match Command::new(\"x\").output() { Err(_) => {}, Ok(_) => {} } }"
    );
}

#[test]
fn preserves_attributes_and_signature() {
    let parts = FunctionParts {
        attrs: vec!["#[inline]".to_string(), "#[allow(dead_code)]".to_string()],
        signature: "pub fn probe<T: Clone>(x: &T) -> bool".to_string(),
        body: "{ true }".to_string(),
    };
    let out = generate_guarded(&"cat".to_string(), &parts);
    assert!(out.starts_with("#[inline]\n#[allow(dead_code)]\npub fn probe<T: Clone>(x: &T) -> bool"));
    assert!(out.contains("{ true }"));
}

#[test]
fn generated_output_reparses_as_a_function() {
    let parts = FunctionParts {
        attrs: vec!["#[inline]".to_string()],
        signature: "fn probe_ls() -> u32".to_string(),
        body: "{ 7 }".to_string(),
    };
    let out = generate_guarded(&"not-a-command".to_string(), &parts);
    let ast: syn::ItemFn = syn::parse_str(&out).expect("the generated text must parse");
    assert_eq!(ast.sig.ident.to_string(), "probe_ls");
    assert_eq!(ast.attrs.len(), 1);
}

#[test]
fn expands_whole_directive() {
    let tokens = vec![ident("echo")];
    let parts = FunctionParts {
        attrs: vec![],
        signature: "fn run_echo()".to_string(),
        body: "{ echo(); }".to_string(),
    };
    let out = has_command(&tokens, &parts).unwrap();
    assert_eq!(
        out,
        "fn run_echo() { use std::process::Command; \
         match Command::new(\"echo\").output() { Err(_) => {}, Ok(_) => { echo(); } } }"
    );
}

#[test]
fn expansion_fails_on_unsupported_token() {
    let tokens = vec![literal("\"echo\"")];
    let parts = FunctionParts {
        attrs: vec![],
        signature: "fn run_echo()".to_string(),
        body: "{ echo(); }".to_string(),
    };
    let err = has_command(&tokens, &parts).unwrap_err();
    assert_eq!(err.token_text, "\"echo\"");
}
