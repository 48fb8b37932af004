//! The function rewriter: given a command name and the annotated function's
//! three parts —attributes, signature, body— it emits the source text of the
//! generated function.  Attributes and signature pass through verbatim; only
//! the body is replaced, by a guard that probes the named command at run time
//! and executes the original body exactly when the probe launches.
//!
//! The emitted text is a function item: the attributes each on their own
//! line, then the signature, then a new body block that matches on the
//! outcome of launching the command with no arguments — a launch failure
//! does nothing, a successful launch (whatever the exit status) runs the
//! original body.

use vstd::prelude::*;
use vstd::string::StringExecFns;

verus! {

/// The annotated function, decomposed into the parts the rewriter handles:
/// the pass-through parts (attributes in order, signature) and the one
/// transformed part (the body block, braces included).  Each part is held as
/// its source text.
#[derive(Debug, Clone)]
pub struct FunctionParts {
    pub attrs: Vec<String>,
    pub signature: String,
    pub body: String,
}

/// Opening text of the generated body, up to the command name: start the
/// block, bring the process API into scope, begin the probe.
pub open spec fn guard_open_text() -> Seq<char> {
    (" { use std::process::Command; match Command::new(\"")@
}

/// Text between the command name and the original body: finish the probe and
/// give the two arms — a failed launch does nothing, a successful launch
/// falls through to the original body.
pub open spec fn guard_middle_text() -> Seq<char> {
    ("\").output() { Err(_) => {}, Ok(_) => ")@
}

/// Closing text after the original body: close the match, close the block.
pub open spec fn guard_close_text() -> Seq<char> {
    (" } }")@
}

/// The generated body: the guard text with the command name and the original
/// body spliced in.
pub open spec fn guarded_body_text(command: Seq<char>, body: Seq<char>) -> Seq<char> {
    guard_open_text() + command + guard_middle_text() + body + guard_close_text()
}

/// The attribute block: each attribute's text followed by a line break, in
/// the original order.
pub open spec fn attrs_text(attrs: Seq<String>) -> Seq<char>
    decreases attrs.len(),
{
    if attrs.len() == 0 {
        Seq::empty()
    } else {
        attrs_text(attrs.drop_last()) + attrs.last()@ + ("\n")@
    }
}

/// The whole generated function: attributes, then the signature, then the
/// guarded body.
pub open spec fn generated_source(command: Seq<char>, f: FunctionParts) -> Seq<char> {
    attrs_text(f.attrs@) + f.signature@ + guarded_body_text(command, f.body@)
}

/// Extending the attribute sequence by one attribute appends its line.
proof fn lemma_attrs_text_step(attrs: Seq<String>, i: int)
    requires
        0 <= i < attrs.len(),
    ensures
        attrs_text(attrs.take(i + 1)) == attrs_text(attrs.take(i)) + attrs[i]@ + ("\n")@,
{
    assert(attrs.take(i + 1).drop_last() =~= attrs.take(i));
    assert(attrs.take(i + 1).last() == attrs[i]);
}

/// Emits the generated function's source text for one command name and one
/// decomposed function.
pub fn generate_guarded(command: &String, f: &FunctionParts) -> (r: String)
    ensures
        r@ == generated_source(command@, *f),
{
    let mut out = String::new();
    let n = f.attrs.len();
    let mut i: usize = 0;
    while i < n
        invariant
            n == f.attrs@.len(),
            0 <= i <= n,
            out@ == attrs_text(f.attrs@.take(i as int)),
        decreases n - i,
    {
        out.append(f.attrs[i].as_str());
        out.append("\n");
        proof {
            lemma_attrs_text_step(f.attrs@, i as int);
        }
        i = i + 1;
    }
    proof {
        assert(f.attrs@.take(n as int) =~= f.attrs@);
    }
    out.append(f.signature.as_str());
    out.append(" { use std::process::Command; match Command::new(\"");
    out.append(command.as_str());
    out.append("\").output() { Err(_) => {}, Ok(_) => ");
    out.append(f.body.as_str());
    out.append(" } }");
    proof {
        assert(out@ =~= generated_source(command@, *f));
    }
    out
}

/// Where the signature starts in the generated text: right after the
/// attribute block.
pub open spec fn signature_offset(f: FunctionParts) -> int {
    attrs_text(f.attrs@).len() as int
}

/// Where attribute number `k` starts in the generated text: after the lines
/// of the attributes before it.
pub open spec fn attr_offset(attrs: Seq<String>, k: int) -> int
    decreases k,
{
    if k <= 0 {
        0
    } else {
        attr_offset(attrs, k - 1) + attrs[k - 1]@.len() + 1
    }
}

/// Where the original body starts in the generated text: after the
/// attributes, the signature, and the guard text up to and including the
/// command name.
pub open spec fn body_offset(command: Seq<char>, f: FunctionParts) -> int {
    signature_offset(f) + f.signature@.len() + guard_open_text().len() + command.len()
        + guard_middle_text().len()
}

/// The offset of attribute `k` is the length of the text of the attributes
/// before it.
proof fn lemma_attr_offset_is_prefix_len(attrs: Seq<String>, k: int)
    requires
        0 <= k <= attrs.len(),
    ensures
        attr_offset(attrs, k) == attrs_text(attrs.take(k)).len(),
    decreases k,
{
    reveal_strlit("\n");
    if k == 0 {
        assert(attrs.take(0) =~= Seq::<String>::empty());
    } else {
        lemma_attr_offset_is_prefix_len(attrs, k - 1);
        lemma_attrs_text_step(attrs, k - 1);
    }
}

/// The text of the first `k` attributes is a prefix of the whole attribute
/// block.
proof fn lemma_attrs_text_take_prefix(attrs: Seq<String>, k: int)
    requires
        0 <= k <= attrs.len(),
    ensures
        attrs_text(attrs.take(k)).len() <= attrs_text(attrs).len(),
        forall|i: int|
            0 <= i < attrs_text(attrs.take(k)).len() ==> #[trigger] attrs_text(attrs)[i]
                == attrs_text(attrs.take(k))[i],
    decreases attrs.len() - k,
{
    if k == attrs.len() {
        assert(attrs.take(k) =~= attrs);
    } else {
        lemma_attrs_text_take_prefix(attrs, k + 1);
        lemma_attrs_text_step(attrs, k);
    }
}

/// The pass-through parts come out verbatim: the generated text begins with
/// the attribute block followed by the signature, character for character.
pub proof fn lemma_passthrough_prefix(command: Seq<char>, f: FunctionParts)
    ensures
        generated_source(command, f).take(signature_offset(f) + f.signature@.len())
            =~= attrs_text(f.attrs@) + f.signature@,
{
}

/// The signature is preserved character for character: it stands unchanged
/// at its offset in the generated text.
pub proof fn lemma_signature_preserved(command: Seq<char>, f: FunctionParts)
    ensures
        generated_source(command, f).subrange(
            signature_offset(f),
            signature_offset(f) + f.signature@.len(),
        ) =~= f.signature@,
{
}

/// Each attribute is preserved character for character, in order: attribute
/// `k` stands unchanged at its offset in the generated text.
pub proof fn lemma_attr_preserved(command: Seq<char>, f: FunctionParts, k: int)
    requires
        0 <= k < f.attrs@.len(),
    ensures
        attr_offset(f.attrs@, k) + f.attrs@[k]@.len() <= attrs_text(f.attrs@).len(),
        generated_source(command, f).subrange(
            attr_offset(f.attrs@, k),
            attr_offset(f.attrs@, k) + f.attrs@[k]@.len(),
        ) =~= f.attrs@[k]@,
{
    let attrs = f.attrs@;
    let off = attr_offset(attrs, k);
    lemma_attr_offset_is_prefix_len(attrs, k);
    lemma_attrs_text_step(attrs, k);
    lemma_attrs_text_take_prefix(attrs, k + 1);
    assert forall|i: int| 0 <= i < attrs[k]@.len() implies #[trigger] attrs_text(attrs)[off + i]
        == attrs[k]@[i] by {
        assert(attrs_text(attrs.take(k + 1))[off + i] == attrs[k]@[i]);
    }
}

/// The original body is relocated whole: it stands unchanged at its offset
/// inside the generated body, between the probe and the guard's close.
pub proof fn lemma_body_preserved(command: Seq<char>, f: FunctionParts)
    ensures
        generated_source(command, f).subrange(
            body_offset(command, f),
            body_offset(command, f) + f.body@.len(),
        ) =~= f.body@,
{
}

} // verus!
