//! The program synthesizer: what kind of fragment an input is, and the
//! program that probes a body together with one candidate.

use crate::body::{
    declaration_line, declarations_text, entry_close, entry_open, render_text, statements_text,
    Body, Kind,
};
use crate::text::{occurs_at, starts_with, to_chars, trim, trimmed};
use vstd::prelude::*;
use vstd::string::*;

verus! {

/// The text begins like an item: a function, a type, a trait, an impl, an
/// attribute or a visibility.
pub open spec fn begins_item(t: Seq<char>) -> bool {
    occurs_at(t, "fn "@, 0) || occurs_at(t, "async fn "@, 0) || occurs_at(t, "enum "@, 0)
        || occurs_at(t, "struct "@, 0) || occurs_at(t, "trait "@, 0) || occurs_at(t, "impl "@, 0)
        || occurs_at(t, "#"@, 0) || occurs_at(t, "pub "@, 0)
}

/// The kind of an input, decided by the form of its trimmed text alone; blank input has none.
pub open spec fn kind_of(input: Seq<char>) -> Option<Kind> {
    let t = trimmed(input);
    if t.len() == 0 {
        None
    } else if begins_item(t) {
        Some(Kind::Declaration)
    } else if t.last() == ';' {
        Some(Kind::Statement)
    } else {
        Some(Kind::Expression)
    }
}

/// What precedes a printed value in the program's output.
pub open spec fn value_mark() -> Seq<char> {
    "[irust:value] "@
}

/// The opening of the statement that prints the value of a candidate expression.
pub open spec fn probe_open() -> Seq<char> {
    "println!(\"[irust:value] {:?}\", {\n"@
}

/// The closing of that statement.
pub open spec fn probe_close() -> Seq<char> {
    "\n});\n"@
}

/// What a candidate contributes to the end of the entry point.
pub open spec fn tail_line(text: Seq<char>, kind: Kind) -> Seq<char> {
    match kind {
        Kind::Declaration => Seq::empty(),
        Kind::Statement => text + "\n"@,
        Kind::Expression => probe_open() + text + probe_close(),
    }
}

/// The program that probes `body` together with one candidate: the
/// declarations, the candidate's if it is one, and the entry point around the
/// accepted statements in their order, with the candidate at its end.
pub open spec fn program_text(body: Seq<(Seq<char>, Kind)>, text: Seq<char>, kind: Kind) -> Seq<
    char,
> {
    declarations_text(body) + declaration_line((text, kind)) + entry_open() + statements_text(
        body,
    ) + tail_line(text, kind) + entry_close()
}

/// Decides the kind of an input.
pub fn classify_fragment(input: &str) -> (r: Option<Kind>)
    ensures
        r == kind_of(input@),
{
    let trimmed_input = trim(input);
    let t = to_chars(trimmed_input.as_str());
    let n: usize = t.len();
    if n == 0 {
        None
    } else if starts_with(&t, 0, "fn ") || starts_with(&t, 0, "async fn ") || starts_with(
        &t,
        0,
        "enum ",
    ) || starts_with(&t, 0, "struct ") || starts_with(&t, 0, "trait ") || starts_with(
        &t,
        0,
        "impl ",
    ) || starts_with(&t, 0, "#") || starts_with(&t, 0, "pub ") {
        Some(Kind::Declaration)
    } else if t[n - 1] == ';' {
        Some(Kind::Statement)
    } else {
        Some(Kind::Expression)
    }
}

/// Builds the program that probes `body` with a candidate of the given kind.
pub fn synthesize_as(body: &Body, text: &str, kind: Kind) -> (r: String)
    ensures
        r@ == program_text(body@, text@, kind),
{
    let mut out = String::new();
    body.write_declarations(&mut out);
    let ghost decls = out@;
    if kind == Kind::Declaration {
        out.append(text);
        out.append("\n");
    }
    assert(out@ =~= decls + declaration_line((text@, kind)));
    out.append("fn main() {\n");
    body.write_statements(&mut out);
    let ghost inner = out@;
    match kind {
        Kind::Declaration => {},
        Kind::Statement => {
            out.append(text);
            out.append("\n");
        },
        Kind::Expression => {
            out.append("println!(\"[irust:value] {:?}\", {\n");
            out.append(text);
            out.append("\n});\n");
        },
    }
    assert(out@ =~= inner + tail_line(text@, kind));
    out.append("}\n");
    assert(out@ =~= program_text(body@, text@, kind));
    out
}

/// Builds the program that probes `body` with the input as candidate; blank
/// input gives no program.
pub fn synthesize(body: &Body, input: &str) -> (r: Option<String>)
    ensures
        match kind_of(input@) {
            Some(kind) => r is Some && r->Some_0@ == program_text(body@, input@, kind),
            None => r is None,
        },
{
    match classify_fragment(input) {
        Some(kind) => Some(synthesize_as(body, input, kind)),
        None => None,
    }
}

/// A candidate that is no expression is probed with exactly the program that
/// the body renders to once the candidate is appended.
pub proof fn lemma_probe_is_render(body: Seq<(Seq<char>, Kind)>, text: Seq<char>, kind: Kind)
    requires
        kind != Kind::Expression,
    ensures
        program_text(body, text, kind) == render_text(body.push((text, kind))),
{
    let next = body.push((text, kind));
    assert(next.drop_last() =~= body);
    assert(program_text(body, text, kind) =~= render_text(next));
}

} // verus!
