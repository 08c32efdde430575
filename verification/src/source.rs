//! Whole program files: taking the entry point out of a file that is loaded,
//! and reading a body back from a file that was edited.

use crate::body::{entry_close, entry_open, Body, Fragment, Kind};
use crate::text::{
    closing_brace, find_closing_brace, find_first, find_last, find_line_end, first_occurrence,
    last_occurrence, line_end, occurs_at, to_chars, trim, trimmed,
};
use vstd::prelude::*;
use vstd::string::*;

verus! {

/// The header of the entry point.
pub open spec fn entry_header() -> Seq<char> {
    "fn main() {"@
}

/// The text without its entry point: the first header and the brace that
/// closes its block are cut out, what stood inside stays. A text without
/// such a header, or whose block is never closed, stays as it is.
pub open spec fn without_entry_point(s: Seq<char>) -> Seq<char> {
    match first_occurrence(s, entry_header()) {
        Some(p) => match closing_brace(s, p + entry_header().len(), 0) {
            Some(q) => s.subrange(0, p) + s.subrange(p + entry_header().len(), q) + s.subrange(
                q + 1,
                s.len() as int,
            ),
            None => s,
        },
        None => s,
    }
}

/// Cuts the entry point out of a program text.
pub fn remove_main(script: &str) -> (r: String)
    ensures
        r@ == without_entry_point(script@),
{
    let v = to_chars(script);
    let n: usize = v.len();
    let header = to_chars("fn main() {");
    match find_first(&v, &header) {
        Some(p) => {
            assert(occurs_at(v@, header@, p as int));
            let inner: usize = p + header.len();
            match find_closing_brace(&v, inner) {
                Some(q) => {
                    let mut out = String::from_str(script.substring_char(0, p));
                    out.append(script.substring_char(inner, q));
                    out.append(script.substring_char(q + 1, n));
                    out
                },
                None => String::from_str(script),
            }
        },
        None => String::from_str(script),
    }
}

/// A line of an edited file as fragments: none if it is blank, else one, trimmed.
pub open spec fn chunk(line: Seq<char>, kind: Kind) -> Seq<(Seq<char>, Kind)> {
    if trimmed(line).len() == 0 {
        Seq::empty()
    } else {
        seq![(trimmed(line), kind)]
    }
}

/// The lines of `s` from position `i` on as fragments of one kind, blank lines left out.
pub open spec fn line_fragments(s: Seq<char>, i: int, kind: Kind) -> Seq<(Seq<char>, Kind)>
    decreases s.len() - i,
{
    let e = line_end(s, i);
    if 0 <= i < s.len() && i <= e < s.len() {
        chunk(s.subrange(i, e), kind) + line_fragments(s, e + 1, kind)
    } else if 0 <= i < s.len() && e == s.len() {
        chunk(s.subrange(i, e), kind)
    } else {
        Seq::empty()
    }
}

/// The body that an edited file stands for: the lines before the first
/// opening line of the entry point are declarations, the lines between it
/// and the last closing line are statements. A file without these two
/// lines, in this order, stands for none.
pub open spec fn edited_body(text: Seq<char>) -> Option<Seq<(Seq<char>, Kind)>> {
    match first_occurrence(text, entry_open()) {
        Some(p) => match last_occurrence(text, entry_close()) {
            Some(q) => if p + entry_open().len() <= q {
                Some(
                    line_fragments(text.subrange(0, p), 0, Kind::Declaration) + line_fragments(
                        text.subrange(p + entry_open().len(), q),
                        0,
                        Kind::Statement,
                    ),
                )
            } else {
                None
            },
            None => None,
        },
        None => None,
    }
}

/// Appends the lines of a text to a body as fragments of one kind.
fn append_lines(body: &mut Body, text: &str, kind: Kind)
    ensures
        final(body)@ == old(body)@ + line_fragments(text@, 0, kind),
{
    let v = to_chars(text);
    let n: usize = v.len();
    let mut i: usize = 0;
    while i < n
        invariant
            i <= n,
            n == v@.len(),
            v@ == text@,
            old(body)@ + line_fragments(text@, 0, kind) == body@ + line_fragments(
                text@,
                i as int,
                kind,
            ),
        decreases n - i,
    {
        let e: usize = find_line_end(&v, i);
        let ghost before = body@;
        let ghost rest = if e < n {
            line_fragments(text@, e + 1, kind)
        } else {
            Seq::empty()
        };
        let line = trim(text.substring_char(i, e));
        if line.as_str().unicode_len() > 0 {
            body.append(Fragment { text: line, kind });
        }
        assert(body@ =~= before + chunk(text@.subrange(i as int, e as int), kind));
        assert(body@ + rest =~= before + line_fragments(text@, i as int, kind));
        if e == n {
            assert(body@ + rest =~= body@);
            return ;
        }
        i = e + 1;
    }
    assert(body@ + line_fragments(text@, i as int, kind) =~= body@);
}

/// Reads the body back from the text of an edited file.
pub fn read_body(text: &str) -> (r: Option<Body>)
    ensures
        match edited_body(text@) {
            Some(b) => r is Some && r->Some_0@ == b,
            None => r is None,
        },
{
    let v = to_chars(text);
    let n: usize = v.len();
    let open = to_chars("fn main() {\n");
    let close = to_chars("}\n");
    let p: usize = match find_first(&v, &open) {
        Some(p) => p,
        None => { return None; },
    };
    let q: usize = match find_last(&v, &close) {
        Some(q) => q,
        None => { return None; },
    };
    assert(occurs_at(v@, open@, p as int));
    assert(occurs_at(v@, close@, q as int));
    let inner: usize = p + open.len();
    if inner > q {
        return None;
    }
    let mut body = Body::new();
    append_lines(&mut body, text.substring_char(0, p), Kind::Declaration);
    append_lines(&mut body, text.substring_char(inner, q), Kind::Statement);
    assert(body@ =~= line_fragments(text@.subrange(0, p as int), 0, Kind::Declaration)
        + line_fragments(text@.subrange(inner as int, q as int), 0, Kind::Statement));
    Some(body)
}

} // verus!
