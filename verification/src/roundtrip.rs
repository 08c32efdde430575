//! The way of a body through the editor and back: what an unchanged file
//! reads back to, and that it renders as the body did.

use crate::body::{
    declaration_line, declarations_text, entry_close, entry_open, render_text, statement_line,
    statements_text, Kind,
};
use crate::error::IRustError;
use crate::printer::Printer;
use crate::session::{resync_post, SessionView};
use crate::source::{edited_body, entry_header, line_fragments};
use crate::text::{
    first_from, is_space, last_occurrence, last_upto, line_end, occurs_at, trimmed,
};
use crate::verdict::verdict_of;
use vstd::prelude::*;
use vstd::string::*;

verus! {

/// A text that reads back as one line, as it is: not empty, no line feed in
/// it, no whitespace at either end.
pub open spec fn is_clean_line(t: Seq<char>) -> bool {
    &&& t.len() > 0
    &&& !is_space(t[0])
    &&& !is_space(t.last())
    &&& forall|j: int| 0 <= j < t.len() ==> #[trigger] t[j] != '\n'
}

/// The text ends with `suffix`.
pub open spec fn ends_with(t: Seq<char>, suffix: Seq<char>) -> bool {
    suffix.len() <= t.len() && t.subrange(t.len() - suffix.len(), t.len() as int) == suffix
}

/// A body that goes through the editor unharmed: every fragment is a clean
/// line, and no declaration ends as the header of an entry point does.
pub open spec fn survives_editing(b: Seq<(Seq<char>, Kind)>) -> bool {
    forall|k: int|
        0 <= k < b.len() ==> is_clean_line((#[trigger] b[k]).0) && (b[k].1 == Kind::Declaration
            ==> !ends_with(b[k].0, entry_header()))
}

/// The declarations of a body, in their order.
pub open spec fn read_back_declarations(b: Seq<(Seq<char>, Kind)>) -> Seq<(Seq<char>, Kind)>
    decreases b.len(),
{
    if b.len() == 0 {
        Seq::empty()
    } else {
        read_back_declarations(b.drop_last()) + if b.last().1 == Kind::Declaration {
            seq![b.last()]
        } else {
            Seq::empty()
        }
    }
}

/// What is no declaration of a body, in its order, as the statements that
/// the rendering made of it: an expression has its terminator.
pub open spec fn read_back_statements(b: Seq<(Seq<char>, Kind)>) -> Seq<(Seq<char>, Kind)>
    decreases b.len(),
{
    if b.len() == 0 {
        Seq::empty()
    } else {
        read_back_statements(b.drop_last()) + match b.last().1 {
            Kind::Declaration => Seq::empty(),
            Kind::Statement => seq![b.last()],
            Kind::Expression => seq![(b.last().0 + ";"@, Kind::Statement)],
        }
    }
}

/// The body that the unchanged rendering of a body reads back to: its
/// declarations, then the rest as statements.
pub open spec fn read_back(b: Seq<(Seq<char>, Kind)>) -> Seq<(Seq<char>, Kind)> {
    read_back_declarations(b) + read_back_statements(b)
}

proof fn lemma_line_end(s: Seq<char>, i: int)
    requires
        0 <= i <= s.len(),
    ensures
        i <= line_end(s, i) <= s.len(),
        line_end(s, i) < s.len() ==> s[line_end(s, i)] == '\n',
        forall|k: int| i <= k < line_end(s, i) ==> #[trigger] s[k] != '\n',
    decreases s.len() - i,
{
    if i < s.len() && s[i] != '\n' {
        lemma_line_end(s, i + 1);
    }
}

proof fn lemma_line_end_is(s: Seq<char>, i: int, e: int)
    requires
        0 <= i <= e <= s.len(),
        forall|k: int| i <= k < e ==> #[trigger] s[k] != '\n',
        e == s.len() || s[e] == '\n',
    ensures
        line_end(s, i) == e,
    decreases e - i,
{
    if i < e {
        lemma_line_end_is(s, i + 1, e);
    }
}

proof fn lemma_trimmed_clean(t: Seq<char>)
    requires
        is_clean_line(t),
    ensures
        trimmed(t) == t,
{
    assert(trimmed(t) =~= t);
}

proof fn lemma_fragments_shift(a: Seq<char>, b: Seq<char>, j: int, kind: Kind)
    requires
        0 <= j <= b.len(),
    ensures
        line_fragments(a + b, a.len() + j, kind) == line_fragments(b, j, kind),
    decreases b.len() - j,
{
    let s = a + b;
    if j < b.len() {
        let e = line_end(b, j);
        lemma_line_end(b, j);
        assert forall|k: int| a.len() + j <= k < a.len() + e implies #[trigger] s[k] != '\n' by {
            assert(s[k] == b[k - a.len()]);
        }
        lemma_line_end_is(s, a.len() + j, a.len() + e);
        assert(s.subrange(a.len() + j, a.len() + e) =~= b.subrange(j, e));
        if e < b.len() {
            lemma_fragments_shift(a, b, e + 1, kind);
        }
    }
}

proof fn lemma_fragments_concat(a: Seq<char>, b: Seq<char>, i: int, kind: Kind)
    requires
        0 <= i <= a.len(),
        a.len() == 0 || a.last() == '\n',
    ensures
        line_fragments(a + b, i, kind) == line_fragments(a, i, kind) + line_fragments(b, 0, kind),
    decreases a.len() - i,
{
    let s = a + b;
    if i == a.len() {
        lemma_fragments_shift(a, b, 0, kind);
        assert(line_fragments(a, i, kind) + line_fragments(b, 0, kind) =~= line_fragments(
            b,
            0,
            kind,
        ));
    } else {
        let e = line_end(a, i);
        lemma_line_end(a, i);
        if e == a.len() {
            assert(a[a.len() - 1] != '\n');
        }
        assert forall|k: int| i <= k < e implies #[trigger] s[k] != '\n' by {
            assert(s[k] == a[k]);
        }
        assert(s[e] == a[e]);
        lemma_line_end_is(s, i, e);
        assert(s.subrange(i, e) =~= a.subrange(i, e));
        lemma_fragments_concat(a, b, e + 1, kind);
        assert(line_fragments(s, i, kind) =~= line_fragments(a, i, kind) + line_fragments(
            b,
            0,
            kind,
        ));
    }
}

proof fn lemma_single_line(t: Seq<char>, kind: Kind)
    requires
        is_clean_line(t),
    ensures
        line_fragments(t + "\n"@, 0, kind) == seq![(t, kind)],
        (t + "\n"@).last() == '\n',
{
    reveal_strlit("\n");
    let s = t + "\n"@;
    assert(s.len() == t.len() + 1);
    assert(s[t.len() as int] == '\n');
    assert forall|k: int| 0 <= k < t.len() implies #[trigger] s[k] != '\n' by {
        assert(s[k] == t[k]);
    }
    lemma_line_end_is(s, 0, t.len() as int);
    assert(s.subrange(0, t.len() as int) =~= t);
    lemma_trimmed_clean(t);
    assert(line_fragments(s, t.len() as int + 1, kind) =~= Seq::empty());
    assert(line_fragments(s, 0, kind) =~= seq![(t, kind)]);
}

proof fn lemma_declarations_read(b: Seq<(Seq<char>, Kind)>)
    requires
        forall|k: int| 0 <= k < b.len() ==> is_clean_line((#[trigger] b[k]).0),
    ensures
        line_fragments(declarations_text(b), 0, Kind::Declaration) == read_back_declarations(b),
        declarations_text(b).len() == 0 || declarations_text(b).last() == '\n',
    decreases b.len(),
{
    if b.len() == 0 {
        assert(line_fragments(declarations_text(b), 0, Kind::Declaration) =~= Seq::empty());
    } else {
        let rest = b.drop_last();
        let t = b.last().0;
        assert forall|k: int| 0 <= k < rest.len() implies is_clean_line((#[trigger] rest[k]).0) by {
            assert(rest[k] == b[k]);
        }
        lemma_declarations_read(rest);
        if b.last().1 == Kind::Declaration {
            lemma_single_line(t, Kind::Declaration);
            lemma_fragments_concat(declarations_text(rest), t + "\n"@, 0, Kind::Declaration);
            assert(b.last() == (t, Kind::Declaration));
        } else {
            assert(declarations_text(b) =~= declarations_text(rest));
            assert(read_back_declarations(b) =~= read_back_declarations(rest));
        }
    }
}

proof fn lemma_statements_read(b: Seq<(Seq<char>, Kind)>)
    requires
        forall|k: int| 0 <= k < b.len() ==> is_clean_line((#[trigger] b[k]).0),
    ensures
        line_fragments(statements_text(b), 0, Kind::Statement) == read_back_statements(b),
        statements_text(b).len() == 0 || statements_text(b).last() == '\n',
    decreases b.len(),
{
    if b.len() == 0 {
        assert(line_fragments(statements_text(b), 0, Kind::Statement) =~= Seq::empty());
    } else {
        let rest = b.drop_last();
        let t = b.last().0;
        assert forall|k: int| 0 <= k < rest.len() implies is_clean_line((#[trigger] rest[k]).0) by {
            assert(rest[k] == b[k]);
        }
        lemma_statements_read(rest);
        match b.last().1 {
            Kind::Declaration => {
                assert(statements_text(b) =~= statements_text(rest));
                assert(read_back_statements(b) =~= read_back_statements(rest));
            },
            Kind::Statement => {
                lemma_single_line(t, Kind::Statement);
                lemma_fragments_concat(statements_text(rest), t + "\n"@, 0, Kind::Statement);
                assert(b.last() == (t, Kind::Statement));
            },
            Kind::Expression => {
                lemma_closed_expression(t);
                let closed = t + ";"@;
                lemma_single_line(closed, Kind::Statement);
                lemma_fragments_concat(statements_text(rest), closed + "\n"@, 0, Kind::Statement);
            },
        }
    }
}

proof fn lemma_closed_expression(t: Seq<char>)
    requires
        is_clean_line(t),
    ensures
        is_clean_line(t + ";"@),
        t + ";\n"@ == t + ";"@ + "\n"@,
{
    reveal_strlit(";");
    reveal_strlit("\n");
    reveal_strlit(";\n");
    let closed = t + ";"@;
    assert(closed.len() == t.len() + 1);
    assert(closed[0] == t[0]);
    assert(closed.last() == ';');
    assert forall|j: int| 0 <= j < closed.len() implies #[trigger] closed[j] != '\n' by {
        if j < t.len() {
            assert(closed[j] == t[j]);
        }
    }
    assert(t + ";\n"@ =~= t + ";"@ + "\n"@);
}

proof fn lemma_texts_of_concat(x: Seq<(Seq<char>, Kind)>, y: Seq<(Seq<char>, Kind)>)
    ensures
        declarations_text(x + y) == declarations_text(x) + declarations_text(y),
        statements_text(x + y) == statements_text(x) + statements_text(y),
    decreases y.len(),
{
    if y.len() == 0 {
        assert(x + y =~= x);
        assert(declarations_text(x) + declarations_text(y) =~= declarations_text(x));
        assert(statements_text(x) + statements_text(y) =~= statements_text(x));
    } else {
        lemma_texts_of_concat(x, y.drop_last());
        assert((x + y).drop_last() =~= x + y.drop_last());
        assert((x + y).last() == y.last());
        assert(declarations_text(x + y) =~= declarations_text(x) + declarations_text(y));
        assert(statements_text(x + y) =~= statements_text(x) + statements_text(y));
    }
}

proof fn lemma_one_fragment(f: (Seq<char>, Kind))
    ensures
        declarations_text(seq![f]) == declaration_line(f),
        statements_text(seq![f]) == statement_line(f),
{
    let one = seq![f];
    assert(one.drop_last() =~= Seq::empty());
    assert(one.last() == f);
    assert(declarations_text(one.drop_last()) =~= Seq::<char>::empty());
    assert(statements_text(one.drop_last()) =~= Seq::<char>::empty());
    assert(declarations_text(one) =~= declaration_line(f));
    assert(statements_text(one) =~= statement_line(f));
}

proof fn lemma_read_back_texts(b: Seq<(Seq<char>, Kind)>)
    ensures
        declarations_text(read_back_declarations(b)) == declarations_text(b),
        statements_text(read_back_declarations(b)) == Seq::<char>::empty(),
        declarations_text(read_back_statements(b)) == Seq::<char>::empty(),
        statements_text(read_back_statements(b)) == statements_text(b),
    decreases b.len(),
{
    if b.len() > 0 {
        let rest = b.drop_last();
        let f = b.last();
        lemma_read_back_texts(rest);
        let d = if f.1 == Kind::Declaration {
            seq![f]
        } else {
            Seq::empty()
        };
        let s = match f.1 {
            Kind::Declaration => Seq::empty(),
            Kind::Statement => seq![f],
            Kind::Expression => seq![(f.0 + ";"@, Kind::Statement)],
        };
        lemma_texts_of_concat(read_back_declarations(rest), d);
        lemma_texts_of_concat(read_back_statements(rest), s);
        lemma_one_fragment(f);
        lemma_one_fragment((f.0 + ";"@, Kind::Statement));
        if f.1 == Kind::Expression {
            reveal_strlit(";");
            reveal_strlit("\n");
            reveal_strlit(";\n");
            assert(f.0 + ";\n"@ =~= f.0 + ";"@ + "\n"@);
        }
        assert(declarations_text(read_back_declarations(b)) =~= declarations_text(b));
        assert(statements_text(read_back_declarations(b)) =~= Seq::<char>::empty());
        assert(declarations_text(read_back_statements(b)) =~= Seq::<char>::empty());
        assert(statements_text(read_back_statements(b)) =~= statements_text(b));
    }
}

proof fn lemma_entry_open_shape(m: int)
    requires
        0 <= m < 11,
    ensures
        entry_open().len() == 12,
        entry_header().len() == 11,
        entry_open()[11] == '\n',
        entry_open()[m] == entry_header()[m],
        entry_open()[m] != '\n',
{
    reveal_strlit("fn main() {\n");
    reveal_strlit("fn main() {");
    if m == 0 {
        assert(entry_open()[0] == entry_header()[0]);
    }
    if m == 1 {
        assert(entry_open()[1] == entry_header()[1]);
    }
    if m == 2 {
        assert(entry_open()[2] == entry_header()[2]);
    }
    if m == 3 {
        assert(entry_open()[3] == entry_header()[3]);
    }
    if m == 4 {
        assert(entry_open()[4] == entry_header()[4]);
    }
    if m == 5 {
        assert(entry_open()[5] == entry_header()[5]);
    }
    if m == 6 {
        assert(entry_open()[6] == entry_header()[6]);
    }
    if m == 7 {
        assert(entry_open()[7] == entry_header()[7]);
    }
    if m == 8 {
        assert(entry_open()[8] == entry_header()[8]);
    }
    if m == 9 {
        assert(entry_open()[9] == entry_header()[9]);
    }
    if m == 10 {
        assert(entry_open()[10] == entry_header()[10]);
    }
}

proof fn lemma_first_is(hay: Seq<char>, needle: Seq<char>, i: int, p: int)
    requires
        0 <= i <= p,
        occurs_at(hay, needle, p),
        forall|j: int| i <= j < p ==> !occurs_at(hay, needle, j),
    ensures
        first_from(hay, needle, i) == Some(p),
    decreases p - i,
{
    if i < p {
        lemma_first_is(hay, needle, i + 1, p);
    }
}

proof fn lemma_no_early_entry(b: Seq<(Seq<char>, Kind)>, x: Seq<char>, j: int)
    requires
        survives_editing(b),
        0 <= j < declarations_text(b).len(),
    ensures
        !occurs_at(declarations_text(b) + x, entry_open(), j),
    decreases b.len(),
{
    let rest = b.drop_last();
    let f = b.last();
    assert forall|k: int| 0 <= k < rest.len() implies is_clean_line((#[trigger] rest[k]).0) && (
    rest[k].1 == Kind::Declaration ==> !ends_with(rest[k].0, entry_header())) by {
        assert(rest[k] == b[k]);
    }
    if f.1 != Kind::Declaration {
        assert(declarations_text(b) =~= declarations_text(rest));
        lemma_no_early_entry(rest, x, j);
    } else {
        reveal_strlit("\n");
        let t = f.0;
        let before = declarations_text(rest);
        let line = t + "\n"@;
        let all = declarations_text(b) + x;
        assert(all =~= before + (line + x));
        if j < before.len() {
            lemma_no_early_entry(rest, line + x, j);
        } else if occurs_at(all, entry_open(), j) {
            let c = j - before.len();
            let g = t.len() - c;
            let sub = all.subrange(j, j + 12);
            lemma_entry_open_shape(0);
            assert(sub == entry_open());
            assert(is_clean_line(b[b.len() - 1].0));
            assert(all[(before.len() + t.len()) as int] == '\n');
            if g == 0 {
                assert(sub[0] == all[j]);
            } else if g < 11 {
                lemma_entry_open_shape(g);
                assert(sub[g] == all[j + g]);
            } else if g > 11 {
                assert(sub[11] == all[j + 11]);
                assert(all[j + 11] == t[c + 11]);
            } else {
                let tail = t.subrange(c, t.len() as int);
                assert forall|m: int| 0 <= m < 11 implies tail[m] == entry_header()[m] by {
                    lemma_entry_open_shape(m);
                    assert(sub[m] == all[j + m]);
                    assert(all[j + m] == t[c + m]);
                }
                assert(tail =~= entry_header());
                assert(ends_with(t, entry_header()));
            }
        }
    }
}

/// A file that the editor left as the body was rendered reads back to a
/// body: the declarations of the old one, then the rest of it as
/// statements. This body renders as the old one did, character by character.
pub proof fn lemma_unchanged_file_reads_back(b: Seq<(Seq<char>, Kind)>)
    requires
        survives_editing(b),
    ensures
        edited_body(render_text(b)) == Some(read_back(b)),
        render_text(read_back(b)) == render_text(b),
{
    reveal_strlit("}\n");
    let file = render_text(b);
    let d = declarations_text(b);
    let s = statements_text(b);
    let open = entry_open();
    let close = entry_close();
    let p = d.len() as int;
    let q = file.len() - 2;
    let behind = open + s + close;
    assert(file =~= d + behind);
    assert forall|j: int| 0 <= j < p implies !occurs_at(file, open, j) by {
        lemma_no_early_entry(b, behind, j);
    }
    assert(file.subrange(p, p + open.len()) =~= open);
    lemma_first_is(file, open, 0, p);
    assert(file.len() == d.len() + open.len() + s.len() + 2);
    assert(file.subrange(q, q + 2) =~= close);
    assert(occurs_at(file, close, q));
    assert(!occurs_at(file, close, file.len() as int));
    assert(!occurs_at(file, close, file.len() - 1));
    assert(last_upto(file, close, file.len() - 1) == last_upto(file, close, q));
    assert(last_occurrence(file, close) == Some(q));
    assert(file.subrange(0, p) =~= d);
    assert(file.subrange(p + open.len(), q) =~= s);
    assert forall|k: int| 0 <= k < b.len() implies is_clean_line((#[trigger] b[k]).0) by {}
    lemma_declarations_read(b);
    lemma_statements_read(b);
    assert(edited_body(file) == Some(read_back(b)));
    lemma_read_back_texts(b);
    lemma_texts_of_concat(read_back_declarations(b), read_back_statements(b));
    assert(declarations_text(read_back(b)) =~= d);
    assert(statements_text(read_back(b)) =~= s);
}

/// An edit that changes nothing changes no program: if the editor leaves
/// the file as the body was rendered and the file builds, the session
/// reports success and its new body renders as the old one did.
pub proof fn lemma_idle_edit_keeps_the_program(
    pre: SessionView,
    post: SessionView,
    raw: Seq<char>,
    exit_ok: bool,
    r: Result<Printer, IRustError>,
)
    requires
        survives_editing(pre.body),
        resync_post(pre, post, render_text(pre.body), raw, exit_ok, r),
        verdict_of(raw, exit_ok, Kind::Statement) is Success,
    ensures
        r is Ok,
        post.body == read_back(pre.body),
        render_text(post.body) == render_text(pre.body),
{
    lemma_unchanged_file_reads_back(pre.body);
}

} // verus!
