//! The fragment store: the ordered body of a session, and its rendering as program text.

use crate::error::IRustError;
use vstd::prelude::*;
use vstd::string::*;

verus! {

/// What a fragment is to the program.
#[derive(Clone, Copy, Debug, PartialEq, Eq, Structural)]
pub enum Kind {
    /// An item: it stands at the top level of the program, before the entry point.
    Declaration,
    /// A statement: it stands inside the entry point, as it was written.
    Statement,
    /// An expression: inside the entry point it is closed with a terminator.
    Expression,
}

/// One accepted unit of input.
#[derive(Debug)]
pub struct Fragment {
    pub text: String,
    pub kind: Kind,
}

impl View for Fragment {
    type V = (Seq<char>, Kind);

    open spec fn view(&self) -> (Seq<char>, Kind) {
        (self.text@, self.kind)
    }
}

impl Clone for Fragment {
    fn clone(&self) -> (r: Fragment)
        ensures
            r@ == self@,
    {
        Fragment { text: self.text.clone(), kind: self.kind }
    }
}

/// The line that opens the entry point.
pub open spec fn entry_open() -> Seq<char> {
    "fn main() {\n"@
}

/// The line that closes the entry point.
pub open spec fn entry_close() -> Seq<char> {
    "}\n"@
}

/// What a fragment contributes to the top-level section.
pub open spec fn declaration_line(f: (Seq<char>, Kind)) -> Seq<char> {
    if f.1 == Kind::Declaration {
        f.0 + "\n"@
    } else {
        Seq::empty()
    }
}

/// What an accepted fragment contributes to the entry point.
pub open spec fn statement_line(f: (Seq<char>, Kind)) -> Seq<char> {
    match f.1 {
        Kind::Declaration => Seq::empty(),
        Kind::Statement => f.0 + "\n"@,
        Kind::Expression => f.0 + ";\n"@,
    }
}

/// The top-level section: the declarations, in order, one per line.
pub open spec fn declarations_text(b: Seq<(Seq<char>, Kind)>) -> Seq<char>
    decreases b.len(),
{
    if b.len() == 0 {
        Seq::empty()
    } else {
        declarations_text(b.drop_last()) + declaration_line(b.last())
    }
}

/// The inside of the entry point: all that is no declaration, in order, one per line.
pub open spec fn statements_text(b: Seq<(Seq<char>, Kind)>) -> Seq<char>
    decreases b.len(),
{
    if b.len() == 0 {
        Seq::empty()
    } else {
        statements_text(b.drop_last()) + statement_line(b.last())
    }
}

/// The program that a body stands for.
pub open spec fn render_text(b: Seq<(Seq<char>, Kind)>) -> Seq<char> {
    declarations_text(b) + entry_open() + statements_text(b) + entry_close()
}

/// The number of declarations among the fragments.
pub open spec fn count_declarations(b: Seq<(Seq<char>, Kind)>) -> nat
    decreases b.len(),
{
    if b.len() == 0 {
        0
    } else {
        count_declarations(b.drop_last()) + if b.last().1 == Kind::Declaration {
            1nat
        } else {
            0nat
        }
    }
}

/// The position of the last expression among the first `i` fragments.
pub open spec fn last_expression_before(b: Seq<(Seq<char>, Kind)>, i: int) -> Option<int>
    decreases i,
{
    if i <= 0 || i > b.len() {
        None
    } else if b[i - 1].1 == Kind::Expression {
        Some(i - 1)
    } else {
        last_expression_before(b, i - 1)
    }
}

/// The position of the expression that was accepted last: the one whose
/// value the session showed last.
pub open spec fn pending_expression(b: Seq<(Seq<char>, Kind)>) -> Option<int> {
    last_expression_before(b, b.len() as int)
}

/// The ordered collection of the fragments accepted so far.
#[derive(Debug)]
pub struct Body {
    fragments: Vec<Fragment>,
}

impl View for Body {
    type V = Seq<(Seq<char>, Kind)>;

    closed spec fn view(&self) -> Seq<(Seq<char>, Kind)> {
        self.fragments@.map_values(|f: Fragment| f@)
    }
}

impl Body {
    /// The empty body.
    pub fn new() -> (r: Body)
        ensures
            r@ == Seq::<(Seq<char>, Kind)>::empty(),
    {
        let r = Body { fragments: Vec::new() };
        assert(r@ =~= Seq::empty());
        r
    }

    pub fn len(&self) -> (n: usize)
        ensures
            n == self@.len(),
    {
        self.fragments.len()
    }

    /// The fragment at position `i`, counted from 0.
    pub fn fragment(&self, i: usize) -> (f: &Fragment)
        requires
            i < self@.len(),
        ensures
            f@ == self@[i as int],
    {
        &self.fragments[i]
    }

    /// Adds a fragment at the end.
    pub fn append(&mut self, fragment: Fragment)
        ensures
            final(self)@ == old(self)@.push(fragment@),
    {
        self.fragments.push(fragment);
        assert(self@ =~= old(self)@.push(fragment@));
    }

    /// Takes the last fragment away; an empty body stays as it is.
    pub fn pop_last(&mut self) -> (r: Result<Fragment, IRustError>)
        ensures
            old(self)@.len() == 0 ==> r is Err && r->Err_0 is EmptyStore && final(self)@ == old(self)@,
            old(self)@.len() > 0 ==> r is Ok && r->Ok_0@ == old(self)@.last() && final(self)@
                == old(self)@.drop_last(),
    {
        match self.fragments.pop() {
            Some(f) => {
                assert(self@ =~= old(self)@.drop_last());
                Ok(f)
            },
            None => Err(IRustError::EmptyStore),
        }
    }

    /// Takes away the fragment at display position `index`, counted from 1;
    /// a position that the body does not have changes nothing.
    pub fn delete(&mut self, index: usize) -> (r: Result<Fragment, IRustError>)
        ensures
            1 <= index <= old(self)@.len() ==> r is Ok && r->Ok_0@ == old(self)@[index - 1]
                && final(self)@ == old(self)@.remove(index - 1),
            !(1 <= index <= old(self)@.len()) ==> r is Err && r->Err_0 is InvalidIndex && final(self)@ == old(self)@,
    {
        if index == 0 || index > self.fragments.len() {
            return Err(IRustError::InvalidIndex);
        }
        let f = self.fragments.remove(index - 1);
        assert(self@ =~= old(self)@.remove(index - 1));
        Ok(f)
    }

    /// Takes every fragment away.
    pub fn clear(&mut self)
        ensures
            final(self)@ == Seq::<(Seq<char>, Kind)>::empty(),
    {
        self.fragments.clear();
        assert(self@ =~= Seq::empty());
    }

    /// A copy of the body that shares nothing with it.
    pub fn snapshot(&self) -> (r: Body)
        ensures
            r@ == self@,
    {
        let mut out: Vec<Fragment> = Vec::new();
        let n: usize = self.fragments.len();
        let mut i: usize = 0;
        while i < n
            invariant
                i <= n,
                n == self.fragments@.len(),
                out@.len() == i,
                forall|k: int| 0 <= k < i ==> (#[trigger] out@[k])@ == self.fragments@[k]@,
            decreases n - i,
        {
            out.push(self.fragments[i].clone());
            i += 1;
        }
        let r = Body { fragments: out };
        assert(r@ =~= self@);
        r
    }

    /// The position, counted from 0, of the expression that was accepted last.
    pub fn last_expression(&self) -> (r: Option<usize>)
        ensures
            pending_expression(self@) == match r {
                Some(i) => Some(i as int),
                None => None,
            },
            match r {
                Some(i) => i < self@.len() && self@[i as int].1 == Kind::Expression && forall|
                    j: int,
                |
                    i < j < self@.len() ==> (#[trigger] self@[j]).1 != Kind::Expression,
                None => forall|j: int|
                    0 <= j < self@.len() ==> (#[trigger] self@[j]).1 != Kind::Expression,
            },
    {
        let n: usize = self.fragments.len();
        let mut i: usize = n;
        while i > 0
            invariant
                i <= n,
                n == self@.len(),
                n == self.fragments@.len(),
                pending_expression(self@) == last_expression_before(self@, i as int),
                forall|j: int| i <= j < n ==> (#[trigger] self@[j]).1 != Kind::Expression,
            decreases i,
        {
            if self.fragments[i - 1].kind == Kind::Expression {
                return Some(i - 1);
            }
            i -= 1;
        }
        None
    }

    /// How many of the fragments are declarations.
    pub fn declaration_count(&self) -> (n: usize)
        ensures
            n == count_declarations(self@),
    {
        let len: usize = self.fragments.len();
        let mut n: usize = 0;
        let mut i: usize = 0;
        while i < len
            invariant
                i <= len,
                len == self.fragments@.len(),
                n <= i,
                n == count_declarations(self@.subrange(0, i as int)),
            decreases len - i,
        {
            assert(self@.subrange(0, i + 1).drop_last() =~= self@.subrange(0, i as int));
            if self.fragments[i].kind == Kind::Declaration {
                n += 1;
            }
            i += 1;
        }
        assert(self@.subrange(0, len as int) =~= self@);
        n
    }

    /// Appends the top-level section to `out`.
    pub(crate) fn write_declarations(&self, out: &mut String)
        ensures
            final(out)@ == old(out)@ + declarations_text(self@),
    {
        let len: usize = self.fragments.len();
        let mut i: usize = 0;
        assert(old(out)@ + declarations_text(self@.subrange(0, 0)) =~= old(out)@);
        while i < len
            invariant
                i <= len,
                len == self.fragments@.len(),
                out@ == old(out)@ + declarations_text(self@.subrange(0, i as int)),
            decreases len - i,
        {
            assert(self@.subrange(0, i + 1).drop_last() =~= self@.subrange(0, i as int));
            let ghost before = out@;
            if self.fragments[i].kind == Kind::Declaration {
                out.append(self.fragments[i].text.as_str());
                out.append("\n");
            }
            assert(out@ =~= before + declaration_line(self@[i as int]));
            i += 1;
            assert(out@ =~= old(out)@ + declarations_text(self@.subrange(0, i as int)));
        }
        assert(self@.subrange(0, len as int) =~= self@);
    }

    /// Appends the inside of the entry point to `out`.
    pub(crate) fn write_statements(&self, out: &mut String)
        ensures
            final(out)@ == old(out)@ + statements_text(self@),
    {
        let len: usize = self.fragments.len();
        let mut i: usize = 0;
        assert(old(out)@ + statements_text(self@.subrange(0, 0)) =~= old(out)@);
        while i < len
            invariant
                i <= len,
                len == self.fragments@.len(),
                out@ == old(out)@ + statements_text(self@.subrange(0, i as int)),
            decreases len - i,
        {
            assert(self@.subrange(0, i + 1).drop_last() =~= self@.subrange(0, i as int));
            let ghost before = out@;
            match self.fragments[i].kind {
                Kind::Declaration => {},
                Kind::Statement => {
                    out.append(self.fragments[i].text.as_str());
                    out.append("\n");
                },
                Kind::Expression => {
                    out.append(self.fragments[i].text.as_str());
                    out.append(";\n");
                },
            }
            assert(out@ =~= before + statement_line(self@[i as int]));
            i += 1;
            assert(out@ =~= old(out)@ + statements_text(self@.subrange(0, i as int)));
        }
        assert(self@.subrange(0, len as int) =~= self@);
    }

    /// The program that the body stands for: the declarations, then the entry
    /// point around everything else.
    pub fn render(&self) -> (r: String)
        ensures
            r@ == render_text(self@),
    {
        let mut out = String::new();
        self.write_declarations(&mut out);
        out.append("fn main() {\n");
        self.write_statements(&mut out);
        out.append("}\n");
        assert(out@ =~= render_text(self@));
        out
    }
}

} // verus!

verus! {

/// The body after the fragments were appended to it one by one, in their order.
pub open spec fn appended(body: Seq<(Seq<char>, Kind)>, fragments: Seq<(Seq<char>, Kind)>) -> Seq<
    (Seq<char>, Kind),
>
    decreases fragments.len(),
{
    if fragments.len() == 0 {
        body
    } else {
        appended(body, fragments.drop_last()).push(fragments.last())
    }
}

/// The texts as declarations.
pub open spec fn as_declarations(texts: Seq<Seq<char>>) -> Seq<(Seq<char>, Kind)> {
    texts.map_values(|t: Seq<char>| (t, Kind::Declaration))
}

/// The texts one after the other, each on a line of its own.
pub open spec fn lines_text(texts: Seq<Seq<char>>) -> Seq<char>
    decreases texts.len(),
{
    if texts.len() == 0 {
        Seq::empty()
    } else {
        lines_text(texts.drop_last()) + texts.last() + "\n"@
    }
}

/// Appending fragments one by one puts them behind the body, in their order.
pub proof fn lemma_appended(body: Seq<(Seq<char>, Kind)>, fragments: Seq<(Seq<char>, Kind)>)
    ensures
        appended(body, fragments) == body + fragments,
    decreases fragments.len(),
{
    if fragments.len() == 0 {
        assert(body + fragments =~= body);
    } else {
        lemma_appended(body, fragments.drop_last());
        assert((body + fragments.drop_last()).push(fragments.last()) =~= body + fragments);
    }
}

/// A body that was filled with declarations alone, one by one, renders as
/// exactly these declarations in their order, one per line, before an entry
/// point with nothing in it.
pub proof fn lemma_declarations_render(texts: Seq<Seq<char>>)
    ensures
        appended(Seq::empty(), as_declarations(texts)) == as_declarations(texts),
        declarations_text(as_declarations(texts)) == lines_text(texts),
        statements_text(as_declarations(texts)) == Seq::<char>::empty(),
        render_text(appended(Seq::empty(), as_declarations(texts))) == lines_text(texts)
            + entry_open() + entry_close(),
    decreases texts.len(),
{
    let body = as_declarations(texts);
    lemma_appended(Seq::empty(), body);
    assert(Seq::<(Seq<char>, Kind)>::empty() + body =~= body);
    if texts.len() == 0 {
        assert(body.len() == 0);
    } else {
        lemma_declarations_render(texts.drop_last());
        assert(body.drop_last() =~= as_declarations(texts.drop_last()));
        assert(body.last() == (texts.last(), Kind::Declaration));
        assert(declarations_text(body) =~= lines_text(texts));
        assert(statements_text(body) =~= Seq::<char>::empty());
    }
    assert(render_text(body) =~= lines_text(texts) + entry_open() + entry_close());
}

/// An empty body renders as the entry point alone, with nothing in it.
pub proof fn lemma_empty_render()
    ensures
        render_text(Seq::empty()) == entry_open() + entry_close(),
{
    assert(render_text(Seq::empty()) =~= entry_open() + entry_close());
}

/// Taking one fragment away takes exactly that one: those before it stay
/// where they were, those behind it move up by one, in their order.
pub proof fn lemma_delete_keeps_order(body: Seq<(Seq<char>, Kind)>, index: int)
    requires
        1 <= index <= body.len(),
    ensures
        body.remove(index - 1).len() == body.len() - 1,
        forall|k: int|
            0 <= k < index - 1 ==> (#[trigger] body.remove(index - 1)[k]) == body[k],
        forall|k: int|
            index - 1 <= k < body.len() - 1 ==> (#[trigger] body.remove(index - 1)[k]) == body[k
                + 1],
        body.remove(index - 1) == body.subrange(0, index - 1) + body.subrange(
            index,
            body.len() as int,
        ),
{
    assert(body.remove(index - 1) =~= body.subrange(0, index - 1) + body.subrange(
        index,
        body.len() as int,
    ));
}

} // verus!
