//! What an operation hands back for display: a list of texts, each with the
//! way it is to be shown. Drawing them is the caller's business.

use vstd::prelude::*;
use vstd::string::*;

verus! {

/// A colour for a text that is shown in a way of its own.
#[derive(Clone, Copy, Debug, PartialEq, Eq, Structural)]
pub enum Tone {
    Red,
    Magenta,
}

/// The way a text is to be shown.
#[derive(Clone, Copy, Debug, PartialEq, Eq, Structural)]
pub enum PrinterItemType {
    /// The report of a success.
    Success,
    /// The report of a failure.
    Failure,
    /// The value of an expression.
    Eval,
    /// The output of a shell command.
    Shell,
    /// Program text.
    Code,
    /// A text in a given colour.
    Custom(Tone),
    /// The end of a line; the text is empty.
    NewLine,
}

/// One text with the way it is to be shown.
#[derive(Debug)]
pub struct PrinterItem {
    pub string: String,
    pub kind: PrinterItemType,
}

impl View for PrinterItem {
    type V = (Seq<char>, PrinterItemType);

    open spec fn view(&self) -> (Seq<char>, PrinterItemType) {
        (self.string@, self.kind)
    }
}

impl PrinterItem {
    pub fn new(string: String, kind: PrinterItemType) -> (r: PrinterItem)
        ensures
            r@ == (string@, kind),
    {
        PrinterItem { string, kind }
    }
}

/// The texts to show, in order.
#[derive(Debug)]
pub struct Printer {
    pub items: Vec<PrinterItem>,
}

impl View for Printer {
    type V = Seq<(Seq<char>, PrinterItemType)>;

    open spec fn view(&self) -> Seq<(Seq<char>, PrinterItemType)> {
        self.items@.map_values(|i: PrinterItem| i@)
    }
}

/// The item that ends a line.
pub open spec fn new_line() -> (Seq<char>, PrinterItemType) {
    (Seq::empty(), PrinterItemType::NewLine)
}

/// What is shown after a directive that succeeded: the word of success on a line of its own.
pub open spec fn ok_output() -> Seq<(Seq<char>, PrinterItemType)> {
    seq![("Ok!"@, PrinterItemType::Success), new_line()]
}

/// What is shown for the value of an expression: the value on a line of its
/// own, or nothing where there is no value.
pub open spec fn value_output(value: Option<Seq<char>>) -> Seq<(Seq<char>, PrinterItemType)> {
    match value {
        Some(v) => seq![(v, PrinterItemType::Eval), new_line()],
        None => Seq::empty(),
    }
}

impl Printer {
    /// Nothing to show.
    pub fn empty() -> (r: Printer)
        ensures
            r@ == Seq::<(Seq<char>, PrinterItemType)>::empty(),
    {
        let r = Printer { items: Vec::new() };
        assert(r@ =~= Seq::empty());
        r
    }

    /// One item to show.
    pub fn new(item: PrinterItem) -> (r: Printer)
        ensures
            r@ == seq![item@],
    {
        let mut items: Vec<PrinterItem> = Vec::new();
        items.push(item);
        let r = Printer { items };
        assert(r@ =~= seq![item@]);
        r
    }

    /// Ends the line.
    pub fn add_new_line(&mut self)
        ensures
            final(self)@ == old(self)@.push(new_line()),
    {
        self.items.push(PrinterItem { string: String::new(), kind: PrinterItemType::NewLine });
        assert(self@ =~= old(self)@.push(new_line()));
    }

    /// The report of a success.
    pub fn ok() -> (r: Printer)
        ensures
            r@ == ok_output(),
    {
        let mut r = Printer::new(PrinterItem::new(String::from_str("Ok!"), PrinterItemType::Success));
        r.add_new_line();
        assert(r@ =~= ok_output());
        r
    }

    /// One text on a line of its own.
    pub fn line(text: String, kind: PrinterItemType) -> (r: Printer)
        ensures
            r@ == seq![(text@, kind), new_line()],
    {
        let mut r = Printer::new(PrinterItem::new(text, kind));
        r.add_new_line();
        assert(r@ =~= seq![(text@, kind), new_line()]);
        r
    }

    pub fn len(&self) -> (n: usize)
        ensures
            n == self@.len(),
    {
        self.items.len()
    }
}

} // verus!
