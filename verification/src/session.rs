//! The session controller: one input at a time is turned into a change of the
//! body, or into a request for outside work whose result decides the change.

use crate::body::{
    entry_close, entry_open, lemma_empty_render, render_text, Body, Fragment, Kind,
};
use crate::error::IRustError;
use crate::paths::home_directory;
use crate::printer::{ok_output, value_output, Printer, PrinterItem, PrinterItemType, Tone};
use crate::synth::{classify_fragment, kind_of, program_text, synthesize_as};
use crate::source::{edited_body, read_body, remove_main, without_entry_point};
use crate::text::{
    after_prefixes, contains, find_first, find_last, find_line_end, find_line_start,
    first_occurrence, has_char, last_occurrence, line_end, line_start, number_of, occurs_at,
    parse_number, remove_all, same_text, skip_prefixes, starts_with, texts, to_chars, trim,
    trimmed, without_all, words, words_of,
};
use crate::verdict::{classify, verdict_of, Verdict, VerdictView};
use vstd::prelude::*;
use vstd::string::*;

verus! {

/// A session as plain values.
pub struct SessionView {
    /// The input that waits to be parsed.
    pub buffer: Seq<char>,
    /// The accepted fragments, in order.
    pub body: Seq<(Seq<char>, Kind)>,
    /// The recorded dependency specifiers, in order.
    pub dependencies: Seq<Seq<char>>,
    /// The path of the file that was loaded last.
    pub last_loaded: Option<Seq<char>>,
}

/// The session: the input buffer, the body, and what was recorded beside it.
#[derive(Debug)]
pub struct IRust {
    buffer: String,
    repl: Body,
    dependencies: Vec<String>,
    last_loaded: Option<String>,
}

impl View for IRust {
    type V = SessionView;

    closed spec fn view(&self) -> SessionView {
        SessionView {
            buffer: self.buffer@,
            body: self.repl@,
            dependencies: texts(self.dependencies@),
            last_loaded: match self.last_loaded {
                Some(p) => Some(p@),
                None => None,
            },
        }
    }
}

/// Outside work that the caller is asked to do; each names the function that
/// takes the result.
#[derive(Debug)]
pub enum Request {
    /// Write the program to the working file and build it; `IRust::conclude`
    /// takes the outcome together with the fragment.
    Build { fragment: Fragment, program: String },
    /// Write the program to the working file, build and run it; `IRust::conclude`
    /// takes the outcome together with the fragment.
    Run { fragment: Fragment, program: String },
    /// Run the toolchain on this throwaway program; `type_from` takes the output.
    Probe { program: String },
    /// Make those specifiers absolute that are paths; `IRust::record_dependencies`
    /// takes the specifiers and the absolute forms.
    Resolve { specs: Vec<String> },
    /// Add the specifiers to the manifest, then write and build the program;
    /// `report_build` takes the output.
    Rebuild { specs: Vec<String>, program: String },
    /// Read and format the file; `IRust::load_source` takes its text.
    Load { path: String },
    /// Write the program of a loaded file to the working file and build it;
    /// `IRust::finish_load` takes the outcome together with the fragment.
    BuildLoaded { fragment: Fragment, program: String },
    /// Write the program to the working file, format it if asked, and let the
    /// editor work on it; `IRust::resync` takes the file's text and the output
    /// of a build, `IRust::abandon_edit` the cause where there is neither.
    Edit { editor: String, program: String, format: bool },
    /// Run the command with its arguments, and show its output.
    Shell { words: Vec<String> },
    /// Change the working directory, and show the new one.
    ChangeDir { target: DirTarget },
    /// Show the help text.
    Help,
}

/// Where a change of directory leads.
#[derive(Debug)]
pub enum DirTarget {
    /// The user's home directory.
    Home(std::path::PathBuf),
    /// Nowhere: home was asked for, and the user has none.
    Stay,
    /// The directory that was left last.
    Previous,
    /// A path, taken from the current directory.
    Path(String),
}

/// What one input led to: a result, or outside work to be done first.
#[derive(Debug)]
pub enum Step {
    Done(Result<Printer, IRustError>),
    Ask(Request),
}

/// The session after `reset`: the body is empty, the rest as before.
pub open spec fn reset_post(pre: SessionView, post: SessionView, r: Result<Printer, IRustError>) -> bool {
    &&& post == SessionView { body: Seq::empty(), ..pre }
    &&& r matches Ok(p) && p@ == ok_output()
}

/// The session after `pop`: the last fragment is gone; an empty body is reported and stays.
pub open spec fn pop_post(pre: SessionView, post: SessionView, r: Result<Printer, IRustError>) -> bool {
    if pre.body.len() == 0 {
        &&& post == pre
        &&& r matches Err(e) && e is EmptyStore
    } else {
        &&& post == SessionView { body: pre.body.drop_last(), ..pre }
        &&& r matches Ok(p) && p@ == ok_output()
    }
}

/// The display position that a deletion names: the number that the last
/// word behind the directive writes.
pub open spec fn del_target(buffer: Seq<char>) -> Option<nat> {
    if words_of(buffer).len() < 2 {
        None
    } else {
        number_of(words_of(buffer).last())
    }
}

/// The session after `del`: the fragment at the named position, counted from
/// 1, is gone and the others keep their order. A directive without a word
/// behind it lacks its argument; a word that names no position of the body
/// is an invalid index. Either is reported and changes nothing.
pub open spec fn del_post(pre: SessionView, post: SessionView, r: Result<Printer, IRustError>) -> bool {
    if words_of(pre.buffer).len() < 2 {
        &&& post == pre
        &&& r matches Err(e) && e is MissingArgument
    } else {
        match del_target(pre.buffer) {
            Some(n) if 1 <= n <= pre.body.len() => {
                &&& post == SessionView { body: pre.body.remove(n - 1), ..pre }
                &&& r matches Ok(p) && p@ == ok_output()
            },
            _ => {
                &&& post == pre
                &&& r matches Err(e) && e is InvalidIndex
            },
        }
    }
}

/// What `show` hands back: the rendered body as one item of program text.
pub open spec fn show_post(pre: SessionView, r: Result<Printer, IRustError>) -> bool {
    r matches Ok(p) && p@ == seq![(render_text(pre.body), PrinterItemType::Code)]
}

/// The text of the banner.
pub open spec fn banner_text() -> Seq<char> {
    "IRust: an interactive Rust session"@
}

/// What `irust` hands back: the banner, in red.
pub open spec fn irust_post(r: Result<Printer, IRustError>) -> bool {
    r matches Ok(p) && p@ == seq![(banner_text(), PrinterItemType::Custom(Tone::Red))]
}

/// What a source fragment leads to: nothing for blank input; else a request
/// to probe the body with the input as candidate, run for an expression and
/// only built for anything else.
pub open spec fn fragment_post(pre: SessionView, r: Step) -> bool {
    match kind_of(pre.buffer) {
        None => r matches Step::Done(Ok(p)) && p@ == Seq::<(Seq<char>, PrinterItemType)>::empty(),
        Some(Kind::Expression) => r matches Step::Ask(Request::Run { fragment, program })
            && fragment@ == (pre.buffer, Kind::Expression) && program@ == program_text(
            pre.body,
            pre.buffer,
            Kind::Expression,
        ),
        Some(kind) => r matches Step::Ask(Request::Build { fragment, program }) && fragment@ == (
            pre.buffer,
            kind,
        ) && program@ == program_text(pre.body, pre.buffer, kind),
    }
}

/// The session after the toolchain has judged a candidate: on success the
/// fragment is the last of the body and its value, if any, is shown; on any
/// failure the session is what it was and the toolchain's text is reported.
pub open spec fn commit_post(
    pre: SessionView,
    post: SessionView,
    fragment: (Seq<char>, Kind),
    raw: Seq<char>,
    exit_ok: bool,
    r: Result<Printer, IRustError>,
) -> bool {
    match verdict_of(raw, exit_ok, fragment.1) {
        VerdictView::CompileError(t) => {
            &&& post == pre
            &&& r matches Err(IRustError::CompileError(e)) && e@ == t
        },
        VerdictView::RuntimeFailure(t) => {
            &&& post == pre
            &&& r matches Err(IRustError::RuntimeFailure(e)) && e@ == t
        },
        VerdictView::Success(v) => {
            &&& post == SessionView { body: pre.body.push(fragment), ..pre }
            &&& r matches Ok(p) && p@ == value_output(v)
        },
    }
}

impl IRust {
    /// A session with nothing in it.
    pub fn new() -> (r: IRust)
        ensures
            r@ == (SessionView {
                buffer: Seq::empty(),
                body: Seq::empty(),
                dependencies: Seq::empty(),
                last_loaded: None,
            }),
    {
        let r = IRust {
            buffer: String::new(),
            repl: Body::new(),
            dependencies: Vec::new(),
            last_loaded: None,
        };
        assert(texts(r.dependencies@) =~= Seq::empty());
        r
    }

    /// Puts an input into the buffer, in place of what was there.
    pub fn set_buffer(&mut self, input: &str)
        ensures
            final(self)@ == (SessionView { buffer: input@, ..old(self)@ }),
    {
        self.buffer = String::from_str(input);
    }

    /// The body.
    pub fn body(&self) -> (b: &Body)
        ensures
            b@ == self@.body,
    {
        &self.repl
    }

    /// The recorded dependency specifiers.
    pub fn dependencies(&self) -> (d: &Vec<String>)
        ensures
            texts(d@) == self@.dependencies,
    {
        &self.dependencies
    }

    /// Empties the body.
    pub fn reset(&mut self) -> (r: Result<Printer, IRustError>)
        ensures
            reset_post(old(self)@, final(self)@, r),
    {
        self.repl.clear();
        Ok(Printer::ok())
    }

    /// Takes the last fragment away.
    pub fn pop(&mut self) -> (r: Result<Printer, IRustError>)
        ensures
            pop_post(old(self)@, final(self)@, r),
    {
        match self.repl.pop_last() {
            Ok(_) => Ok(Printer::ok()),
            Err(e) => Err(e),
        }
    }

    /// Takes away the fragment whose display position the last word behind the directive names.
    pub fn del(&mut self) -> (r: Result<Printer, IRustError>)
        ensures
            del_post(old(self)@, final(self)@, r),
    {
        let ws = words(self.buffer.as_str());
        let n: usize = ws.len();
        assert(texts(ws@).len() == n);
        if n < 2 {
            return Err(IRustError::MissingArgument);
        }
        assert(texts(ws@)[n - 1] == ws@[n - 1]@);
        match parse_number(ws[n - 1].as_str(), self.repl.len()) {
            Some(index) => match self.repl.delete(index) {
                Ok(_) => Ok(Printer::ok()),
                Err(e) => Err(e),
            },
            None => Err(IRustError::InvalidIndex),
        }
    }

    /// Renders the body for display.
    pub fn show(&self) -> (r: Result<Printer, IRustError>)
        ensures
            show_post(self@, r),
    {
        Ok(Printer::new(PrinterItem::new(self.repl.render(), PrinterItemType::Code)))
    }

    /// The banner.
    pub fn irust(&self) -> (r: Result<Printer, IRustError>)
        ensures
            irust_post(r),
    {
        Ok(
            Printer::new(
                PrinterItem::new(
                    String::from_str("IRust: an interactive Rust session"),
                    PrinterItemType::Custom(Tone::Red),
                ),
            ),
        )
    }

    /// Takes the input as a source fragment: decides its kind and asks for
    /// the probe of the body with it. The session itself is not changed
    /// before the toolchain has judged the candidate.
    pub fn parse_second_order(&self) -> (r: Step)
        ensures
            fragment_post(self@, r),
    {
        match classify_fragment(self.buffer.as_str()) {
            None => Step::Done(Ok(Printer::empty())),
            Some(kind) => {
                let program = synthesize_as(&self.repl, self.buffer.as_str(), kind);
                let fragment = Fragment { text: self.buffer.clone(), kind };
                match kind {
                    Kind::Expression => Step::Ask(Request::Run { fragment, program }),
                    _ => Step::Ask(Request::Build { fragment, program }),
                }
            },
        }
    }

    /// Ends the probe of a candidate: `raw` is what the toolchain printed,
    /// `exit_ok` says that it ended normally. The fragment enters the body
    /// only on success.
    pub fn commit(&mut self, fragment: Fragment, raw: &str, exit_ok: bool) -> (r: Result<
        Printer,
        IRustError,
    >)
        ensures
            commit_post(old(self)@, final(self)@, fragment@, raw@, exit_ok, r),
    {
        match classify(raw, exit_ok, fragment.kind) {
            Verdict::CompileError(t) => Err(IRustError::CompileError(t)),
            Verdict::RuntimeFailure(t) => Err(IRustError::RuntimeFailure(t)),
            Verdict::Success(value) => {
                self.repl.append(fragment);
                match value {
                    Some(v) => Ok(Printer::line(v, PrinterItemType::Eval)),
                    None => Ok(Printer::empty()),
                }
            },
        }
    }
}

} // verus!

verus! {

/// The expression whose type is asked for: the input behind its directive.
pub open spec fn type_subject(buffer: Seq<char>) -> Seq<char> {
    buffer.subrange(after_prefixes(buffer, ":type"@, 0), buffer.len() as int)
}

/// The statement that binds the expression to the unit type, so that the
/// toolchain's complaint names the type it has.
pub open spec fn type_probe(subject: Seq<char>) -> Seq<char> {
    "let _: () = {"@ + subject + "};"@
}

/// What a type query leads to: a request to run a throwaway program, the
/// body with the probing statement at its end.
pub open spec fn type_query_post(pre: SessionView, r: Step) -> bool {
    r matches Step::Ask(Request::Probe { program }) && program@ == render_text(
        pre.body.push((type_probe(type_subject(pre.buffer)), Kind::Statement)),
    )
}

/// The phrase by which the toolchain names the type it found in place of the unit type.
pub open spec fn found_phrase() -> Seq<char> {
    "expected `()`, found "@
}

/// The phrase of a build that had nothing to complain about.
pub open spec fn built_phrase() -> Seq<char> {
    "dev [unoptimized + debuginfo]"@
}

/// The line that holds position `i`, without the line feed that ends it and
/// without a carriage return before that line feed.
pub open spec fn line_at(raw: Seq<char>, i: int) -> Seq<char> {
    let from = line_start(raw, i);
    let to = line_end(raw, i);
    if from < to < raw.len() && raw[to - 1] == '\r' {
        raw.subrange(from, to - 1)
    } else {
        raw.subrange(from, to)
    }
}

/// The type that a line of the diagnostics names: what follows its last
/// `found `, or the whole line where it holds none.
pub open spec fn type_in_line(line: Seq<char>) -> Seq<char> {
    match last_occurrence(line, "found "@) {
        Some(q) => line.subrange(q + "found "@.len(), line.len() as int),
        None => line,
    }
}

/// The type that the diagnostics name: where the phrase of a mismatch
/// stands, the type named in the last line that holds `found`, which is the
/// line of the last `found` of the output; the unit type where the build
/// went through; none otherwise.
pub open spec fn inferred_type(raw: Seq<char>) -> Option<Seq<char>> {
    if contains(raw, found_phrase()) {
        match last_occurrence(raw, "found"@) {
            Some(i) => Some(type_in_line(line_at(raw, i))),
            None => None,
        }
    } else if contains(raw, built_phrase()) {
        Some("()"@)
    } else {
        None
    }
}

/// Reads the type of the probed expression off the toolchain's output.
pub fn type_from(raw: &str) -> (r: Result<Printer, IRustError>)
    ensures
        match inferred_type(raw@) {
            Some(t) => r matches Ok(p) && p@ == seq![(t, PrinterItemType::Success)],
            None => r matches Err(e) && e is UnknownType,
        },
{
    let v = to_chars(raw);
    let phrase = to_chars("expected `()`, found ");
    let built = to_chars("dev [unoptimized + debuginfo]");
    let found = to_chars("found");
    let found_before = to_chars("found ");
    if find_first(&v, &phrase).is_some() {
        match find_last(&v, &found) {
            Some(i) => {
                let n: usize = v.len();
                assert(occurs_at(v@, found@, i as int));
                let from: usize = find_line_start(&v, i);
                let end: usize = find_line_end(&v, i);
                let to: usize = if from < end && end < n && v[end - 1] == '\r' {
                    end - 1
                } else {
                    end
                };
                let line = raw.substring_char(from, to);
                let l = to_chars(line);
                let len: usize = l.len();
                let name = match find_last(&l, &found_before) {
                    Some(q) => {
                        assert(occurs_at(l@, found_before@, q as int));
                        String::from_str(line.substring_char(q + found_before.len(), len))
                    },
                    None => String::from_str(line),
                };
                Ok(Printer::new(PrinterItem::new(name, PrinterItemType::Success)))
            },
            None => Err(IRustError::UnknownType),
        }
    } else if find_first(&v, &built).is_some() {
        Ok(Printer::new(PrinterItem::new(String::from_str("()"), PrinterItemType::Success)))
    } else {
        Err(IRustError::UnknownType)
    }
}

/// What the toolchain's output says of a build on which nothing depends but the report.
pub fn report_build(raw: &str, exit_ok: bool) -> (r: Result<Printer, IRustError>)
    ensures
        match verdict_of(raw@, exit_ok, Kind::Declaration) {
            VerdictView::CompileError(t) => r matches Err(IRustError::CompileError(e)) && e@ == t,
            VerdictView::RuntimeFailure(t) => r matches Err(IRustError::RuntimeFailure(e)) && e@
                == t,
            VerdictView::Success(_) => r matches Ok(p) && p@ == ok_output(),
        },
{
    match classify(raw, exit_ok, Kind::Declaration) {
        Verdict::CompileError(t) => Err(IRustError::CompileError(t)),
        Verdict::RuntimeFailure(t) => Err(IRustError::RuntimeFailure(t)),
        Verdict::Success(_) => Ok(Printer::ok()),
    }
}

/// The words of the input behind the first.
pub open spec fn arguments(buffer: Seq<char>) -> Seq<Seq<char>> {
    if words_of(buffer).len() == 0 {
        Seq::empty()
    } else {
        words_of(buffer).subrange(1, words_of(buffer).len() as int)
    }
}

/// What a dependency directive leads to: a request to make its specifiers absolute.
pub open spec fn add_post(pre: SessionView, r: Step) -> bool {
    r matches Step::Ask(Request::Resolve { specs }) && texts(specs@) == arguments(pre.buffer)
}

/// A specifier is a path if it holds a slash.
pub open spec fn is_path(spec: Seq<char>) -> bool {
    spec.contains('/')
}

/// The absolute form that was handed in for the specifier at position `i`, if any.
pub open spec fn canonical_at(canonical: Seq<Option<String>>, i: int) -> Option<Seq<char>> {
    if 0 <= i < canonical.len() {
        match canonical[i] {
            Some(c) => Some(c@),
            None => None,
        }
    } else {
        None
    }
}

/// What is recorded for a specifier: for a path its absolute form, for any other the specifier.
pub open spec fn normal_form(spec: Seq<char>, canonical: Option<Seq<char>>) -> Option<Seq<char>> {
    if is_path(spec) {
        canonical
    } else {
        Some(spec)
    }
}

/// Every path among the specifiers has an absolute form.
pub open spec fn all_resolved(specs: Seq<String>, canonical: Seq<Option<String>>) -> bool {
    forall|i: int|
        0 <= i < specs.len() ==> (#[trigger] normal_form(specs[i]@, canonical_at(canonical, i)))
            is Some
}

/// What is recorded for the specifiers, in their order.
pub open spec fn normalized(specs: Seq<String>, canonical: Seq<Option<String>>) -> Seq<Seq<char>> {
    Seq::new(specs.len(), |i: int| normal_form(specs[i]@, canonical_at(canonical, i)).unwrap())
}

/// The session after dependencies were handed in: if every path has an
/// absolute form, all are recorded behind the earlier ones, each path in its
/// absolute form, and a rebuild of the body is asked for; else nothing is recorded.
pub open spec fn record_post(
    pre: SessionView,
    post: SessionView,
    specs: Seq<String>,
    canonical: Seq<Option<String>>,
    r: Step,
) -> bool {
    if all_resolved(specs, canonical) {
        &&& post == SessionView {
            dependencies: pre.dependencies + normalized(specs, canonical),
            ..pre
        }
        &&& r matches Step::Ask(Request::Rebuild { specs: recorded, program }) && texts(recorded@)
            == normalized(specs, canonical) && program@ == render_text(pre.body)
    } else {
        &&& post == pre
        &&& r matches Step::Done(Err(e)) && e is InvalidDependencyPath
    }
}

/// The session after a file was named for loading: the path is remembered,
/// the body is empty, and the file's text is asked for.
pub open spec fn load_inner_post(pre: SessionView, post: SessionView, path: Seq<char>, r: Step) -> bool {
    &&& post == SessionView { body: Seq::empty(), last_loaded: Some(path), ..pre }
    &&& r matches Step::Ask(Request::Load { path: p }) && p@ == path
}

/// The session after `load`: the second word of the input is the path; without one nothing happens.
pub open spec fn load_post(pre: SessionView, post: SessionView, r: Step) -> bool {
    if words_of(pre.buffer).len() < 2 {
        &&& post == pre
        &&& r matches Step::Done(Err(e)) && e is MissingArgument
    } else {
        load_inner_post(pre, post, words_of(pre.buffer)[1], r)
    }
}

/// The session after `reload`: the path is the one remembered; without one nothing happens.
pub open spec fn reload_post(pre: SessionView, post: SessionView, r: Step) -> bool {
    match pre.last_loaded {
        None => {
            &&& post == pre
            &&& r matches Step::Done(Err(e)) && e is MissingArgument
        },
        Some(path) => load_inner_post(pre, post, path, r),
    }
}

/// What the text of a loaded file leads to: a request to build it, without
/// its entry point, as the one statement of a body that holds nothing else.
pub open spec fn load_source_post(code: Seq<char>, r: Step) -> bool {
    r matches Step::Ask(Request::BuildLoaded { fragment, program }) && fragment@ == (
        without_entry_point(code),
        Kind::Statement,
    ) && program@ == program_text(Seq::empty(), without_entry_point(code), Kind::Statement)
}

/// The session after a load has ended: if the file's text was built, it is
/// the one fragment of the body and the success is reported; else the body
/// is empty and the failure is reported. Nothing of the body before the
/// load is left either way.
pub open spec fn finish_load_post(
    pre: SessionView,
    post: SessionView,
    fragment: (Seq<char>, Kind),
    outcome: Outcome,
    r: Result<Printer, IRustError>,
) -> bool {
    match outcome {
        Outcome::Unavailable => {
            &&& post == SessionView { body: Seq::empty(), ..pre }
            &&& r matches Err(e) && e is ToolchainUnavailable
        },
        Outcome::Output { raw, exit_ok } => match verdict_of(raw@, exit_ok, fragment.1) {
            VerdictView::CompileError(t) => {
                &&& post == SessionView { body: Seq::empty(), ..pre }
                &&& r matches Err(IRustError::CompileError(e)) && e@ == t
            },
            VerdictView::RuntimeFailure(t) => {
                &&& post == SessionView { body: Seq::empty(), ..pre }
                &&& r matches Err(IRustError::RuntimeFailure(e)) && e@ == t
            },
            VerdictView::Success(_) => {
                &&& post == SessionView { body: seq![fragment], ..pre }
                &&& r matches Ok(p) && p@ == ok_output()
            },
        },
    }
}

/// The words of a shell directive: those of the input behind its two colons.
pub open spec fn shell_words(buffer: Seq<char>) -> Seq<Seq<char>> {
    if buffer.len() >= 2 {
        words_of(buffer.subrange(2, buffer.len() as int))
    } else {
        Seq::empty()
    }
}

/// What a shell directive leads to: a request to run its words as a command.
pub open spec fn shell_post(pre: SessionView, r: Step) -> bool {
    r matches Step::Ask(Request::Shell { words: w }) && texts(w@) == shell_words(pre.buffer)
}

/// The argument of a change of directory: what follows the first `:cd` of
/// the input, without any further `:cd`, trimmed; nothing where the input
/// holds no `:cd`.
pub open spec fn cd_argument(buffer: Seq<char>) -> Seq<char> {
    match first_occurrence(buffer, ":cd"@) {
        Some(p) => trimmed(without_all(buffer, ":cd"@, p + ":cd"@.len())),
        None => Seq::empty(),
    }
}

/// Where an argument leads, `home` being the user's home directory: home
/// without an argument, or nowhere if there is no home; the directory left
/// last for a dash; else the path given.
pub open spec fn target_of(
    argument: Seq<char>,
    home: Option<std::path::PathBuf>,
    target: DirTarget,
) -> bool {
    if argument.len() == 0 {
        match home {
            Some(h) => target == DirTarget::Home(h),
            None => target is Stay,
        }
    } else if argument == "-"@ {
        target is Previous
    } else {
        target matches DirTarget::Path(p) && p@ == argument
    }
}

/// What a change of directory leads to: the target of its argument. Which
/// home directory there is, if any, is for the system to say.
pub open spec fn cd_post(pre: SessionView, r: Step) -> bool {
    r matches Step::Ask(Request::ChangeDir { target }) && (if cd_argument(pre.buffer).len() == 0 {
        target is Home || target is Stay
    } else {
        target_of(cd_argument(pre.buffer), None, target)
    })
}

/// Decides where an argument leads, `home` being the user's home directory.
pub fn cd_target(argument: String, home: Option<std::path::PathBuf>) -> (target: DirTarget)
    ensures
        target_of(argument@, home, target),
{
    let a = to_chars(argument.as_str());
    if a.len() == 0 {
        match home {
            Some(h) => DirTarget::Home(h),
            None => DirTarget::Stay,
        }
    } else if same_text(&a, "-") {
        DirTarget::Previous
    } else {
        DirTarget::Path(argument)
    }
}

/// What the toolchain driver hands back for one cycle.
#[derive(Debug)]
pub enum Outcome {
    /// The toolchain could not be launched.
    Unavailable,
    /// The toolchain ran: all that it printed, and whether it ended normally.
    Output { raw: String, exit_ok: bool },
}

impl Outcome {
    /// What the toolchain printed and whether it ended normally; that it
    /// could not be launched is a failure of its own kind.
    pub fn output(self) -> (r: Result<(String, bool), IRustError>)
        ensures
            match self {
                Outcome::Unavailable => r matches Err(e) && e is ToolchainUnavailable,
                Outcome::Output { raw, exit_ok } => r matches Ok(o) && o.0@ == raw@ && o.1
                    == exit_ok,
            },
    {
        match self {
            Outcome::Unavailable => Err(IRustError::ToolchainUnavailable),
            Outcome::Output { raw, exit_ok } => Ok((raw, exit_ok)),
        }
    }
}

/// The session after a cycle on a candidate: without a toolchain nothing
/// changes and that is reported; else the toolchain's output decides.
pub open spec fn conclude_post(
    pre: SessionView,
    post: SessionView,
    fragment: (Seq<char>, Kind),
    outcome: Outcome,
    r: Result<Printer, IRustError>,
) -> bool {
    match outcome {
        Outcome::Unavailable => {
            &&& post == pre
            &&& r matches Err(e) && e is ToolchainUnavailable
        },
        Outcome::Output { raw, exit_ok } => commit_post(pre, post, fragment, raw@, exit_ok, r),
    }
}

/// What an edit directive leads to: the second word of the input is the
/// editor, which is to work on the rendered body; the file is formatted
/// first unless the body is empty. Without an editor nothing happens.
pub open spec fn edit_post(pre: SessionView, r: Step) -> bool {
    if words_of(pre.buffer).len() < 2 {
        r matches Step::Done(Err(e)) && e is MissingArgument
    } else {
        r matches Step::Ask(Request::Edit { editor, program, format }) && editor@ == words_of(
            pre.buffer,
        )[1] && program@ == render_text(pre.body) && format == (pre.body.len() > 0)
    }
}

/// What is said of an edited file that stands for no body.
pub open spec fn no_entry_point() -> Seq<char> {
    "the edited file holds no entry point"@
}

/// The session after an edit: if the edited file builds and stands for a
/// body, that is the body; else the body is empty. Never is anything left
/// of the body as it was before.
pub open spec fn resync_post(
    pre: SessionView,
    post: SessionView,
    edited: Seq<char>,
    raw: Seq<char>,
    exit_ok: bool,
    r: Result<Printer, IRustError>,
) -> bool {
    match verdict_of(raw, exit_ok, Kind::Statement) {
        VerdictView::CompileError(t) => {
            &&& post == SessionView { body: Seq::empty(), ..pre }
            &&& r matches Err(IRustError::CompileError(e)) && e@ == t
        },
        VerdictView::RuntimeFailure(t) => {
            &&& post == SessionView { body: Seq::empty(), ..pre }
            &&& r matches Err(IRustError::RuntimeFailure(e)) && e@ == t
        },
        VerdictView::Success(_) => match edited_body(edited) {
            Some(b) => {
                &&& post == SessionView { body: b, ..pre }
                &&& r matches Ok(p) && p@ == ok_output()
            },
            None => {
                &&& post == SessionView { body: Seq::empty(), ..pre }
                &&& r matches Err(IRustError::IoFailure(e)) && e@ == no_entry_point()
            },
        },
    }
}

/// Decides whether a dependency specifier is a path.
pub fn is_path_form(spec: &str) -> (r: bool)
    ensures
        r == is_path(spec@),
{
    has_char(spec, '/')
}

impl IRust {
    /// Asks for the type of the expression behind the directive. The probe
    /// is made on a copy of the body that is dropped at once: the body is
    /// not touched.
    pub fn show_type(&self) -> (r: Step)
        ensures
            type_query_post(self@, r),
    {
        let v = to_chars(self.buffer.as_str());
        let k: usize = skip_prefixes(&v, ":type");
        let subject = self.buffer.as_str().substring_char(k, v.len());
        let mut statement = String::from_str("let _: () = {");
        statement.append(subject);
        statement.append("};");
        let mut shadow = self.repl.snapshot();
        shadow.append(Fragment { text: statement, kind: Kind::Statement });
        Step::Ask(Request::Probe { program: shadow.render() })
    }

    /// Takes the words behind the directive as dependency specifiers.
    pub fn add_dep(&self) -> (r: Step)
        ensures
            add_post(self@, r),
    {
        let ws = words(self.buffer.as_str());
        let n: usize = ws.len();
        assert(texts(ws@).len() == n);
        let mut specs: Vec<String> = Vec::new();
        if n == 0 {
            assert(texts(specs@) =~= arguments(self@.buffer));
            return Step::Ask(Request::Resolve { specs });
        }
        let mut i: usize = 1;
        while i < n
            invariant
                1 <= i <= n,
                n == ws@.len(),
                specs@.len() == i - 1,
                forall|k: int| 0 <= k < i - 1 ==> (#[trigger] specs@[k])@ == ws@[k + 1]@,
            decreases n - i,
        {
            specs.push(ws[i].clone());
            i += 1;
        }
        assert(texts(specs@) =~= texts(ws@).subrange(1, n as int));
        Step::Ask(Request::Resolve { specs })
    }

    /// Records dependencies. `canonical` holds, at the position of each
    /// specifier that is a path, its absolute form, or `None` where none
    /// could be had; at the other positions it is not read.
    pub fn record_dependencies(&mut self, specs: Vec<String>, canonical: Vec<Option<String>>) -> (r:
        Step)
        ensures
            record_post(old(self)@, final(self)@, specs@, canonical@, r),
    {
        let n: usize = specs.len();
        let mut recorded: Vec<String> = Vec::new();
        let mut copy: Vec<String> = Vec::new();
        let mut i: usize = 0;
        while i < n
            invariant
                i <= n,
                n == specs@.len(),
                recorded@.len() == i,
                copy@.len() == i,
                forall|k: int|
                    0 <= k < i ==> normal_form(specs@[k]@, canonical_at(canonical@, k)) == Some(
                        (#[trigger] recorded@[k])@,
                    ),
                forall|k: int| 0 <= k < i ==> (#[trigger] copy@[k])@ == recorded@[k]@,
            decreases n - i,
        {
            if is_path_form(specs[i].as_str()) {
                if i < canonical.len() {
                    match &canonical[i] {
                        Some(c) => {
                            recorded.push(c.clone());
                            copy.push(c.clone());
                        },
                        None => {
                            assert(normal_form(specs@[i as int]@, canonical_at(canonical@, i as int))
                                is None);
                            return Step::Done(Err(IRustError::InvalidDependencyPath));
                        },
                    }
                } else {
                    assert(normal_form(specs@[i as int]@, canonical_at(canonical@, i as int))
                        is None);
                    return Step::Done(Err(IRustError::InvalidDependencyPath));
                }
            } else {
                recorded.push(specs[i].clone());
                copy.push(specs[i].clone());
            }
            i += 1;
        }
        assert forall|k: int| 0 <= k < specs@.len() implies (#[trigger] normal_form(
            specs@[k]@,
            canonical_at(canonical@, k),
        )) is Some by {
            assert(normal_form(specs@[k]@, canonical_at(canonical@, k)) == Some(recorded@[k]@));
        }
        assert(texts(recorded@) =~= normalized(specs@, canonical@));
        assert(texts(copy@) =~= normalized(specs@, canonical@));
        let ghost before = self.dependencies@;
        self.dependencies.append(&mut copy);
        assert(texts(self.dependencies@) =~= texts(before) + normalized(specs@, canonical@));
        Step::Ask(Request::Rebuild { specs: recorded, program: self.repl.render() })
    }

    /// Names the file behind the directive for loading.
    pub fn load(&mut self) -> (r: Step)
        ensures
            load_post(old(self)@, final(self)@, r),
    {
        let ws = words(self.buffer.as_str());
        assert(texts(ws@).len() == ws@.len());
        if ws.len() < 2 {
            return Step::Done(Err(IRustError::MissingArgument));
        }
        assert(texts(ws@)[1] == ws@[1]@);
        self.load_inner(ws[1].clone())
    }

    /// Names the file that was loaded last for loading again.
    pub fn reload(&mut self) -> (r: Step)
        ensures
            reload_post(old(self)@, final(self)@, r),
    {
        let path = match &self.last_loaded {
            Some(p) => p.clone(),
            None => { return Step::Done(Err(IRustError::MissingArgument)); },
        };
        self.load_inner(path)
    }

    /// Remembers the path, empties the body, and asks for the file's text.
    /// The body is emptied before anything is known of the file: if the
    /// file cannot be read or built, the body stays empty.
    pub fn load_inner(&mut self, path: String) -> (r: Step)
        ensures
            load_inner_post(old(self)@, final(self)@, path@, r),
    {
        self.last_loaded = Some(path.clone());
        self.repl.clear();
        Step::Ask(Request::Load { path })
    }

    /// Takes the text of the loaded file, formatted, and asks for its build.
    pub fn load_source(&self, code: &str) -> (r: Step)
        ensures
            load_source_post(code@, r),
    {
        let text = remove_main(code);
        let program = synthesize_as(&Body::new(), text.as_str(), Kind::Statement);
        Step::Ask(
            Request::BuildLoaded { fragment: Fragment { text, kind: Kind::Statement }, program },
        )
    }

    /// Ends a load with what the toolchain driver handed back for the file's text.
    pub fn finish_load(&mut self, fragment: Fragment, outcome: Outcome) -> (r: Result<
        Printer,
        IRustError,
    >)
        ensures
            finish_load_post(old(self)@, final(self)@, fragment@, outcome, r),
    {
        self.repl.clear();
        match outcome {
            Outcome::Unavailable => Err(IRustError::ToolchainUnavailable),
            Outcome::Output { raw, exit_ok } => match classify(
                raw.as_str(),
                exit_ok,
                fragment.kind,
            ) {
                Verdict::CompileError(t) => Err(IRustError::CompileError(t)),
                Verdict::RuntimeFailure(t) => Err(IRustError::RuntimeFailure(t)),
                Verdict::Success(_) => {
                    self.repl.append(fragment);
                    assert(self.repl@ =~= seq![fragment@]);
                    Ok(Printer::ok())
                },
            },
        }
    }

    /// Takes the input behind the two colons as a shell command.
    pub fn run_cmd(&self) -> (r: Step)
        ensures
            shell_post(self@, r),
    {
        let n: usize = self.buffer.as_str().unicode_len();
        if n < 2 {
            let w: Vec<String> = Vec::new();
            assert(texts(w@) =~= Seq::empty());
            return Step::Ask(Request::Shell { words: w });
        }
        Step::Ask(Request::Shell { words: words(self.buffer.as_str().substring_char(2, n)) })
    }

    /// Decides where a change of directory leads.
    pub fn cd(&self) -> (r: Step)
        ensures
            cd_post(self@, r),
    {
        let v = to_chars(self.buffer.as_str());
        let n: usize = v.len();
        let mark = to_chars(":cd");
        let argument = match find_first(&v, &mark) {
            Some(p) => {
                assert(occurs_at(v@, mark@, p as int));
                let rest = remove_all(self.buffer.as_str(), ":cd", p + mark.len());
                trim(rest.as_str())
            },
            None => String::new(),
        };
        let home = if argument.as_str().unicode_len() == 0 {
            home_directory()
        } else {
            None
        };
        Step::Ask(Request::ChangeDir { target: cd_target(argument, home) })
    }

    /// Ends the cycle on a candidate with what the toolchain driver handed back.
    pub fn conclude(&mut self, fragment: Fragment, outcome: Outcome) -> (r: Result<
        Printer,
        IRustError,
    >)
        ensures
            conclude_post(old(self)@, final(self)@, fragment@, outcome, r),
    {
        match outcome {
            Outcome::Unavailable => Err(IRustError::ToolchainUnavailable),
            Outcome::Output { raw, exit_ok } => self.commit(fragment, raw.as_str(), exit_ok),
        }
    }

    /// Hands the rendered body to the editor named behind the directive.
    pub fn extern_edit(&self) -> (r: Step)
        ensures
            edit_post(self@, r),
    {
        let ws = words(self.buffer.as_str());
        assert(texts(ws@).len() == ws@.len());
        if ws.len() < 2 {
            return Step::Done(Err(IRustError::MissingArgument));
        }
        assert(texts(ws@)[1] == ws@[1]@);
        Step::Ask(
            Request::Edit {
                editor: ws[1].clone(),
                program: self.repl.render(),
                format: self.repl.len() > 0,
            },
        )
    }

    /// Gives an edit up whose file could not be read back or built at all:
    /// the body is emptied, and the cause is handed back.
    pub fn abandon_edit(&mut self, cause: IRustError) -> (r: Result<Printer, IRustError>)
        ensures
            final(self)@ == (SessionView { body: Seq::empty(), ..old(self)@ }),
            r == Err::<Printer, IRustError>(cause),
    {
        self.repl.clear();
        Err(cause)
    }

    /// Ends an edit: `edited` is the text of the working file after the
    /// editor has left, `raw` and `exit_ok` are the result of building it.
    pub fn resync(&mut self, edited: &str, raw: &str, exit_ok: bool) -> (r: Result<
        Printer,
        IRustError,
    >)
        ensures
            resync_post(old(self)@, final(self)@, edited@, raw@, exit_ok, r),
    {
        match classify(raw, exit_ok, Kind::Statement) {
            Verdict::CompileError(t) => {
                self.repl.clear();
                Err(IRustError::CompileError(t))
            },
            Verdict::RuntimeFailure(t) => {
                self.repl.clear();
                Err(IRustError::RuntimeFailure(t))
            },
            Verdict::Success(_) => match read_body(edited) {
                Some(b) => {
                    self.repl = b;
                    Ok(Printer::ok())
                },
                None => {
                    self.repl.clear();
                    Err(IRustError::IoFailure(String::from_str("the edited file holds no entry point")))
                },
            },
        }
    }
}

} // verus!

verus! {

/// What an input asks for.
pub enum Directive {
    Help,
    Reset,
    Show,
    Pop,
    Banner,
    Shell,
    Edit,
    Add,
    Load,
    Reload,
    Type,
    Del,
    Cd,
    /// No directive: the input is a source fragment.
    Fragment,
}

/// The directive of an input: five are whole words, the others begin the
/// input; the first that fits, in this order, decides.
pub open spec fn directive_of(buffer: Seq<char>) -> Directive {
    if buffer == ":help"@ {
        Directive::Help
    } else if buffer == ":reset"@ {
        Directive::Reset
    } else if buffer == ":show"@ {
        Directive::Show
    } else if buffer == ":pop"@ {
        Directive::Pop
    } else if buffer == ":irust"@ {
        Directive::Banner
    } else if occurs_at(buffer, "::"@, 0) {
        Directive::Shell
    } else if occurs_at(buffer, ":edit"@, 0) {
        Directive::Edit
    } else if occurs_at(buffer, ":add"@, 0) {
        Directive::Add
    } else if occurs_at(buffer, ":load"@, 0) {
        Directive::Load
    } else if occurs_at(buffer, ":reload"@, 0) {
        Directive::Reload
    } else if occurs_at(buffer, ":type"@, 0) {
        Directive::Type
    } else if occurs_at(buffer, ":del"@, 0) {
        Directive::Del
    } else if occurs_at(buffer, ":cd"@, 0) {
        Directive::Cd
    } else {
        Directive::Fragment
    }
}

/// The session after one input was parsed: what its directive's own operation
/// does and hands back, and nothing else.
pub open spec fn parse_post(pre: SessionView, post: SessionView, r: Step) -> bool {
    match directive_of(pre.buffer) {
        Directive::Help => post == pre && r matches Step::Ask(Request::Help),
        Directive::Reset => r matches Step::Done(x) && reset_post(pre, post, x),
        Directive::Show => post == pre && (r matches Step::Done(x) && show_post(pre, x)),
        Directive::Pop => r matches Step::Done(x) && pop_post(pre, post, x),
        Directive::Banner => post == pre && (r matches Step::Done(x) && irust_post(x)),
        Directive::Shell => post == pre && shell_post(pre, r),
        Directive::Edit => post == pre && edit_post(pre, r),
        Directive::Add => post == pre && add_post(pre, r),
        Directive::Load => load_post(pre, post, r),
        Directive::Reload => reload_post(pre, post, r),
        Directive::Type => post == pre && type_query_post(pre, r),
        Directive::Del => r matches Step::Done(x) && del_post(pre, post, x),
        Directive::Cd => post == pre && cd_post(pre, r),
        Directive::Fragment => post == pre && fragment_post(pre, r),
    }
}

impl IRust {
    /// Parses the input in the buffer: a directive is carried out, anything
    /// else is taken as a source fragment.
    pub fn parse(&mut self) -> (r: Step)
        ensures
            parse_post(old(self)@, final(self)@, r),
    {
        let v = to_chars(self.buffer.as_str());
        if same_text(&v, ":help") {
            Step::Ask(Request::Help)
        } else if same_text(&v, ":reset") {
            Step::Done(self.reset())
        } else if same_text(&v, ":show") {
            Step::Done(self.show())
        } else if same_text(&v, ":pop") {
            Step::Done(self.pop())
        } else if same_text(&v, ":irust") {
            Step::Done(self.irust())
        } else if starts_with(&v, 0, "::") {
            self.run_cmd()
        } else if starts_with(&v, 0, ":edit") {
            self.extern_edit()
        } else if starts_with(&v, 0, ":add") {
            self.add_dep()
        } else if starts_with(&v, 0, ":load") {
            self.load()
        } else if starts_with(&v, 0, ":reload") {
            self.reload()
        } else if starts_with(&v, 0, ":type") {
            self.show_type()
        } else if starts_with(&v, 0, ":del") {
            Step::Done(self.del())
        } else if starts_with(&v, 0, ":cd") {
            self.cd()
        } else {
            self.parse_second_order()
        }
    }
}

} // verus!

verus! {

/// A candidate that the toolchain did not accept leaves no trace: the session
/// after the attempt is the session before it, and so is what it renders to.
pub proof fn lemma_failed_probe_changes_nothing(
    pre: SessionView,
    post: SessionView,
    fragment: (Seq<char>, Kind),
    raw: Seq<char>,
    exit_ok: bool,
    r: Result<Printer, IRustError>,
)
    requires
        commit_post(pre, post, fragment, raw, exit_ok, r),
        !(verdict_of(raw, exit_ok, fragment.1) is Success),
    ensures
        post == pre,
        render_text(post.body) == render_text(pre.body),
        r is Err,
{
}

/// A candidate that the toolchain accepted is the last fragment of the body,
/// behind all that were there, which stay as they were.
pub proof fn lemma_accepted_probe_is_appended(
    pre: SessionView,
    post: SessionView,
    fragment: (Seq<char>, Kind),
    raw: Seq<char>,
    exit_ok: bool,
    r: Result<Printer, IRustError>,
)
    requires
        commit_post(pre, post, fragment, raw, exit_ok, r),
        verdict_of(raw, exit_ok, fragment.1) is Success,
    ensures
        post.body.len() == pre.body.len() + 1,
        post.body.last() == fragment,
        post.body.drop_last() == pre.body,
        r is Ok,
{
    assert(pre.body.push(fragment).drop_last() =~= pre.body);
}

/// Of a dependency that is a path, the absolute form that was handed in is
/// recorded, never the specifier itself; any other is recorded as it is.
pub proof fn lemma_recorded_forms(specs: Seq<String>, canonical: Seq<Option<String>>, i: int)
    requires
        all_resolved(specs, canonical),
        0 <= i < specs.len(),
    ensures
        normalized(specs, canonical).len() == specs.len(),
        is_path(specs[i]@) ==> canonical_at(canonical, i) == Some(normalized(specs, canonical)[i]),
        !is_path(specs[i]@) ==> normalized(specs, canonical)[i] == specs[i]@,
{
    assert(normal_form(specs[i]@, canonical_at(canonical, i)) is Some);
}

/// After a reset the body is empty, and what is shown is the entry point alone.
pub proof fn lemma_reset_then_show(
    pre: SessionView,
    post: SessionView,
    r: Result<Printer, IRustError>,
    shown: Result<Printer, IRustError>,
)
    requires
        reset_post(pre, post, r),
        show_post(post, shown),
    ensures
        post.body.len() == 0,
        shown matches Ok(p) && p@ == seq![(entry_open() + entry_close(), PrinterItemType::Code)],
{
    lemma_empty_render();
}

} // verus!
