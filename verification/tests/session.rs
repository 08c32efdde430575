use irust::body::{Body, Fragment, Kind};
use irust::error::IRustError;
use irust::printer::{Printer, PrinterItemType, Tone};
use irust::session::{
    cd_target, is_path_form, report_build, type_from, DirTarget, IRust, Outcome, Request, Step,
};
use std::path::PathBuf;

const BUILT: &str = "   Compiling app v0.1.0\n    Finished dev [unoptimized + debuginfo] target(s) in 0.42s\n";

fn input(session: &mut IRust, text: &str) -> Step {
    session.set_buffer(text);
    session.parse()
}

fn candidate(step: Step) -> (Fragment, String, bool) {
    match step {
        Step::Ask(Request::Build { fragment, program }) => (fragment, program, false),
        Step::Ask(Request::Run { fragment, program }) => (fragment, program, true),
        other => panic!("no candidate: {:?}", other),
    }
}

fn accept(session: &mut IRust, text: &str, raw: &str, exit_ok: bool) -> Result<Printer, IRustError> {
    let (fragment, _, _) = candidate(input(session, text));
    session.commit(fragment, raw, exit_ok)
}

fn done(step: Step) -> Result<Printer, IRustError> {
    match step {
        Step::Done(r) => r,
        other => panic!("not done: {:?}", other),
    }
}

fn shown(p: &Printer) -> Vec<(String, PrinterItemType)> {
    p.items.iter().map(|i| (i.string.clone(), i.kind)).collect()
}

fn ok_lines() -> Vec<(String, PrinterItemType)> {
    vec![("Ok!".to_string(), PrinterItemType::Success), (String::new(), PrinterItemType::NewLine)]
}

fn texts_of(body: &Body) -> Vec<String> {
    (0..body.len()).map(|i| body.fragment(i).text.clone()).collect()
}

#[test]
fn declaration_then_call_prints_value() {
    let mut s = IRust::new();
    let (fragment, program, run) = candidate(input(&mut s, "fn add(a: i32, b: i32) -> i32 { a + b }"));
    assert!(!run);
    assert_eq!(fragment.kind, Kind::Declaration);
    assert_eq!(program, "fn add(a: i32, b: i32) -> i32 { a + b }\nfn main() {\n}\n");
    assert_eq!(s.body().len(), 0);
    let out = s.commit(fragment, BUILT, true).unwrap();
    assert_eq!(out.len(), 0);
    assert_eq!(s.body().len(), 1);

    let (fragment, program, run) = candidate(input(&mut s, "add(2, 3)"));
    assert!(run);
    assert_eq!(fragment.kind, Kind::Expression);
    assert_eq!(
        program,
        "fn add(a: i32, b: i32) -> i32 { a + b }\nfn main() {\nprintln!(\"[irust:value] {:?}\", {\nadd(2, 3)\n});\n}\n"
    );
    let out = s.commit(fragment, "[irust:value] 5\n", true).unwrap();
    assert_eq!(
        shown(&out),
        vec![("5".to_string(), PrinterItemType::Eval), (String::new(), PrinterItemType::NewLine)]
    );
    assert_eq!(s.body().len(), 2);
}

#[test]
fn statement_is_inserted_and_later_read() {
    let mut s = IRust::new();
    let (fragment, _, run) = candidate(input(&mut s, "let x = 10"));
    assert!(run);
    assert_eq!(fragment.kind, Kind::Expression);

    let (fragment, program, run) = candidate(input(&mut s, "let x = 10;"));
    assert!(!run);
    assert_eq!(fragment.kind, Kind::Statement);
    assert_eq!(program, "fn main() {\nlet x = 10;\n}\n");
    let out = s.commit(fragment, BUILT, true).unwrap();
    assert_eq!(out.len(), 0);
    assert_eq!(s.body().len(), 1);

    let (fragment, program, run) = candidate(input(&mut s, "x + 1"));
    assert!(run);
    assert_eq!(
        program,
        "fn main() {\nlet x = 10;\nprintln!(\"[irust:value] {:?}\", {\nx + 1\n});\n}\n"
    );
    let out = s.commit(fragment, "[irust:value] 11\n", true).unwrap();
    assert_eq!(shown(&out)[0], ("11".to_string(), PrinterItemType::Eval));
}

#[test]
fn division_by_zero_is_rolled_back() {
    let mut s = IRust::new();
    accept(&mut s, "let x = 1;", BUILT, true).unwrap();
    let before = s.body().render();
    let raw = "thread 'main' panicked at 'attempt to divide by zero', src/main.rs:3:1\n";
    let r = accept(&mut s, "1 / 0", raw, false);
    match r {
        Err(IRustError::RuntimeFailure(t)) => assert_eq!(t, raw),
        other => panic!("{:?}", other),
    }
    assert_eq!(s.body().len(), 1);
    assert_eq!(s.body().render(), before);
}

#[test]
fn reset_leaves_the_scaffold_only() {
    let mut s = IRust::new();
    accept(&mut s, "struct A;", BUILT, true).unwrap();
    accept(&mut s, "let a = A;", BUILT, true).unwrap();
    accept(&mut s, "2 + 2", "[irust:value] 4\n", true).unwrap();
    assert_eq!(s.body().len(), 3);
    let out = done(input(&mut s, ":reset")).unwrap();
    assert_eq!(shown(&out), ok_lines());
    assert_eq!(s.body().len(), 0);
    let out = done(input(&mut s, ":show")).unwrap();
    assert_eq!(shown(&out), vec![("fn main() {\n}\n".to_string(), PrinterItemType::Code)]);
}

#[test]
fn declarations_render_in_order() {
    let mut s = IRust::new();
    let decls = ["fn a() {}", "struct B;", "#[derive(Debug)]", "enum C { X }", "pub fn d() {}"];
    for d in decls.iter() {
        accept(&mut s, d, BUILT, true).unwrap();
    }
    assert_eq!(s.body().len(), 5);
    assert_eq!(s.body().declaration_count(), 5);
    assert_eq!(
        s.body().render(),
        "fn a() {}\nstruct B;\n#[derive(Debug)]\nenum C { X }\npub fn d() {}\nfn main() {\n}\n"
    );
    assert_eq!(s.body().render(), s.body().render());
    assert_eq!(texts_of(s.body()), decls.iter().map(|d| d.to_string()).collect::<Vec<_>>());
}

#[test]
fn accepted_expressions_stay_as_statements() {
    let mut s = IRust::new();
    accept(&mut s, "fn f() -> u8 { 1 }", BUILT, true).unwrap();
    accept(&mut s, "f()", "[irust:value] 1\n", true).unwrap();
    accept(&mut s, "let y = 2;", BUILT, true).unwrap();
    assert_eq!(s.body().render(), "fn f() -> u8 { 1 }\nfn main() {\nf();\nlet y = 2;\n}\n");
    assert_eq!(s.body().declaration_count(), 1);
    let (_, program, _) = candidate(input(&mut s, "struct Late;"));
    assert_eq!(program, "fn f() -> u8 { 1 }\nstruct Late;\nfn main() {\nf();\nlet y = 2;\n}\n");
}

#[test]
fn compile_error_is_rolled_back() {
    let mut s = IRust::new();
    accept(&mut s, "let x = 1;", BUILT, true).unwrap();
    let before = s.body().render();
    let raw = "error[E0425]: cannot find value `y` in this scope\n";
    match accept(&mut s, "y + 1", raw, false) {
        Err(IRustError::CompileError(t)) => assert_eq!(t, raw),
        other => panic!("{:?}", other),
    }
    match accept(&mut s, "fn broken( {}", raw, true) {
        Err(IRustError::CompileError(t)) => assert_eq!(t, raw),
        other => panic!("{:?}", other),
    }
    assert_eq!(s.body().render(), before);
    assert_eq!(s.body().len(), 1);
}

#[test]
fn expression_without_value_shows_nothing() {
    let mut s = IRust::new();
    let out = accept(&mut s, "println!(\"hi\")", "hi\n", true).unwrap();
    assert_eq!(out.len(), 0);
    assert_eq!(s.body().len(), 1);
}

#[test]
fn blank_input_does_nothing() {
    let mut s = IRust::new();
    let out = done(input(&mut s, "   \t ")).unwrap();
    assert_eq!(out.len(), 0);
    let out = done(input(&mut s, "")).unwrap();
    assert_eq!(out.len(), 0);
    assert_eq!(s.body().len(), 0);
}

#[test]
fn pop_on_empty_body_reports_and_keeps_state() {
    let mut s = IRust::new();
    assert!(matches!(done(input(&mut s, ":pop")), Err(IRustError::EmptyStore)));
    assert_eq!(s.body().len(), 0);
    assert_eq!(s.body().render(), "fn main() {\n}\n");
}

#[test]
fn pop_takes_the_last_fragment() {
    let mut s = IRust::new();
    accept(&mut s, "let a = 1;", BUILT, true).unwrap();
    accept(&mut s, "let b = 2;", BUILT, true).unwrap();
    let out = done(input(&mut s, ":pop")).unwrap();
    assert_eq!(shown(&out), ok_lines());
    assert_eq!(texts_of(s.body()), vec!["let a = 1;".to_string()]);
}

#[test]
fn del_removes_the_named_fragment() {
    let mut s = IRust::new();
    for t in ["let a = 1;", "let b = 2;", "let c = 3;", "let d = 4;"].iter() {
        accept(&mut s, t, BUILT, true).unwrap();
    }
    let out = done(input(&mut s, ":del 2")).unwrap();
    assert_eq!(shown(&out), ok_lines());
    assert_eq!(texts_of(s.body()), vec!["let a = 1;", "let c = 3;", "let d = 4;"]);
    done(input(&mut s, ":del +3")).unwrap();
    assert_eq!(texts_of(s.body()), vec!["let a = 1;", "let c = 3;"]);
    done(input(&mut s, ":del 1")).unwrap();
    assert_eq!(texts_of(s.body()), vec!["let c = 3;"]);
}

#[test]
fn del_out_of_range_changes_nothing() {
    let mut s = IRust::new();
    accept(&mut s, "let a = 1;", BUILT, true).unwrap();
    accept(&mut s, "let b = 2;", BUILT, true).unwrap();
    for bad in [":del 0", ":del 3", ":del x", ":del -1", ":del 99999999999999999999999999", ":del 1.5", ":del +", ":del 1 x"].iter() {
        assert!(matches!(done(input(&mut s, bad)), Err(IRustError::InvalidIndex)), "{}", bad);
        assert_eq!(texts_of(s.body()), vec!["let a = 1;", "let b = 2;"]);
    }
}

#[test]
fn del_without_an_index_lacks_its_argument() {
    let mut s = IRust::new();
    accept(&mut s, "let a = 1;", BUILT, true).unwrap();
    for bare in [":del", ":del  ", ":delete"].iter() {
        assert!(matches!(done(input(&mut s, bare)), Err(IRustError::MissingArgument)), "{}", bare);
        assert_eq!(texts_of(s.body()), vec!["let a = 1;"]);
    }
    s.set_buffer("");
    assert!(matches!(s.del(), Err(IRustError::MissingArgument)));
    s.set_buffer(":del 7 1");
    assert_eq!(shown(&s.del().unwrap()), ok_lines());
    assert_eq!(s.body().len(), 0);
}

#[test]
fn directives_are_told_apart() {
    let mut s = IRust::new();
    assert!(matches!(input(&mut s, ":help"), Step::Ask(Request::Help)));
    assert!(matches!(input(&mut s, ":show"), Step::Done(Ok(_))));
    assert!(matches!(input(&mut s, "::ls -la"), Step::Ask(Request::Shell { .. })));
    assert!(matches!(input(&mut s, ":edit vi"), Step::Ask(Request::Edit { .. })));
    assert!(matches!(input(&mut s, ":add serde"), Step::Ask(Request::Resolve { .. })));
    assert!(matches!(input(&mut s, ":load a.rs"), Step::Ask(Request::Load { .. })));
    assert!(matches!(input(&mut s, ":reload"), Step::Ask(Request::Load { .. })));
    assert!(matches!(input(&mut s, ":type 1"), Step::Ask(Request::Probe { .. })));
    assert!(matches!(input(&mut s, ":cd"), Step::Ask(Request::ChangeDir { .. })));
    assert!(matches!(input(&mut s, ":resetx"), Step::Ask(Request::Run { .. })));
    assert!(matches!(input(&mut s, " :reset"), Step::Ask(Request::Run { .. })));
}

#[test]
fn banner_is_red() {
    let mut s = IRust::new();
    let out = done(input(&mut s, ":irust")).unwrap();
    assert_eq!(
        shown(&out),
        vec![("IRust: an interactive Rust session".to_string(), PrinterItemType::Custom(Tone::Red))]
    );
}

#[test]
fn shell_words_follow_the_colons() {
    let mut s = IRust::new();
    match input(&mut s, "::echo  hello   world ") {
        Step::Ask(Request::Shell { words }) => assert_eq!(words, vec!["echo", "hello", "world"]),
        other => panic!("{:?}", other),
    }
    match input(&mut s, "::") {
        Step::Ask(Request::Shell { words }) => assert!(words.is_empty()),
        other => panic!("{:?}", other),
    }
}

#[test]
fn type_query_probes_a_copy() {
    let mut s = IRust::new();
    accept(&mut s, "let x = 5u8;", BUILT, true).unwrap();
    match input(&mut s, ":type x") {
        Step::Ask(Request::Probe { program }) => {
            assert_eq!(program, "fn main() {\nlet x = 5u8;\nlet _: () = { x};\n}\n")
        },
        other => panic!("{:?}", other),
    }
    assert_eq!(s.body().len(), 1);
    assert_eq!(s.body().render(), "fn main() {\nlet x = 5u8;\n}\n");
    match input(&mut s, ":type:type:typex") {
        Step::Ask(Request::Probe { program }) => {
            assert_eq!(program, "fn main() {\nlet x = 5u8;\nlet _: () = {x};\n}\n")
        },
        other => panic!("{:?}", other),
    }
}

#[test]
fn type_is_read_off_the_diagnostics() {
    let raw = "error[E0308]: mismatched types\n --> src/main.rs:2:13\n  |\n2 |     let _: () = { x};\n  |            --   ^ expected `()`, found `u8`\n  |\n\nerror: aborting due to previous error\n";
    let out = type_from(raw).unwrap();
    assert_eq!(shown(&out), vec![("`u8`".to_string(), PrinterItemType::Success)]);
    let two = "expected `()`, found struct `A`\n note: expected unit type `()`\n found struct `main::A`\n";
    assert_eq!(shown(&type_from(two).unwrap())[0].0, "struct `main::A`");
    let crlf = "expected `()`, found `u8`\r\n = note: found integer\r\nend\r\n";
    assert_eq!(shown(&type_from(crlf).unwrap())[0].0, "integer");
    let bare = "expected `()`, found `u8`\nnothing found";
    assert_eq!(shown(&type_from(bare).unwrap())[0].0, "nothing found");
    let later = "expected `()`, found `u8` and found `i8`\nno more\r";
    assert_eq!(shown(&type_from(later).unwrap())[0].0, "`i8`");
    let unit = type_from(BUILT).unwrap();
    assert_eq!(shown(&unit), vec![("()".to_string(), PrinterItemType::Success)]);
    assert!(matches!(type_from("something else"), Err(IRustError::UnknownType)));
    assert!(matches!(type_from(""), Err(IRustError::UnknownType)));
}

#[test]
fn dependencies_are_recorded_in_absolute_form() {
    let mut s = IRust::new();
    let specs = match input(&mut s, ":add serde --path ../mylib  rand@0.8") {
        Step::Ask(Request::Resolve { specs }) => specs,
        other => panic!("{:?}", other),
    };
    assert_eq!(specs, vec!["serde", "--path", "../mylib", "rand@0.8"]);
    assert!(is_path_form("../mylib"));
    assert!(is_path_form("/"));
    assert!(!is_path_form("serde"));
    assert!(!is_path_form(""));
    let canonical = vec![None, None, Some("/home/user/mylib".to_string()), None];
    match s.record_dependencies(specs, canonical) {
        Step::Ask(Request::Rebuild { specs, program }) => {
            assert_eq!(specs, vec!["serde", "--path", "/home/user/mylib", "rand@0.8"]);
            assert_eq!(program, "fn main() {\n}\n");
        },
        other => panic!("{:?}", other),
    }
    assert_eq!(s.dependencies(), &vec!["serde", "--path", "/home/user/mylib", "rand@0.8"]);
    match s.record_dependencies(vec!["log".to_string()], vec![]) {
        Step::Ask(Request::Rebuild { specs, .. }) => assert_eq!(specs, vec!["log"]),
        other => panic!("{:?}", other),
    }
    assert_eq!(s.dependencies().len(), 5);
    assert_eq!(s.dependencies()[4], "log");
}

#[test]
fn unresolved_dependency_path_records_nothing() {
    let mut s = IRust::new();
    s.record_dependencies(vec!["serde".to_string()], vec![None]);
    let specs = vec!["rand".to_string(), "./missing".to_string()];
    let r = s.record_dependencies(specs.clone(), vec![None, None]);
    assert!(matches!(r, Step::Done(Err(IRustError::InvalidDependencyPath))));
    let r = s.record_dependencies(specs, vec![None]);
    assert!(matches!(r, Step::Done(Err(IRustError::InvalidDependencyPath))));
    assert_eq!(s.dependencies(), &vec!["serde"]);
}

#[test]
fn failed_rebuild_keeps_the_dependencies() {
    let mut s = IRust::new();
    s.record_dependencies(vec!["nosuchcrate".to_string()], vec![None]);
    let raw = "error: no matching package named `nosuchcrate` found\n";
    match report_build(raw, false) {
        Err(IRustError::CompileError(t)) => assert_eq!(t, raw),
        other => panic!("{:?}", other),
    }
    assert_eq!(s.dependencies(), &vec!["nosuchcrate"]);
    assert_eq!(shown(&report_build(BUILT, true).unwrap()), ok_lines());
    assert!(matches!(report_build("killed", false), Err(IRustError::RuntimeFailure(_))));
}

#[test]
fn load_without_path_is_refused() {
    let mut s = IRust::new();
    accept(&mut s, "let a = 1;", BUILT, true).unwrap();
    assert!(matches!(done(input(&mut s, ":load")), Err(IRustError::MissingArgument)));
    assert!(matches!(done(input(&mut s, ":reload")), Err(IRustError::MissingArgument)));
    assert_eq!(s.body().len(), 1);
}

#[test]
fn load_resets_before_the_file_is_known() {
    let mut s = IRust::new();
    accept(&mut s, "let a = 1;", BUILT, true).unwrap();
    match input(&mut s, ":load src/demo.rs") {
        Step::Ask(Request::Load { path }) => assert_eq!(path, "src/demo.rs"),
        other => panic!("{:?}", other),
    }
    assert_eq!(s.body().len(), 0);
    let code = "fn helper() -> u8 {\n    1\n}\n\nfn main() {\n    let a = helper();\n    if a > 0 {\n        println!(\"x\");\n    }\n}\n";
    let (fragment, program) = match s.load_source(code) {
        Step::Ask(Request::BuildLoaded { fragment, program }) => (fragment, program),
        other => panic!("{:?}", other),
    };
    let stripped = "fn helper() -> u8 {\n    1\n}\n\n\n    let a = helper();\n    if a > 0 {\n        println!(\"x\");\n    }\n\n";
    assert_eq!(fragment.text, stripped);
    assert_eq!(fragment.kind, Kind::Statement);
    assert_eq!(program, format!("fn main() {{\n{}\n}}\n", stripped));
    let raw = "error: expected one of\n".to_string();
    let failed = s.finish_load(fragment.clone(), Outcome::Output { raw, exit_ok: false });
    assert!(matches!(failed, Err(IRustError::CompileError(_))));
    assert_eq!(s.body().len(), 0);
    let gone = s.finish_load(fragment.clone(), Outcome::Unavailable);
    assert!(matches!(gone, Err(IRustError::ToolchainUnavailable)));
    assert_eq!(s.body().len(), 0);
    accept(&mut s, "let stale = 1;", BUILT, true).unwrap();
    let out = s.finish_load(fragment, Outcome::Output { raw: BUILT.to_string(), exit_ok: true });
    assert_eq!(shown(&out.unwrap()), ok_lines());
    assert_eq!(texts_of(s.body()), vec![stripped.to_string()]);
    match input(&mut s, ":reload") {
        Step::Ask(Request::Load { path }) => assert_eq!(path, "src/demo.rs"),
        other => panic!("{:?}", other),
    }
    assert_eq!(s.body().len(), 0);
}

#[test]
fn load_inner_remembers_the_path() {
    let mut s = IRust::new();
    match s.load_inner("a/b.rs".to_string()) {
        Step::Ask(Request::Load { path }) => assert_eq!(path, "a/b.rs"),
        other => panic!("{:?}", other),
    }
    match input(&mut s, ":reload") {
        Step::Ask(Request::Load { path }) => assert_eq!(path, "a/b.rs"),
        other => panic!("{:?}", other),
    }
}

#[test]
fn change_of_directory_targets() {
    let mut s = IRust::new();
    let target = |step: Step| match step {
        Step::Ask(Request::ChangeDir { target }) => target,
        other => panic!("{:?}", other),
    };
    assert!(matches!(target(input(&mut s, ":cd")), DirTarget::Home(_) | DirTarget::Stay));
    assert!(matches!(target(input(&mut s, ":cd   ")), DirTarget::Home(_) | DirTarget::Stay));
    assert!(matches!(target(input(&mut s, ":cd -")), DirTarget::Previous));
    match target(input(&mut s, ":cd  ../src ")) {
        DirTarget::Path(p) => assert_eq!(p, "../src"),
        other => panic!("{:?}", other),
    }
    match target(input(&mut s, ":cd a:cdb :cd")) {
        DirTarget::Path(p) => assert_eq!(p, "ab"),
        other => panic!("{:?}", other),
    }
    assert!(matches!(target(input(&mut s, ":cd :cd- ")), DirTarget::Previous));
    s.set_buffer("  projects ");
    assert!(matches!(target(s.cd()), DirTarget::Home(_) | DirTarget::Stay));
    s.set_buffer("go :cd  there ");
    match target(s.cd()) {
        DirTarget::Path(p) => assert_eq!(p, "there"),
        other => panic!("{:?}", other),
    }
}

#[test]
fn edit_needs_an_editor() {
    let mut s = IRust::new();
    assert!(matches!(done(input(&mut s, ":edit")), Err(IRustError::MissingArgument)));
    match input(&mut s, ":edit vim") {
        Step::Ask(Request::Edit { program, format, .. }) => {
            assert_eq!(program, "fn main() {\n}\n");
            assert!(!format);
        },
        other => panic!("{:?}", other),
    }
    accept(&mut s, "let a = 1;", BUILT, true).unwrap();
    match input(&mut s, ":edit vim") {
        Step::Ask(Request::Edit { editor, program, format }) => {
            assert_eq!(editor, "vim");
            assert_eq!(program, "fn main() {\nlet a = 1;\n}\n");
            assert!(format);
        },
        other => panic!("{:?}", other),
    }
    accept(&mut s, "let b = 1;", BUILT, true).unwrap();
    accept(&mut s, "let c = 1;", BUILT, true).unwrap();
    match input(&mut s, ":edit vim") {
        Step::Ask(Request::Edit { format, .. }) => assert!(format),
        other => panic!("{:?}", other),
    }
}

#[test]
fn edited_file_becomes_the_body() {
    let mut s = IRust::new();
    accept(&mut s, "let a = 1;", BUILT, true).unwrap();
    let edited = "struct P;\nfn q() {}\nfn main() {\n    let a = 2;\n    let b = 3;\n}\n";
    let out = s.resync(edited, BUILT, true).unwrap();
    assert_eq!(shown(&out), ok_lines());
    assert_eq!(s.body().len(), 4);
    assert_eq!(texts_of(s.body()), vec!["struct P;", "fn q() {}", "let a = 2;", "let b = 3;"]);
    assert_eq!(s.body().fragment(1).kind, Kind::Declaration);
    assert_eq!(s.body().fragment(2).kind, Kind::Statement);
    assert_eq!(s.body().declaration_count(), 2);
    assert_eq!(
        s.body().render(),
        "struct P;\nfn q() {}\nfn main() {\nlet a = 2;\nlet b = 3;\n}\n"
    );
    s.resync("fn main() {\n}\n", BUILT, true).unwrap();
    assert_eq!(s.body().len(), 0);
}

#[test]
fn failed_edit_resets_the_session() {
    let mut s = IRust::new();
    accept(&mut s, "let a = 1;", BUILT, true).unwrap();
    let r = s.resync("fn main() {\n    let a = ;\n}\n", "error: expected expression\n", false);
    assert!(matches!(r, Err(IRustError::CompileError(_))));
    assert_eq!(s.body().len(), 0);
    accept(&mut s, "let a = 1;", BUILT, true).unwrap();
    let r = s.resync("no entry point here", BUILT, true);
    match r {
        Err(e) => assert_eq!(e.message(), "IO error: the edited file holds no entry point"),
        other => panic!("{:?}", other),
    }
    assert_eq!(s.body().len(), 0);
    accept(&mut s, "let a = 1;", BUILT, true).unwrap();
    let r = s.resync("}\nfn main() {\n", BUILT, true);
    assert!(r.is_err());
    assert_eq!(s.body().len(), 0);
    accept(&mut s, "let a = 1;", BUILT, true).unwrap();
    let r = s.resync("fn main() {\n}\n", "signal", false);
    assert!(matches!(r, Err(IRustError::RuntimeFailure(_))));
    assert_eq!(s.body().len(), 0);
}

#[test]
fn error_messages() {
    assert_eq!(IRustError::InvalidIndex.message(), "Incorrect line number");
    assert_eq!(IRustError::EmptyStore.message(), "Nothing to remove");
    assert_eq!(IRustError::UnknownType.message(), "Unknown");
    assert_eq!(IRustError::MissingArgument.message(), "Missing argument");
    assert_eq!(IRustError::NonUtf8Content.message(), "The specified file is not utf8 encoded");
    assert_eq!(IRustError::ToolchainUnavailable.message(), "The build toolchain could not be started");
    assert_eq!(
        IRustError::InvalidDependencyPath.message(),
        "The dependency path could not be resolved"
    );
    assert_eq!(IRustError::IoFailure("denied".to_string()).message(), "IO error: denied");
    assert_eq!(IRustError::CompileError("error: x".to_string()).message(), "error: x");
    assert_eq!(IRustError::RuntimeFailure("panicked".to_string()).message(), "panicked");
}

#[test]
fn targets_of_arguments() {
    match cd_target(String::new(), Some(PathBuf::from("/home/user"))) {
        DirTarget::Home(h) => assert_eq!(h, PathBuf::from("/home/user")),
        other => panic!("{:?}", other),
    }
    assert!(matches!(cd_target(String::new(), None), DirTarget::Stay));
    assert!(matches!(cd_target("-".to_string(), Some(PathBuf::from("/h"))), DirTarget::Previous));
    match cd_target("--".to_string(), None) {
        DirTarget::Path(p) => assert_eq!(p, "--"),
        other => panic!("{:?}", other),
    }
}

#[test]
fn missing_toolchain_changes_nothing() {
    let mut s = IRust::new();
    accept(&mut s, "let a = 1;", BUILT, true).unwrap();
    let (fragment, _, _) = candidate(input(&mut s, "a + 1"));
    let r = s.conclude(fragment, Outcome::Unavailable);
    assert!(matches!(r, Err(IRustError::ToolchainUnavailable)));
    assert_eq!(s.body().render(), "fn main() {\nlet a = 1;\n}\n");
    let (fragment, _, _) = candidate(input(&mut s, "a + 1"));
    let outcome = Outcome::Output { raw: "[irust:value] 2\n".to_string(), exit_ok: true };
    let out = s.conclude(fragment, outcome).unwrap();
    assert_eq!(shown(&out)[0], ("2".to_string(), PrinterItemType::Eval));
    assert_eq!(s.body().len(), 2);
}

#[test]
fn abandoned_edit_resets_the_session() {
    let mut s = IRust::new();
    accept(&mut s, "let a = 1;", BUILT, true).unwrap();
    let r = s.abandon_edit(IRustError::IoFailure("gone".to_string()));
    match r {
        Err(IRustError::IoFailure(t)) => assert_eq!(t, "gone"),
        other => panic!("{:?}", other),
    }
    assert_eq!(s.body().len(), 0);
    assert!(matches!(Outcome::Unavailable.output(), Err(IRustError::ToolchainUnavailable)));
    let out = Outcome::Output { raw: "x".to_string(), exit_ok: false }.output().unwrap();
    assert_eq!(out, ("x".to_string(), false));
}

#[test]
fn idle_edit_keeps_the_program() {
    let mut s = IRust::new();
    accept(&mut s, "struct A;", BUILT, true).unwrap();
    accept(&mut s, "let a = A;", BUILT, true).unwrap();
    accept(&mut s, "1 + 1", "[irust:value] 2\n", true).unwrap();
    accept(&mut s, "fn f() {}", BUILT, true).unwrap();
    let program = match input(&mut s, ":edit vi") {
        Step::Ask(Request::Edit { program, .. }) => program,
        other => panic!("{:?}", other),
    };
    assert_eq!(program, "struct A;\nfn f() {}\nfn main() {\nlet a = A;\n1 + 1;\n}\n");
    let out = s.resync(&program, BUILT, true).unwrap();
    assert_eq!(shown(&out), ok_lines());
    assert_eq!(texts_of(s.body()), vec!["struct A;", "fn f() {}", "let a = A;", "1 + 1;"]);
    assert_eq!(s.body().fragment(3).kind, Kind::Statement);
    assert_eq!(s.body().render(), program);
}
