use irust::body::{Body, Fragment, Kind};
use irust::error::IRustError;
use irust::source::{read_body, remove_main};
use irust::synth::{classify_fragment, synthesize, synthesize_as};
use irust::text::{
    char_is_space, find_first, find_last, find_line_start, parse_number, remove_all, to_chars,
    trim, trim_bounds, words,
};
use irust::verdict::{classify, extract_value, Verdict};

fn frag(text: &str, kind: Kind) -> Fragment {
    Fragment { text: text.to_string(), kind }
}

fn chars(s: &str) -> Vec<char> {
    s.chars().collect()
}

#[test]
fn store_append_pop_delete() {
    let mut b = Body::new();
    assert_eq!(b.len(), 0);
    assert!(matches!(b.pop_last(), Err(IRustError::EmptyStore)));
    assert!(matches!(b.delete(1), Err(IRustError::InvalidIndex)));
    b.append(frag("fn a() {}", Kind::Declaration));
    b.append(frag("let x = 1;", Kind::Statement));
    b.append(frag("x", Kind::Expression));
    assert_eq!(b.len(), 3);
    assert_eq!(b.declaration_count(), 1);
    assert_eq!(b.render(), "fn a() {}\nfn main() {\nlet x = 1;\nx;\n}\n");
    assert!(matches!(b.delete(0), Err(IRustError::InvalidIndex)));
    assert!(matches!(b.delete(4), Err(IRustError::InvalidIndex)));
    assert!(matches!(b.delete(usize::MAX), Err(IRustError::InvalidIndex)));
    assert_eq!(b.len(), 3);
    let gone = b.delete(2).unwrap();
    assert_eq!(gone.text, "let x = 1;");
    assert_eq!(b.fragment(0).text, "fn a() {}");
    assert_eq!(b.fragment(1).text, "x");
    let last = b.pop_last().unwrap();
    assert_eq!(last.text, "x");
    assert_eq!(last.kind, Kind::Expression);
    assert_eq!(b.len(), 1);
    b.clear();
    assert_eq!(b.len(), 0);
    assert_eq!(b.render(), "fn main() {\n}\n");
}

#[test]
fn last_expression_is_tracked() {
    let mut b = Body::new();
    assert_eq!(b.last_expression(), None);
    b.append(frag("let x = 1;", Kind::Statement));
    assert_eq!(b.last_expression(), None);
    b.append(frag("x", Kind::Expression));
    b.append(frag("x + 1", Kind::Expression));
    b.append(frag("fn f() {}", Kind::Declaration));
    assert_eq!(b.last_expression(), Some(2));
    b.delete(3).unwrap();
    assert_eq!(b.last_expression(), Some(1));
    b.delete(2).unwrap();
    assert_eq!(b.last_expression(), None);
}

#[test]
fn snapshot_is_independent() {
    let mut b = Body::new();
    b.append(frag("let x = 1;", Kind::Statement));
    let mut copy = b.snapshot();
    copy.append(frag("let y = 2;", Kind::Statement));
    assert_eq!(b.len(), 1);
    assert_eq!(copy.len(), 2);
    assert_eq!(copy.fragment(0).text, "let x = 1;");
    assert_eq!(b.render(), "fn main() {\nlet x = 1;\n}\n");
}

#[test]
fn kinds_of_input() {
    assert_eq!(classify_fragment(""), None);
    assert_eq!(classify_fragment(" \n\t"), None);
    for d in ["fn a() {}", "async fn a() {}", "enum E {}", "struct S;", "trait T {}", "impl T for S {}", "#[derive(Debug)]", "pub struct P;", "  fn padded() {}  ", "fn x();"].iter() {
        assert_eq!(classify_fragment(d), Some(Kind::Declaration), "{}", d);
    }
    for s in ["let x = 1;", "use std::fmt;", "x += 1; ", ";"].iter() {
        assert_eq!(classify_fragment(s), Some(Kind::Statement), "{}", s);
    }
    for e in ["x + 1", "let x = 10", "fnord()", "structure", "public", "f(); g()", "\u{a0}1\u{3000}"].iter() {
        assert_eq!(classify_fragment(e), Some(Kind::Expression), "{}", e);
    }
}

#[test]
fn synthesis_puts_the_candidate_last() {
    let mut b = Body::new();
    b.append(frag("struct A;", Kind::Declaration));
    b.append(frag("let a = A;", Kind::Statement));
    assert_eq!(synthesize(&b, "  "), None);
    assert_eq!(
        synthesize(&b, "let b = 2;").unwrap(),
        "struct A;\nfn main() {\nlet a = A;\nlet b = 2;\n}\n"
    );
    assert_eq!(
        synthesize(&b, "impl A {}").unwrap(),
        "struct A;\nimpl A {}\nfn main() {\nlet a = A;\n}\n"
    );
    assert_eq!(
        synthesize(&b, "1 + 1").unwrap(),
        "struct A;\nfn main() {\nlet a = A;\nprintln!(\"[irust:value] {:?}\", {\n1 + 1\n});\n}\n"
    );
    let mut next = b.snapshot();
    next.append(frag("let b = 2;", Kind::Statement));
    assert_eq!(synthesize_as(&b, "let b = 2;", Kind::Statement), next.render());
}

#[test]
fn verdicts() {
    match classify("warning: unused\nerror: boom\n[irust:value] 1\n", true, Kind::Expression) {
        Verdict::CompileError(t) => assert_eq!(t, "warning: unused\nerror: boom\n[irust:value] 1\n"),
        other => panic!("{:?}", other),
    }
    match classify("panicked", false, Kind::Expression) {
        Verdict::RuntimeFailure(t) => assert_eq!(t, "panicked"),
        other => panic!("{:?}", other),
    }
    match classify("side effect\n[irust:value] \"a b\"  \n", true, Kind::Expression) {
        Verdict::Success(Some(v)) => assert_eq!(v, "\"a b\""),
        other => panic!("{:?}", other),
    }
    assert!(matches!(classify("side effect\n", true, Kind::Expression), Verdict::Success(None)));
    assert!(matches!(classify("[irust:value] 3\n", true, Kind::Statement), Verdict::Success(None)));
    assert!(matches!(classify("warning: unused variable\n", true, Kind::Declaration), Verdict::Success(None)));
    assert!(matches!(classify("", true, Kind::Expression), Verdict::Success(None)));
}

#[test]
fn printed_value_follows_the_first_mark() {
    assert_eq!(extract_value("a\n[irust:value] 1\n[irust:value] 2\n").unwrap(), "1\n[irust:value] 2");
    assert_eq!(extract_value("[irust:value] ").unwrap(), "");
    assert_eq!(extract_value("[irust:value]"), None);
    assert_eq!(extract_value(""), None);
}

#[test]
fn trimming() {
    assert_eq!(trim("  a b \n"), "a b");
    assert_eq!(trim(""), "");
    assert_eq!(trim(" \t\r\n"), "");
    assert_eq!(trim("x"), "x");
    assert_eq!(trim("\u{2003}é \u{85}"), "é");
    assert_eq!(trim_bounds(&chars("  ab ")), (2, 4));
    assert_eq!(trim_bounds(&chars("   ")), (3, 3));
    assert_eq!(trim_bounds(&chars("")), (0, 0));
    for c in ['\u{0}', '\u{8}', '\u{e}', '\u{1f}', '!', '\u{84}', '\u{86}', '\u{200b}', '\u{1681}', 'a'].iter() {
        assert_eq!(char_is_space(*c), c.is_whitespace());
    }
    for c in ['\t', '\n', '\u{b}', '\u{c}', '\r', ' ', '\u{85}', '\u{a0}', '\u{1680}', '\u{2000}', '\u{200a}', '\u{2028}', '\u{2029}', '\u{202f}', '\u{205f}', '\u{3000}'].iter() {
        assert!(char_is_space(*c));
        assert!(c.is_whitespace());
    }
}

#[test]
fn splitting_into_words() {
    assert_eq!(words(""), Vec::<String>::new());
    assert_eq!(words("  \t "), Vec::<String>::new());
    assert_eq!(words("one"), vec!["one"]);
    assert_eq!(words("  :add  serde\tjson\n"), vec![":add", "serde", "json"]);
    let text = " a\u{a0}bc  é\u{3000}d ";
    let expected: Vec<String> = text.split_whitespace().map(|w| w.to_string()).collect();
    assert_eq!(words(text), expected);
}

#[test]
fn reading_numbers() {
    assert_eq!(parse_number("0", 10), Some(0));
    assert_eq!(parse_number("7", 10), Some(7));
    assert_eq!(parse_number("10", 10), Some(10));
    assert_eq!(parse_number("11", 10), None);
    assert_eq!(parse_number("+4", 10), Some(4));
    assert_eq!(parse_number("007", 10), Some(7));
    assert_eq!(parse_number("", 10), None);
    assert_eq!(parse_number("+", 10), None);
    assert_eq!(parse_number("++1", 10), None);
    assert_eq!(parse_number("-1", 10), None);
    assert_eq!(parse_number("1a", 10), None);
    assert_eq!(parse_number("12345678901234567890123456789012345678901234567890", usize::MAX), None);
    assert_eq!(parse_number("18446744073709551615", usize::MAX), "18446744073709551615".parse::<usize>().ok());
    assert_eq!(parse_number("123", 1000), Some(123));
}

#[test]
fn searching() {
    let hay = to_chars("abcabc");
    assert_eq!(hay, chars("abcabc"));
    assert_eq!(find_first(&hay, &chars("bc")), Some(1));
    assert_eq!(find_last(&hay, &chars("bc")), Some(4));
    assert_eq!(find_first(&hay, &chars("")), Some(0));
    assert_eq!(find_last(&hay, &chars("")), Some(6));
    assert_eq!(find_first(&hay, &chars("cb")), None);
    assert_eq!(find_last(&hay, &chars("abcabca")), None);
    assert_eq!(find_first(&chars(""), &chars("a")), None);
    assert_eq!(find_last(&hay, &chars("abcabc")), Some(0));
}

#[test]
fn entry_point_is_cut_out() {
    assert_eq!(remove_main("fn main() {}"), "");
    assert_eq!(remove_main("use a;\nfn main() {\n    f({ 1 });\n}\nfn f(_: u8) {}\n"), "use a;\n\n    f({ 1 });\n\nfn f(_: u8) {}\n");
    assert_eq!(remove_main("fn f() {}"), "fn f() {}");
    assert_eq!(remove_main("fn main() { {"), "fn main() { {");
    assert_eq!(remove_main(""), "");
}

#[test]
fn body_is_read_back() {
    let b = read_body("fn main() {\n}\n").unwrap();
    assert_eq!(b.len(), 0);
    let b = read_body("\nstruct A;\n\nfn main() {\n  let a = A;\n}\n// tail\n").unwrap();
    assert_eq!(b.len(), 2);
    assert_eq!(b.fragment(0).text, "struct A;");
    assert_eq!(b.fragment(1).text, "let a = A;");
    assert!(read_body("").is_none());
    assert!(read_body("fn main() {}").is_none());
    assert!(read_body("fn main() {\n").is_none());
    let b = read_body("fn main() {\n  if true {\n\n  }\n}\n").unwrap();
    assert_eq!(b.len(), 2);
    assert_eq!(b.fragment(0).text, "if true {");
    assert_eq!(b.fragment(1).text, "}");
    assert_eq!(b.render(), "fn main() {\nif true {\n}\n}\n");
}

#[test]
fn removing_every_occurrence() {
    assert_eq!(remove_all(":cd a:cdb", ":cd", 3), " ab");
    assert_eq!(remove_all("aaa", "aa", 0), "a");
    assert_eq!(remove_all("abc", "", 1), "bc");
    assert_eq!(remove_all("abc", "x", 0), "abc");
    assert_eq!(remove_all("abc", "abc", 0), "");
    assert_eq!(remove_all("abc", "b", 9), "");
    assert_eq!(find_line_start(&chars("ab\ncd\n"), 4), 3);
    assert_eq!(find_line_start(&chars("ab\ncd\n"), 3), 3);
    assert_eq!(find_line_start(&chars("ab\ncd\n"), 2), 0);
    assert_eq!(find_line_start(&chars("ab"), 0), 0);
}
