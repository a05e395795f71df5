use nbcl::error::{
    classify_expectation, format_diagnostic, rule_to_human, NbclError, ParseFailure, ParseFailureKind,
    ParseLineCol, ParseLocation, Rule, Span,
};
use nbcl::registry::{Builtin, Library, LibraryItem, NativeHandler};
use nbcl::resolver::{FileModuleResolver, SourceStore};
use nbcl::strings::{trim_text, unquote};
use nbcl::utils::{find_best_match, levenshtein_distance, ordinal};
use nbcl::value::{Type, Value};

#[test]
fn levenshtein_known_values() {
    assert_eq!(levenshtein_distance("kitten", "sitting"), 3);
    assert_eq!(levenshtein_distance("flaw", "lawn"), 2);
    assert_eq!(levenshtein_distance("", "abc"), 3);
    assert_eq!(levenshtein_distance("abc", ""), 3);
    assert_eq!(levenshtein_distance("héllo", "hello"), 1);
}

#[test]
fn levenshtein_zero_on_equal_strings() {
    assert_eq!(levenshtein_distance("print", "print"), 0);
    assert_eq!(levenshtein_distance("", ""), 0);
}

#[test]
fn levenshtein_is_symmetric() {
    assert_eq!(levenshtein_distance("book", "back"), levenshtein_distance("back", "book"));
    assert_eq!(levenshtein_distance("a", "abcd"), levenshtein_distance("abcd", "a"));
}

#[test]
fn best_match_picks_closest_within_three() {
    let cands = vec!["print".to_string(), "push".to_string(), "pop".to_string()];
    assert_eq!(find_best_match("prnt", &cands), Some("print".to_string()));
    assert_eq!(find_best_match("zzzzzzzz", &cands), None);
}

#[test]
fn best_match_keeps_first_of_equal_distance() {
    let cands = vec!["ab".to_string(), "ac".to_string()];
    assert_eq!(find_best_match("aa", &cands), Some("ab".to_string()));
    let empty: Vec<String> = Vec::new();
    assert_eq!(find_best_match("x", &empty), None);
}

#[test]
fn ordinal_suffixes() {
    assert_eq!(ordinal(1), "1st");
    assert_eq!(ordinal(2), "2nd");
    assert_eq!(ordinal(3), "3rd");
    assert_eq!(ordinal(4), "4th");
    assert_eq!(ordinal(11), "11th");
    assert_eq!(ordinal(12), "12th");
    assert_eq!(ordinal(13), "13th");
    assert_eq!(ordinal(21), "21st");
    assert_eq!(ordinal(112), "112th");
    assert_eq!(ordinal(0), "0th");
}

#[test]
fn unquote_strips_both_quote_kinds() {
    assert_eq!(unquote("\"hello\""), "hello");
    assert_eq!(unquote("'x'"), "x");
    assert_eq!(unquote("\"'mixed'\""), "mixed");
    assert_eq!(unquote("plain"), "plain");
    assert_eq!(unquote("\"\""), "");
}

#[test]
fn trim_text_removes_outer_whitespace() {
    assert_eq!(trim_text("  a b \n"), "a b");
    assert_eq!(trim_text("\t\t"), "");
}

#[test]
fn type_from_str_names() {
    assert_eq!(Type::from_str("Int"), Some(Type::Int));
    assert_eq!(Type::from_str("String"), Some(Type::Str));
    assert_eq!(Type::from_str("Map"), Some(Type::Dict));
    assert_eq!(Type::from_str("Null"), Some(Type::Null));
    assert_eq!(Type::from_str("Whatever"), None);
    assert_eq!(Type::from_str("int"), None);
}

#[test]
fn type_matches_values() {
    assert!(Type::Any.matches_value(&Value::Null));
    assert!(Type::Int.matches_value(&Value::Int(3)));
    assert!(!Type::Int.matches_value(&Value::Bool(true)));
    assert!(Type::Object("Color".to_string()).matches_value(&Value::Object("Color".to_string())));
    assert!(!Type::Object("Color".to_string()).matches_value(&Value::Object("Size".to_string())));
}

#[test]
fn value_helpers() {
    assert_eq!(Value::Int(5).as_int(), Some(5));
    assert_eq!(Value::Str("a".to_string()).as_int(), None);
    assert!(!Value::Null.is_truthy());
    assert!(Value::Bool(true).is_truthy());
    assert_eq!(Value::List(vec![]).kind_name(), "List");
}

#[test]
fn source_store_read_after_write() {
    let mut store = SourceStore::new();
    assert_eq!(store.get_source(), None);
    store.set_source("node a {}");
    assert_eq!(store.get_source(), Some("node a {}".to_string()));
    store.set_source("other");
    assert_eq!(store.get_source(), Some("other".to_string()));
    store.clear_source();
    assert_eq!(store.get_source(), None);
}

#[test]
fn file_resolver_keeps_path() {
    let r = FileModuleResolver::new("dir/main.nbcl".to_string());
    assert_eq!(r.file_path, "dir/main.nbcl");
}

#[test]
fn library_add_and_get_item() {
    let item = LibraryItem::define("math".to_string())
        .with_fn("abs", vec![Type::Int], Type::Int, NativeHandler::Builtin(Builtin::Abs))
        .with_global("ONE", Value::Int(1));
    let mut lib = Library::new("std".to_string(), vec![]);
    assert!(lib.get_item("math".to_string()).is_none());
    lib.add_item(item);
    let got = lib.get_item("math".to_string()).unwrap();
    assert_eq!(got.name(), "math");
    assert_eq!(got.native_functions.len(), 1);
    assert_eq!(got.native_functions[0].0, "abs");
    assert_eq!(got.globals.len(), 1);
    assert_eq!(got.globals[0].1, Value::Int(1));
    lib.add_item(LibraryItem::define("math".to_string()));
    assert_eq!(lib.items().len(), 1);
    assert_eq!(lib.get_item("math".to_string()).unwrap().native_functions.len(), 0);
}

#[test]
fn span_dummy_and_error_span() {
    let d = Span::dummy();
    assert_eq!(d.start, 0);
    assert_eq!(d.line, 0);
    assert_eq!(d.slice, "");
    let sp = Span { start: 1, end: 4, line: 2, col: 3, slice: "abc".to_string() };
    let e = NbclError::Runtime { message: "boom".to_string(), hint: None, span: Some(sp.clone()) };
    assert_eq!(e.span(), Some(sp));
    let io = NbclError::IO { message: "missing".to_string(), hint: None, path: "a.nbcl".to_string() };
    assert_eq!(io.span(), None);
}

#[test]
fn display_strings_of_errors() {
    let sp = Span { start: 0, end: 1, line: 3, col: 7, slice: "x".to_string() };
    let e = NbclError::Runtime {
        message: "undefined variable 'x'".to_string(),
        hint: Some("Declare it first.".to_string()),
        span: Some(sp),
    };
    assert_eq!(e.to_display_string(), "[Runtime Error] at 3:7: undefined variable 'x'\n  Hint: Declare it first.");
    let a = NbclError::Ast { message: "bad".to_string(), hint: None, span: None };
    assert_eq!(a.to_display_string(), "[Syntax Error] bad\n");
    let io = NbclError::IO { message: "not found".to_string(), hint: Some("Check it.".to_string()), path: "m.nbcl".to_string() };
    assert_eq!(io.to_display_string(), "[IO Error] not found\n  Path: m.nbcl\n  Hint: Check it.");
    let s = format_diagnostic("Parse Error", &"oops".to_string(), &None, &None);
    assert_eq!(s, "[Parse Error] oops\n");
}

#[test]
fn human_names_of_rules() {
    assert_eq!(rule_to_human(Rule::or_op), "'||' (or)");
    assert_eq!(rule_to_human(Rule::EOI), "end of file");
    assert_eq!(rule_to_human(Rule::in_kw), "'in' keyword");
}

#[test]
fn expectation_classes() {
    assert_eq!(classify_expectation(&vec![Rule::or_op]).0, "a binary operator");
    assert_eq!(classify_expectation(&vec![Rule::accessor]).0, "a field access or call");
    assert_eq!(classify_expectation(&vec![Rule::add_op, Rule::call_args]).0, "an operator or continuation of expression");
    assert_eq!(classify_expectation(&vec![Rule::file]).0, "an unexpected token");
}

#[test]
fn parse_failure_becomes_parse_error() {
    let f = ParseFailure {
        variant: ParseFailureKind::ParsingError { positives: vec![Rule::or_op, Rule::EOI], negatives: vec![] },
        location: ParseLocation::Pos(5),
        line_col: ParseLineCol::Pos(1, 6),
    };
    let e = NbclError::from_parse_failure(&f);
    match e {
        NbclError::Parse { message, hint, span } => {
            assert_eq!(message, "expected '||' (or)");
            assert_eq!(hint, Some("Expected an operator to continue the expression ('and', 'or', '+', etc).".to_string()));
            let sp = span.unwrap();
            assert_eq!((sp.start, sp.end, sp.line, sp.col), (5, 5, 1, 6));
            assert_eq!(sp.slice, "");
        }
        _ => panic!("expected a parse error"),
    }
    let custom = ParseFailure {
        variant: ParseFailureKind::CustomError { message: "bad thing".to_string() },
        location: ParseLocation::Span(2, 9),
        line_col: ParseLineCol::Span((1, 3), (1, 10)),
    };
    match NbclError::from_parse_failure(&custom) {
        NbclError::Parse { message, span, .. } => {
            assert_eq!(message, "bad thing");
            let sp = span.unwrap();
            assert_eq!((sp.start, sp.end, sp.line, sp.col), (2, 9, 1, 3));
        }
        _ => panic!("expected a parse error"),
    }
    let nothing = ParseFailure {
        variant: ParseFailureKind::ParsingError { positives: vec![Rule::WHITESPACE], negatives: vec![] },
        location: ParseLocation::Pos(0),
        line_col: ParseLineCol::Pos(1, 1),
    };
    match NbclError::from_parse_failure(&nothing) {
        NbclError::Parse { message, hint, .. } => {
            assert_eq!(message, "unexpected token");
            assert_eq!(hint, Some("Nothing was expected here.".to_string()));
        }
        _ => panic!("expected a parse error"),
    }
}

#[test]
fn edit_distance_triangle_and_lower_bound() {
    let ab = levenshtein_distance("kitten", "mitten");
    let bc = levenshtein_distance("mitten", "sitting");
    let ac = levenshtein_distance("kitten", "sitting");
    assert_eq!((ab, bc, ac), (1, 3, 3));
    assert!(ac <= ab + bc);
    assert_eq!(levenshtein_distance("abcdef", "ab"), 4);
    assert_eq!(levenshtein_distance("", "xyz"), 3);
}

#[test]
fn unquote_twice_is_unquote_once() {
    let once = unquote("\"'a\"b'\"");
    assert_eq!(once, "a\"b");
    assert_eq!(unquote(&once), once);
    assert_eq!(unquote("\"\"''"), "");
}
