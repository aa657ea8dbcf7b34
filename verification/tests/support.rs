use shortcircuit::collections::{NameMap, NameSet};
use shortcircuit::execution_variable::{
    generate_string_from_variable, get_value_for_evaluation, Evaluation, ExecutionVariable,
    Operation,
};
use shortcircuit::circuit::Component;
use shortcircuit::heap::Heap;
use shortcircuit::home_made_parser;
use shortcircuit::interpreter::{compare_values, evaluate, trim_blanks};
use shortcircuit::circuit::BoolExpression;
use shortcircuit::parser::errors::{
    from_pest_parsing, CompileError, ParseError, SyntaxError, UnknownFileIncludeError,
};
use shortcircuit::parser::text::{decimal_string, parse_decimal, str_eq};

#[test]
fn name_map_behaves_as_a_map() {
    let mut m: NameMap<u32> = NameMap::new();
    assert_eq!(m.get("a"), None);
    m.insert("a".to_string(), 1);
    m.insert("b".to_string(), 2);
    m.insert("a".to_string(), 3);
    assert_eq!(m.get("a"), Some(&3));
    assert_eq!(m.get("b"), Some(&2));
    assert!(m.contains_key("b"));
    assert_eq!(m.entries.len(), 2);
    m.remove("a");
    assert_eq!(m.get("a"), None);
    assert_eq!(m.get("b"), Some(&2));
    m.remove("zzz");
    assert_eq!(m.take("b"), Some(2));
    assert_eq!(m.take("b"), None);
    assert!(m.entries.is_empty());
}

#[test]
fn name_set_holds_each_name_once() {
    let mut s = NameSet::new();
    assert!(!s.contains("x"));
    s.insert("x".to_string());
    s.insert("y".to_string());
    s.insert("x".to_string());
    assert!(s.contains("x"));
    assert!(s.contains("y"));
    assert!(!s.contains("z"));
    assert_eq!(s.names.len(), 2);
}

#[test]
fn numerals_round_trip() {
    assert_eq!(decimal_string(0), "0");
    assert_eq!(decimal_string(7), "7");
    assert_eq!(decimal_string(10), "10");
    assert_eq!(decimal_string(4294967295), "4294967295");
    assert_eq!(parse_decimal("0"), Some(0));
    assert_eq!(parse_decimal("0012"), Some(12));
    assert_eq!(parse_decimal("+5"), Some(5));
    assert_eq!(parse_decimal("4294967295"), Some(4294967295));
    assert_eq!(parse_decimal("4294967296"), None);
    assert_eq!(parse_decimal("99999999999999999999999"), None);
    assert_eq!(parse_decimal(""), None);
    assert_eq!(parse_decimal("+"), None);
    assert_eq!(parse_decimal("-1"), None);
    assert_eq!(parse_decimal("1 "), None);
    assert_eq!(parse_decimal("1_000"), None);
    assert_eq!(parse_decimal("x"), None);
    assert_eq!(parse_decimal("١"), None);
    assert!(str_eq("abc", "abc"));
    assert!(!str_eq("abc", "abd"));
}

#[test]
fn loading_failures_become_compile_errors() {
    let file = "circuits/main.circom".to_string();
    assert_eq!(
        from_pest_parsing(&file, &ParseError::IOError("no such file".to_string())),
        CompileError::UnknownFileIncludeError(UnknownFileIncludeError {
            file_error: file.clone(),
            source_error: "TODO".to_string(),
            span_error: (10, 12),
            invalid_file: file.clone(),
        })
    );
    assert_eq!(
        from_pest_parsing(&file, &ParseError::PestError("expected template".to_string())),
        CompileError::SyntaxError(SyntaxError {
            file_error: file.clone(),
            source_error: "TODO".to_string(),
            span_error: (10, 12),
        })
    );
}

#[test]
fn sketch_parser_gives_the_example_assignment() {
    assert_eq!(
        home_made_parser::parse_line_to_ast("lin = in * e2"),
        home_made_parser::Stmt::Assign {
            target: home_made_parser::Expr::Variable("example".to_string()),
            value: home_made_parser::Expr::Number(0),
        }
    );
}

fn plain(id: &str, indexing: &[&str], sub: Option<ExecutionVariable>) -> ExecutionVariable {
    ExecutionVariable {
        id: id.to_string(),
        indexing: indexing.iter().map(|s| s.to_string()).collect(),
        sub_variable: sub.map(Box::new),
        is_constant: false,
        numerical_value: 9,
    }
}

#[test]
fn execution_variable_gives_two_keys() {
    let mut values: NameMap<u32> = NameMap::new();
    values.insert("i".to_string(), 4);
    let v = plain("a", &["i", "k"], Some(plain("b", &["i"], None)));
    assert_eq!(
        generate_string_from_variable(&v, &mut values),
        ("a[4][k].".to_string(), "b[4]".to_string())
    );
    let unnamed = plain("a", &[], Some(plain("", &["i"], None)));
    assert_eq!(
        generate_string_from_variable(&unnamed, &mut values),
        ("a".to_string(), String::new())
    );
    let bare = plain("a", &["i"], None);
    assert_eq!(
        generate_string_from_variable(&bare, &mut values),
        ("a[4]".to_string(), String::new())
    );
}

#[test]
fn evaluation_takes_the_value_of_its_first_variable() {
    let mut heap = Heap::new(Component {
        name: "main".to_string(),
        size_per_dimension: vec![],
        template_to_use: "Main".to_string(),
        arguments: vec![],
    });
    heap.bind("a[4]".to_string(), 11);
    heap.bind("i".to_string(), 4);
    let bound = Evaluation {
        variables: vec![plain("a", &["i"], None), plain("zzz", &[], None)],
        operation: Operation::Id,
        params: vec![],
    };
    assert_eq!(get_value_for_evaluation(bound, &mut heap), 11);
    let unbound = Evaluation {
        variables: vec![plain("b", &[], None)],
        operation: Operation::Multiply,
        params: vec![],
    };
    assert_eq!(get_value_for_evaluation(unbound, &mut heap), 9);
    let none = Evaluation { variables: vec![], operation: Operation::Id, params: vec![] };
    assert_eq!(get_value_for_evaluation(none, &mut heap), 0);
}

#[test]
fn conditions_compare_bound_names() {
    let mut values: NameMap<u32> = NameMap::new();
    values.insert("i".to_string(), 2);
    values.insert("n".to_string(), 3);
    let cond = |lhs: &str, op: &str, rhs: &str| BoolExpression {
        lhs: lhs.to_string(),
        rhs: rhs.to_string(),
        operation: op.to_string(),
    };
    assert!(evaluate(&cond("i", "<", "n"), &mut values));
    assert!(evaluate(&cond("i", " <=\t", "n"), &mut values));
    assert!(!evaluate(&cond("i", ">", "n"), &mut values));
    assert!(!evaluate(&cond("i", ">=", "n"), &mut values));
    assert!(evaluate(&cond("n", ">=", "n"), &mut values));
    assert!(!evaluate(&cond("i", "==", "n"), &mut values));
    assert!(!evaluate(&cond("i", "<", "3"), &mut values));
    assert!(!evaluate(&cond("x", "<", "n"), &mut values));
    assert!(compare_values("<", 1, 2));
    assert!(!compare_values("< =", 1, 2));
    assert_eq!(trim_blanks("  a b \n"), "a b");
    assert_eq!(trim_blanks(" \t"), "");
    assert_eq!(trim_blanks(""), "");
    assert_eq!(trim_blanks("\u{a0}\u{2003}<=\u{3000}\u{85}\u{b}"), "<=");
    assert_eq!(trim_blanks("\u{200b}<"), "\u{200b}<");
    for c in ['\u{9}', '\u{d}', ' ', '\u{1680}', '\u{2000}', '\u{200a}', '\u{2028}', '\u{2029}',
        '\u{202f}', '\u{205f}', 'a', '\u{8}', '\u{e}', '\u{180e}', '\u{1fff}', '\u{feff}']
    {
        let s = format!("{}x{}", c, c);
        assert_eq!(trim_blanks(&s), s.trim());
    }
    assert!(evaluate(&cond("i", "\u{a0}<\u{2009}", "n"), &mut values));
}
