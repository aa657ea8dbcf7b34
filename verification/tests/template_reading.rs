use shortcircuit::circuit::{
    BoolExpression, Component, DeclType, ForLoop, Instruction, SignalDirection, SingleCommand,
    Template,
};
use shortcircuit::collections::NameMap;
use shortcircuit::execution_variable::ExecutionVariable;
use shortcircuit::parser::ast::{NonTerminalToken, Rule, TerminalToken, Token};
use shortcircuit::parser::expression_parser::{parse_statement, Stmt};
use shortcircuit::template_reader::{
    byte_slice_exec, contains_text_exec, extract_original_content_from_span, find_templates,
    get_used_templates, parse_array_declaration, parse_body_nested, parse_compl_variable,
    parse_declaration_statement, parse_expression, parse_for_loop, parse_list_of_vars_or_values,
    parse_template_from_ast,
};

fn t(rule: Rule, content: &str) -> Token {
    Token::Terminal(TerminalToken { rule, content: content.to_string() })
}

fn nt(rule: Rule, subrules: Vec<Token>) -> Token {
    Token::NonTerminal(NonTerminalToken { rule, subrules, span: (0, 0) })
}

fn spanned(rule: Rule, subrules: Vec<Token>, span: (usize, usize)) -> Token {
    Token::NonTerminal(NonTerminalToken { rule, subrules, span })
}

fn value(text: &str) -> Token {
    nt(Rule::Value, vec![nt(Rule::Other, vec![t(Rule::Other, text)])])
}

fn array(size: &str) -> Token {
    nt(
        Rule::ArrayDeclaration,
        vec![t(Rule::Other, "["), nt(Rule::Expression, vec![value(size)]), t(Rule::Other, "]")],
    )
}

fn inner(token: Token) -> Vec<Token> {
    match token {
        Token::NonTerminal(n) => n.subrules,
        Token::Terminal(_) => vec![],
    }
}

const SOURCE: &str = "signal output out <== a * b; x <== i + 1; done";

fn contents() -> NameMap<String> {
    let mut m = NameMap::new();
    m.insert("main.circom".to_string(), SOURCE.to_string());
    m
}

fn path() -> String {
    "main.circom".to_string()
}

fn signal_declaration() -> Token {
    nt(
        Rule::DeclarationStatement,
        vec![nt(
            Rule::SignalDeclarationWithConstraint,
            vec![
                nt(
                    Rule::Other,
                    vec![t(Rule::Other, "signal"), t(Rule::Other, " "), t(Rule::Other, "output")],
                ),
                t(Rule::Other, "out"),
                array("n"),
                array("2"),
                spanned(Rule::Expression, vec![], (14, 27)),
            ],
        )],
    )
}

fn component_declaration(name: &str, template: &str, args: &[&str]) -> Token {
    let mut list = vec![];
    for a in args {
        list.push(nt(Rule::Other, vec![t(Rule::Other, a)]));
    }
    nt(
        Rule::DeclarationStatement,
        vec![nt(
            Rule::ComponentDeclaration,
            vec![
                t(Rule::Other, "component"),
                t(Rule::Other, name),
                nt(
                    Rule::Expression,
                    vec![
                        nt(Rule::Other, vec![nt(Rule::Other, vec![t(Rule::Other, template)])]),
                        t(Rule::Other, "("),
                        nt(Rule::Other, vec![nt(Rule::Other, list)]),
                        t(Rule::Other, ")"),
                    ],
                ),
                t(Rule::EndOfLine, ";"),
                array("9"),
            ],
        )],
    )
}

fn for_statement() -> Token {
    nt(
        Rule::ForStatement,
        vec![
            t(Rule::Other, "for"),
            nt(
                Rule::DeclarationStatement,
                vec![t(Rule::VariableDeclarationKW, "var"), t(Rule::Other, "i")],
            ),
            nt(
                Rule::Expression,
                vec![value("i"), t(Rule::RelationalOrderingOperator, "<"), value("n")],
            ),
            nt(Rule::Expression, vec![value("i"), t(Rule::PostfixOperator, "++")]),
            nt(
                Rule::Body,
                vec![
                    t(Rule::Other, "{"),
                    spanned(Rule::Expression, vec![], (29, 40)),
                    nt(Rule::Other, vec![]),
                    t(Rule::Other, "}"),
                ],
            ),
        ],
    )
}

#[test]
fn text_search_finds_every_place() {
    assert!(contains_text_exec("signal output", "output"));
    assert!(contains_text_exec("output", "output"));
    assert!(contains_text_exec("xoutputx", "output"));
    assert!(!contains_text_exec("outpu", "output"));
    assert!(!contains_text_exec("signal input", "output"));
    assert!(contains_text_exec("anything", ""));
    assert!(contains_text_exec("", ""));
}

#[test]
fn byte_slices_respect_character_boundaries() {
    assert_eq!(byte_slice_exec("héllo", (0, 1)), Some("h"));
    assert_eq!(byte_slice_exec("héllo", (1, 3)), Some("é"));
    assert_eq!(byte_slice_exec("héllo", (1, 2)), None);
    assert_eq!(byte_slice_exec("héllo", (2, 3)), None);
    assert_eq!(byte_slice_exec("héllo", (3, 6)), Some("llo"));
    assert_eq!(byte_slice_exec("héllo", (3, 7)), None);
    assert_eq!(byte_slice_exec("héllo", (4, 3)), None);
    assert_eq!(byte_slice_exec("héllo", (6, 6)), Some(""));
}

#[test]
fn span_is_parsed_as_a_statement() {
    let map = contents();
    assert_eq!(
        extract_original_content_from_span(&map, (29, 40), &path()),
        parse_statement("x <== i + 1")
    );
    assert_eq!(extract_original_content_from_span(&map, (29, 400), &path()), Stmt::Empty);
    assert_eq!(extract_original_content_from_span(&map, (0, 6), &"other".to_string()), Stmt::Empty);
}

#[test]
fn token_text_joins_the_terminals() {
    let tree = nt(
        Rule::Expression,
        vec![t(Rule::Other, "a"), nt(Rule::Other, vec![t(Rule::Other, "+"), t(Rule::Other, "b")])],
    );
    assert_eq!(parse_expression(&tree).content, "a+b");
    assert_eq!(parse_expression(&t(Rule::Other, "x")).content, "x");
    assert_eq!(parse_expression(&nt(Rule::Other, vec![])).content, "");
}

#[test]
fn array_size_is_the_innermost_text() {
    assert_eq!(parse_array_declaration(&inner(array("12"))), "12");
    let direct = vec![
        t(Rule::Other, "["),
        nt(Rule::Expression, vec![nt(Rule::Value, vec![t(Rule::Other, "n")])]),
    ];
    assert_eq!(parse_array_declaration(&direct), "n");
    assert_eq!(parse_array_declaration(&vec![t(Rule::Other, "[")]), "");
    assert_eq!(parse_array_declaration(&vec![t(Rule::Other, "["), t(Rule::Other, "3")]), "");
    assert_eq!(parse_array_declaration(&vec![]), "");
}

#[test]
fn listed_names_are_the_first_texts() {
    let root = vec![
        t(Rule::Other, "("),
        nt(
            Rule::Other,
            vec![
                nt(Rule::Other, vec![t(Rule::Other, "a")]),
                t(Rule::Other, ","),
                nt(Rule::Other, vec![t(Rule::Other, "2"), t(Rule::Other, "ignored")]),
                nt(Rule::Other, vec![]),
                nt(Rule::Other, vec![nt(Rule::Other, vec![])]),
            ],
        ),
    ];
    assert_eq!(parse_list_of_vars_or_values(&root, 1), vec!["a", "2"]);
    assert!(parse_list_of_vars_or_values(&root, 0).is_empty());
    assert!(parse_list_of_vars_or_values(&root, 7).is_empty());
}

#[test]
fn signal_declaration_is_read() {
    let d = parse_declaration_statement(&inner(signal_declaration()), &path(), &contents());
    assert_eq!(d.decl_type, DeclType::Signal);
    assert_eq!(d.name, "out");
    assert_eq!(d.direction, SignalDirection::Output);
    assert_eq!(d.size_per_dimension, vec!["n", "2"]);
    assert_eq!(d.template_to_use, "");
    assert_eq!(d.expression, parse_statement("out <== a * b"));
    assert!(d.arguments.is_empty());
}

#[test]
fn component_declaration_is_read_up_to_the_end_of_line() {
    let d = parse_declaration_statement(
        &inner(component_declaration("main", "Multiplier", &["3", "x", "4"])),
        &path(),
        &contents(),
    );
    assert_eq!(d.decl_type, DeclType::Component);
    assert_eq!(d.name, "main");
    assert_eq!(d.direction, SignalDirection::Input);
    assert!(d.size_per_dimension.is_empty());
    assert_eq!(d.template_to_use, "Multiplier");
    assert_eq!(d.arguments, vec![3, 4]);
    assert_eq!(d.expression, Stmt::Empty);
}

#[test]
fn variable_declaration_and_blank_declaration() {
    let var = vec![t(Rule::VariableDeclarationKW, "var"), t(Rule::Other, "i")];
    let d = parse_declaration_statement(&var, &path(), &contents());
    assert_eq!(d.decl_type, DeclType::Variable);
    assert_eq!(d.name, "i");
    let blank = parse_declaration_statement(&vec![], &path(), &contents());
    assert_eq!(blank.decl_type, DeclType::Variable);
    assert_eq!(blank.name, "");
    assert_eq!(blank.direction, SignalDirection::Input);
}

#[test]
fn complex_variable_is_read_with_indexes_and_member() {
    let container = nt(
        Rule::Value,
        vec![nt(
            Rule::Other,
            vec![
                t(Rule::Other, "a"),
                array("i"),
                t(Rule::Other, "ignored"),
                array("2"),
                t(Rule::MemberAccessOperator, "."),
                t(Rule::Other, "b"),
                array("j"),
            ],
        )],
    );
    let v = parse_compl_variable(&container);
    assert_eq!(
        v,
        ExecutionVariable {
            id: "a".to_string(),
            indexing: vec!["i".to_string(), "2".to_string()],
            sub_variable: Some(Box::new(ExecutionVariable {
                id: "b".to_string(),
                indexing: vec!["j".to_string()],
                sub_variable: None,
                is_constant: false,
                numerical_value: 0,
            })),
            is_constant: false,
            numerical_value: 0,
        }
    );
    let constant = parse_compl_variable(&nt(Rule::Value, vec![t(Rule::Other, "42")]));
    assert!(constant.is_constant);
    assert_eq!(constant.numerical_value, 42);
    assert_eq!(constant.id, "");
    let not_a_number = parse_compl_variable(&nt(Rule::Value, vec![t(Rule::Other, "x")]));
    assert!(not_a_number.is_constant);
    assert_eq!(not_a_number.numerical_value, 0);
    let empty = parse_compl_variable(&t(Rule::Other, "x"));
    assert!(!empty.is_constant);
    assert!(empty.sub_variable.is_some());
}

fn expected_loop() -> SingleCommand {
    SingleCommand::ForLoop(ForLoop {
        index: "i".to_string(),
        start_value: 0,
        condition: BoolExpression {
            lhs: "i".to_string(),
            rhs: "n".to_string(),
            operation: "<".to_string(),
        },
        step: 1,
        body: vec![SingleCommand::Instruction(Instruction {
            statement: parse_statement("x <== i + 1"),
            span: (29, 40),
        })],
    })
}

#[test]
fn for_loop_is_read() {
    let l = parse_for_loop(&inner(for_statement()), &path(), &contents());
    assert_eq!(l, expected_loop());
    let short = parse_for_loop(&vec![t(Rule::Other, "for")], &path(), &contents());
    assert_eq!(
        short,
        SingleCommand::ForLoop(ForLoop {
            index: String::new(),
            start_value: 0,
            condition: BoolExpression {
                lhs: String::new(),
                rhs: String::new(),
                operation: String::new(),
            },
            step: 0,
            body: vec![],
        })
    );
    let mut down = inner(for_statement());
    down[3] = nt(Rule::Expression, vec![value("i"), t(Rule::PostfixOperator, "--")]);
    match parse_for_loop(&down, &path(), &contents()) {
        SingleCommand::ForLoop(l) => assert_eq!(l.step, -1),
        other => panic!("not a loop: {:?}", other),
    }
}

#[test]
fn nested_body_holds_loops_and_instructions() {
    let body = vec![
        for_statement(),
        spanned(Rule::Expression, vec![], (42, 46)),
        t(Rule::Other, "}"),
        signal_declaration(),
    ];
    let commands = parse_body_nested(&body, &path(), &contents());
    assert_eq!(commands.len(), 2);
    assert_eq!(commands[0], expected_loop());
    assert_eq!(
        commands[1],
        SingleCommand::Instruction(Instruction { statement: parse_statement("done"), span: (42, 46) })
    );
}

fn template_block(name: &str, body: Vec<Token>) -> Token {
    nt(
        Rule::TemplateBlock,
        vec![
            t(Rule::Other, "template"),
            t(Rule::TemplateName, name),
            nt(
                Rule::Parameters,
                vec![t(Rule::Other, "n"), nt(Rule::Other, vec![]), t(Rule::Other, "m")],
            ),
            nt(Rule::Body, body),
        ],
    )
}

#[test]
fn template_is_read_from_its_block() {
    let block = template_block(
        "Main",
        vec![
            signal_declaration(),
            component_declaration("sub", "Inner", &["1"]),
            for_statement(),
            spanned(Rule::Expression, vec![], (42, 46)),
        ],
    );
    let template = parse_template_from_ast(&inner(block), &path(), &contents());
    assert_eq!(template.name, "Main");
    assert_eq!(template.params, vec!["n", "m"]);
    assert_eq!(template.path, "main.circom");
    assert!(template.private_input_signals.is_empty());
    assert!(template.intermediate_signals.is_empty());
    assert_eq!(template.output_signals.len(), 1);
    assert_eq!(template.output_signals[0].name, "out");
    assert_eq!(template.output_signals[0].size_per_dimension, vec!["n", "2"]);
    assert_eq!(
        template.components,
        vec![Component {
            name: "sub".to_string(),
            size_per_dimension: vec![],
            template_to_use: "Inner".to_string(),
            arguments: vec![1],
        }]
    );
    assert!(template.constraints.is_empty());
    assert_eq!(template.instructions.len(), 4);
    assert_eq!(template.instructions[2], expected_loop());
    assert_eq!(
        template.instructions[3],
        SingleCommand::Instruction(Instruction { statement: parse_statement("done"), span: (42, 46) })
    );
    match &template.instructions[0] {
        SingleCommand::DeclarationStatement(d) => assert_eq!(d.name, "out"),
        other => panic!("not a declaration: {:?}", other),
    }
}

#[test]
fn file_gives_templates_and_main_component() {
    let file = vec![
        template_block("Inner", vec![]),
        t(Rule::Other, "\n"),
        template_block("Main", vec![component_declaration("sub", "Inner", &[])]),
        component_declaration("other", "Inner", &[]),
        component_declaration("main", "Main", &["5"]),
    ];
    let (main, templates) = find_templates(&file, &path(), &contents());
    assert_eq!(
        main,
        Some(Component {
            name: "main".to_string(),
            size_per_dimension: vec![],
            template_to_use: "Main".to_string(),
            arguments: vec![5],
        })
    );
    assert_eq!(templates.len(), 2);
    assert_eq!(templates[0].name, "Inner");
    assert_eq!(templates[1].name, "Main");
    let (none, empty) = find_templates(&vec![], &path(), &contents());
    assert_eq!(none, None);
    assert!(empty.is_empty());
}

fn plain_template(name: &str, uses: &[&str]) -> Template {
    Template {
        name: name.to_string(),
        params: vec![],
        private_input_signals: vec![],
        output_signals: vec![],
        intermediate_signals: vec![],
        components: uses
            .iter()
            .map(|u| Component {
                name: format!("c_{}", u),
                size_per_dimension: vec![],
                template_to_use: u.to_string(),
                arguments: vec![],
            })
            .collect(),
        constraints: vec![],
        instructions: vec![],
        path: String::new(),
    }
}

#[test]
fn used_templates_are_those_reached_from_the_start() {
    let mut map: NameMap<Template> = NameMap::new();
    map.insert("A".to_string(), plain_template("A", &["B", "C", "Missing"]));
    map.insert("B".to_string(), plain_template("B", &["C", "A"]));
    map.insert("C".to_string(), plain_template("C", &[]));
    map.insert("D".to_string(), plain_template("D", &["A"]));
    let start = Component {
        name: "main".to_string(),
        size_per_dimension: vec![],
        template_to_use: "A".to_string(),
        arguments: vec![],
    };
    let used = get_used_templates(&map, start);
    let mut names: Vec<String> = used.entries.iter().map(|e| e.key.clone()).collect();
    names.sort();
    assert_eq!(names, vec!["A", "B", "C"]);
    assert_eq!(used.get("B"), map.get("B"));
    let nowhere = Component {
        name: "main".to_string(),
        size_per_dimension: vec![],
        template_to_use: "Z".to_string(),
        arguments: vec![],
    };
    assert!(get_used_templates(&map, nowhere).entries.is_empty());
}

#[test]
fn used_templates_follow_chains_and_skip_unknown_names() {
    let mut map: NameMap<Template> = NameMap::new();
    map.insert("A".to_string(), plain_template("A", &["Gone", "B"]));
    map.insert("B".to_string(), plain_template("B", &["C"]));
    map.insert("C".to_string(), plain_template("C", &["D"]));
    map.insert("D".to_string(), plain_template("D", &["A"]));
    map.insert("E".to_string(), plain_template("E", &["A"]));
    let start = Component {
        name: "main".to_string(),
        size_per_dimension: vec![],
        template_to_use: "C".to_string(),
        arguments: vec![],
    };
    let used = get_used_templates(&map, start);
    let mut names: Vec<String> = used.entries.iter().map(|e| e.key.clone()).collect();
    names.sort();
    assert_eq!(names, vec!["A", "B", "C", "D"]);
    for name in ["A", "B", "C", "D"] {
        assert_eq!(used.get(name), map.get(name));
    }
    assert_eq!(used.get("E"), None);
    assert_eq!(used.get("Gone"), None);
}
