use shortcircuit::circuit::{
    BoolExpression, Component, DeclStatement, DeclType, ForLoop, Instruction, Signal,
    SignalDirection, SingleCommand, Template,
};
use shortcircuit::collections::NameMap;
use shortcircuit::expansion::{get_actual_value_for_signals_components, produce_signals};
use shortcircuit::heap::Heap;
use shortcircuit::interpreter::{execute, execute_component, run_list_exec};
use shortcircuit::parser::expression_parser::{parse_statement, Stmt};
use shortcircuit::run::{ExecError, Run};

fn component(name: &str, template: &str, arguments: Vec<u32>) -> Component {
    Component {
        name: name.to_string(),
        size_per_dimension: vec![],
        template_to_use: template.to_string(),
        arguments,
    }
}

fn instruction(text: &str) -> SingleCommand {
    SingleCommand::Instruction(Instruction { statement: parse_statement(text), span: (0, text.len()) })
}

fn declaration(kind: DeclType, name: &str, direction: SignalDirection, dims: &[&str]) -> DeclStatement {
    DeclStatement {
        decl_type: kind,
        name: name.to_string(),
        direction,
        size_per_dimension: dims.iter().map(|d| d.to_string()).collect(),
        template_to_use: String::new(),
        expression: Stmt::Empty,
        arguments: vec![],
    }
}

fn signal_decl(name: &str, direction: SignalDirection, dims: &[&str]) -> SingleCommand {
    SingleCommand::DeclarationStatement(declaration(DeclType::Signal, name, direction, dims))
}

fn component_decl(name: &str, template: &str) -> SingleCommand {
    let mut d = declaration(DeclType::Component, name, SignalDirection::Input, &[]);
    d.template_to_use = template.to_string();
    SingleCommand::DeclarationStatement(d)
}

fn input(name: &str, dims: &[&str]) -> Signal {
    Signal {
        name: name.to_string(),
        direction: SignalDirection::Input,
        size_per_dimension: dims.iter().map(|d| d.to_string()).collect(),
        expression: Stmt::Empty,
    }
}

fn template(name: &str, params: &[&str], inputs: Vec<Signal>, instructions: Vec<SingleCommand>) -> Template {
    Template {
        name: name.to_string(),
        params: params.iter().map(|p| p.to_string()).collect(),
        private_input_signals: inputs,
        output_signals: vec![],
        intermediate_signals: vec![],
        components: vec![],
        constraints: vec![],
        instructions,
        path: String::new(),
    }
}

fn counting_loop(bound: &str) -> SingleCommand {
    SingleCommand::ForLoop(ForLoop {
        index: "i".to_string(),
        start_value: 0,
        condition: BoolExpression {
            lhs: "i".to_string(),
            rhs: bound.to_string(),
            operation: "<".to_string(),
        },
        step: 1,
        body: vec![instruction("a[i] <== i*2;")],
    })
}

#[test]
fn loop_unrolls_and_drops_its_index() {
    let mut heap = Heap::new(component("main", "Main", vec![]));
    heap.bind("n".to_string(), 3);
    let templates: NameMap<Template> = NameMap::new();
    let mut run = Run::new(1000);
    execute(&counting_loop("n"), &mut heap, &templates, &mut run);
    assert_eq!(heap.value("a[0]"), Some(0));
    assert_eq!(heap.value("a[1]"), Some(2));
    assert_eq!(heap.value("a[2]"), Some(4));
    assert_eq!(heap.value("a[3]"), None);
    assert_eq!(heap.value("i"), None);
    assert!(!run.halted);
    assert!(run.errors.is_empty());
    // one command, three rounds, three body commands
    assert_eq!(run.fuel, 1000 - 7);
    assert_eq!(
        heap.var_depending_on.get("a[1]"),
        Some(&vec!["i".to_string()])
    );
}

#[test]
fn loop_bound_must_be_a_bound_name() {
    let mut heap = Heap::new(component("main", "Main", vec![]));
    let templates: NameMap<Template> = NameMap::new();
    let mut run = Run::new(1000);
    execute(&counting_loop("3"), &mut heap, &templates, &mut run);
    assert_eq!(heap.value("a[0]"), None);
    assert_eq!(heap.value("i"), None);
    assert_eq!(run.errors, vec![ExecError::UnboundReference("3".to_string())]);
}

#[test]
fn loop_without_fuel_halts() {
    let mut heap = Heap::new(component("main", "Main", vec![]));
    heap.bind("n".to_string(), 3);
    let templates: NameMap<Template> = NameMap::new();
    let mut run = Run::new(4);
    execute(&counting_loop("n"), &mut heap, &templates, &mut run);
    assert!(run.halted);
    assert_eq!(run.fuel, 0);
    assert_eq!(heap.value("a[0]"), Some(0));
    assert_eq!(heap.value("a[1]"), None);
}

#[test]
fn downward_loop_wraps_its_index() {
    let mut heap = Heap::new(component("main", "Main", vec![]));
    heap.bind("n".to_string(), 2);
    let templates: NameMap<Template> = NameMap::new();
    let mut run = Run::new(1000);
    let down = SingleCommand::ForLoop(ForLoop {
        index: "i".to_string(),
        start_value: 1,
        condition: BoolExpression {
            lhs: "i".to_string(),
            rhs: "n".to_string(),
            operation: " < ".to_string(),
        },
        step: -1,
        body: vec![instruction("a[i] <== i + 10")],
    });
    execute(&down, &mut heap, &templates, &mut run);
    assert_eq!(heap.value("a[1]"), Some(11));
    assert_eq!(heap.value("a[0]"), Some(10));
    assert_eq!(heap.value("a[4294967295]"), None);
    assert_eq!(heap.value("i"), None);
}

#[test]
fn two_by_three_expands_row_major() {
    assert_eq!(
        produce_signals("a".to_string(), &[2, 3]),
        vec!["a[0][0]", "a[0][1]", "a[0][2]", "a[1][0]", "a[1][1]", "a[1][2]"]
    );
    assert_eq!(produce_signals("a".to_string(), &[]), vec!["a"]);
    assert!(produce_signals("a".to_string(), &[2, 0]).is_empty());
}

#[test]
fn dimensions_come_from_bindings_or_literals() {
    let mut values: NameMap<u32> = NameMap::new();
    values.insert("n".to_string(), 2);
    let dims = vec!["n".to_string(), "3".to_string()];
    let names = get_actual_value_for_signals_components(&dims, &"a".to_string(), &values);
    assert_eq!(
        names,
        Ok(vec![
            "a[0][0]".to_string(),
            "a[0][1]".to_string(),
            "a[0][2]".to_string(),
            "a[1][0]".to_string(),
            "a[1][1]".to_string(),
            "a[1][2]".to_string()
        ])
    );
    let bad = vec!["2".to_string(), "m".to_string(), "k".to_string()];
    assert_eq!(
        get_actual_value_for_signals_components(&bad, &"a".to_string(), &values),
        Err(ExecError::UnresolvedArrayDimension("m".to_string()))
    );
}

#[test]
fn declaration_registers_every_expanded_name() {
    let mut heap = Heap::new(component("main", "Main", vec![]));
    let templates: NameMap<Template> = NameMap::new();
    let mut run = Run::new(10);
    execute(&signal_decl("a", SignalDirection::Intermediate, &["2", "3"]), &mut heap, &templates, &mut run);
    assert!(heap.variable_set.contains("a[0][0]"));
    assert!(heap.variable_set.contains("a[1][2]"));
    assert!(!heap.variable_set.contains("a[2][0]"));
    assert!(!heap.variable_set.contains("a"));
    assert_eq!(heap.value("a[0][0]"), None);

    execute(&signal_decl("b", SignalDirection::Intermediate, &["k"]), &mut heap, &templates, &mut run);
    assert!(!heap.variable_set.contains("b"));
    assert_eq!(run.errors, vec![ExecError::UnresolvedArrayDimension("k".to_string())]);
}

#[test]
fn variable_declaration_binds_initializer_or_zero() {
    let mut heap = Heap::new(component("main", "Main", vec![]));
    heap.bind("x".to_string(), 5);
    let templates: NameMap<Template> = NameMap::new();
    let mut run = Run::new(10);
    let mut with_init = declaration(DeclType::Variable, "v", SignalDirection::Input, &["2"]);
    with_init.expression = parse_statement("x + 1");
    execute(&SingleCommand::DeclarationStatement(with_init), &mut heap, &templates, &mut run);
    assert_eq!(heap.value("v[0]"), Some(6));
    assert_eq!(heap.value("v[1]"), Some(6));
    assert_eq!(heap.var_depending_on.get("v[1]"), Some(&vec!["x".to_string()]));

    let plain = declaration(DeclType::Variable, "w", SignalDirection::Input, &[]);
    execute(&SingleCommand::DeclarationStatement(plain), &mut heap, &templates, &mut run);
    assert_eq!(heap.value("w"), Some(0));

    let mut failing = declaration(DeclType::Variable, "u", SignalDirection::Input, &[]);
    failing.expression = parse_statement("y");
    execute(&SingleCommand::DeclarationStatement(failing), &mut heap, &templates, &mut run);
    assert_eq!(heap.value("u"), None);
    assert!(heap.variable_set.contains("u"));
    assert_eq!(run.errors, vec![ExecError::UnboundReference("y".to_string())]);
}

fn multiplier_templates() -> NameMap<Template> {
    let mut templates: NameMap<Template> = NameMap::new();
    templates.insert(
        "Multiplier2".to_string(),
        template(
            "Multiplier2",
            &[],
            vec![input("in1", &[]), input("in2", &[])],
            vec![
                signal_decl("in1", SignalDirection::Input, &[]),
                signal_decl("in2", SignalDirection::Input, &[]),
                signal_decl("out", SignalDirection::Output, &[]),
                instruction("out <== in1 * in2;"),
            ],
        ),
    );
    templates
}

#[test]
fn sub_component_runs_once_when_its_inputs_are_complete() {
    let templates = multiplier_templates();
    let mut heap = Heap::new(component("main", "Main", vec![]));
    let mut run = Run::new(1000);
    execute(&component_decl("m", "Multiplier2"), &mut heap, &templates, &mut run);
    assert!(heap.component_set.contains("m"));
    assert_eq!(heap.component("m").map(|c| c.template_to_use.clone()), Some("Multiplier2".to_string()));

    execute(&instruction("m.in1 <== 3"), &mut heap, &templates, &mut run);
    {
        let child = heap.child("m").unwrap();
        assert_eq!(child.value("in1"), Some(3));
        assert_eq!(child.value("out"), None);
        assert!(!child.variable_set.contains("out"));
    }
    let fuel_before = run.fuel;
    execute(&instruction("m.in2 <== 7"), &mut heap, &templates, &mut run);
    {
        let child = heap.child("m").unwrap();
        assert_eq!(child.value("in2"), Some(7));
        assert_eq!(child.value("out"), Some(21));
        assert!(child.variable_set.contains("out"));
    }
    // the write itself and the four commands of the template
    assert_eq!(run.fuel, fuel_before - 5);

    let fuel_before = run.fuel;
    execute(&instruction("m.in1 <== 5"), &mut heap, &templates, &mut run);
    {
        let child = heap.child("m").unwrap();
        assert_eq!(child.value("in1"), Some(5));
        assert_eq!(child.value("out"), Some(21));
    }
    assert_eq!(run.fuel, fuel_before - 1);
    assert!(run.errors.is_empty());
    assert_eq!(heap.value("m.in1"), None);
    assert_eq!(heap.var_depending_on.get("m.in2"), Some(&vec![]));
}

#[test]
fn write_to_unknown_sub_component_fails() {
    let templates = multiplier_templates();
    let mut heap = Heap::new(component("main", "Main", vec![]));
    let mut run = Run::new(1000);
    execute(&instruction("q.in1 <== 3"), &mut heap, &templates, &mut run);
    assert_eq!(run.errors, vec![ExecError::UnboundReference("q".to_string())]);
    assert_eq!(heap.value("q.in1"), None);
    execute(&instruction("out.x <== 4"), &mut heap, &templates, &mut run);
    assert_eq!(heap.value("out.x"), Some(4));
    execute(&instruction("inv.x <== 6"), &mut heap, &templates, &mut run);
    assert_eq!(heap.value("inv.x"), Some(6));
    assert_eq!(run.errors.len(), 1);
}

#[test]
fn array_inputs_complete_only_with_every_element() {
    let mut templates: NameMap<Template> = NameMap::new();
    templates.insert(
        "Sum".to_string(),
        template(
            "Sum",
            &["n"],
            vec![input("in", &["n"])],
            vec![instruction("out <== in[0] + in[1]")],
        ),
    );
    let mut heap = Heap::new(component("main", "Main", vec![]));
    let mut run = Run::new(1000);
    execute(&SingleCommand::DeclarationStatement(declaration(DeclType::Component, "s", SignalDirection::Input, &[])), &mut heap, &templates, &mut run);
    execute(&instruction("s = Sum(2)"), &mut heap, &templates, &mut run);
    assert_eq!(heap.component("s").map(|c| c.arguments.clone()), Some(vec![2]));
    execute(&instruction("s.in[0] <== 4"), &mut heap, &templates, &mut run);
    assert_eq!(heap.child("s").unwrap().value("out"), None);
    execute(&instruction("s.in[1] <== 5"), &mut heap, &templates, &mut run);
    let child = heap.child("s").unwrap();
    assert_eq!(child.value("out"), Some(9));
    assert_eq!(child.value("n"), Some(2));
    assert!(run.errors.is_empty());
}

#[test]
fn four_input_multiplier_yields_the_product() {
    let mut templates: NameMap<Template> = NameMap::new();
    templates.insert(
        "Multiplier4".to_string(),
        template(
            "Multiplier4",
            &[],
            vec![input("in1", &[]), input("in2", &[]), input("in3", &[]), input("in4", &[])],
            vec![
                signal_decl("in1", SignalDirection::Input, &[]),
                signal_decl("in2", SignalDirection::Input, &[]),
                signal_decl("in3", SignalDirection::Input, &[]),
                signal_decl("in4", SignalDirection::Input, &[]),
                signal_decl("int1", SignalDirection::Intermediate, &[]),
                signal_decl("int2", SignalDirection::Intermediate, &[]),
                signal_decl("out", SignalDirection::Output, &[]),
                instruction("int1 <== in1 * in2;"),
                instruction("int2 <== int1 * in3;"),
                instruction("out <== int2 * in4;"),
            ],
        ),
    );
    let main = component("main", "Multiplier4", vec![]);
    let mut heap = Heap::new(main.clone());
    heap.bind("in1".to_string(), 3);
    heap.bind("in2".to_string(), 1);
    heap.bind("in3".to_string(), 7);
    heap.bind("in4".to_string(), 1);
    let mut run = Run::new(1000);
    execute_component(&main, &mut heap, &templates, &mut run);
    assert_eq!(heap.value("out"), Some(21));
    assert_eq!(heap.value("int1"), Some(3));
    assert_eq!(heap.value("int2"), Some(21));
    assert!(!run.halted);
    assert!(run.errors.is_empty());
    assert_eq!(
        heap.var_depending_on.get("out"),
        Some(&vec!["int2".to_string(), "in4".to_string()])
    );
}

#[test]
fn parameters_are_bound_before_the_instructions_run() {
    let mut templates: NameMap<Template> = NameMap::new();
    templates.insert(
        "Scale".to_string(),
        template("Scale", &["k", "unused"], vec![], vec![instruction("out <== k * 2")]),
    );
    let c = component("main", "Scale", vec![21]);
    let mut heap = Heap::new(c.clone());
    let mut run = Run::new(10);
    execute_component(&c, &mut heap, &templates, &mut run);
    assert_eq!(heap.value("k"), Some(21));
    assert_eq!(heap.value("unused"), None);
    assert_eq!(heap.value("out"), Some(42));

    let unknown = component("main", "Nothing", vec![]);
    let mut other = Heap::new(unknown.clone());
    execute_component(&unknown, &mut other, &templates, &mut run);
    assert!(other.variable_to_value_map.entries.is_empty());
}

#[test]
fn a_failure_does_not_stop_the_next_statement() {
    let templates: NameMap<Template> = NameMap::new();
    let mut heap = Heap::new(component("main", "Main", vec![]));
    heap.bind("x".to_string(), 2);
    let mut run = Run::new(100);
    let commands = vec![
        instruction("a <== y + 1"),
        instruction("b <== z"),
        instruction("this is not a statement"),
        instruction("c += 1"),
        instruction("x === 2"),
        instruction("x + 1"),
        instruction("d <== x / 0"),
        instruction("e <== x + 1"),
    ];
    run_list_exec(&commands, &mut heap, &templates, &mut run);
    assert_eq!(heap.value("a"), None);
    assert_eq!(heap.value("e"), Some(3));
    assert_eq!(
        run.errors,
        vec![
            ExecError::Unevaluated("a".to_string()),
            ExecError::UnboundReference("z".to_string()),
            ExecError::UnparseableStatement,
            ExecError::NotSupported,
            ExecError::NotSupported,
            ExecError::Unevaluated("d".to_string()),
        ]
    );
    assert_eq!(run.fuel, 100 - 8);
}

#[test]
fn assignment_binds_values_and_instantiates_components() {
    let templates = multiplier_templates();
    let mut heap = Heap::new(component("main", "Main", vec![]));
    heap.bind("n".to_string(), 4);
    let mut run = Run::new(100);
    execute(&instruction("v = n * 3"), &mut heap, &templates, &mut run);
    assert_eq!(heap.value("v"), Some(12));
    execute(&instruction("v = 1"), &mut heap, &templates, &mut run);
    assert_eq!(heap.value("v"), Some(1));
    execute(&instruction("w <-- n - 5"), &mut heap, &templates, &mut run);
    assert_eq!(heap.value("w"), Some(4294967295));
    execute(&instruction("c[n] = Multiplier2(n, missing, 2)"), &mut heap, &templates, &mut run);
    let c = heap.component("c[4]").unwrap();
    assert_eq!(c.name, "c[4]");
    assert_eq!(c.template_to_use, "Multiplier2");
    assert_eq!(c.arguments, vec![4, 2]);
    assert!(heap.child("c[4]").is_some());
    assert_eq!(heap.var_depending_on.get("c[4]"), Some(&vec!["n".to_string()]));
    assert!(run.errors.is_empty());
}

#[test]
fn symbolic_key_is_never_stored() {
    let templates = multiplier_templates();
    let mut heap = Heap::new(component("main", "Main", vec![]));
    let mut run = Run::new(100);
    execute(&instruction("a[k] <== 1"), &mut heap, &templates, &mut run);
    execute(&instruction("a[k + 1] = 2"), &mut heap, &templates, &mut run);
    execute(&component_decl("m", "Multiplier2"), &mut heap, &templates, &mut run);
    execute(&instruction("m.in1[k] <== 3"), &mut heap, &templates, &mut run);
    assert!(heap.variable_to_value_map.entries.is_empty());
    assert!(heap.var_depending_on.entries.is_empty());
    assert!(heap.child("m").unwrap().variable_to_value_map.entries.is_empty());
    assert_eq!(
        run.errors,
        vec![
            ExecError::UnboundReference("a[k]".to_string()),
            ExecError::UnboundReference("a".to_string()),
            ExecError::UnboundReference("m.in1[k]".to_string()),
        ]
    );
}

#[test]
fn component_without_inputs_runs_on_its_first_write() {
    let mut templates: NameMap<Template> = NameMap::new();
    templates.insert(
        "Constant".to_string(),
        template("Constant", &[], vec![], vec![instruction("out <== 5")]),
    );
    let mut heap = Heap::new(component("main", "Main", vec![]));
    let mut run = Run::new(100);
    execute(&component_decl("c", "Constant"), &mut heap, &templates, &mut run);
    assert!(!heap.child("c").unwrap().executed);
    assert_eq!(heap.child("c").unwrap().value("out"), None);
    execute(&instruction("c.seed <== 1"), &mut heap, &templates, &mut run);
    assert!(heap.child("c").unwrap().executed);
    assert_eq!(heap.child("c").unwrap().value("out"), Some(5));
    let fuel = run.fuel;
    execute(&instruction("c.seed <== 2"), &mut heap, &templates, &mut run);
    assert_eq!(run.fuel, fuel - 1);
    assert_eq!(heap.child("c").unwrap().value("seed"), Some(2));
}

#[test]
fn halted_run_executes_nothing() {
    let templates = multiplier_templates();
    let mut heap = Heap::new(component("main", "Main", vec![]));
    let mut run = Run::new(0);
    execute(&instruction("a <== 1"), &mut heap, &templates, &mut run);
    assert!(run.halted);
    assert_eq!(heap.value("a"), None);
    run.fuel = 10;
    execute(&instruction("a <== 1"), &mut heap, &templates, &mut run);
    run_list_exec(&vec![instruction("a <== 1")], &mut heap, &templates, &mut run);
    execute_component(&component("main", "Multiplier2", vec![]), &mut heap, &templates, &mut run);
    assert_eq!(heap.value("a"), None);
    assert!(!heap.executed);
    assert_eq!(run.fuel, 10);
    assert!(run.errors.is_empty());
}

#[test]
fn nested_sub_components_run_inside_the_completing_write() {
    let mut templates = multiplier_templates();
    templates.insert(
        "Outer".to_string(),
        template(
            "Outer",
            &[],
            vec![input("x", &[])],
            vec![
                component_decl("inner", "Multiplier2"),
                instruction("inner.in1 <== x"),
                instruction("inner.in2 <== x + 1"),
                instruction("done <== x"),
            ],
        ),
    );
    let mut heap = Heap::new(component("main", "Main", vec![]));
    let mut run = Run::new(100);
    execute(&component_decl("o", "Outer"), &mut heap, &templates, &mut run);
    execute(&instruction("o.x <== 4"), &mut heap, &templates, &mut run);
    let outer = heap.child("o").unwrap();
    assert_eq!(outer.value("done"), Some(4));
    let inner = outer.child("inner").unwrap();
    assert_eq!(inner.value("out"), Some(20));
    assert!(inner.executed);
    assert!(run.errors.is_empty());
    // declaration, write, four commands of the outer and four of the inner template
    assert_eq!(run.fuel, 100 - 10);
}

#[test]
fn three_products_multiply_four_inputs() {
    let mut templates: NameMap<Template> = NameMap::new();
    templates.insert(
        "Multiplier4".to_string(),
        template(
            "Multiplier4",
            &[],
            vec![input("in1", &[]), input("in2", &[]), input("in3", &[]), input("in4", &[])],
            vec![
                instruction("first <== in1 * in2"),
                instruction("second <== first * in3"),
                instruction("out <== second * in4"),
            ],
        ),
    );
    let main = component("main", "Multiplier4", vec![]);
    let mut heap = Heap::new(main.clone());
    heap.bind("in1".to_string(), 3);
    heap.bind("in2".to_string(), 1);
    heap.bind("in3".to_string(), 7);
    heap.bind("in4".to_string(), 1);
    let mut run = Run::new(3);
    execute_component(&main, &mut heap, &templates, &mut run);
    assert_eq!(heap.value("out"), Some(21));
    assert_eq!(heap.value("in1"), Some(3));
    assert_eq!(heap.value("in2"), Some(1));
    assert_eq!(heap.value("in3"), Some(7));
    assert_eq!(heap.value("in4"), Some(1));
    assert_eq!(run.fuel, 0);
    assert!(!run.halted);
    assert!(heap.executed);

    let mut wide = Heap::new(main.clone());
    wide.bind("in1".to_string(), 65536);
    wide.bind("in2".to_string(), 65536);
    wide.bind("in3".to_string(), 5);
    wide.bind("in4".to_string(), 5);
    let mut run = Run::new(10);
    execute_component(&main, &mut wide, &templates, &mut run);
    assert_eq!(wide.value("first"), Some(0));
    assert_eq!(wide.value("out"), Some(0));
}

#[test]
fn failures_keep_the_span_of_their_statement() {
    let templates = multiplier_templates();
    let mut heap = Heap::new(component("main", "Main", vec![]));
    let mut run = Run::new(100);
    let at = |text: &str, span: (usize, usize)| {
        SingleCommand::Instruction(Instruction { statement: parse_statement(text), span })
    };
    let commands = vec![
        at("not a statement", (10, 25)),
        at("ok <== 1", (26, 34)),
        at("a <== missing", (35, 48)),
        signal_decl("b", SignalDirection::Intermediate, &["k"]),
        counting_loop("n"),
        at("c += 1", (60, 66)),
    ];
    run_list_exec(&commands, &mut heap, &templates, &mut run);
    assert_eq!(
        run.errors,
        vec![
            ExecError::UnparseableStatement,
            ExecError::UnboundReference("missing".to_string()),
            ExecError::UnresolvedArrayDimension("k".to_string()),
            ExecError::UnboundReference("n".to_string()),
            ExecError::NotSupported,
        ]
    );
    assert_eq!(
        run.spans,
        vec![Some((10, 25)), Some((35, 48)), None, None, Some((60, 66))]
    );
    assert_eq!(heap.value("ok"), Some(1));
}
