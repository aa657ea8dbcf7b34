use shortcircuit::circuit::{Component, Signal, SignalDirection, Template};
use shortcircuit::collections::NameMap;
use shortcircuit::heap::Heap;
use shortcircuit::parser::expression_parser::Stmt;
use shortcircuit::visual::{serialize_for_visual, Edge, NodePosition, Style, VisualError};

fn signal(name: &str, direction: SignalDirection) -> Signal {
    Signal {
        name: name.to_string(),
        direction,
        size_per_dimension: vec![],
        expression: Stmt::Empty,
    }
}

fn main_component() -> Component {
    Component {
        name: "main".to_string(),
        size_per_dimension: vec![],
        template_to_use: "Main".to_string(),
        arguments: vec![],
    }
}

fn templates() -> NameMap<Template> {
    let mut m = NameMap::new();
    m.insert(
        "Main".to_string(),
        Template {
            name: "Main".to_string(),
            params: vec![],
            private_input_signals: vec![
                signal("in1", SignalDirection::Input),
                signal("in2", SignalDirection::Input),
            ],
            output_signals: vec![signal("out", SignalDirection::Output)],
            intermediate_signals: vec![signal("mid", SignalDirection::Intermediate)],
            components: vec![],
            constraints: vec![],
            instructions: vec![],
            path: String::new(),
        },
    );
    m
}

fn full_heap() -> Heap {
    let mut heap = Heap::new(main_component());
    heap.bind("in1".to_string(), 3);
    heap.bind("in2".to_string(), 7);
    heap.bind("mid".to_string(), 21);
    heap.bind("out".to_string(), 42);
    heap.depend("mid".to_string(), vec!["in1".to_string(), "in2".to_string()]);
    heap.depend("out".to_string(), vec!["mid".to_string()]);
    heap.depend("sub.in".to_string(), vec!["mid".to_string()]);
    heap.depend("other".to_string(), vec!["in1".to_string()]);
    heap.instantiate(
        "sub".to_string(),
        Component {
            name: "sub".to_string(),
            size_per_dimension: vec![],
            template_to_use: "Inner".to_string(),
            arguments: vec![],
        },
    );
    heap
}

#[test]
fn graph_has_a_node_per_signal_and_an_edge_per_dependency() {
    let (nodes, edges) = serialize_for_visual(&templates(), main_component(), full_heap()).unwrap();
    let ids: Vec<&str> = nodes.iter().map(|n| n.id.as_str()).collect();
    assert_eq!(ids, vec!["title", "Main", "in1", "in2", "mid", "sub", "out"]);
    let kinds: Vec<&str> = nodes.iter().map(|n| n.kind.as_str()).collect();
    assert_eq!(
        kinds,
        vec!["default", "group", "input", "input", "default", "customNode", "output"]
    );
    let labels: Vec<&str> = nodes.iter().map(|n| n.data.label.as_str()).collect();
    assert_eq!(
        labels,
        vec!["Main", "Main", "in1 - value 3", "in2 - value 7", "mid value - 21", "sub", "out value - 42"]
    );
    let positions: Vec<NodePosition> = nodes.iter().map(|n| n.position).collect();
    assert_eq!(
        positions,
        vec![
            NodePosition { x: 0, y: 0 },
            NodePosition { x: 0, y: 100 },
            NodePosition { x: 20, y: 100 },
            NodePosition { x: 170, y: 100 },
            NodePosition { x: 20, y: 150 },
            NodePosition { x: 20, y: 200 },
            NodePosition { x: 20, y: 400 },
        ]
    );
    assert_eq!(nodes[0].class_name, "annotation");
    assert_eq!(nodes[0].draggable, Some(false));
    assert_eq!(nodes[0].selectable, Some(false));
    assert_eq!(nodes[0].style, None);
    assert_eq!(
        nodes[1].style,
        Some(Style { background_color: "rgba(255, 0, 0, 0.2)".to_string(), width: 900, height: 600 })
    );
    assert_eq!(nodes[2].class_name, "light");
    assert_eq!(nodes[2].draggable, Some(true));
    assert_eq!(nodes[2].data.input_handles, 1);
    assert_eq!(nodes[5].data.input_handles, 2);
    assert_eq!(
        nodes[5].style,
        Some(Style { background_color: "rgba(255, 0, 0, 0.2)".to_string(), width: 100, height: 120 })
    );
    assert_eq!(
        edges,
        vec![
            Edge {
                id: "ein1-mid".to_string(),
                source: "in1".to_string(),
                target: "mid".to_string(),
                target_handle: None,
            },
            Edge {
                id: "ein2-mid".to_string(),
                source: "in2".to_string(),
                target: "mid".to_string(),
                target_handle: None,
            },
            Edge {
                id: "emid-sub".to_string(),
                source: "mid".to_string(),
                target: "sub".to_string(),
                target_handle: Some("sub.in".to_string()),
            },
            Edge {
                id: "emid-out".to_string(),
                source: "mid".to_string(),
                target: "out".to_string(),
                target_handle: None,
            },
        ]
    );
}

#[test]
fn graph_needs_the_template_the_values_and_the_dependencies() {
    let mut unknown = main_component();
    unknown.template_to_use = "Nothing".to_string();
    assert_eq!(
        serialize_for_visual(&templates(), unknown, full_heap()),
        Err(VisualError::UnknownTemplate("Nothing".to_string()))
    );

    let mut heap = Heap::new(main_component());
    heap.bind("in1".to_string(), 3);
    assert_eq!(
        serialize_for_visual(&templates(), main_component(), heap),
        Err(VisualError::UnboundSignal("in2".to_string()))
    );

    let mut heap = Heap::new(main_component());
    heap.bind("in1".to_string(), 3);
    heap.bind("in2".to_string(), 3);
    heap.bind("out".to_string(), 3);
    assert_eq!(
        serialize_for_visual(&templates(), main_component(), heap),
        Err(VisualError::UnboundSignal("mid".to_string()))
    );

    let mut heap = Heap::new(main_component());
    heap.bind("in1".to_string(), 3);
    heap.bind("in2".to_string(), 3);
    heap.bind("mid".to_string(), 3);
    heap.bind("out".to_string(), 3);
    heap.depend("mid".to_string(), vec![]);
    assert_eq!(
        serialize_for_visual(&templates(), main_component(), heap),
        Err(VisualError::NoDependencies("out".to_string()))
    );
}

#[test]
fn graph_rows_may_be_long() {
    let mut wide = templates();
    let mut main = wide.take("Main").unwrap();
    let mut heap = full_heap();
    main.private_input_signals = (0..10001)
        .map(|i| signal(&format!("s{}", i), SignalDirection::Input))
        .collect();
    for i in 0..10001 {
        heap.variable_to_value_map.entries.push(shortcircuit::collections::Entry {
            key: format!("s{}", i),
            value: i,
        });
    }
    wide.insert("Main".to_string(), main);
    let (nodes, edges) = serialize_for_visual(&wide, main_component(), heap).unwrap();
    assert_eq!(nodes.len(), 2 + 10001 + 1 + 1 + 1);
    assert_eq!(nodes[2 + 10000].id, "s10000");
    assert_eq!(nodes[2 + 10000].data.label, "s10000 - value 10000");
    assert_eq!(nodes[2 + 10000].position, NodePosition { x: 20 + 150 * 10000, y: 100 });
    assert_eq!(nodes[2 + 10001].id, "mid");
    assert_eq!(edges.len(), 4);
}
