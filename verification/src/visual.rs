//! The graph that shows a main component after its run: a node for each
//! signal and sub-component, an edge for each recorded dependency.

use vstd::prelude::*;
use vstd::string::*;
use crate::circuit::{Component, Signal, Template};
use crate::collections::{Entry, NameMap};
use crate::heap::Heap;
use crate::parser::grammar::has_token;
use crate::parser::text::{chars_of, decimal, decimal_string, strings_view};

verus! {

/// Where a node is drawn.
#[derive(Eq, PartialEq, Debug, Clone, Copy)]
pub struct NodePosition {
    pub x: usize,
    pub y: usize,
}

/// What a node shows.
#[derive(Eq, PartialEq, Debug, Clone)]
pub struct NodeData {
    pub label: String,
    pub input_handles: u32,
}

/// How a node is drawn.
#[derive(Eq, PartialEq, Debug, Clone)]
pub struct Style {
    pub background_color: String,
    pub width: u32,
    pub height: u32,
}

/// A node of the graph.
#[derive(Eq, PartialEq, Debug, Clone)]
pub struct Node {
    pub id: String,
    pub kind: String,
    pub data: NodeData,
    pub position: NodePosition,
    pub class_name: String,
    pub style: Option<Style>,
    pub draggable: Option<bool>,
    pub selectable: Option<bool>,
}

/// An edge of the graph.
#[derive(Eq, PartialEq, Debug, Clone)]
pub struct Edge {
    pub id: String,
    pub source: String,
    pub target: String,
    pub target_handle: Option<String>,
}

/// Why no graph could be made.
#[derive(Eq, PartialEq, Debug, Clone)]
pub enum VisualError {
    /// The template of the main component is not known.
    UnknownTemplate(String),
    /// The signal has no value.
    UnboundSignal(String),
    /// The signal has no recorded dependencies.
    NoDependencies(String),
    /// The coordinates cannot hold a row of nodes.
    TooManyNodes,
}

/// Mathematical model of a [`Style`].
pub struct StyleView {
    pub background_color: Seq<char>,
    pub width: u32,
    pub height: u32,
}

/// Mathematical model of a [`Node`].
pub struct NodeView {
    pub id: Seq<char>,
    pub kind: Seq<char>,
    pub label: Seq<char>,
    pub input_handles: u32,
    pub position: NodePosition,
    pub class_name: Seq<char>,
    pub style: Option<StyleView>,
    pub draggable: Option<bool>,
    pub selectable: Option<bool>,
}

/// Mathematical model of an [`Edge`].
pub struct EdgeView {
    pub id: Seq<char>,
    pub source: Seq<char>,
    pub target: Seq<char>,
    pub target_handle: Option<Seq<char>>,
}

/// Mathematical model of a [`VisualError`].
pub enum VisualErrorView {
    UnknownTemplate(Seq<char>),
    UnboundSignal(Seq<char>),
    NoDependencies(Seq<char>),
    TooManyNodes,
}

impl View for Node {
    type V = NodeView;

    open spec fn view(&self) -> NodeView {
        NodeView {
            id: self.id@,
            kind: self.kind@,
            label: self.data.label@,
            input_handles: self.data.input_handles,
            position: self.position,
            class_name: self.class_name@,
            style: match self.style {
                Some(s) => Some(
                    StyleView {
                        background_color: s.background_color@,
                        width: s.width,
                        height: s.height,
                    },
                ),
                None => None,
            },
            draggable: self.draggable,
            selectable: self.selectable,
        }
    }
}

impl View for Edge {
    type V = EdgeView;

    open spec fn view(&self) -> EdgeView {
        EdgeView {
            id: self.id@,
            source: self.source@,
            target: self.target@,
            target_handle: match self.target_handle {
                Some(h) => Some(h@),
                None => None,
            },
        }
    }
}

impl View for VisualError {
    type V = VisualErrorView;

    open spec fn view(&self) -> VisualErrorView {
        match self {
            VisualError::UnknownTemplate(n) => VisualErrorView::UnknownTemplate(n@),
            VisualError::UnboundSignal(n) => VisualErrorView::UnboundSignal(n@),
            VisualError::NoDependencies(n) => VisualErrorView::NoDependencies(n@),
            VisualError::TooManyNodes => VisualErrorView::TooManyNodes,
        }
    }
}

/// The models of a list of nodes, element by element.
pub open spec fn nodes_view(v: Seq<Node>) -> Seq<NodeView> {
    v.map_values(|n: Node| n@)
}

/// The models of a list of edges, element by element.
pub open spec fn edges_view(v: Seq<Edge>) -> Seq<EdgeView> {
    v.map_values(|e: Edge| e@)
}

/// Whether the coordinates can hold a row of `n` nodes that stand `step`
/// apart from the left margin, and the place after the last of them.
pub open spec fn row_fits(n: nat, step: int) -> bool {
    20 + step * n <= usize::MAX
}

/// The tint of groups and sub-components.
pub open spec fn tint() -> Seq<char> {
    "rgba(255, 0, 0, 0.2)"@
}

/// A node that can be dragged and selected.
pub open spec fn movable_node(
    id: Seq<char>,
    kind: Seq<char>,
    label: Seq<char>,
    input_handles: u32,
    x: int,
    y: int,
    style: Option<StyleView>,
) -> NodeView {
    NodeView {
        id,
        kind,
        label,
        input_handles,
        position: NodePosition { x: x as usize, y: y as usize },
        class_name: "light"@,
        style,
        draggable: Some(true),
        selectable: Some(true),
    }
}

/// The node that shows the name of the main template.
pub open spec fn title_node(name: Seq<char>) -> NodeView {
    NodeView {
        id: "title"@,
        kind: "default"@,
        label: name,
        input_handles: 1,
        position: NodePosition { x: 0, y: 0 },
        class_name: "annotation"@,
        style: None,
        draggable: Some(false),
        selectable: Some(false),
    }
}

/// The node that frames the main template.
pub open spec fn group_node(name: Seq<char>) -> NodeView {
    movable_node(
        name,
        "group"@,
        name,
        1,
        0,
        100,
        Some(StyleView { background_color: tint(), width: 900, height: 600 }),
    )
}

/// The label of a signal: its name and its value, joined by `joint`.
pub open spec fn signal_label(name: Seq<char>, joint: Seq<char>, value: u32) -> Seq<char> {
    name + joint + decimal(value as nat)
}

/// The nodes of the first `n` signals of a row: one node each, `step`
/// apart from the left margin, of the kind and with the label joint of the row.
pub open spec fn signal_nodes(
    signals: Seq<Signal>,
    n: int,
    kind: Seq<char>,
    joint: Seq<char>,
    values: Map<Seq<char>, u32>,
    step: int,
    y: int,
) -> Seq<NodeView>
    decreases n,
{
    if n <= 0 || n > signals.len() {
        Seq::empty()
    } else {
        let name = signals[n - 1].name@;
        signal_nodes(signals, n - 1, kind, joint, values, step, y).push(
            movable_node(
                name,
                kind,
                signal_label(name, joint, values[name]),
                1,
                20 + step * (n - 1),
                y,
                None,
            ),
        )
    }
}

/// The edge from `source` to `target`.
pub open spec fn edge_between(source: Seq<char>, target: Seq<char>, handle: Option<Seq<char>>)
    -> EdgeView {
    EdgeView { id: "e"@ + source + "-"@ + target, source, target, target_handle: handle }
}

/// The edges from the first `n` of `sources` to `target`.
pub open spec fn edges_to(
    sources: Seq<Seq<char>>,
    n: int,
    target: Seq<char>,
    handle: Option<Seq<char>>,
) -> Seq<EdgeView>
    decreases n,
{
    if n <= 0 || n > sources.len() {
        Seq::empty()
    } else {
        edges_to(sources, n - 1, target, handle).push(edge_between(sources[n - 1], target, handle))
    }
}

/// The edges into the first `n` signals: to each signal from each of its
/// recorded dependencies.
pub open spec fn signal_edges(
    signals: Seq<Signal>,
    n: int,
    dependencies: Map<Seq<char>, Vec<String>>,
) -> Seq<EdgeView>
    decreases n,
{
    if n <= 0 || n > signals.len() {
        Seq::empty()
    } else {
        let name = signals[n - 1].name@;
        let sources = strings_view(dependencies[name]);
        signal_edges(signals, n - 1, dependencies) + edges_to(
            sources,
            sources.len() as int,
            name,
            None,
        )
    }
}

/// The nodes of the first `n` sub-components, in the order of their entries.
pub open spec fn component_nodes(components: Seq<Entry<Component>>, n: int) -> Seq<NodeView>
    decreases n,
{
    if n <= 0 || n > components.len() {
        Seq::empty()
    } else {
        let name = components[n - 1].key@;
        component_nodes(components, n - 1).push(
            movable_node(
                name,
                "customNode"@,
                name,
                2,
                20 + 200 * (n - 1),
                200,
                Some(StyleView { background_color: tint(), width: 100, height: 120 }),
            ),
        )
    }
}

/// The edges into the sub-component `name` from the first `n` dependency
/// records: from each dependency of each record whose key starts with the
/// name, with that key as the handle.
pub open spec fn edges_into_component(
    records: Seq<Entry<Vec<String>>>,
    n: int,
    name: Seq<char>,
) -> Seq<EdgeView>
    decreases n,
{
    if n <= 0 || n > records.len() {
        Seq::empty()
    } else {
        let item = records[n - 1].key@;
        let sources = strings_view(records[n - 1].value);
        if has_token(item, 0, name) {
            edges_into_component(records, n - 1, name) + edges_to(
                sources,
                sources.len() as int,
                name,
                Some(item),
            )
        } else {
            edges_into_component(records, n - 1, name)
        }
    }
}

/// The edges into the first `n` sub-components.
pub open spec fn component_edges(
    components: Seq<Entry<Component>>,
    n: int,
    records: Seq<Entry<Vec<String>>>,
) -> Seq<EdgeView>
    decreases n,
{
    if n <= 0 || n > components.len() {
        Seq::empty()
    } else {
        component_edges(components, n - 1, records) + edges_into_component(
            records,
            records.len() as int,
            components[n - 1].key@,
        )
    }
}

/// The first among the first `n` signals that has no value.
pub open spec fn first_unbound(signals: Seq<Signal>, n: int, values: Map<Seq<char>, u32>)
    -> Option<Seq<char>>
    decreases n,
{
    if n <= 0 || n > signals.len() {
        None
    } else {
        match first_unbound(signals, n - 1, values) {
            Some(name) => Some(name),
            None => if values.contains_key(signals[n - 1].name@) {
                None
            } else {
                Some(signals[n - 1].name@)
            },
        }
    }
}

/// The first among the first `n` signals that has no recorded dependencies.
pub open spec fn first_unrecorded(
    signals: Seq<Signal>,
    n: int,
    dependencies: Map<Seq<char>, Vec<String>>,
) -> Option<Seq<char>>
    decreases n,
{
    if n <= 0 || n > signals.len() {
        None
    } else {
        match first_unrecorded(signals, n - 1, dependencies) {
            Some(name) => Some(name),
            None => if dependencies.contains_key(signals[n - 1].name@) {
                None
            } else {
                Some(signals[n - 1].name@)
            },
        }
    }
}

/// Why no graph can be made of a template and a heap, if none can: a row
/// that the coordinates cannot hold; else an input, intermediate or output
/// signal without value, in that order; else an intermediate or output
/// signal without recorded dependencies.
pub open spec fn visual_failure(t: Template, heap: Heap) -> Option<VisualErrorView> {
    let values = heap.variable_to_value_map@;
    let deps = heap.var_depending_on@;
    let inputs = t.private_input_signals@;
    let inner = t.intermediate_signals@;
    let outputs = t.output_signals@;
    if !row_fits(inputs.len(), 150) || !row_fits(inner.len(), 150) || !row_fits(
        heap.variable_to_component_map.entries@.len(),
        200,
    ) || !row_fits(outputs.len(), 200) {
        Some(VisualErrorView::TooManyNodes)
    } else if first_unbound(inputs, inputs.len() as int, values) is Some {
        Some(
            VisualErrorView::UnboundSignal(
                first_unbound(inputs, inputs.len() as int, values).unwrap(),
            ),
        )
    } else if first_unbound(inner, inner.len() as int, values) is Some {
        Some(
            VisualErrorView::UnboundSignal(
                first_unbound(inner, inner.len() as int, values).unwrap(),
            ),
        )
    } else if first_unbound(outputs, outputs.len() as int, values) is Some {
        Some(
            VisualErrorView::UnboundSignal(
                first_unbound(outputs, outputs.len() as int, values).unwrap(),
            ),
        )
    } else if first_unrecorded(inner, inner.len() as int, deps) is Some {
        Some(
            VisualErrorView::NoDependencies(
                first_unrecorded(inner, inner.len() as int, deps).unwrap(),
            ),
        )
    } else if first_unrecorded(outputs, outputs.len() as int, deps) is Some {
        Some(
            VisualErrorView::NoDependencies(
                first_unrecorded(outputs, outputs.len() as int, deps).unwrap(),
            ),
        )
    } else {
        None
    }
}

/// The nodes of the graph of a template and a heap: the title, the frame,
/// then a row each for the inputs, the intermediate signals, the
/// sub-components and the outputs.
pub open spec fn visual_nodes(t: Template, heap: Heap) -> Seq<NodeView> {
    let values = heap.variable_to_value_map@;
    let inputs = t.private_input_signals@;
    let inner = t.intermediate_signals@;
    let outputs = t.output_signals@;
    let components = heap.variable_to_component_map.entries@;
    seq![title_node(t.name@), group_node(t.name@)] + signal_nodes(
        inputs,
        inputs.len() as int,
        "input"@,
        " - value "@,
        values,
        150,
        100,
    ) + signal_nodes(inner, inner.len() as int, "default"@, " value - "@, values, 150, 150)
        + component_nodes(components, components.len() as int) + signal_nodes(
        outputs,
        outputs.len() as int,
        "output"@,
        " value - "@,
        values,
        200,
        400,
    )
}

/// The edges of the graph of a template and a heap: those into the
/// intermediate signals, then those into the sub-components, then those
/// into the outputs.
pub open spec fn visual_edges(t: Template, heap: Heap) -> Seq<EdgeView> {
    let deps = heap.var_depending_on@;
    let inner = t.intermediate_signals@;
    let outputs = t.output_signals@;
    let components = heap.variable_to_component_map.entries@;
    signal_edges(inner, inner.len() as int, deps) + component_edges(
        components,
        components.len() as int,
        heap.var_depending_on.entries@,
    ) + signal_edges(outputs, outputs.len() as int, deps)
}

/// The graph of a main component and its heap, or why there is none.
pub open spec fn visual_of(tm: Map<Seq<char>, Template>, main: Component, heap: Heap) -> Result<
    (Seq<NodeView>, Seq<EdgeView>),
    VisualErrorView,
> {
    if !tm.contains_key(main.template_to_use@) {
        Err(VisualErrorView::UnknownTemplate(main.template_to_use@))
    } else {
        let t = tm[main.template_to_use@];
        match visual_failure(t, heap) {
            Some(e) => Err(e),
            None => Ok((visual_nodes(t, heap), visual_edges(t, heap))),
        }
    }
}

/// Appends a node to a list of nodes.
fn push_node(v: &mut Vec<Node>, n: Node)
    ensures
        nodes_view(final(v)@) == nodes_view(old(v)@).push(n@),
{
    v.push(n);
    assert(nodes_view(v@) =~= nodes_view(old(v)@).push(n@));
}

/// Appends an edge to a list of edges.
fn push_edge(v: &mut Vec<Edge>, e: Edge)
    ensures
        edges_view(final(v)@) == edges_view(old(v)@).push(e@),
{
    v.push(e);
    assert(edges_view(v@) =~= edges_view(old(v)@).push(e@));
}

/// A node that can be dragged and selected.
fn make_node(
    id: String,
    kind: &str,
    label: String,
    input_handles: u32,
    x: usize,
    y: usize,
    style: Option<Style>,
) -> (res: Node)
    ensures
        res@ == movable_node(
            id@,
            kind@,
            label@,
            input_handles,
            x as int,
            y as int,
            match style {
                Some(s) => Some(
                    StyleView {
                        background_color: s.background_color@,
                        width: s.width,
                        height: s.height,
                    },
                ),
                None => None,
            },
        ),
{
    Node {
        id,
        kind: String::from_str(kind),
        data: NodeData { label, input_handles },
        position: NodePosition { x, y },
        class_name: String::from_str("light"),
        style,
        draggable: Some(true),
        selectable: Some(true),
    }
}

/// Whether every signal has a value.
pub open spec fn all_have_values(signals: Seq<Signal>, values: Map<Seq<char>, u32>) -> bool {
    forall|i: int| 0 <= i < signals.len() ==> values.contains_key((#[trigger] signals[i]).name@)
}

/// Whether every signal has recorded dependencies.
pub open spec fn all_recorded(signals: Seq<Signal>, dependencies: Map<Seq<char>, Vec<String>>)
    -> bool {
    forall|i: int|
        0 <= i < signals.len() ==> dependencies.contains_key((#[trigger] signals[i]).name@)
}

/// The first among the signals that has no value.
fn first_unbound_exec(signals: &Vec<Signal>, values: &NameMap<u32>) -> (res: Option<String>)
    ensures
        match res {
            Some(name) => first_unbound(signals@, signals@.len() as int, values@) == Some(name@),
            None => first_unbound(signals@, signals@.len() as int, values@) is None
                && all_have_values(signals@, values@),
        },
{
    let mut i: usize = 0;
    while i < signals.len()
        invariant
            i <= signals.len(),
            first_unbound(signals@, i as int, values@) is None,
            forall|j: int| 0 <= j < i ==> values@.contains_key((#[trigger] signals@[j]).name@),
        decreases signals.len() - i,
    {
        if !values.contains_key(signals[i].name.as_str()) {
            proof {
                lemma_first_unbound_stays(signals@, i as int + 1, signals@.len() as int, values@);
            }
            return Some(signals[i].name.clone());
        }
        i += 1;
    }
    None
}

/// A signal found to have no value among the first `n` is still the one
/// found when more signals are looked at.
proof fn lemma_first_unbound_stays(
    signals: Seq<Signal>,
    n: int,
    m: int,
    values: Map<Seq<char>, u32>,
)
    requires
        0 <= n <= m <= signals.len(),
        first_unbound(signals, n, values) is Some,
    ensures
        first_unbound(signals, m, values) == first_unbound(signals, n, values),
    decreases m - n,
{
    if n < m {
        lemma_first_unbound_stays(signals, n, m - 1, values);
    }
}

/// The first among the signals that has no recorded dependencies.
fn first_unrecorded_exec(signals: &Vec<Signal>, dependencies: &NameMap<Vec<String>>) -> (res:
    Option<String>)
    ensures
        match res {
            Some(name) => first_unrecorded(signals@, signals@.len() as int, dependencies@)
                == Some(name@),
            None => first_unrecorded(signals@, signals@.len() as int, dependencies@) is None
                && all_recorded(signals@, dependencies@),
        },
{
    let mut i: usize = 0;
    while i < signals.len()
        invariant
            i <= signals.len(),
            first_unrecorded(signals@, i as int, dependencies@) is None,
            forall|j: int|
                0 <= j < i ==> dependencies@.contains_key((#[trigger] signals@[j]).name@),
        decreases signals.len() - i,
    {
        if !dependencies.contains_key(signals[i].name.as_str()) {
            proof {
                lemma_first_unrecorded_stays(
                    signals@,
                    i as int + 1,
                    signals@.len() as int,
                    dependencies@,
                );
            }
            return Some(signals[i].name.clone());
        }
        i += 1;
    }
    None
}

/// A signal found to have no recorded dependencies among the first `n` is
/// still the one found when more signals are looked at.
proof fn lemma_first_unrecorded_stays(
    signals: Seq<Signal>,
    n: int,
    m: int,
    dependencies: Map<Seq<char>, Vec<String>>,
)
    requires
        0 <= n <= m <= signals.len(),
        first_unrecorded(signals, n, dependencies) is Some,
    ensures
        first_unrecorded(signals, m, dependencies) == first_unrecorded(signals, n, dependencies),
    decreases m - n,
{
    if n < m {
        lemma_first_unrecorded_stays(signals, n, m - 1, dependencies);
    }
}

/// Whether the coordinates can hold a row of `n` nodes `step` apart.
fn row_fits_exec(n: usize, step: usize) -> (res: bool)
    requires
        step == 150 || step == 200,
    ensures
        res == row_fits(n as nat, step as int),
{
    if step == 150 {
        n <= (usize::MAX - 20) / 150
    } else {
        n <= (usize::MAX - 20) / 200
    }
}

/// Why no graph can be made of a template and a heap, if none can.
fn visual_failure_exec(t: &Template, heap: &Heap) -> (res: Option<VisualError>)
    ensures
        match res {
            Some(e) => visual_failure(*t, *heap) == Some(e@),
            None => {
                &&& visual_failure(*t, *heap) is None
                &&& row_fits(t.private_input_signals@.len(), 150)
                &&& row_fits(t.intermediate_signals@.len(), 150)
                &&& row_fits(heap.variable_to_component_map.entries@.len(), 200)
                &&& row_fits(t.output_signals@.len(), 200)
                &&& all_have_values(t.private_input_signals@, heap.variable_to_value_map@)
                &&& all_have_values(t.intermediate_signals@, heap.variable_to_value_map@)
                &&& all_have_values(t.output_signals@, heap.variable_to_value_map@)
                &&& all_recorded(t.intermediate_signals@, heap.var_depending_on@)
                &&& all_recorded(t.output_signals@, heap.var_depending_on@)
            },
        },
{
    if !row_fits_exec(t.private_input_signals.len(), 150) || !row_fits_exec(
        t.intermediate_signals.len(),
        150,
    ) || !row_fits_exec(heap.variable_to_component_map.entries.len(), 200) || !row_fits_exec(
        t.output_signals.len(),
        200,
    ) {
        return Some(VisualError::TooManyNodes);
    }
    match first_unbound_exec(&t.private_input_signals, &heap.variable_to_value_map) {
        Some(name) => {
            return Some(VisualError::UnboundSignal(name));
        },
        None => {},
    }
    match first_unbound_exec(&t.intermediate_signals, &heap.variable_to_value_map) {
        Some(name) => {
            return Some(VisualError::UnboundSignal(name));
        },
        None => {},
    }
    match first_unbound_exec(&t.output_signals, &heap.variable_to_value_map) {
        Some(name) => {
            return Some(VisualError::UnboundSignal(name));
        },
        None => {},
    }
    match first_unrecorded_exec(&t.intermediate_signals, &heap.var_depending_on) {
        Some(name) => {
            return Some(VisualError::NoDependencies(name));
        },
        None => {},
    }
    match first_unrecorded_exec(&t.output_signals, &heap.var_depending_on) {
        Some(name) => {
            return Some(VisualError::NoDependencies(name));
        },
        None => {},
    }
    None
}

/// Appends the nodes of a row of signals.
fn push_signal_nodes(
    nodes: &mut Vec<Node>,
    signals: &Vec<Signal>,
    kind: &str,
    joint: &str,
    values: &NameMap<u32>,
    step: usize,
    y: usize,
)
    requires
        row_fits(signals@.len(), step as int),
        all_have_values(signals@, values@),
    ensures
        nodes_view(final(nodes)@) == nodes_view(old(nodes)@) + signal_nodes(
            signals@,
            signals@.len() as int,
            kind@,
            joint@,
            values@,
            step as int,
            y as int,
        ),
{
    let mut i: usize = 0;
    let mut x: usize = 20;
    assert(nodes_view(nodes@) =~= nodes_view(old(nodes)@) + signal_nodes(
        signals@,
        0,
        kind@,
        joint@,
        values@,
        step as int,
        y as int,
    ));
    while i < signals.len()
        invariant
            i <= signals.len(),
            row_fits(signals@.len(), step as int),
            all_have_values(signals@, values@),
            x == 20 + step * i,
            nodes_view(nodes@) == nodes_view(old(nodes)@) + signal_nodes(
                signals@,
                i as int,
                kind@,
                joint@,
                values@,
                step as int,
                y as int,
            ),
        decreases signals.len() - i,
    {
        let name = signals[i].name.clone();
        let value = match values.get(name.as_str()) {
            Some(v) => *v,
            None => 0,
        };
        let mut label = name.clone();
        label.append(joint);
        label.append(decimal_string(value).as_str());
        assert(label@ =~= signal_label(name@, joint@, value));
        let ghost before = nodes_view(nodes@);
        push_node(nodes, make_node(name, kind, label, 1, x, y, None));
        assert(step * (i + 1) == step * i + step) by (nonlinear_arith);
        assert(step * (i + 1) <= step * signals@.len()) by (nonlinear_arith)
            requires
                0 <= step,
                i + 1 <= signals@.len(),
        ;
        x = x + step;
        i += 1;
        assert(nodes_view(nodes@) =~= nodes_view(old(nodes)@) + signal_nodes(
            signals@,
            i as int,
            kind@,
            joint@,
            values@,
            step as int,
            y as int,
        ));
    }
}

/// Appends the edges from `sources` to `target`.
fn push_edges_to(edges: &mut Vec<Edge>, sources: &Vec<String>, target: &str, handle: Option<&str>)
    ensures
        edges_view(final(edges)@) == edges_view(old(edges)@) + edges_to(
            strings_view(*sources),
            sources.len() as int,
            target@,
            match handle {
                Some(h) => Some(h@),
                None => None,
            },
        ),
{
    let ghost h = match handle {
        Some(h) => Some(h@),
        None => None,
    };
    let mut i: usize = 0;
    assert(edges_view(edges@) =~= edges_view(old(edges)@) + edges_to(
        strings_view(*sources),
        0,
        target@,
        h,
    ));
    while i < sources.len()
        invariant
            i <= sources.len(),
            h == match handle {
                Some(h) => Some(h@),
                None => None,
            },
            edges_view(edges@) == edges_view(old(edges)@) + edges_to(
                strings_view(*sources),
                i as int,
                target@,
                h,
            ),
        decreases sources.len() - i,
    {
        assert(strings_view(*sources)[i as int] == sources@[i as int]@);
        let mut id = String::from_str("e");
        id.append(sources[i].as_str());
        id.append("-");
        id.append(target);
        assert(id@ =~= "e"@ + sources@[i as int]@ + "-"@ + target@);
        let e = Edge {
            id,
            source: sources[i].clone(),
            target: String::from_str(target),
            target_handle: match handle {
                Some(h) => Some(String::from_str(h)),
                None => None,
            },
        };
        push_edge(edges, e);
        i += 1;
        assert(edges_view(edges@) =~= edges_view(old(edges)@) + edges_to(
            strings_view(*sources),
            i as int,
            target@,
            h,
        ));
    }
}

/// Appends the edges into a row of signals.
fn push_signal_edges(edges: &mut Vec<Edge>, signals: &Vec<Signal>, dependencies: &NameMap<
    Vec<String>,
>)
    requires
        all_recorded(signals@, dependencies@),
    ensures
        edges_view(final(edges)@) == edges_view(old(edges)@) + signal_edges(
            signals@,
            signals@.len() as int,
            dependencies@,
        ),
{
    let mut i: usize = 0;
    assert(edges_view(edges@) =~= edges_view(old(edges)@) + signal_edges(
        signals@,
        0,
        dependencies@,
    ));
    while i < signals.len()
        invariant
            i <= signals.len(),
            all_recorded(signals@, dependencies@),
            edges_view(edges@) == edges_view(old(edges)@) + signal_edges(
                signals@,
                i as int,
                dependencies@,
            ),
        decreases signals.len() - i,
    {
        match dependencies.get(signals[i].name.as_str()) {
            Some(sources) => {
                push_edges_to(edges, sources, signals[i].name.as_str(), None);
            },
            None => {},
        }
        i += 1;
        assert(edges_view(edges@) =~= edges_view(old(edges)@) + signal_edges(
            signals@,
            i as int,
            dependencies@,
        ));
    }
}

/// Whether `text` starts with `prefix`.
fn starts_with(text: &str, prefix: &str) -> (res: bool)
    ensures
        res == has_token(text@, 0, prefix@),
{
    let t = chars_of(text);
    let p = chars_of(prefix);
    if p.len() > t.len() {
        return false;
    }
    let mut k: usize = 0;
    while k < p.len()
        invariant
            k <= p.len(),
            p.len() <= t.len(),
            t@ == text@,
            p@ == prefix@,
            t@.subrange(0, k as int) == p@.subrange(0, k as int),
        decreases p.len() - k,
    {
        if t[k] != p[k] {
            assert(t@.subrange(0, p.len() as int)[k as int] != p@[k as int]);
            return false;
        }
        k += 1;
        assert(t@.subrange(0, k as int) =~= p@.subrange(0, k as int));
    }
    assert(p@.subrange(0, p.len() as int) =~= p@);
    true
}

/// Appends the edges into one sub-component.
fn push_edges_into_component(edges: &mut Vec<Edge>, records: &Vec<Entry<Vec<String>>>, name: &str)
    ensures
        edges_view(final(edges)@) == edges_view(old(edges)@) + edges_into_component(
            records@,
            records@.len() as int,
            name@,
        ),
{
    let mut i: usize = 0;
    assert(edges_view(edges@) =~= edges_view(old(edges)@) + edges_into_component(
        records@,
        0,
        name@,
    ));
    while i < records.len()
        invariant
            i <= records.len(),
            edges_view(edges@) == edges_view(old(edges)@) + edges_into_component(
                records@,
                i as int,
                name@,
            ),
        decreases records.len() - i,
    {
        if starts_with(records[i].key.as_str(), name) {
            push_edges_to(edges, &records[i].value, name, Some(records[i].key.as_str()));
        }
        i += 1;
        assert(edges_view(edges@) =~= edges_view(old(edges)@) + edges_into_component(
            records@,
            i as int,
            name@,
        ));
    }
}

/// Appends the nodes of the sub-components and the edges into them.
fn push_components(
    nodes: &mut Vec<Node>,
    edges: &mut Vec<Edge>,
    components: &Vec<Entry<Component>>,
    records: &Vec<Entry<Vec<String>>>,
)
    requires
        row_fits(components@.len(), 200),
    ensures
        nodes_view(final(nodes)@) == nodes_view(old(nodes)@) + component_nodes(
            components@,
            components@.len() as int,
        ),
        edges_view(final(edges)@) == edges_view(old(edges)@) + component_edges(
            components@,
            components@.len() as int,
            records@,
        ),
{
    let mut i: usize = 0;
    let mut x: usize = 20;
    assert(nodes_view(nodes@) =~= nodes_view(old(nodes)@) + component_nodes(components@, 0));
    assert(edges_view(edges@) =~= edges_view(old(edges)@) + component_edges(
        components@,
        0,
        records@,
    ));
    while i < components.len()
        invariant
            i <= components.len(),
            row_fits(components@.len(), 200),
            x == 20 + 200 * i,
            nodes_view(nodes@) == nodes_view(old(nodes)@) + component_nodes(
                components@,
                i as int,
            ),
            edges_view(edges@) == edges_view(old(edges)@) + component_edges(
                components@,
                i as int,
                records@,
            ),
        decreases components.len() - i,
    {
        let name = components[i].key.clone();
        let style = Style {
            background_color: String::from_str("rgba(255, 0, 0, 0.2)"),
            width: 100,
            height: 120,
        };
        push_node(nodes, make_node(name.clone(), "customNode", name.clone(), 2, x, 200, Some(style)));
        push_edges_into_component(edges, records, name.as_str());
        x = x + 200;
        i += 1;
        assert(nodes_view(nodes@) =~= nodes_view(old(nodes)@) + component_nodes(
            components@,
            i as int,
        ));
        assert(edges_view(edges@) =~= edges_view(old(edges)@) + component_edges(
            components@,
            i as int,
            records@,
        ));
    }
}

/// Makes the graph that shows a main component after its run: a node for
/// the title and one for the frame, a row of nodes each for the inputs, the
/// intermediate signals, the sub-components and the outputs of its template,
/// and an edge for each recorded dependency. There is no graph where the
/// template is not known or a signal lacks its value or its dependencies.
pub fn serialize_for_visual(
    template_map: &NameMap<Template>,
    main_component: Component,
    heap: Heap,
) -> (res: Result<(Vec<Node>, Vec<Edge>), VisualError>)
    ensures
        match res {
            Ok(graph) => visual_of(template_map@, main_component, heap) == Ok::<
                (Seq<NodeView>, Seq<EdgeView>),
                VisualErrorView,
            >((nodes_view(graph.0@), edges_view(graph.1@))),
            Err(e) => visual_of(template_map@, main_component, heap) == Err::<
                (Seq<NodeView>, Seq<EdgeView>),
                VisualErrorView,
            >(e@),
        },
{
    let main_template = match template_map.get(main_component.template_to_use.as_str()) {
        Some(t) => t,
        None => {
            return Err(VisualError::UnknownTemplate(main_component.template_to_use.clone()));
        },
    };
    match visual_failure_exec(main_template, &heap) {
        Some(e) => {
            return Err(e);
        },
        None => {},
    }
    let mut nodes: Vec<Node> = Vec::new();
    let mut edges: Vec<Edge> = Vec::new();
    assert(edges_view(edges@) =~= Seq::empty());
    nodes.push(
        Node {
            id: String::from_str("title"),
            kind: String::from_str("default"),
            data: NodeData { label: main_template.name.clone(), input_handles: 1 },
            position: NodePosition { x: 0, y: 0 },
            class_name: String::from_str("annotation"),
            style: None,
            draggable: Some(false),
            selectable: Some(false),
        },
    );
    let frame = Style {
        background_color: String::from_str("rgba(255, 0, 0, 0.2)"),
        width: 900,
        height: 600,
    };
    nodes.push(
        make_node(
            main_template.name.clone(),
            "group",
            main_template.name.clone(),
            1,
            0,
            100,
            Some(frame),
        ),
    );
    assert(nodes_view(nodes@) =~= seq![
        title_node(main_template.name@),
        group_node(main_template.name@),
    ]);
    push_signal_nodes(
        &mut nodes,
        &main_template.private_input_signals,
        "input",
        " - value ",
        &heap.variable_to_value_map,
        150,
        100,
    );
    push_signal_nodes(
        &mut nodes,
        &main_template.intermediate_signals,
        "default",
        " value - ",
        &heap.variable_to_value_map,
        150,
        150,
    );
    push_signal_edges(&mut edges, &main_template.intermediate_signals, &heap.var_depending_on);
    push_components(
        &mut nodes,
        &mut edges,
        &heap.variable_to_component_map.entries,
        &heap.var_depending_on.entries,
    );
    push_signal_nodes(
        &mut nodes,
        &main_template.output_signals,
        "output",
        " value - ",
        &heap.variable_to_value_map,
        200,
        400,
    );
    push_signal_edges(&mut edges, &main_template.output_signals, &heap.var_depending_on);
    assert(edges_view(edges@) =~= visual_edges(*main_template, heap));
    Ok((nodes, edges))
}

/// Where every signal has a value, none is found without one.
pub proof fn lemma_none_unbound(signals: Seq<Signal>, n: int, values: Map<Seq<char>, u32>)
    requires
        0 <= n <= signals.len(),
        all_have_values(signals, values),
    ensures
        first_unbound(signals, n, values) is None,
    decreases n,
{
    if n > 0 {
        lemma_none_unbound(signals, n - 1, values);
    }
}

/// Where every signal has recorded dependencies, none is found without them.
pub proof fn lemma_none_unrecorded(
    signals: Seq<Signal>,
    n: int,
    dependencies: Map<Seq<char>, Vec<String>>,
)
    requires
        0 <= n <= signals.len(),
        all_recorded(signals, dependencies),
    ensures
        first_unrecorded(signals, n, dependencies) is None,
    decreases n,
{
    if n > 0 {
        lemma_none_unrecorded(signals, n - 1, dependencies);
    }
}

/// A row of signals has one node for each signal, in order, named as the signal.
pub proof fn lemma_signal_nodes(
    signals: Seq<Signal>,
    n: int,
    kind: Seq<char>,
    joint: Seq<char>,
    values: Map<Seq<char>, u32>,
    step: int,
    y: int,
)
    requires
        0 <= n <= signals.len(),
    ensures
        signal_nodes(signals, n, kind, joint, values, step, y).len() == n,
        forall|i: int|
            0 <= i < n ==> {
                let node = #[trigger] signal_nodes(signals, n, kind, joint, values, step, y)[i];
                &&& node.id == signals[i].name@
                &&& node.kind == kind
                &&& node.label == signal_label(signals[i].name@, joint, values[signals[i].name@])
            },
    decreases n,
{
    if n > 0 {
        lemma_signal_nodes(signals, n - 1, kind, joint, values, step, y);
    }
}

/// The row of sub-components has one node for each entry, in order, named
/// by the entry's key.
pub proof fn lemma_component_nodes(components: Seq<Entry<Component>>, n: int)
    requires
        0 <= n <= components.len(),
    ensures
        component_nodes(components, n).len() == n,
        forall|i: int|
            0 <= i < n ==> (#[trigger] component_nodes(components, n)[i]).id
                == components[i].key@,
    decreases n,
{
    if n > 0 {
        lemma_component_nodes(components, n - 1);
    }
}

/// There is a graph whenever the template of the main component is known,
/// every signal has its value, every intermediate and output signal has its
/// dependencies, and the coordinates can hold the rows. It has the title
/// node, the frame node, and one node for each input, intermediate signal,
/// sub-component and output.
pub proof fn lemma_graph_exists(tm: Map<Seq<char>, Template>, main: Component, heap: Heap)
    requires
        tm.contains_key(main.template_to_use@),
        all_have_values(
            tm[main.template_to_use@].private_input_signals@,
            heap.variable_to_value_map@,
        ),
        all_have_values(
            tm[main.template_to_use@].intermediate_signals@,
            heap.variable_to_value_map@,
        ),
        all_have_values(tm[main.template_to_use@].output_signals@, heap.variable_to_value_map@),
        all_recorded(tm[main.template_to_use@].intermediate_signals@, heap.var_depending_on@),
        all_recorded(tm[main.template_to_use@].output_signals@, heap.var_depending_on@),
        row_fits(tm[main.template_to_use@].private_input_signals@.len(), 150),
        row_fits(tm[main.template_to_use@].intermediate_signals@.len(), 150),
        row_fits(heap.variable_to_component_map.entries@.len(), 200),
        row_fits(tm[main.template_to_use@].output_signals@.len(), 200),
    ensures
        ({
            let t = tm[main.template_to_use@];
            let nodes = visual_nodes(t, heap);
            &&& visual_of(tm, main, heap) == Ok::<
                (Seq<NodeView>, Seq<EdgeView>),
                VisualErrorView,
            >((nodes, visual_edges(t, heap)))
            &&& nodes.len() == 2 + t.private_input_signals@.len() + t.intermediate_signals@.len()
                + heap.variable_to_component_map.entries@.len() + t.output_signals@.len()
            &&& nodes[0] == title_node(t.name@)
            &&& nodes[1] == group_node(t.name@)
        }),
{
    let t = tm[main.template_to_use@];
    let values = heap.variable_to_value_map@;
    let deps = heap.var_depending_on@;
    let inputs = t.private_input_signals@;
    let inner = t.intermediate_signals@;
    let outputs = t.output_signals@;
    let components = heap.variable_to_component_map.entries@;
    lemma_none_unbound(inputs, inputs.len() as int, values);
    lemma_none_unbound(inner, inner.len() as int, values);
    lemma_none_unbound(outputs, outputs.len() as int, values);
    lemma_none_unrecorded(inner, inner.len() as int, deps);
    lemma_none_unrecorded(outputs, outputs.len() as int, deps);
    lemma_signal_nodes(inputs, inputs.len() as int, "input"@, " - value "@, values, 150, 100);
    lemma_signal_nodes(inner, inner.len() as int, "default"@, " value - "@, values, 150, 150);
    lemma_component_nodes(components, components.len() as int);
    lemma_signal_nodes(outputs, outputs.len() as int, "output"@, " value - "@, values, 200, 400);
}

/// The edges from a list of sources to a target: one for each source, in order.
pub proof fn lemma_edges_to(
    sources: Seq<Seq<char>>,
    n: int,
    target: Seq<char>,
    handle: Option<Seq<char>>,
)
    requires
        0 <= n <= sources.len(),
    ensures
        edges_to(sources, n, target, handle).len() == n,
        forall|k: int|
            0 <= k < n ==> #[trigger] edges_to(sources, n, target, handle)[k] == edge_between(
                sources[k],
                target,
                handle,
            ),
    decreases n,
{
    if n > 0 {
        lemma_edges_to(sources, n - 1, target, handle);
    }
}

/// The edges into a row of signals hold the edge from each recorded
/// dependency of each signal to that signal.
pub proof fn lemma_signal_edges(
    signals: Seq<Signal>,
    n: int,
    dependencies: Map<Seq<char>, Vec<String>>,
    i: int,
    k: int,
)
    requires
        0 <= i < n <= signals.len(),
        0 <= k < dependencies[signals[i].name@]@.len(),
    ensures
        signal_edges(signals, n, dependencies).contains(
            edge_between(
                strings_view(dependencies[signals[i].name@])[k],
                signals[i].name@,
                None,
            ),
        ),
    decreases n,
{
    let last = signals[n - 1].name@;
    let sources = strings_view(dependencies[last]);
    let before = signal_edges(signals, n - 1, dependencies);
    let added = edges_to(sources, sources.len() as int, last, None);
    lemma_edges_to(sources, sources.len() as int, last, None);
    if i == n - 1 {
        assert((before + added)[before.len() + k] == added[k]);
    } else {
        lemma_signal_edges(signals, n - 1, dependencies, i, k);
        let e = edge_between(
            strings_view(dependencies[signals[i].name@])[k],
            signals[i].name@,
            None,
        );
        let j = choose|j: int| 0 <= j < before.len() && before[j] == e;
        assert((before + added)[j] == e);
    }
}

/// The graph holds, for every intermediate and output signal and every
/// recorded dependency of it, the edge from the dependency to the signal.
pub proof fn lemma_graph_edges(t: Template, heap: Heap, i: int, k: int)
    ensures
        0 <= i < t.intermediate_signals@.len() && 0 <= k < heap.var_depending_on@[t.intermediate_signals@[i].name@]@.len()
            ==> visual_edges(t, heap).contains(
            edge_between(
                strings_view(heap.var_depending_on@[t.intermediate_signals@[i].name@])[k],
                t.intermediate_signals@[i].name@,
                None,
            ),
        ),
        0 <= i < t.output_signals@.len() && 0 <= k < heap.var_depending_on@[t.output_signals@[i].name@]@.len()
            ==> visual_edges(t, heap).contains(
            edge_between(
                strings_view(heap.var_depending_on@[t.output_signals@[i].name@])[k],
                t.output_signals@[i].name@,
                None,
            ),
        ),
{
    let deps = heap.var_depending_on@;
    let inner = t.intermediate_signals@;
    let outputs = t.output_signals@;
    let components = heap.variable_to_component_map.entries@;
    let first = signal_edges(inner, inner.len() as int, deps);
    let middle = component_edges(
        components,
        components.len() as int,
        heap.var_depending_on.entries@,
    );
    let last = signal_edges(outputs, outputs.len() as int, deps);
    if 0 <= i < inner.len() && 0 <= k < deps[inner[i].name@]@.len() {
        lemma_signal_edges(inner, inner.len() as int, deps, i, k);
        let e = edge_between(strings_view(deps[inner[i].name@])[k], inner[i].name@, None);
        let j = choose|j: int| 0 <= j < first.len() && first[j] == e;
        assert((first + middle + last)[j] == e);
    }
    if 0 <= i < outputs.len() && 0 <= k < deps[outputs[i].name@]@.len() {
        lemma_signal_edges(outputs, outputs.len() as int, deps, i, k);
        let e = edge_between(strings_view(deps[outputs[i].name@])[k], outputs[i].name@, None);
        let j = choose|j: int| 0 <= j < last.len() && last[j] == e;
        assert((first + middle + last)[first.len() + middle.len() + j] == e);
    }
}

} // verus!
