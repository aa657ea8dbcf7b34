//! The scoped store of one component instance. Heaps form a tree that
//! mirrors component instantiation: a heap owns the heaps of its sub-components.

use vstd::prelude::*;
use vstd::string::*;
use crate::circuit::{Component, ComponentView};
use crate::collections::{
    Entry, NameMap, NameSet, assoc_view, get_entry, insert_entry, take_entry,
};
use crate::parser::text::{copy_numbers, copy_strings, strings_view};

verus! {

/// The store of one component instance.
#[derive(Debug)]
pub struct Heap {
    /// The component that this heap belongs to.
    pub current_component: Component,
    /// The concrete names of the declared signals and variables.
    pub variable_set: NameSet,
    /// The concrete names of the declared components.
    pub component_set: NameSet,
    /// The value bound to each concrete key.
    pub variable_to_value_map: NameMap<u32>,
    /// The descriptor of each instantiated sub-component.
    pub variable_to_component_map: NameMap<Component>,
    /// The heap of each instantiated sub-component, as the entries of a
    /// name map: the first entry of a name is the one that counts.
    pub variable_to_heap_map: Vec<Entry<Heap>>,
    /// The keys that the last write of each key read.
    pub var_depending_on: NameMap<Vec<String>>,
    /// Whether the instruction list of the component has been run in this heap.
    pub executed: bool,
}

/// Mathematical model of a [`Heap`].
pub struct HeapView {
    pub current_component: ComponentView,
    pub variable_set: Set<Seq<char>>,
    pub component_set: Set<Seq<char>>,
    pub values: Map<Seq<char>, u32>,
    pub components: Map<Seq<char>, ComponentView>,
    pub heaps: Map<Seq<char>, HeapView>,
    pub dependencies: Map<Seq<char>, Seq<Seq<char>>>,
    pub executed: bool,
}

/// The models of the sub-component heaps, by name.
pub open spec fn heaps_view(entries: Seq<Entry<Heap>>) -> Map<Seq<char>, HeapView>
    decreases entries, 0nat,
{
    if entries.len() == 0 {
        Map::empty()
    } else {
        heaps_view(entries.drop_first()).insert(entries[0].key@, heap_view(entries[0].value))
    }
}

/// The model of a heap.
pub open spec fn heap_view(h: Heap) -> HeapView
    decreases h, 1nat,
{
    HeapView {
        current_component: h.current_component@,
        variable_set: h.variable_set@,
        component_set: h.component_set@,
        values: h.variable_to_value_map@,
        components: h.variable_to_component_map@.map_values(|c: Component| c@),
        heaps: heaps_view(h.variable_to_heap_map@),
        dependencies: h.var_depending_on@.map_values(|d: Vec<String>| strings_view(d)),
        executed: h.executed,
    }
}

impl View for Heap {
    type V = HeapView;

    open spec fn view(&self) -> HeapView {
        heap_view(*self)
    }
}

/// The heap of a component that has declared and bound nothing yet and has
/// not run.
pub open spec fn fresh_heap(component: ComponentView) -> HeapView {
    HeapView {
        current_component: component,
        variable_set: Set::empty(),
        component_set: Set::empty(),
        values: Map::empty(),
        components: Map::empty(),
        heaps: Map::empty(),
        dependencies: Map::empty(),
        executed: false,
    }
}

/// The heap with `key` bound to `value`.
pub open spec fn bind(h: HeapView, key: Seq<char>, value: u32) -> HeapView {
    HeapView { values: h.values.insert(key, value), ..h }
}

/// The heap with no binding for `key`.
pub open spec fn unbind(h: HeapView, key: Seq<char>) -> HeapView {
    HeapView { values: h.values.remove(key), ..h }
}

/// The heap that records that the last write of `key` read `deps`.
pub open spec fn depend(h: HeapView, key: Seq<char>, deps: Seq<Seq<char>>) -> HeapView {
    HeapView { dependencies: h.dependencies.insert(key, deps), ..h }
}

/// The heap with the sub-component heap of `key` replaced by `child`.
pub open spec fn with_child(h: HeapView, key: Seq<char>, child: HeapView) -> HeapView {
    HeapView { heaps: h.heaps.insert(key, child), ..h }
}

/// The heap with the sub-component `key` instantiated: its descriptor
/// registered and an empty heap of its own.
pub open spec fn instantiate(h: HeapView, key: Seq<char>, component: ComponentView) -> HeapView {
    HeapView {
        components: h.components.insert(key, component),
        heaps: h.heaps.insert(key, fresh_heap(component)),
        ..h
    }
}

/// The descriptor of a non-array instance `name` of `template` with `arguments`.
pub open spec fn descriptor(name: Seq<char>, template: Seq<char>, arguments: Seq<u32>)
    -> ComponentView {
    ComponentView {
        name,
        size_per_dimension: Seq::empty(),
        template_to_use: template,
        arguments,
    }
}

/// The models of the sub-component heaps are the models of the values of
/// the map that holds them.
pub proof fn lemma_heaps_view(entries: Seq<Entry<Heap>>)
    ensures
        heaps_view(entries) == assoc_view(entries).map_values(|h: Heap| heap_view(h)),
    decreases entries.len(),
{
    let f = |h: Heap| heap_view(h);
    if entries.len() == 0 {
        assert(heaps_view(entries) =~= assoc_view(entries).map_values(f));
    } else {
        lemma_heaps_view(entries.drop_first());
        assert(heaps_view(entries) =~= assoc_view(entries).map_values(f));
    }
}

/// Copies a component descriptor.
pub fn copy_component(c: &Component) -> (res: Component)
    ensures
        res@ == c@,
{
    Component {
        name: c.name.clone(),
        size_per_dimension: copy_strings(&c.size_per_dimension),
        template_to_use: c.template_to_use.clone(),
        arguments: copy_numbers(&c.arguments),
    }
}

/// The descriptor of a non-array instance `name` of `template` with `arguments`.
pub fn make_descriptor(name: String, template: String, arguments: Vec<u32>) -> (res: Component)
    ensures
        res@ == descriptor(name@, template@, arguments@),
{
    let c = Component {
        name,
        size_per_dimension: Vec::new(),
        template_to_use: template,
        arguments,
    };
    assert(c@.size_per_dimension =~= Seq::empty());
    c
}

impl Heap {
    /// The empty heap of `component`.
    pub fn new(component: Component) -> (res: Heap)
        ensures
            res@ == fresh_heap(component@),
    {
        let h = Heap {
            current_component: component,
            variable_set: NameSet::new(),
            component_set: NameSet::new(),
            variable_to_value_map: NameMap::new(),
            variable_to_component_map: NameMap::new(),
            variable_to_heap_map: Vec::new(),
            var_depending_on: NameMap::new(),
            executed: false,
        };
        assert(h@.components =~= Map::empty());
        assert(h@.dependencies =~= Map::empty());
        h
    }

    /// Binds `key` to `value`.
    pub fn bind(&mut self, key: String, value: u32)
        ensures
            final(self)@ == bind(old(self)@, key@, value),
    {
        self.variable_to_value_map.insert(key, value);
    }

    /// Removes the binding of `key`.
    pub fn unbind(&mut self, key: &str)
        ensures
            final(self)@ == unbind(old(self)@, key@),
    {
        self.variable_to_value_map.remove(key);
    }

    /// The value bound to `key`, if any.
    pub fn value(&self, key: &str) -> (res: Option<u32>)
        ensures
            match res {
                Some(v) => self@.values.contains_key(key@) && self@.values[key@] == v,
                None => !self@.values.contains_key(key@),
            },
    {
        match self.variable_to_value_map.get(key) {
            Some(v) => Some(*v),
            None => None,
        }
    }

    /// Records that the last write of `key` read `deps`.
    pub fn depend(&mut self, key: String, deps: Vec<String>)
        ensures
            final(self)@ == depend(old(self)@, key@, strings_view(deps)),
    {
        self.var_depending_on.insert(key, deps);
        assert(self@.dependencies =~= old(self)@.dependencies.insert(key@, strings_view(deps)));
    }

    /// Instantiates the sub-component `key`: registers its descriptor and
    /// gives it an empty heap.
    pub fn instantiate(&mut self, key: String, component: Component)
        ensures
            final(self)@ == instantiate(old(self)@, key@, component@),
    {
        let child = Heap::new(copy_component(&component));
        self.variable_to_component_map.insert(key.clone(), component);
        assert(self@.components =~= old(self)@.components.insert(key@, component@));
        self.put_child(key, child);
    }

    /// The descriptor of the sub-component `key`, if it is instantiated.
    pub fn component(&self, key: &str) -> (res: Option<&Component>)
        ensures
            match res {
                Some(c) => self@.components.contains_key(key@) && self@.components[key@] == c@,
                None => !self@.components.contains_key(key@),
            },
    {
        self.variable_to_component_map.get(key)
    }

    /// The heap of the sub-component `key`, if it is instantiated.
    pub fn child(&self, key: &str) -> (res: Option<&Heap>)
        ensures
            match res {
                Some(c) => self@.heaps.contains_key(key@) && self@.heaps[key@] == c@,
                None => !self@.heaps.contains_key(key@),
            },
    {
        proof {
            lemma_heaps_view(self.variable_to_heap_map@);
        }
        get_entry(&self.variable_to_heap_map, key)
    }

    /// Takes the heap of the sub-component `key` out of this heap, to be put
    /// back with [`Heap::put_child`]. Nothing else changes.
    pub fn take_child(&mut self, key: &str) -> (res: Option<Heap>)
        ensures
            match res {
                Some(c) => old(self)@.heaps.contains_key(key@) && old(self)@.heaps[key@] == c@,
                None => !old(self)@.heaps.contains_key(key@),
            },
            final(self)@.heaps.remove(key@) == old(self)@.heaps.remove(key@),
            final(self)@ == (HeapView { heaps: final(self)@.heaps, ..old(self)@ }),
    {
        proof {
            lemma_heaps_view(self.variable_to_heap_map@);
        }
        let res = take_entry(&mut self.variable_to_heap_map, key);
        proof {
            lemma_heaps_view(self.variable_to_heap_map@);
            let a = assoc_view(old(self).variable_to_heap_map@);
            let b = assoc_view(self.variable_to_heap_map@);
            let m1 = self@.heaps.remove(key@);
            let m2 = old(self)@.heaps.remove(key@);
            assert forall|k: Seq<char>|
                (#[trigger] m1.contains_key(k) <==> m2.contains_key(k)) && (m1.contains_key(k)
                    ==> m1[k] == m2[k]) by {
                if k != key@ {
                    assert(a.remove(key@).contains_key(k) <==> b.remove(key@).contains_key(k));
                    assert(a.remove(key@)[k] == b.remove(key@)[k]);
                }
            }
            assert(m1 =~= m2);
        }
        res
    }

    /// Makes `child` the heap of the sub-component `key`.
    pub fn put_child(&mut self, key: String, child: Heap)
        ensures
            final(self)@ == with_child(old(self)@, key@, child@),
    {
        proof {
            lemma_heaps_view(self.variable_to_heap_map@);
        }
        insert_entry(&mut self.variable_to_heap_map, key, child);
        proof {
            lemma_heaps_view(self.variable_to_heap_map@);
            assert(self@.heaps =~= old(self)@.heaps.insert(key@, child@));
        }
    }
}

} // verus!
