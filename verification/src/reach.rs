//! Which templates a component uses: reachability over the components of
//! templates, and the proof that the search finds exactly the reachable ones.

use vstd::prelude::*;
use vstd::set_lib::*;
use crate::circuit::{Component, ComponentView, Template, TemplateView};
use crate::collections::{Entry, assoc_view};

verus! {

/// Whether the template named `a` is known and has a component of the
/// template named `b`.
pub open spec fn uses(tm: Map<Seq<char>, Template>, a: Seq<char>, b: Seq<char>) -> bool {
    tm.contains_key(a) && exists|j: int|
        0 <= j < tm[a].components@.len() && (#[trigger] tm[a].components@[j]).template_to_use@
            == b
}

/// Whether `path` is a chain of known templates in which each one has a
/// component of the next.
pub open spec fn is_chain(tm: Map<Seq<char>, Template>, path: Seq<Seq<char>>) -> bool {
    &&& path.len() > 0
    &&& forall|i: int| 0 <= i < path.len() ==> tm.contains_key(#[trigger] path[i])
    &&& forall|i: int| 0 < i < path.len() ==> uses(tm, path[i - 1], #[trigger] path[i])
}

/// Whether the template named `name` is known and is used from the known
/// template named `start`, directly or through components of components.
pub open spec fn reachable(tm: Map<Seq<char>, Template>, start: Seq<char>, name: Seq<char>)
    -> bool {
    exists|path: Seq<Seq<char>>|
        #[trigger] is_chain(tm, path) && path[0] == start && path.last() == name
}

/// The templates that the components of the first `n` of `components` use.
pub open spec fn templates_used(components: Seq<Component>, n: int) -> Seq<Seq<char>>
    decreases n,
{
    if n <= 0 || n > components.len() {
        Seq::empty()
    } else {
        templates_used(components, n - 1).push(components[n - 1].template_to_use@)
    }
}

/// The templates found when the names `queue[head..]` are still to be
/// visited, `found` holds those visited so far and `budget` more may be
/// added. A name is visited once: if it names a template that is not found
/// yet, the template is added and the templates of its components are queued.
pub open spec fn used_from(
    queue: Seq<Seq<char>>,
    head: int,
    found: Map<Seq<char>, TemplateView>,
    tm: Map<Seq<char>, Template>,
    budget: nat,
) -> Map<Seq<char>, TemplateView>
    decreases budget, queue.len() - head,
{
    if head < 0 || head >= queue.len() {
        found
    } else {
        let name = queue[head];
        if found.contains_key(name) || !tm.contains_key(name) {
            used_from(queue, head + 1, found, tm, budget)
        } else if budget == 0 {
            found
        } else {
            let t = tm[name];
            used_from(
                queue + templates_used(t.components@, t.components@.len() as int),
                head + 1,
                found.insert(name, t@),
                tm,
                (budget - 1) as nat,
            )
        }
    }
}

/// The templates that a component uses, directly or through the components
/// of its template, by name, as the search finds them with `budget`
/// templates to add.
pub open spec fn used_templates(
    tm: Map<Seq<char>, Template>,
    start: ComponentView,
    budget: nat,
) -> Map<Seq<char>, TemplateView> {
    used_from(seq![start.template_to_use], 0, Map::empty(), tm, budget)
}

/// The state of a search that is under way: the start is queued; what is
/// found is reachable and is the known template; every queued name is the
/// start or used by a found template; every visited name is found or not
/// known; and every name that a found template uses is queued.
pub open spec fn visiting(
    queue: Seq<Seq<char>>,
    head: int,
    found: Map<Seq<char>, TemplateView>,
    tm: Map<Seq<char>, Template>,
    start: Seq<char>,
) -> bool {
    &&& 0 <= head <= queue.len()
    &&& exists|i: int| 0 <= i < queue.len() && #[trigger] queue[i] == start
    &&& forall|k: Seq<char>| #[trigger]
        found.contains_key(k) ==> reachable(tm, start, k) && tm.contains_key(k) && found[k]
            == tm[k]@
    &&& forall|i: int|
        0 <= i < queue.len() ==> #[trigger] queue[i] == start || exists|f: Seq<char>|
            found.contains_key(f) && #[trigger] uses(tm, f, queue[i])
    &&& forall|i: int|
        0 <= i < head ==> found.contains_key(#[trigger] queue[i]) || !tm.contains_key(queue[i])
    &&& forall|f: Seq<char>, b: Seq<char>|
        found.contains_key(f) && #[trigger] uses(tm, f, b) ==> exists|i: int|
            0 <= i < queue.len() && #[trigger] queue[i] == b
}

/// The templates used by a list of components, one for each component.
pub proof fn lemma_templates_used(components: Seq<Component>, n: int)
    requires
        0 <= n <= components.len(),
    ensures
        templates_used(components, n).len() == n,
        forall|j: int|
            0 <= j < n ==> #[trigger] templates_used(components, n)[j]
                == components[j].template_to_use@,
    decreases n,
{
    if n > 0 {
        lemma_templates_used(components, n - 1);
    }
}

/// The keys of a name map are finitely many, no more than its entries.
pub proof fn lemma_assoc_dom<V>(entries: Seq<Entry<V>>)
    ensures
        assoc_view(entries).dom().finite(),
        assoc_view(entries).dom().len() <= entries.len(),
    decreases entries.len(),
{
    if entries.len() > 0 {
        lemma_assoc_dom(entries.drop_first());
    }
}

/// A chain that ends in a template with a component of a known template
/// goes on to that template.
pub proof fn lemma_chain_grows(
    tm: Map<Seq<char>, Template>,
    path: Seq<Seq<char>>,
    next: Seq<char>,
)
    requires
        is_chain(tm, path),
        uses(tm, path.last(), next),
        tm.contains_key(next),
    ensures
        is_chain(tm, path.push(next)),
        path.push(next)[0] == path[0],
        path.push(next).last() == next,
{
    let longer = path.push(next);
    assert forall|i: int| 0 <= i < longer.len() implies tm.contains_key(#[trigger] longer[i]) by {
        if i < path.len() {
            assert(longer[i] == path[i]);
        }
    }
    assert forall|i: int| 0 < i < longer.len() implies uses(
        tm,
        longer[i - 1],
        #[trigger] longer[i],
    ) by {
        if i < path.len() {
            assert(longer[i] == path[i]);
            assert(longer[i - 1] == path[i - 1]);
        } else {
            assert(longer[i - 1] == path.last());
        }
    }
}

/// When the search has visited every queued name, every template on a
/// chain from the start is found.
pub proof fn lemma_search_is_closed(
    queue: Seq<Seq<char>>,
    found: Map<Seq<char>, TemplateView>,
    tm: Map<Seq<char>, Template>,
    start: Seq<char>,
    path: Seq<Seq<char>>,
    n: int,
)
    requires
        visiting(queue, queue.len() as int, found, tm, start),
        is_chain(tm, path),
        path[0] == start,
        0 <= n < path.len(),
    ensures
        found.contains_key(path[n]),
    decreases n,
{
    if n == 0 {
        let i = choose|i: int| 0 <= i < queue.len() && #[trigger] queue[i] == start;
        assert(found.contains_key(queue[i]) || !tm.contains_key(queue[i]));
        assert(tm.contains_key(path[0]));
    } else {
        lemma_search_is_closed(queue, found, tm, start, path, n - 1);
        assert(uses(tm, path[n - 1], path[n]));
        let i = choose|i: int| 0 <= i < queue.len() && #[trigger] queue[i] == path[n];
        assert(found.contains_key(queue[i]) || !tm.contains_key(queue[i]));
        assert(tm.contains_key(path[n]));
    }
}

/// A search under way, with budget for every known template that is not
/// found yet, ends with exactly the templates that are reachable from the
/// start, each with the known template of its name.
pub proof fn lemma_used_from(
    queue: Seq<Seq<char>>,
    head: int,
    found: Map<Seq<char>, TemplateView>,
    tm: Map<Seq<char>, Template>,
    budget: nat,
    start: Seq<char>,
)
    requires
        visiting(queue, head, found, tm, start),
        tm.dom().finite(),
        found.dom().finite(),
        budget + found.dom().len() >= tm.dom().len(),
    ensures
        forall|k: Seq<char>| #[trigger]
            used_from(queue, head, found, tm, budget).contains_key(k) <==> reachable(
                tm,
                start,
                k,
            ),
        forall|k: Seq<char>| #[trigger]
            used_from(queue, head, found, tm, budget).contains_key(k) ==> used_from(
                queue,
                head,
                found,
                tm,
                budget,
            )[k] == tm[k]@,
    decreases budget, queue.len() - head,
{
    let result = used_from(queue, head, found, tm, budget);
    if head >= queue.len() {
        assert(result == found);
        assert forall|k: Seq<char>| reachable(tm, start, k) implies found.contains_key(k) by {
            let path = choose|path: Seq<Seq<char>>|
                #[trigger] is_chain(tm, path) && path[0] == start && path.last() == k;
            lemma_search_is_closed(queue, found, tm, start, path, path.len() - 1);
        }
        assert forall|k: Seq<char>| #[trigger] result.contains_key(k) implies reachable(
            tm,
            start,
            k,
        ) && result[k] == tm[k]@ by {
            assert(found.contains_key(k));
        }
    } else {
        let name = queue[head];
        if found.contains_key(name) || !tm.contains_key(name) {
            assert(visiting(queue, head + 1, found, tm, start));
            lemma_used_from(queue, head + 1, found, tm, budget, start);
            assert(result == used_from(queue, head + 1, found, tm, budget));
        } else {
            assert(found.dom().insert(name).subset_of(tm.dom()));
            lemma_len_subset(found.dom().insert(name), tm.dom());
            assert(budget > 0);
            let t = tm[name];
            let n = t.components@.len() as int;
            let more = templates_used(t.components@, n);
            let longer = queue + more;
            let grown = found.insert(name, t@);
            lemma_templates_used(t.components@, n);
            // the template just found is reachable
            assert(reachable(tm, start, name)) by {
                if name == start {
                    let path = seq![start];
                    assert(is_chain(tm, path));
                    assert(path[0] == start && path.last() == name);
                } else {
                    let f = choose|f: Seq<char>|
                        found.contains_key(f) && #[trigger] uses(tm, f, queue[head]);
                    assert(reachable(tm, start, f));
                    let path = choose|path: Seq<Seq<char>>|
                        #[trigger] is_chain(tm, path) && path[0] == start && path.last() == f;
                    lemma_chain_grows(tm, path, name);
                    assert(is_chain(tm, path.push(name)));
                }
            }
            assert(visiting(longer, head + 1, grown, tm, start)) by {
                let i0 = choose|i: int| 0 <= i < queue.len() && #[trigger] queue[i] == start;
                assert(longer[i0] == start);
                assert forall|i: int| 0 <= i < longer.len() implies #[trigger] longer[i] == start
                    || exists|f: Seq<char>|
                    grown.contains_key(f) && #[trigger] uses(tm, f, longer[i]) by {
                    if i < queue.len() {
                        assert(longer[i] == queue[i]);
                        if queue[i] != start {
                            let f = choose|f: Seq<char>|
                                found.contains_key(f) && #[trigger] uses(tm, f, queue[i]);
                            assert(grown.contains_key(f) && uses(tm, f, longer[i]));
                        }
                    } else {
                        let j = i - queue.len();
                        assert(longer[i] == more[j]);
                        assert(t.components@[j].template_to_use@ == longer[i]);
                        assert(uses(tm, name, longer[i]));
                        assert(grown.contains_key(name));
                    }
                }
                assert forall|i: int| 0 <= i < head + 1 implies grown.contains_key(
                    #[trigger] longer[i],
                ) || !tm.contains_key(longer[i]) by {
                    assert(longer[i] == queue[i]);
                }
                assert forall|f: Seq<char>, b: Seq<char>|
                    grown.contains_key(f) && #[trigger] uses(tm, f, b) implies exists|i: int|
                    0 <= i < longer.len() && #[trigger] longer[i] == b by {
                    if f == name {
                        let j = choose|j: int|
                            0 <= j < tm[f].components@.len() && (
                            #[trigger] tm[f].components@[j]).template_to_use@ == b;
                        assert(more[j] == b);
                        assert(longer[queue.len() + j] == b);
                    } else {
                        assert(found.contains_key(f));
                        let i = choose|i: int| 0 <= i < queue.len() && #[trigger] queue[i] == b;
                        assert(longer[i] == b);
                    }
                }
            }
            assert(grown.dom() =~= found.dom().insert(name));
            lemma_used_from(longer, head + 1, grown, tm, (budget - 1) as nat, start);
            assert(result == used_from(longer, head + 1, grown, tm, (budget - 1) as nat));
        }
    }
}

/// The search finds exactly the templates that are reachable from the
/// template of the start component, each with the known template of its
/// name, when it may add as many templates as are known.
pub proof fn lemma_used_templates_are_the_reachable(
    tm: Map<Seq<char>, Template>,
    start: ComponentView,
    budget: nat,
)
    requires
        tm.dom().finite(),
        budget >= tm.dom().len(),
    ensures
        forall|k: Seq<char>| #[trigger]
            used_templates(tm, start, budget).contains_key(k) <==> reachable(
                tm,
                start.template_to_use,
                k,
            ),
        forall|k: Seq<char>| #[trigger]
            used_templates(tm, start, budget).contains_key(k) ==> used_templates(
                tm,
                start,
                budget,
            )[k] == tm[k]@,
{
    let queue = seq![start.template_to_use];
    assert(queue[0] == start.template_to_use);
    assert(visiting(queue, 0, Map::empty(), tm, start.template_to_use));
    lemma_used_from(queue, 0, Map::empty(), tm, budget, start.template_to_use);
}

} // verus!
