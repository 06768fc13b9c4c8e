//! The order in which services start: every service after the services
//! that it depends on.

use crate::config::Service;
use crate::error::{ComposeError, Failure};
use crate::name_map::NameMap;
use crate::text::{has_name, texts};
use vstd::prelude::*;

verus! {

/// Who depends on whom: each service with the names that it depends on.
pub type Graph = Map<Seq<char>, Seq<Seq<char>>>;

/// Whether the service `from` names `to` among its dependencies.
pub open spec fn depends_on(g: Graph, from: Seq<char>, to: Seq<char>) -> bool {
    g.contains_key(from) && g[from].contains(to)
}

/// Whether some service names `name` among its dependencies.
pub open spec fn is_dependency(g: Graph, name: Seq<char>) -> bool {
    exists|from: Seq<char>| depends_on(g, from, name)
}

/// Whether each name of `path` depends on the one that follows it.
pub open spec fn is_chain(g: Graph, path: Seq<Seq<char>>) -> bool {
    forall|i: int| 0 <= i < path.len() - 1 ==> depends_on(g, #[trigger] path[i], path[i + 1])
}

/// Whether `path` leads from `from` to `to` over one dependency at least.
pub open spec fn leads(g: Graph, path: Seq<Seq<char>>, from: Seq<char>, to: Seq<char>) -> bool {
    is_chain(g, path) && path.len() >= 2 && path.first() == from && path.last() == to
}

/// Whether `from` depends on `to`, directly or through other services.
pub open spec fn reaches(g: Graph, from: Seq<char>, to: Seq<char>) -> bool {
    exists|path: Seq<Seq<char>>| leads(g, path, from, to)
}

/// Whether `name` depends on itself, directly or through other services.
pub open spec fn on_cycle(g: Graph, name: Seq<char>) -> bool {
    reaches(g, name, name)
}

/// Whether some service depends on itself.
pub open spec fn has_cycle(g: Graph) -> bool {
    exists|name: Seq<char>| on_cycle(g, name)
}

/// Whether `order` is an order in which the services of `g` can start: it
/// lists every service once, beside them only names that a service depends
/// on, and each of them after everything that it depends on.
pub open spec fn is_start_order(g: Graph, order: Seq<Seq<char>>) -> bool {
    &&& order.no_duplicates()
    &&& forall|name: Seq<char>| g.contains_key(name) ==> order.contains(name)
    &&& forall|k: int|
        0 <= k < order.len() ==> g.contains_key(#[trigger] order[k]) || is_dependency(g, order[k])
    &&& forall|k: int, d: Seq<char>|
        0 <= k < order.len() && #[trigger] depends_on(g, order[k], d) ==> order.take(k).contains(d)
}

/// The names that the service at position `i` of `services` depends on.
pub open spec fn deps_at(services: NameMap<Service>, i: int) -> Seq<Seq<char>> {
    texts(services.values()[i].depends_on@)
}

/// The dependencies that `services` declare.
pub open spec fn graph_of(services: NameMap<Service>) -> Graph {
    Map::new(
        |name: Seq<char>| services.names().contains(name),
        |name: Seq<char>| deps_at(services, services.names().index_of(name)),
    )
}

/// What the traversal knows of a service.
#[derive(Debug, Clone, Copy, PartialEq, Eq, Structural)]
enum Mark {
    /// Not reached yet.
    Unvisited,
    /// Reached, and its dependencies are being gone through.
    Visiting,
    /// Done: it stands in the order, behind all that it depends on.
    Visited,
}

/// How many services are not reached yet.
spec fn unvisited(marks: Seq<Mark>) -> nat
    decreases marks.len(),
{
    if marks.len() == 0 {
        0
    } else {
        unvisited(marks.drop_last()) + (if marks.last() is Unvisited {
            1nat
        } else {
            0nat
        })
    }
}

/// What holds of the services that are being visited: `stack` lists them
/// from the first that was entered to the last, and each depends on the
/// next.
spec fn stack_ok(names: Seq<Seq<char>>, g: Graph, marks: Seq<Mark>, stack: Seq<int>) -> bool {
    &&& forall|k: int|
        0 <= k < stack.len() ==> 0 <= #[trigger] stack[k] < names.len() && marks[stack[k]]
            is Visiting
    &&& forall|i: int| 0 <= i < names.len() && #[trigger] marks[i] is Visiting ==> stack.contains(i)
    &&& forall|k: int|
        0 <= k < stack.len() - 1 ==> depends_on(g, names[#[trigger] stack[k]], names[stack[k + 1]])
}

/// What holds of the order while it is built.
spec fn order_ok(names: Seq<Seq<char>>, g: Graph, marks: Seq<Mark>, order: Seq<Seq<char>>) -> bool {
    &&& order.no_duplicates()
    &&& forall|i: int|
        0 <= i < names.len() ==> (#[trigger] marks[i] is Visited <==> order.contains(names[i]))
    &&& forall|k: int|
        0 <= k < order.len() ==> g.contains_key(#[trigger] order[k]) || is_dependency(g, order[k])
    &&& forall|k: int, d: Seq<char>|
        0 <= k < order.len() && #[trigger] depends_on(g, order[k], d) ==> order.take(k).contains(d)
}

/// What holds between two visits.
spec fn walk_ok(
    services: NameMap<Service>,
    order: Seq<Seq<char>>,
    marks: Seq<Mark>,
    stack: Seq<int>,
) -> bool {
    &&& services.names().no_duplicates()
    &&& services.values().len() == services.names().len()
    &&& marks.len() == services.names().len()
    &&& order_ok(services.names(), graph_of(services), marks, order)
    &&& stack_ok(services.names(), graph_of(services), marks, stack)
}

/// The dependencies of the service at a position are those that the graph
/// has under its name.
proof fn lemma_graph_at(services: NameMap<Service>, i: int)
    requires
        services.names().no_duplicates(),
        0 <= i < services.names().len(),
    ensures
        graph_of(services).contains_key(services.names()[i]),
        graph_of(services)[services.names()[i]] == deps_at(services, i),
{
    let names = services.names();
    assert(names.contains(names[i]));
    let j = names.index_of(names[i]);
    assert(0 <= j < names.len() && names[j] == names[i]);
}

/// Marking a service changes the count of those not reached by what the
/// mark takes away and what it brings.
proof fn lemma_unvisited_update(marks: Seq<Mark>, i: int, mark: Mark)
    requires
        0 <= i < marks.len(),
    ensures
        unvisited(marks.update(i, mark)) + (if marks[i] is Unvisited {
            1nat
        } else {
            0nat
        }) == unvisited(marks) + (if mark is Unvisited {
            1nat
        } else {
            0nat
        }),
    decreases marks.len(),
{
    let after = marks.update(i, mark);
    if i == marks.len() - 1 {
        assert(after.drop_last() =~= marks.drop_last());
    } else {
        assert(after.drop_last() =~= marks.drop_last().update(i, mark));
        lemma_unvisited_update(marks.drop_last(), i, mark);
    }
}

/// In a start order, what a service depends on, directly or through
/// others, stands before it.
pub proof fn lemma_dependencies_come_first(
    g: Graph,
    order: Seq<Seq<char>>,
    dependent: Seq<char>,
    dependency: Seq<char>,
)
    requires
        is_start_order(g, order),
        reaches(g, dependent, dependency),
    ensures
        order.contains(dependent),
        order.contains(dependency),
        order.index_of(dependency) < order.index_of(dependent),
{
    let path = choose|path: Seq<Seq<char>>| leads(g, path, dependent, dependency);
    lemma_chain_descends(g, order, path, path.len() - 1);
}

/// Along a chain of dependencies the positions in a start order go down.
proof fn lemma_chain_descends(g: Graph, order: Seq<Seq<char>>, path: Seq<Seq<char>>, k: int)
    requires
        is_start_order(g, order),
        is_chain(g, path),
        1 <= k < path.len(),
    ensures
        order.contains(path[0]),
        order.contains(path[k]),
        order.index_of(path[k]) < order.index_of(path[0]),
    decreases k,
{
    assert(depends_on(g, path[k - 1], path[k]));
    assert(order.contains(path[k - 1]));
    let at = order.index_of(path[k - 1]);
    assert(depends_on(g, order[at], path[k]));
    let before = order.take(at);
    assert(before.contains(path[k]));
    let j = before.index_of(path[k]);
    assert(0 <= j < at && order[j] == path[k]);
    assert(order.contains(path[k]));
    assert(order.index_of(path[k]) == j);
    if k > 1 {
        lemma_chain_descends(g, order, path, k - 1);
    } else {
        assert(depends_on(g, path[0], path[1]));
    }
}

/// Where the services can be put into a start order, none depends on
/// itself.
pub proof fn lemma_start_order_excludes_cycles(g: Graph, order: Seq<Seq<char>>)
    requires
        is_start_order(g, order),
    ensures
        !has_cycle(g),
{
    if has_cycle(g) {
        let name = choose|name: Seq<char>| on_cycle(g, name);
        lemma_dependencies_come_first(g, order, name, name);
    }
}

/// Whether `to` is `from` itself or something that `from` depends on,
/// directly or through other services.
pub open spec fn within_reach(g: Graph, from: Seq<char>, to: Seq<char>) -> bool {
    to == from || reaches(g, from, to)
}

/// What lies within reach of a dependency is reached by the dependent.
proof fn lemma_reach_step(g: Graph, from: Seq<char>, over: Seq<char>, to: Seq<char>)
    requires
        depends_on(g, from, over),
        within_reach(g, over, to),
    ensures
        reaches(g, from, to),
{
    if over == to {
        let path = seq![from, over];
        assert(leads(g, path, from, to));
    } else {
        let rest = choose|rest: Seq<Seq<char>>| leads(g, rest, over, to);
        let path = seq![from] + rest;
        assert forall|i: int| 0 <= i < path.len() - 1 implies depends_on(
            g,
            #[trigger] path[i],
            path[i + 1],
        ) by {
            if i > 0 {
                assert(path[i] == rest[i - 1]);
                assert(path[i + 1] == rest[i]);
            } else {
                assert(path[1] == rest[0]);
            }
        }
        assert(path.last() == rest.last());
        assert(leads(g, path, from, to));
    }
}

/// Only a service reaches anything.
proof fn lemma_reach_needs_service(g: Graph, from: Seq<char>, to: Seq<char>)
    requires
        reaches(g, from, to),
    ensures
        g.contains_key(from),
{
    let path = choose|path: Seq<Seq<char>>| leads(g, path, from, to);
    assert(depends_on(g, path[0], path[1]));
}

/// An order that holds a name and, with each of its names, what that name
/// depends on, holds whatever a chain of dependencies leads to from there.
proof fn lemma_chain_listed(
    names: Seq<Seq<char>>,
    g: Graph,
    marks: Seq<Mark>,
    order: Seq<Seq<char>>,
    path: Seq<Seq<char>>,
    k: int,
)
    requires
        order_ok(names, g, marks, order),
        is_chain(g, path),
        0 <= k < path.len(),
        order.contains(path[0]),
    ensures
        order.contains(path[k]),
    decreases k,
{
    if k > 0 {
        lemma_chain_listed(names, g, marks, order, path, k - 1);
        assert(depends_on(g, path[k - 1], path[k]));
        let at = order.index_of(path[k - 1]);
        assert(depends_on(g, order[at], path[k]));
        let before = order.take(at);
        assert(before.contains(path[k]));
        let j = before.index_of(path[k]);
        assert(order[j] == path[k]);
    }
}

/// An order under construction that holds `from` holds all that `from`
/// reaches.
proof fn lemma_reached_are_listed(
    names: Seq<Seq<char>>,
    g: Graph,
    marks: Seq<Mark>,
    order: Seq<Seq<char>>,
    from: Seq<char>,
)
    requires
        order_ok(names, g, marks, order),
        order.contains(from),
    ensures
        forall|to: Seq<char>| reaches(g, from, to) ==> order.contains(to),
{
    assert forall|to: Seq<char>| reaches(g, from, to) implies order.contains(to) by {
        let path = choose|path: Seq<Seq<char>>| leads(g, path, from, to);
        lemma_chain_listed(names, g, marks, order, path, path.len() - 1);
    }
}

/// Visits `service_name`: puts it into `order` behind everything that it
/// depends on, unless it stands there already.
///
/// `marks` holds what is known of each service, by its position in
/// `services`. A name that is no service has no dependencies; it is known
/// by its place in `order` alone. `stack` lists the services whose visit is
/// under way.
///
/// A service whose visit is under way is reported as depending on itself,
/// and one that is done is passed over; neither changes anything. For any
/// other name the visit appends whatever the name reaches that is not
/// listed yet, each behind what it depends on, and the name itself last.
/// It fails only where a service within reach of `service_name` depends
/// on itself, and it names such a service.
fn visit_service(
    services: &NameMap<Service>,
    service_name: &str,
    order: &mut Vec<String>,
    marks: &mut Vec<Mark>,
    Ghost(stack): Ghost<Seq<int>>,
) -> (r: Result<(), ComposeError>)
    requires
        walk_ok(*services, texts(old(order)@), old(marks)@, stack),
        stack.len() == 0 ==> services.contains(service_name@),
        stack.len() > 0 ==> depends_on(
            graph_of(*services),
            services.names()[stack.last()],
            service_name@,
        ),
    ensures
        match r {
            Ok(_) => {
                &&& walk_ok(*services, texts(final(order)@), final(marks)@, stack)
                &&& texts(old(order)@).is_prefix_of(texts(final(order)@))
                &&& texts(final(order)@).contains(service_name@)
                &&& forall|to: Seq<char>|
                    reaches(graph_of(*services), service_name@, to) ==> texts(
                        final(order)@,
                    ).contains(to)
                &&& forall|k: int|
                    old(order)@.len() <= k < final(order)@.len() ==> within_reach(
                        graph_of(*services),
                        service_name@,
                        #[trigger] texts(final(order)@)[k],
                    )
                &&& forall|j: int|
                    0 <= j < old(marks)@.len() ==> (old(marks)@[j] is Visiting <==> final(marks)@[j]
                        is Visiting)
                &&& unvisited(final(marks)@) <= unvisited(old(marks)@)
            },
            Err(e) => exists|name: Seq<char>|
                {
                    &&& e@ == (Failure::CircularDependency { service: name })
                    &&& on_cycle(graph_of(*services), name)
                    &&& within_reach(graph_of(*services), service_name@, name)
                },
        },
        (forall|name: Seq<char>|
            within_reach(graph_of(*services), service_name@, name) ==> !on_cycle(
                graph_of(*services),
                name,
            )) ==> r is Ok,
        services.contains(service_name@) && old(marks)@[services.names().index_of(service_name@)]
            is Visiting ==> {
            &&& r matches Err(e) && e@ == (Failure::CircularDependency { service: service_name@ })
            &&& final(order)@ == old(order)@
            &&& final(marks)@ == old(marks)@
        },
        services.contains(service_name@) && old(marks)@[services.names().index_of(service_name@)]
            is Visited ==> {
            &&& r is Ok
            &&& final(order)@ == old(order)@
            &&& final(marks)@ == old(marks)@
        },
        services.contains(service_name@) && old(marks)@[services.names().index_of(service_name@)]
            is Unvisited && r is Ok ==> texts(final(order)@).last() == service_name@,
        !services.contains(service_name@) ==> {
            &&& r is Ok
            &&& final(marks)@ == old(marks)@
            &&& texts(final(order)@) == (if texts(old(order)@).contains(service_name@) {
                texts(old(order)@)
            } else {
                texts(old(order)@).push(service_name@)
            })
        },
    decreases unvisited(old(marks)@),
{
    let ghost g = graph_of(*services);
    let ghost names = services.names();
    let ghost order0 = texts(order@);
    let ghost marks0 = marks@;
    let found = services.index_of(service_name);
    let i = match found {
        None => {
            // No service: it depends on nothing.
            if !has_name(order, service_name) {
                let name = service_name.to_owned();
                proof {
                    let next = texts(order@.push(name));
                    assert(next =~= order0.push(name@));
                    assert(is_dependency(g, name@));
                    assert forall|k: int, d: Seq<char>|
                        0 <= k < next.len() && #[trigger] depends_on(g, next[k], d) implies next.take(
                        k,
                    ).contains(d) by {
                        assert(k < order0.len());
                        assert(next[k] == order0[k]);
                        assert(next.take(k) =~= order0.take(k));
                    }
                    assert forall|j: int| 0 <= j < names.len() implies (#[trigger] marks0[j]
                        is Visited <==> next.contains(names[j])) by {
                        if next.contains(names[j]) {
                            let at = next.index_of(names[j]);
                            assert(at < order0.len());
                            assert(order0[at] == names[j]);
                        }
                        if order0.contains(names[j]) {
                            let at = order0.index_of(names[j]);
                            assert(next[at] == names[j]);
                        }
                    }
                    assert(next[next.len() - 1] == name@);
                }
                order.push(name);
            }
            proof {
                assert forall|to: Seq<char>| reaches(g, service_name@, to) implies texts(
                    order@,
                ).contains(to) by {
                    lemma_reach_needs_service(g, service_name@, to);
                }
            }
            return Ok(());
        },
        Some(i) => i,
    };
    assert(names.index_of(service_name@) == i);
    match marks[i] {
        Mark::Visiting => {
            let e = ComposeError::CircularDependency { service: service_name.to_owned() };
            proof {
                assert(stack.contains(i as int));
                let p = stack.index_of(i as int);
                let path = Seq::new((stack.len() - p) as nat, |k: int| names[stack[p + k]]).push(
                    service_name@,
                );
                assert forall|k: int| 0 <= k < path.len() - 1 implies depends_on(
                    g,
                    #[trigger] path[k],
                    path[k + 1],
                ) by {
                    if k < path.len() - 2 {
                        assert(path[k] == names[stack[p + k]]);
                        assert(path[k + 1] == names[stack[p + k + 1]]);
                    } else {
                        assert(path[k] == names[stack.last()]);
                    }
                }
                assert(leads(g, path, service_name@, service_name@));
                assert(on_cycle(g, service_name@));
            }
            return Err(e);
        },
        Mark::Visited => {
            proof {
                lemma_reached_are_listed(names, g, marks0, order0, service_name@);
            }
            return Ok(());
        },
        Mark::Unvisited => {},
    }
    let ghost inner = stack.push(i as int);
    proof {
        lemma_unvisited_update(marks0, i as int, Mark::Visiting);
        lemma_graph_at(*services, i as int);
    }
    marks.set(i, Mark::Visiting);
    proof {
        assert(walk_ok(*services, order0, marks@, inner)) by {
            assert forall|j: int| 0 <= j < names.len() && #[trigger] marks@[j] is Visiting implies inner.contains(
                j,
            ) by {
                if j == i {
                    assert(inner[inner.len() - 1] == i);
                } else {
                    assert(stack.contains(j));
                    let at = stack.index_of(j);
                    assert(inner[at] == j);
                }
            }
            assert forall|k: int| 0 <= k < inner.len() - 1 implies depends_on(
                g,
                names[#[trigger] inner[k]],
                names[inner[k + 1]],
            ) by {
                if k < stack.len() - 1 {
                    assert(inner[k] == stack[k]);
                    assert(inner[k + 1] == stack[k + 1]);
                } else {
                    assert(inner[k] == stack.last());
                    assert(inner[k + 1] == i);
                }
            }
        }
    }
    let service = services.value_at(i);
    let count = service.depends_on.len();
    let mut k: usize = 0;
    while k < count
        invariant
            i < names.len(),
            names == services.names(),
            g == graph_of(*services),
            inner == stack.push(i as int),
            *service == services.values()[i as int],
            count == service.depends_on@.len(),
            k <= count,
            names[i as int] == service_name@,
            g.contains_key(names[i as int]),
            g[names[i as int]] == deps_at(*services, i as int),
            walk_ok(*services, texts(order@), marks@, inner),
            order0.is_prefix_of(texts(order@)),
            marks@.len() == marks0.len(),
            marks0 == old(marks)@,
            marks0[i as int] is Unvisited,
            forall|j: int|
                0 <= j < marks0.len() && j != i ==> (marks0[j] is Visiting <==> marks@[j]
                    is Visiting),
            marks@[i as int] is Visiting,
            forall|m: int|
                0 <= m < k ==> texts(order@).contains(#[trigger] deps_at(*services, i as int)[m]),
            forall|x: int|
                order0.len() <= x < texts(order@).len() ==> reaches(
                    g,
                    service_name@,
                    #[trigger] texts(order@)[x],
                ),
            unvisited(marks@) < unvisited(marks0),
        decreases count - k,
    {
        let dependency = &service.depends_on[k];
        let ghost order1 = texts(order@);
        proof {
            assert(deps_at(*services, i as int)[k as int] == dependency@);
            assert(inner.last() == i);
            assert(depends_on(g, names[inner.last()], dependency@));
        }
        match visit_service(services, dependency.as_str(), order, marks, Ghost(inner)) {
            Ok(_) => {},
            Err(e) => {
                proof {
                    let found = choose|name: Seq<char>|
                        {
                            &&& e@ == (Failure::CircularDependency { service: name })
                            &&& on_cycle(g, name)
                            &&& within_reach(g, dependency@, name)
                        };
                    lemma_reach_step(g, service_name@, dependency@, found);
                    assert(within_reach(g, service_name@, found));
                }
                return Err(e);
            },
        }
        proof {
            let order2 = texts(order@);
            assert forall|x: int| order0.len() <= x < order2.len() implies reaches(
                g,
                service_name@,
                #[trigger] order2[x],
            ) by {
                if x < order1.len() {
                    assert(order2.subrange(0, order1.len() as int)[x] == order2[x]);
                    assert(order2[x] == order1[x]);
                } else {
                    lemma_reach_step(g, service_name@, dependency@, order2[x]);
                }
            }
            assert(order0.is_prefix_of(order2)) by {
                assert(order0 =~= order2.subrange(0, order0.len() as int)) by {
                    assert forall|x: int| 0 <= x < order0.len() implies order0[x] == order2[x] by {
                        assert(order1.subrange(0, order0.len() as int)[x] == order1[x]);
                        assert(order2.subrange(0, order1.len() as int)[x] == order2[x]);
                    }
                }
            }
            assert forall|m: int| 0 <= m < k + 1 implies order2.contains(
                #[trigger] deps_at(*services, i as int)[m],
            ) by {
                if m < k {
                    let d = deps_at(*services, i as int)[m];
                    assert(order1.contains(d));
                    let at = order1.index_of(d);
                    assert(order2.subrange(0, order1.len() as int)[at] == order2[at]);
                }
            }
        }
        k += 1;
    }
    let ghost order3 = texts(order@);
    let ghost marks3 = marks@;
    let name = service_name.to_owned();
    proof {
        lemma_unvisited_update(marks3, i as int, Mark::Visited);
    }
    marks.set(i, Mark::Visited);
    proof {
        let next = texts(order@.push(name));
        assert(next =~= order3.push(name@));
        assert(!order3.contains(name@));
        assert(next[next.len() - 1] == name@);
        assert(order0.is_prefix_of(next)) by {
            assert(order0 =~= next.subrange(0, order0.len() as int)) by {
                assert forall|x: int| 0 <= x < order0.len() implies order0[x] == next[x] by {
                    assert(order3.subrange(0, order0.len() as int)[x] == order3[x]);
                }
            }
        }
        assert(order_ok(names, g, marks@, next)) by {
            assert forall|j: int| 0 <= j < names.len() implies (#[trigger] marks@[j]
                is Visited <==> next.contains(names[j])) by {
                if j == i {
                } else {
                    assert(marks@[j] == marks3[j]);
                    if next.contains(names[j]) {
                        let at = next.index_of(names[j]);
                        assert(at < order3.len());
                        assert(order3[at] == names[j]);
                    }
                    if order3.contains(names[j]) {
                        let at = order3.index_of(names[j]);
                        assert(next[at] == names[j]);
                    }
                }
            }
            assert forall|x: int, d: Seq<char>|
                0 <= x < next.len() && #[trigger] depends_on(g, next[x], d) implies next.take(
                x,
            ).contains(d) by {
                if x < order3.len() {
                    assert(next[x] == order3[x]);
                    assert(next.take(x) =~= order3.take(x));
                } else {
                    assert(next.take(x) =~= order3);
                    let m = deps_at(*services, i as int).index_of(d);
                    assert(deps_at(*services, i as int)[m] == d);
                }
            }
        }
        lemma_reached_are_listed(names, g, marks@, next, service_name@);
        assert forall|x: int| order0.len() <= x < next.len() implies within_reach(
            g,
            service_name@,
            #[trigger] next[x],
        ) by {
            if x < order3.len() {
                assert(next[x] == order3[x]);
            }
        }
        assert(stack_ok(names, g, marks@, stack)) by {
            assert forall|x: int| 0 <= x < stack.len() implies 0 <= #[trigger] stack[x]
                < names.len() && marks@[stack[x]] is Visiting by {
                assert(marks0[stack[x]] is Visiting);
            }
            assert forall|j: int|
                0 <= j < names.len() && #[trigger] marks@[j] is Visiting implies stack.contains(
                j,
            ) by {
                assert(marks3[j] is Visiting);
                assert(inner.contains(j));
                let at = inner.index_of(j);
                assert(inner[at] == j);
                assert(at < stack.len());
                assert(stack[at] == j);
            }
        }
    }
    order.push(name);
    Ok(())
}

/// An order in which the services of `services` can start, or the report
/// of a service that depends on itself.
///
/// The order exists exactly where no service depends on itself, directly
/// or through others.
pub fn start_order(services: &NameMap<Service>) -> (r: Result<Vec<String>, ComposeError>)
    ensures
        match r {
            Ok(order) => is_start_order(graph_of(*services), texts(order@)),
            Err(e) => exists|name: Seq<char>|
                e@ == (Failure::CircularDependency { service: name }) && on_cycle(
                    graph_of(*services),
                    name,
                ),
        },
        r is Ok <==> !has_cycle(graph_of(*services)),
{
    let n = services.len();
    let ghost g = graph_of(*services);
    let ghost names = services.names();
    let mut marks: Vec<Mark> = Vec::new();
    while marks.len() < n
        invariant
            marks@.len() <= n,
            forall|j: int| 0 <= j < marks@.len() ==> marks@[j] is Unvisited,
        decreases n - marks@.len(),
    {
        marks.push(Mark::Unvisited);
    }
    let mut order: Vec<String> = Vec::new();
    let mut i: usize = 0;
    proof {
        assert(texts(order@) =~= Seq::<Seq<char>>::empty());
    }
    while i < n
        invariant
            n == names.len(),
            names == services.names(),
            g == graph_of(*services),
            i <= n,
            walk_ok(*services, texts(order@), marks@, Seq::<int>::empty()),
            forall|j: int| 0 <= j < i ==> marks@[j] is Visited,
        decreases n - i,
    {
        match marks[i] {
            Mark::Unvisited => {
                proof {
                    assert(names.contains(names[i as int]));
                }
                let ghost before = texts(order@);
                let ghost marks_before = marks@;
                match visit_service(
                    services,
                    services.name_at(i).as_str(),
                    &mut order,
                    &mut marks,
                    Ghost(Seq::<int>::empty()),
                ) {
                    Ok(_) => {},
                    Err(e) => {
                        proof {
                            let name = choose|name: Seq<char>|
                                {
                                    &&& e@ == (Failure::CircularDependency { service: name })
                                    &&& on_cycle(g, name)
                                    &&& within_reach(g, names[i as int], name)
                                };
                            assert(has_cycle(g));
                        }
                        return Err(e);
                    },
                }
                proof {
                    let after = texts(order@);
                    assert forall|j: int| 0 <= j < i + 1 implies marks@[j] is Visited by {
                        if j < i {
                            assert(marks_before[j] is Visited);
                            assert(before.contains(names[j]));
                            let at = before.index_of(names[j]);
                            assert(after.subrange(0, before.len() as int)[at] == after[at]);
                            assert(after.contains(names[j]));
                        }
                    }
                }
            },
            Mark::Visiting => {
                proof {
                    assert(Seq::<int>::empty().contains(i as int));
                }
            },
            Mark::Visited => {},
        }
        i += 1;
    }
    proof {
        let listed = texts(order@);
        assert forall|name: Seq<char>| g.contains_key(name) implies listed.contains(name) by {
            let at = names.index_of(name);
            assert(marks@[at] is Visited);
        }
        assert(is_start_order(g, listed));
        lemma_start_order_excludes_cycles(g, listed);
    }
    Ok(order)
}

} // verus!
