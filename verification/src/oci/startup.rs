//! The order in which the services of a topology start.

use crate::checks;
use crate::oci::error::{SandboxError, SandboxFailure};
use crate::oci::model::LockedService;
use crate::oci::values::is_listed;
use crate::table;
use crate::table::Table;
use crate::text;
use vstd::prelude::*;

verus! {

/// Every dependency of every service is a service.
pub open spec fn dependencies_known(services: Seq<(String, LockedService)>) -> bool {
    forall|i: int, j: int|
        0 <= i < services.len() && 0 <= j < services[i].1.depends_on.rows().len()
            ==> table::as_map(services).contains_key(
            (#[trigger] services[i].1.depends_on.rows()[j]).0@,
        )
}

/// Service `i` is not placed and everything it depends on is.
pub open spec fn ready(
    services: Seq<(String, LockedService)>,
    placed: Seq<Seq<char>>,
    i: int,
) -> bool {
    &&& 0 <= i < services.len()
    &&& !placed.contains(services[i].0@)
    &&& forall|j: int|
        0 <= j < services[i].1.depends_on.rows().len() ==> placed.contains(
            (#[trigger] services[i].1.depends_on.rows()[j]).0@,
        )
}

/// Service `i` is the first that is ready.
pub open spec fn first_ready(
    services: Seq<(String, LockedService)>,
    placed: Seq<Seq<char>>,
    i: int,
) -> bool {
    ready(services, placed, i) && forall|j: int| 0 <= j < i ==> !ready(services, placed, j)
}

/// The startup order behind `placed`: time and again the first service that is ready.
pub open spec fn startup(
    services: Seq<(String, LockedService)>,
    placed: Seq<Seq<char>>,
) -> Option<Seq<Seq<char>>>
    decreases services.len() - placed.len(),
{
    if placed.len() >= services.len() {
        Some(placed)
    } else if exists|i: int| first_ready(services, placed, i) {
        let i = choose|i: int| first_ready(services, placed, i);
        startup(services, placed.push(services[i].0@))
    } else {
        None
    }
}

pub open spec fn order_failure(services: Seq<(String, LockedService)>) -> Option<SandboxFailure> {
    checks::when(
        startup(services, Seq::empty()) is None,
        SandboxFailure::Compose("service dependency graph contains a cycle"@),
    )
}

/// Whether service `i` can start once the services of `order` have.
fn is_ready(services: &Table<LockedService>, order: &Vec<String>, i: usize) -> (r: bool)
    requires
        i < services.rows().len(),
    ensures
        r == ready(services.rows(), text::texts(order@), i as int),
{
    if is_listed(order, services.key(i).as_str()) {
        proof {
            let at = choose|k: int| 0 <= k < order@.len() && #[trigger] order@[k]@ == services.rows()[i as int].0@;
            assert(text::texts(order@)[at] == services.rows()[i as int].0@);
        }
        return false;
    }
    proof {
        assert(!text::texts(order@).contains(services.rows()[i as int].0@));
    }
    let depends_on = &services.value(i).depends_on;
    let mut j: usize = 0;
    while j < depends_on.len()
        invariant
            i < services.rows().len(),
            depends_on.rows() == services.rows()[i as int].1.depends_on.rows(),
            j <= depends_on.rows().len(),
            !text::texts(order@).contains(services.rows()[i as int].0@),
            forall|k: int|
                0 <= k < j ==> text::texts(order@).contains((#[trigger] depends_on.rows()[k]).0@),
        decreases depends_on.rows().len() - j,
    {
        if !is_listed(order, depends_on.key(j).as_str()) {
            proof {
                assert(!text::texts(order@).contains(depends_on.rows()[j as int].0@));
            }
            return false;
        }
        proof {
            let at = choose|k: int| 0 <= k < order@.len() && #[trigger] order@[k]@ == depends_on.rows()[j as int].0@;
            assert(text::texts(order@)[at] == depends_on.rows()[j as int].0@);
        }
        j += 1;
    }
    true
}

/// Orders the services so that each starts behind what it depends on.
pub fn startup_order(services: &Table<LockedService>) -> (r: Result<Vec<String>, SandboxError>)
    ensures
        match r {
            Ok(order) => startup(services.rows(), Seq::empty()) == Some(text::texts(order@)),
            Err(error) => order_failure(services.rows()) == Some(error@),
        },
{
    let ghost rows = services.rows();
    let mut order: Vec<String> = Vec::new();
    proof {
        assert(text::texts(order@) =~= Seq::<Seq<char>>::empty());
    }
    while order.len() < services.len()
        invariant
            rows == services.rows(),
            order@.len() <= rows.len(),
            startup(rows, Seq::empty()) == startup(rows, text::texts(order@)),
        decreases rows.len() - order@.len(),
    {
        let mut i: usize = 0;
        while i < services.len() && !is_ready(services, &order, i)
            invariant
                rows == services.rows(),
                i <= rows.len(),
                order@.len() < rows.len(),
                startup(rows, Seq::empty()) == startup(rows, text::texts(order@)),
                forall|j: int| 0 <= j < i ==> !ready(rows, text::texts(order@), j),
            decreases rows.len() - i,
        {
            i += 1;
        }
        if i >= services.len() {
            proof {
                if exists|k: int| first_ready(rows, text::texts(order@), k) {
                    let k = choose|k: int| first_ready(rows, text::texts(order@), k);
                    assert(ready(rows, text::texts(order@), k));
                }
            }
            return Err(
                SandboxError::Compose("service dependency graph contains a cycle".to_owned()),
            );
        }
        proof {
            assert(first_ready(rows, text::texts(order@), i as int));
            let k = choose|k: int| first_ready(rows, text::texts(order@), k);
            if k < i {
                assert(!ready(rows, text::texts(order@), k));
            } else if i < k {
                assert(!ready(rows, text::texts(order@), i as int));
            }
            assert(text::texts(order@.push(rows[i as int].0)) =~= text::texts(order@).push(rows[i as int].0@));
        }
        order.push(services.key(i).clone());
    }
    Ok(order)
}

/// Position `k` of an order holds the service that was the first ready one there.
pub open spec fn rightly_placed(
    services: Seq<(String, LockedService)>,
    order: Seq<Seq<char>>,
    k: int,
) -> bool {
    exists|i: int|
        #[trigger] first_ready(services, order.take(k), i) && services[i].0@ == order[k]
}

/// A startup order extends what was placed, each time by the first service that is ready.
proof fn lemma_startup(
    services: Seq<(String, LockedService)>,
    placed: Seq<Seq<char>>,
    order: Seq<Seq<char>>,
)
    requires
        startup(services, placed) == Some(order),
        placed.len() <= services.len(),
    ensures
        order.len() == services.len(),
        order.take(placed.len() as int) == placed,
        forall|k: int|
            placed.len() <= k < order.len() ==> #[trigger] rightly_placed(services, order, k),
    decreases services.len() - placed.len(),
{
    if placed.len() >= services.len() {
        assert(order.take(placed.len() as int) =~= placed);
    } else {
        let i = choose|i: int| first_ready(services, placed, i);
        let grown = placed.push(services[i].0@);
        lemma_startup(services, grown, order);
        assert(order.take(grown.len() as int) == grown);
        assert(order.take(placed.len() as int) =~= placed) by {
            assert forall|k: int| 0 <= k < placed.len() implies order[k] == placed[k] by {
                assert(order.take(grown.len() as int)[k] == grown[k]);
            }
        }
        assert(order[placed.len() as int] == services[i].0@) by {
            assert(order.take(grown.len() as int)[placed.len() as int] == grown[placed.len() as int]);
        }
        assert forall|k: int| placed.len() <= k < order.len() implies #[trigger] rightly_placed(
            services,
            order,
            k,
        ) by {
            if k == placed.len() {
                assert(first_ready(services, order.take(k), i));
            }
        }
    }
}

/// A startup order names every service once, and behind everything it depends on.
pub proof fn law_startup_order_respects_dependencies(
    services: Seq<(String, LockedService)>,
    order: Seq<Seq<char>>,
)
    requires
        table::ordered(services),
        startup(services, Seq::empty()) == Some(order),
    ensures
        order.len() == services.len(),
        forall|i: int| 0 <= i < services.len() ==> order.contains(#[trigger] services[i].0@),
        forall|a: int, b: int| 0 <= a < b < order.len() ==> #[trigger] order[a] != #[trigger] order[b],
        forall|k: int, i: int, j: int|
            #![trigger order[k], services[i].1.depends_on.rows()[j]]
            0 <= k < order.len() && 0 <= i < services.len() && services[i].0@ == order[k] && 0 <= j
                < services[i].1.depends_on.rows().len() ==> order.take(k).contains(
                services[i].1.depends_on.rows()[j].0@,
            ),
{
    lemma_startup(services, Seq::empty(), order);
    assert forall|a: int, b: int| 0 <= a < b < order.len() implies #[trigger] order[a]
        != #[trigger] order[b] by {
        assert(rightly_placed(services, order, b));
        let i = choose|i: int|
            #[trigger] first_ready(services, order.take(b), i) && services[i].0@ == order[b];
        assert(order.take(b)[a] == order[a]);
        assert(!order.take(b).contains(services[i].0@));
    }
    assert forall|k: int, i: int, j: int|
        #![trigger order[k], services[i].1.depends_on.rows()[j]]
        0 <= k < order.len() && 0 <= i < services.len() && services[i].0@ == order[k] && 0 <= j
            < services[i].1.depends_on.rows().len() implies order.take(k).contains(
        services[i].1.depends_on.rows()[j].0@,
    ) by {
        assert(rightly_placed(services, order, k));
        let p = choose|p: int|
            #[trigger] first_ready(services, order.take(k), p) && services[p].0@ == order[k];
        table::lemma_position(services, p);
        table::lemma_position(services, i);
        assert(p == i);
    }
    lemma_order_covers(services, order);
}

/// As many different service names as there are services are all of them.
proof fn lemma_order_covers(services: Seq<(String, LockedService)>, order: Seq<Seq<char>>)
    requires
        table::ordered(services),
        order.len() == services.len(),
        forall|a: int, b: int| 0 <= a < b < order.len() ==> #[trigger] order[a] != #[trigger] order[b],
        forall|k: int|
            0 <= k < order.len() ==> #[trigger] rightly_placed(services, order, k),
    ensures
        forall|i: int| 0 <= i < services.len() ==> order.contains(#[trigger] services[i].0@),
{
    let names = Seq::new(services.len(), |i: int| services[i].0@);
    assert(names.no_duplicates()) by {
        assert forall|a: int, b: int| 0 <= a < b < names.len() implies names[a] != names[b] by {
            table::lemma_precedes_asymmetric(
                text::utf8(services[a].0@),
                text::utf8(services[b].0@),
            );
        }
    }
    assert(order.no_duplicates());
    names.unique_seq_to_set();
    order.unique_seq_to_set();
    assert(order.to_set().subset_of(names.to_set())) by {
        assert forall|name: Seq<char>| order.to_set().contains(name) implies names.to_set().contains(
            name,
        ) by {
            let k = choose|k: int| 0 <= k < order.len() && order[k] == name;
            assert(rightly_placed(services, order, k));
            let i = choose|i: int|
                #[trigger] first_ready(services, order.take(k), i) && services[i].0@ == order[k];
            assert(names[i] == name);
        }
    }
    vstd::set_lib::lemma_subset_equality(order.to_set(), names.to_set());
    assert forall|i: int| 0 <= i < services.len() implies order.contains(
        #[trigger] services[i].0@,
    ) by {
        assert(names[i] == services[i].0@);
        assert(names.to_set().contains(services[i].0@));
        assert(order.to_set().contains(services[i].0@));
    }
}

/// A group of services each of which waits for another of the group.
pub open spec fn waits_on_itself(
    services: Seq<(String, LockedService)>,
    waiting: Set<Seq<char>>,
) -> bool {
    &&& exists|i: int| 0 <= i < services.len() && waiting.contains(#[trigger] services[i].0@)
    &&& forall|i: int|
        0 <= i < services.len() && waiting.contains(#[trigger] services[i].0@) ==> exists|j: int|
            0 <= j < services[i].1.depends_on.rows().len() && waiting.contains(
                (#[trigger] services[i].1.depends_on.rows()[j]).0@,
            )
}

/// Services that depend on services only have a startup order unless some wait in a circle.
pub proof fn law_only_cycles_have_no_order(services: Seq<(String, LockedService)>)
    requires
        table::ordered(services),
        dependencies_known(services),
    ensures
        startup(services, Seq::empty()) is None <==> exists|waiting: Set<Seq<char>>|
            waits_on_itself(services, waiting),
{
    if startup(services, Seq::empty()) is None {
        lemma_stuck(services, Seq::empty());
    }
    if (exists|waiting: Set<Seq<char>>| waits_on_itself(services, waiting)) && startup(
        services,
        Seq::empty(),
    ) is Some {
        let waiting = choose|waiting: Set<Seq<char>>| waits_on_itself(services, waiting);
        let order = startup(services, Seq::empty())->0;
        law_startup_order_respects_dependencies(services, order);
        let i = choose|i: int| 0 <= i < services.len() && waiting.contains(#[trigger] services[i].0@);
        assert(order.contains(services[i].0@));
        let k = choose|k: int| 0 <= k < order.len() && order[k] == services[i].0@;
        lemma_no_first_waiter(services, order, waiting, k);
    }
}

/// No position of a startup order holds a service of a group that waits on itself.
proof fn lemma_no_first_waiter(
    services: Seq<(String, LockedService)>,
    order: Seq<Seq<char>>,
    waiting: Set<Seq<char>>,
    k: int,
)
    requires
        table::ordered(services),
        dependencies_known(services),
        startup(services, Seq::empty()) == Some(order),
        waits_on_itself(services, waiting),
        0 <= k < order.len(),
    ensures
        !waiting.contains(order[k]),
    decreases k,
{
    if waiting.contains(order[k]) {
        law_startup_order_respects_dependencies(services, order);
        lemma_startup(services, Seq::empty(), order);
        assert(rightly_placed(services, order, k));
        let i = choose|i: int|
            #[trigger] first_ready(services, order.take(k), i) && services[i].0@ == order[k];
        assert(waiting.contains(services[i].0@));
        let j = choose|j: int|
            0 <= j < services[i].1.depends_on.rows().len() && waiting.contains(
                (#[trigger] services[i].1.depends_on.rows()[j]).0@,
            );
        let dependency = services[i].1.depends_on.rows()[j].0@;
        assert(order.take(k).contains(dependency));
        let m = choose|m: int| 0 <= m < order.take(k).len() && order.take(k)[m] == dependency;
        lemma_no_first_waiter(services, order, waiting, m);
    }
}

/// Where no order is found, the services that were not placed wait on themselves.
proof fn lemma_stuck(services: Seq<(String, LockedService)>, placed: Seq<Seq<char>>)
    requires
        table::ordered(services),
        dependencies_known(services),
        startup(services, placed) is None,
    ensures
        exists|waiting: Set<Seq<char>>| waits_on_itself(services, waiting),
    decreases services.len() - placed.len(),
{
    if exists|i: int| first_ready(services, placed, i) {
        let i = choose|i: int| first_ready(services, placed, i);
        lemma_stuck(services, placed.push(services[i].0@));
    } else {
        let names = Seq::new(services.len(), |i: int| services[i].0@);
        let waiting = Set::new(|name: Seq<char>| names.contains(name) && !placed.contains(name));
        assert forall|i: int| 0 <= i < services.len() implies !ready(services, placed, i) by {
            lemma_no_ready(services, placed, i);
        }
        assert forall|i: int|
            0 <= i < services.len() && waiting.contains(#[trigger] services[i].0@) implies exists|
            j: int,
        |
            0 <= j < services[i].1.depends_on.rows().len() && waiting.contains(
                (#[trigger] services[i].1.depends_on.rows()[j]).0@,
            ) by {
            assert(!ready(services, placed, i));
            let j = choose|j: int|
                0 <= j < services[i].1.depends_on.rows().len() && !placed.contains(
                    (#[trigger] services[i].1.depends_on.rows()[j]).0@,
                );
            let dependency = services[i].1.depends_on.rows()[j].0@;
            assert(table::as_map(services).contains_key(dependency));
            let p = table::position(services, dependency);
            assert(names[p] == dependency);
            assert(waiting.contains(dependency));
        }
        lemma_some_unplaced(services, placed);
        let i = choose|i: int| 0 <= i < services.len() && !placed.contains(#[trigger] services[i].0@);
        assert(names[i] == services[i].0@);
        assert(waiting.contains(services[i].0@));
        assert(waits_on_itself(services, waiting));
    }
}

/// Without a first ready service none is ready.
proof fn lemma_no_ready(services: Seq<(String, LockedService)>, placed: Seq<Seq<char>>, i: int)
    requires
        !(exists|k: int| first_ready(services, placed, k)),
        0 <= i,
    ensures
        !ready(services, placed, i),
    decreases i,
{
    if ready(services, placed, i) {
        assert forall|j: int| 0 <= j < i implies !ready(services, placed, j) by {
            lemma_no_ready(services, placed, j);
        }
        assert(first_ready(services, placed, i));
    }
}

/// Fewer placed names than services leave a service out.
proof fn lemma_some_unplaced(services: Seq<(String, LockedService)>, placed: Seq<Seq<char>>)
    requires
        table::ordered(services),
        placed.len() < services.len(),
    ensures
        exists|i: int| 0 <= i < services.len() && !placed.contains(#[trigger] services[i].0@),
{
    if forall|i: int| 0 <= i < services.len() ==> placed.contains(#[trigger] services[i].0@) {
        let names = Seq::new(services.len(), |i: int| services[i].0@);
        assert(names.no_duplicates()) by {
            assert forall|a: int, b: int| 0 <= a < b < names.len() implies names[a] != names[b] by {
                table::lemma_precedes_asymmetric(
                    text::utf8(services[a].0@),
                    text::utf8(services[b].0@),
                );
            }
        }
        names.unique_seq_to_set();
        placed.lemma_cardinality_of_set();
        assert(names.to_set().subset_of(placed.to_set())) by {
            assert forall|name: Seq<char>| names.to_set().contains(name) implies placed.to_set().contains(
                name,
            ) by {
                let i = choose|i: int| 0 <= i < names.len() && names[i] == name;
                assert(placed.contains(services[i].0@));
            }
        }
        vstd::set_lib::lemma_len_subset(names.to_set(), placed.to_set());
    }
}

/// A service is ready exactly where it was not placed and all that it depends on were.
pub proof fn law_ready_services_wait_for_nothing(
    services: Seq<(String, LockedService)>,
    placed: Seq<Seq<char>>,
    i: int,
)
    requires
        0 <= i < services.len(),
    ensures
        ready(services, placed, i) <==> !placed.contains(services[i].0@) && (forall|j: int|
            0 <= j < services[i].1.depends_on.rows().len() ==> placed.contains(
                (#[trigger] services[i].1.depends_on.rows()[j]).0@,
            )),
        first_ready(services, placed, i) <==> ready(services, placed, i) && !(exists|j: int|
            0 <= j < i && ready(services, placed, j)),
{
}

/// The next service is the first that is ready, and there is no order where none is.
pub proof fn law_services_start_as_soon_as_they_can(
    services: Seq<(String, LockedService)>,
    placed: Seq<Seq<char>>,
    i: int,
)
    ensures
        placed.len() >= services.len() ==> startup(services, placed) == Some(placed),
        placed.len() < services.len() && first_ready(services, placed, i) ==> startup(
            services,
            placed,
        ) == startup(services, placed.push(services[i].0@)),
        placed.len() < services.len() && (forall|k: int| !ready(services, placed, k)) ==> startup(
            services,
            placed,
        ) is None,
        order_failure(services) is None <==> startup(services, Seq::empty()) is Some,
{
    if placed.len() < services.len() && first_ready(services, placed, i) {
        let other = choose|i: int| first_ready(services, placed, i);
        assert(first_ready(services, placed, other));
        if other < i {
            assert(!ready(services, placed, other));
        }
        if i < other {
            assert(!ready(services, placed, i));
        }
    }
}

} // verus!
