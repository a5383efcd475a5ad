//! Service lifecycle ordering: the dependency DAG of the supervisor.
//!
//! A supervisor prepares its services in dependency order (dependencies first)
//! and cleans them up in the reverse order. The order is Kahn's algorithm with a
//! FIFO queue seeded in registration order, so it is deterministic. Ordering
//! fails on a duplicate id, on a dependency that names no registered service, or
//! on a dependency cycle.
use vstd::prelude::*;
use crate::args::{debug_quoted, quote_debug};

verus! {

/// What the supervisor knows of one registered service: its unique id and the
/// ids of the services it depends on.
pub struct ServiceNode {
    pub id: String,
    pub deps: Vec<String>,
}

/// Why a set of services cannot be ordered.
pub enum ServiceGraphError {
    /// Two services share this id (reported at its second registration).
    DuplicateId(String),
    /// `service` depends on `dep`, which no registered service has as id.
    UnknownDependency { service: String, dep: String },
    /// The ids of the services that cannot be ordered, in registration order:
    /// each of them depends, directly or transitively, on a dependency cycle.
    Cycle(Vec<String>),
}

/// The `{:?}` rendering of a list of strings: each quoted, separated by `, `.
pub open spec fn debug_items(items: Seq<Seq<char>>) -> Seq<char>
    decreases items.len(),
{
    if items.len() == 0 {
        Seq::empty()
    } else if items.len() == 1 {
        debug_quoted(items[0])
    } else {
        debug_items(items.drop_last()) + ", "@ + debug_quoted(items.last())
    }
}

/// The human-readable text of a service graph error.
pub open spec fn graph_error_text(e: ServiceGraphError) -> Seq<char> {
    match e {
        ServiceGraphError::DuplicateId(id) => "duplicate service id `"@ + id@ + "`"@,
        ServiceGraphError::UnknownDependency { service, dep } => "service `"@ + service@
            + "` depends on unknown service `"@ + dep@ + "`"@,
        ServiceGraphError::Cycle(ids) => "dependency cycle among services: ["@ + debug_items(
            ids@.map_values(|n: String| n@),
        ) + "]"@,
    }
}

impl ServiceGraphError {
    /// The human-readable text of this error.
    pub fn message(&self) -> (r: String)
        ensures
            r@ == graph_error_text(*self),
    {
        match self {
            ServiceGraphError::DuplicateId(id) => {
                let mut s = String::from_str("duplicate service id `");
                s.append(id);
                s.append("`");
                s
            },
            ServiceGraphError::UnknownDependency { service, dep } => {
                let mut s = String::from_str("service `");
                s.append(service);
                s.append("` depends on unknown service `");
                s.append(dep);
                s.append("`");
                s
            },
            ServiceGraphError::Cycle(ids) => {
                let ghost items = ids@.map_values(|n: String| n@);
                let mut s = String::from_str("dependency cycle among services: [");
                let ghost start = s@;
                let mut k: usize = 0;
                while k < ids.len()
                    invariant
                        k <= ids@.len(),
                        items == ids@.map_values(|n: String| n@),
                        s@ == start + debug_items(items.subrange(0, k as int)),
                    decreases ids@.len() - k,
                {
                    let q = quote_debug(ids[k].as_str());
                    proof {
                        let pre = items.subrange(0, k as int);
                        let next = items.subrange(0, k + 1);
                        assert(next.drop_last() =~= pre);
                        assert(next.last() == ids@[k as int]@);
                    }
                    if k > 0 {
                        s.append(", ");
                    } else {
                        assert(items.subrange(0, 0) =~= Seq::<Seq<char>>::empty());
                    }
                    s.append(q.as_str());
                    proof {
                        let pre = items.subrange(0, k as int);
                        let next = items.subrange(0, k + 1);
                        if k > 0 {
                            assert(s@ =~= start + (debug_items(pre) + ", "@ + debug_quoted(next.last())));
                        } else {
                            assert(s@ =~= start + debug_items(next));
                        }
                    }
                    k = k + 1;
                }
                assert(items.subrange(0, ids@.len() as int) =~= items);
                s.append("]");
                s
            },
        }
    }
}

/// The id of service `i`.
pub open spec fn sid(s: Seq<ServiceNode>, i: int) -> Seq<char> {
    s[i].id@
}

/// The `k`-th dependency name of service `i`.
pub open spec fn sdep(s: Seq<ServiceNode>, i: int, k: int) -> Seq<char> {
    s[i].deps@[k]@
}

/// Service `j` repeats the id of an earlier service.
pub open spec fn repeats_earlier(s: Seq<ServiceNode>, j: int) -> bool {
    exists|i: int| 0 <= i < j && sid(s, i) == sid(s, j)
}

/// All service ids are distinct.
pub open spec fn ids_distinct(s: Seq<ServiceNode>) -> bool {
    forall|i: int, j: int| 0 <= i < j < s.len() ==> sid(s, i) != sid(s, j)
}

/// Some registered service has the id `name`.
pub open spec fn id_known(s: Seq<ServiceNode>, name: Seq<char>) -> bool {
    exists|d: int| 0 <= d < s.len() && sid(s, d) == name
}

/// Dependency `k` of service `i` names no registered service.
pub open spec fn dep_unknown(s: Seq<ServiceNode>, i: int, k: int) -> bool {
    0 <= i < s.len() && 0 <= k < s[i].deps@.len() && !id_known(s, sdep(s, i, k))
}

/// Every dependency names a registered service.
pub open spec fn deps_known(s: Seq<ServiceNode>) -> bool {
    forall|i: int, k: int|
        0 <= i < s.len() && 0 <= k < s[i].deps@.len() ==> id_known(s, #[trigger] sdep(s, i, k))
}

/// `(i, k)` is the first unknown dependency in registration order, then declaration order.
pub open spec fn first_unknown(s: Seq<ServiceNode>, i: int, k: int) -> bool {
    &&& dep_unknown(s, i, k)
    &&& forall|i2: int, k2: int| 0 <= i2 < i && 0 <= k2 < s[i2].deps@.len() ==> !dep_unknown(s, i2, k2)
    &&& forall|k2: int| 0 <= k2 < k ==> !dep_unknown(s, i, k2)
}

/// `order` lists each service index below `n` exactly once.
pub open spec fn is_permutation(order: Seq<usize>, n: nat) -> bool {
    &&& order.len() == n
    &&& forall|a: int| 0 <= a < order.len() ==> order[a] < n
    &&& forall|a: int, b: int| 0 <= a < b < order.len() ==> order[a] != order[b]
}

/// In `order`, dependency `k` of the service at position `a` is met at an earlier position.
pub open spec fn dep_before(s: Seq<ServiceNode>, order: Seq<usize>, a: int, k: int) -> bool {
    exists|b: int| 0 <= b < a && sid(s, order[b] as int) == sdep(s, order[a] as int, k)
}

/// In `order`, every dependency of the service at position `a` stands at an earlier position.
pub open spec fn deps_come_first(s: Seq<ServiceNode>, order: Seq<usize>) -> bool {
    forall|a: int, k: int|
        0 <= a < order.len() && 0 <= k < s[order[a] as int].deps@.len() ==> #[trigger] dep_before(
            s,
            order,
            a,
            k,
        )
}

/// `order` is a valid prepare order: a permutation of all services, dependencies first.
pub open spec fn is_topological_order(s: Seq<ServiceNode>, order: Seq<usize>) -> bool {
    is_permutation(order, s.len()) && deps_come_first(s, order)
}

/// `order` lists service indices, each after all of its dependencies (a prefix
/// of some prepare order).
pub open spec fn settles(s: Seq<ServiceNode>, order: Seq<usize>) -> bool {
    &&& forall|a: int| 0 <= a < order.len() ==> order[a] < s.len()
    &&& deps_come_first(s, order)
}

/// Service `i` can be placed: some sequence in which every service comes after
/// its dependencies contains it. Exactly the services that do not depend,
/// directly or transitively, on a dependency cycle.
pub open spec fn grounded(s: Seq<ServiceNode>, i: int) -> bool {
    exists|order: Seq<usize>| settles(s, order) && #[trigger] order.contains(i as usize)
}

/// The ids, in registration order, of the services among the first `n` that are not grounded.
pub open spec fn ungrounded_ids(s: Seq<ServiceNode>, n: int) -> Seq<Seq<char>>
    decreases n,
{
    if n <= 0 {
        Seq::empty()
    } else if grounded(s, n - 1) {
        ungrounded_ids(s, n - 1)
    } else {
        ungrounded_ids(s, n - 1).push(sid(s, n - 1))
    }
}

/// A prepare order exists only when every service is grounded.
pub proof fn lemma_topo_implies_all_grounded(s: Seq<ServiceNode>, order: Seq<usize>, i: int)
    requires
        is_topological_order(s, order),
        s.len() <= usize::MAX,
        0 <= i < s.len(),
    ensures
        grounded(s, i),
{
    // A permutation of 0..n hits every index.
    let n = s.len();
    assert(exists|a: int| 0 <= a < order.len() && order[a] == i) by {
        lemma_perm_covers(order, n, i as usize);
    }
    assert(settles(s, order));
    assert(order.contains(i as usize));
}

/// A permutation of `0..n` contains every index below `n`.
pub proof fn lemma_perm_covers(order: Seq<usize>, n: nat, x: usize)
    requires
        is_permutation(order, n),
        n <= usize::MAX,
        x < n,
    ensures
        exists|a: int| 0 <= a < order.len() && order[a] == x,
{
    // Pigeonhole: the set of values is a subset of 0..n of size n.
    let vals = order.to_set();
    order.unique_seq_to_set();
    assert(order.no_duplicates()) by {
        assert forall|a: int, b: int| 0 <= a < order.len() && 0 <= b < order.len() && a != b implies order[a]
            != order[b] by {
            if a < b {
            } else {
            }
        }
    }
    let full = Set::new(|v: usize| v < n);
    assert(vals.subset_of(full));
    lemma_small_range_set_len(n);
    if !vals.contains(x) {
        assert(vals.subset_of(full.remove(x)));
        vstd::set_lib::lemma_len_subset(vals, full.remove(x));
    }
}

/// The set of `usize` values below `n` is finite with `n` elements.
pub proof fn lemma_small_range_set_len(n: nat)
    requires
        n <= usize::MAX,
    ensures
        Set::new(|v: usize| v < n).finite(),
        Set::new(|v: usize| v < n).len() == n,
    decreases n,
{
    if n == 0 {
        assert(Set::new(|v: usize| v < n) =~= Set::<usize>::empty());
    } else {
        lemma_small_range_set_len((n - 1) as nat);
        let prev = Set::new(|v: usize| v < (n - 1) as nat);
        assert(Set::new(|v: usize| v < n) =~= prev.insert((n - 1) as usize));
    }
}


/// Service `x` lists the id of service `d` among its dependencies.
pub open spec fn depends_on(s: Seq<ServiceNode>, x: int, d: int) -> bool {
    exists|k: int| 0 <= k < s[x].deps@.len() && sdep(s, x, k) == sid(s, d)
}

/// The last position below `b` in `order` that holds a dependency of service
/// `x`, or -1 where none does.
pub open spec fn last_dep_below(s: Seq<ServiceNode>, order: Seq<usize>, x: int, b: int) -> int
    decreases b,
{
    if b <= 0 {
        -1
    } else if depends_on(s, x, order[b - 1] as int) {
        b - 1
    } else {
        last_dep_below(s, order, x, b - 1)
    }
}

/// The position in `order` at which the service at position `p` is released:
/// that of the last of its dependencies, or -1 for a service without any.
pub open spec fn release_pos(s: Seq<ServiceNode>, order: Seq<usize>, p: int) -> int {
    last_dep_below(s, order, order[p] as int, p)
}

/// `order` takes services first-in first-out: a service is queued as soon as
/// the last of its dependencies is taken, services without dependencies first,
/// and services released by the same dependency in registration order.
pub open spec fn fifo_order(s: Seq<ServiceNode>, order: Seq<usize>) -> bool {
    forall|p1: int, p2: int|
        0 <= p1 < p2 < order.len() ==> release_pos(s, order, p1) < release_pos(s, order, p2) || (
        release_pos(s, order, p1) == release_pos(s, order, p2) && order[p1] < order[p2])
}

/// Positions at or past the end of `order` do not change `last_dep_below`.
proof fn lemma_last_dep_push(s: Seq<ServiceNode>, order: Seq<usize>, v: usize, x: int, b: int)
    requires
        b <= order.len(),
    ensures
        last_dep_below(s, order.push(v), x, b) == last_dep_below(s, order, x, b),
    decreases b,
{
    if b > 0 {
        assert(order.push(v)[b - 1] == order[b - 1]);
        lemma_last_dep_push(s, order, v, x, b - 1);
    }
}

/// Where position `c` holds a dependency of `x` and no position between `c`
/// and `b` does, `last_dep_below` is `c`.
proof fn lemma_last_dep_at(s: Seq<ServiceNode>, order: Seq<usize>, x: int, b: int, c: int)
    requires
        0 <= c < b <= order.len(),
        depends_on(s, x, order[c] as int),
        forall|c2: int| c < c2 < b ==> !depends_on(s, x, #[trigger] order[c2] as int),
    ensures
        last_dep_below(s, order, x, b) == c,
    decreases b,
{
    if b - 1 > c {
        assert(!depends_on(s, x, order[b - 1] as int));
        lemma_last_dep_at(s, order, x, b - 1, c);
    }
}

/// A service without dependencies has release position -1.
proof fn lemma_last_dep_none(s: Seq<ServiceNode>, order: Seq<usize>, x: int, b: int)
    requires
        s[x].deps@.len() == 0,
    ensures
        last_dep_below(s, order, x, b) == -1,
    decreases b,
{
    if b > 0 {
        lemma_last_dep_none(s, order, x, b - 1);
    }
}

/// With distinct ids, `x` depends on `d` exactly when its resolved row holds `d`.
proof fn lemma_depends_row(s: Seq<ServiceNode>, g: Seq<Seq<usize>>, x: int, d: usize)
    requires
        ids_distinct(s),
        resolved_graph(s, g),
        0 <= x < s.len(),
        d < s.len(),
    ensures
        depends_on(s, x, d as int) <==> g[x].contains(d),
{
    if depends_on(s, x, d as int) {
        let k = choose|k: int| 0 <= k < s[x].deps@.len() && sdep(s, x, k) == sid(s, d as int);
        assert(resolves(s, x, k, g[x][k] as int));
        let e = g[x][k] as int;
        if e != d {
            if e < d {
                assert(sid(s, e) != sid(s, d as int));
            } else {
                assert(sid(s, d as int) != sid(s, e));
            }
        }
        assert(g[x][k] == d);
    }
    if g[x].contains(d) {
        let k = choose|k: int| 0 <= k < g[x].len() && g[x][k] == d;
        assert(resolves(s, x, k, g[x][k] as int));
        assert(sdep(s, x, k) == sid(s, d as int));
    }
}

/// In queue `q`, dependency `k` of the service at position `p` was taken at an earlier position.
pub open spec fn taken_before(g: Seq<Seq<usize>>, q: Seq<usize>, p: int, k: int) -> bool {
    exists|b: int| 0 <= b < p && q[b] == g[q[p] as int][k]
}

/// Service `m` still waits on some dependency that is not done.
pub open spec fn waits(g: Seq<Seq<usize>>, done: Seq<bool>, m: int) -> bool {
    exists|k: int| 0 <= k < g[m].len() && !done[g[m][k] as int]
}

/// A duplicate-free sequence of indices below `n` that is shorter than `n` misses one.
proof fn lemma_short_misses(q: Seq<usize>, n: nat)
    requires
        n <= usize::MAX,
        q.len() < n,
        forall|a: int| 0 <= a < q.len() ==> q[a] < n,
        forall|a: int, b: int| 0 <= a < b < q.len() ==> q[a] != q[b],
    ensures
        exists|x: usize| x < n && !q.contains(x),
{
    assert(q.no_duplicates()) by {
        assert forall|a: int, b: int| 0 <= a < q.len() && 0 <= b < q.len() && a != b implies q[a]
            != q[b] by {
            if a < b {
            } else {
            }
        }
    }
    q.unique_seq_to_set();
    let full = Set::new(|v: usize| v < n);
    lemma_small_range_set_len(n);
    if forall|x: usize| x < n ==> q.contains(x) {
        assert(full.subset_of(q.to_set()));
        vstd::set_lib::lemma_len_subset(full, q.to_set());
    }
}

/// In a sequence where each service follows its dependencies, every service is
/// done, when every service that is not done waits on one that is not done.
proof fn lemma_settled_all_done(
    s: Seq<ServiceNode>,
    g: Seq<Seq<usize>>,
    done: Seq<bool>,
    order: Seq<usize>,
    a: int,
)
    requires
        ids_distinct(s),
        resolved_graph(s, g),
        done.len() == s.len(),
        forall|x: int| 0 <= x < s.len() && !done[x] ==> #[trigger] waits(g, done, x),
        settles(s, order),
        0 <= a < order.len(),
    ensures
        done[order[a] as int],
    decreases a,
{
    let x = order[a] as int;
    if !done[x] {
        assert(waits(g, done, x));
        let k = choose|k: int| 0 <= k < g[x].len() && !done[g[x][k] as int];
        assert(resolves(s, x, k, g[x][k] as int));
        assert(dep_before(s, order, a, k));
        let b = choose|b: int| 0 <= b < a && sid(s, order[b] as int) == sdep(s, order[a] as int, k);
        lemma_settled_all_done(s, g, done, order, b);
        let d1 = order[b] as int;
        let d2 = g[x][k] as int;
        if d1 != d2 {
            if d1 < d2 {
                assert(sid(s, d1) != sid(s, d2));
            } else {
                assert(sid(s, d2) != sid(s, d1));
            }
        }
    }
}

proof fn lemma_not_grounded(
    s: Seq<ServiceNode>,
    g: Seq<Seq<usize>>,
    done: Seq<bool>,
    m: int,
)
    requires
        ids_distinct(s),
        resolved_graph(s, g),
        s.len() <= usize::MAX,
        done.len() == s.len(),
        forall|x: int| 0 <= x < s.len() && !done[x] ==> #[trigger] waits(g, done, x),
        0 <= m < s.len(),
        !done[m],
    ensures
        !grounded(s, m),
{
    if grounded(s, m) {
        let order = choose|order: Seq<usize>| settles(s, order) && #[trigger] order.contains(m as usize);
        let a = choose|a: int| 0 <= a < order.len() && order[a] == m as usize;
        lemma_settled_all_done(s, g, done, order, a);
    }
}

/// Pushing `v` onto `q` adds exactly `v`.
proof fn lemma_push_contains(q: Seq<usize>, v: usize, x: usize)
    ensures
        q.push(v).contains(x) <==> (q.contains(x) || x == v),
{
    if q.contains(x) {
        let a = choose|a: int| 0 <= a < q.len() && q[a] == x;
        assert(q.push(v)[a] == x);
    }
    if x == v {
        assert(q.push(v)[q.len() as int] == x);
    }
    if q.push(v).contains(x) {
        let a = choose|a: int| 0 <= a < q.len() + 1 && q.push(v)[a] == x;
        if a < q.len() {
            assert(q[a] == x);
        }
    }
}

/// A duplicate-free sequence of indices below `n` has at most `n` elements.
proof fn lemma_distinct_len_bound(q: Seq<usize>, n: nat)
    requires
        n <= usize::MAX,
        forall|a: int| 0 <= a < q.len() ==> q[a] < n,
        forall|a: int, b: int| 0 <= a < b < q.len() ==> q[a] != q[b],
    ensures
        q.len() <= n,
{
    assert(q.no_duplicates()) by {
        assert forall|a: int, b: int| 0 <= a < q.len() && 0 <= b < q.len() && a != b implies q[a]
            != q[b] by {
            if a < b {
            } else {
            }
        }
    }
    q.unique_seq_to_set();
    let full = Set::new(|v: usize| v < n);
    lemma_small_range_set_len(n);
    assert(q.to_set().subset_of(full));
    vstd::set_lib::lemma_len_subset(q.to_set(), full);
}

/// Kahn's algorithm on resolved dependency indices.
fn kahn(services: &Vec<ServiceNode>, g: &Vec<Vec<usize>>) -> (res: Result<
    Vec<usize>,
    ServiceGraphError,
>)
    requires
        ids_distinct(services@),
        deps_known(services@),
        resolved_graph(services@, g@.map_values(|r: Vec<usize>| r@)),
    ensures
        match res {
            Ok(order) => is_topological_order(services@, order@) && fifo_order(services@, order@),
            Err(ServiceGraphError::Cycle(names)) => {
                &&& names@.len() > 0
                &&& names@.map_values(|n: String| n@) == ungrounded_ids(
                    services@,
                    services@.len() as int,
                )
                &&& forall|order: Seq<usize>| !is_topological_order(services@, order)
            },
            Err(_) => false,
        },
{
    let ghost s = services@;
    let ghost gv: Seq<Seq<usize>> = g@.map_values(|r: Vec<usize>| r@);
    let n = services.len();
    let mut done: Vec<bool> = Vec::new();
    let mut enq: Vec<bool> = Vec::new();
    let mut queue: Vec<usize> = Vec::new();
    let mut i: usize = 0;
    // Seed the queue with the services that have no dependencies, in registration order.
    while i < n
        invariant
            n == s.len(),
            s == services@,
            gv == g@.map_values(|r: Vec<usize>| r@),
            resolved_graph(s, gv),
            i <= n,
            done@.len() == i,
            enq@.len() == i,
            forall|x: int| 0 <= x < i ==> !done@[x],
            forall|a: int| 0 <= a < queue@.len() ==> queue@[a] < i,
            forall|a: int, b: int| 0 <= a < b < queue@.len() ==> queue@[a] != queue@[b],
            forall|x: int| 0 <= x < i ==> (enq@[x] <==> queue@.contains(x as usize)),
            forall|x: int| 0 <= x < i ==> (enq@[x] <==> gv[x].len() == 0),
            forall|p: int| 0 <= p < queue@.len() ==> gv[queue@[p] as int].len() == 0,
            forall|a: int, b: int| 0 <= a < b < queue@.len() ==> queue@[a] < queue@[b],
            forall|p: int| 0 <= p < queue@.len() ==> release_pos(s, queue@, p) == -1,
        decreases n - i,
    {
        done.push(false);
        assert(g@[i as int]@ == gv[i as int]);
        if g[i].len() == 0 {
            enq.push(true);
            proof {
                assert forall|x: int| 0 <= x <= i implies #[trigger] queue@.push(i).contains(x as usize) == (x
                    == i || queue@.contains(x as usize)) by {
                    lemma_push_contains(queue@, i, x as usize);
                }
                assert forall|p: int| 0 <= p < queue@.len() + 1 implies release_pos(s, queue@.push(i), p)
                    == -1 by {
                    if p < queue@.len() {
                        lemma_last_dep_push(s, queue@, i, queue@[p] as int, p);
                        assert(queue@.push(i)[p] == queue@[p]);
                        assert(release_pos(s, queue@, p) == -1);
                    } else {
                        assert(gv[i as int].len() == s[i as int].deps@.len());
                        assert(queue@.push(i)[p] == i);
                        lemma_last_dep_none(s, queue@.push(i), i as int, p);
                    }
                }
            }
            queue.push(i);
        } else {
            enq.push(false);
            assert(!queue@.contains(i)) by {
                if queue@.contains(i) {
                    let a = choose|a: int| 0 <= a < queue@.len() && queue@[a] == i;
                }
            }
        }
        i = i + 1;
    }
    proof {
        lemma_distinct_len_bound(queue@, n as nat);
        assert forall|x: int| 0 <= x < n && !enq@[x] implies #[trigger] waits(gv, done@, x) by {
            assert(resolves(s, x, 0, gv[x][0] as int));
        }
        assert forall|p: int, k: int|
            0 <= p < queue@.len() && 0 <= k < gv[queue@[p] as int].len() implies #[trigger] taken_before(
            gv,
            queue@,
            p,
            k,
        ) by {}
        assert(fifo_order(s, queue@));
    }
    let mut head: usize = 0;
    while head < queue.len()
        invariant
            n == s.len(),
            s == services@,
            n <= usize::MAX,
            gv == g@.map_values(|r: Vec<usize>| r@),
            ids_distinct(s),
            resolved_graph(s, gv),
            done@.len() == n,
            enq@.len() == n,
            head <= queue@.len() <= n,
            forall|a: int| 0 <= a < queue@.len() ==> queue@[a] < n,
            forall|a: int, b: int| 0 <= a < b < queue@.len() ==> queue@[a] != queue@[b],
            forall|x: int| 0 <= x < n ==> (enq@[x] <==> queue@.contains(x as usize)),
            forall|x: int|
                0 <= x < n ==> (done@[x] <==> exists|p: int| 0 <= p < head && queue@[p] == x),
            forall|p: int, k: int|
                0 <= p < queue@.len() && 0 <= k < gv[queue@[p] as int].len() ==> #[trigger] taken_before(
                    gv,
                    queue@,
                    p,
                    k,
                ),
            forall|x: int| 0 <= x < n && !enq@[x] ==> #[trigger] waits(gv, done@, x),
            forall|p: int| 0 <= p < queue@.len() ==> release_pos(s, queue@, p) < head,
            fifo_order(s, queue@),
        decreases n - head,
    {
        let node = queue[head];
        let ghost old_done = done@;
        let ghost old_len = queue@.len();
        done.set(node, true);
        head = head + 1;
        proof {
            assert forall|x: int| 0 <= x < n implies (done@[x] <==> exists|p: int|
                0 <= p < head && queue@[p] == x) by {
                if x == node as int {
                    assert(queue@[head - 1] == node);
                } else if old_done[x] {
                    let p = choose|p: int| 0 <= p < head - 1 && queue@[p] == x;
                } else if exists|p: int| 0 <= p < head && queue@[p] == x {
                    let p = choose|p: int| 0 <= p < head && queue@[p] == x;
                    assert(p == head - 1);
                }
            }
            assert forall|x: int| 0 <= x < n && !enq@[x] implies #[trigger] waits(gv, done@, x) || (
            0 <= x && gv[x].contains(node)) by {
                assert(waits(gv, old_done, x));
                let k = choose|k: int| 0 <= k < gv[x].len() && !old_done[gv[x][k] as int];
                if gv[x][k] == node {
                    assert(gv[x].contains(node));
                } else {
                    assert(!done@[gv[x][k] as int]);
                }
            }
        }
        let ghost q0 = queue@;
        let mut m: usize = 0;
        while m < n
            invariant
                q0.len() == old_len,
                forall|p: int| 0 <= p < old_len ==> queue@[p] == q0[p],
                n == s.len(),
                s == services@,
                n <= usize::MAX,
                gv == g@.map_values(|r: Vec<usize>| r@),
                ids_distinct(s),
                resolved_graph(s, gv),
                node < n,
                done@.len() == n,
                enq@.len() == n,
                m <= n,
                0 < head <= old_len <= queue@.len() <= n,
                forall|a: int| 0 <= a < queue@.len() ==> queue@[a] < n,
                forall|a: int, b: int| 0 <= a < b < queue@.len() ==> queue@[a] != queue@[b],
                forall|x: int| 0 <= x < n ==> (enq@[x] <==> queue@.contains(x as usize)),
                forall|x: int|
                    0 <= x < n ==> (done@[x] <==> exists|p: int| 0 <= p < head && queue@[p] == x),
                forall|p: int, k: int|
                    0 <= p < queue@.len() && 0 <= k < gv[queue@[p] as int].len()
                        ==> #[trigger] taken_before(gv, queue@, p, k),
                forall|x: int|
                    0 <= x < n && !enq@[x] ==> #[trigger] waits(gv, done@, x) || (m <= x
                        && gv[x].contains(node)),
                queue@[head - 1] == node,
                forall|p: int| 0 <= p < old_len ==> release_pos(s, queue@, p) < head - 1,
                forall|p: int|
                    old_len <= p < queue@.len() ==> #[trigger] release_pos(s, queue@, p) == head - 1,
                forall|p: int| old_len <= p < queue@.len() ==> #[trigger] queue@[p] < m,
                fifo_order(s, queue@),
            decreases n - m,
        {
            assert(g@[m as int]@ == gv[m as int]);
            assert forall|k: int| 0 <= k < g@[m as int]@.len() implies g@[m as int]@[k] < done@.len() by {
                assert(resolves(s, m as int, k, gv[m as int][k] as int));
            }
            if !enq[m] && holds(&g[m], node) && all_done(&g[m], &done) {
                proof {
                    let pos = queue@.len() as int;
                    assert forall|k: int| 0 <= k < gv[m as int].len() implies #[trigger] taken_before(
                        gv,
                        queue@.push(m),
                        pos,
                        k,
                    ) by {
                        let x = gv[m as int][k] as int;
                        assert(done@[x]);
                        let p = choose|p: int| 0 <= p < head && queue@[p] == x;
                        assert(queue@.push(m)[p] == x);
                    }
                    assert forall|p: int, k: int|
                        0 <= p < queue@.len() && 0 <= k < gv[queue@[p] as int].len() implies #[trigger] taken_before(
                        gv,
                        queue@.push(m),
                        p,
                        k,
                    ) by {
                        assert(taken_before(gv, queue@, p, k));
                        let b = choose|b: int| 0 <= b < p && queue@[b] == gv[queue@[p] as int][k];
                        assert(queue@.push(m)[b] == queue@[b]);
                    }
                    assert forall|x: int| 0 <= x < n implies #[trigger] queue@.push(m).contains(x as usize) == (
                    x == m || queue@.contains(x as usize)) by {
                        lemma_push_contains(queue@, m, x as usize);
                    }
                    assert(!queue@.contains(m));
                    assert forall|a: int, b: int| 0 <= a < b < queue@.len() + 1 implies queue@.push(
                        m,
                    )[a] != queue@.push(m)[b] by {
                        if b == queue@.len() {
                            assert(queue@[a] != m);
                        }
                    }
                    lemma_distinct_len_bound(queue@.push(m), n as nat);
                    let q1 = queue@.push(m);
                    assert forall|p: int| 0 <= p < pos implies release_pos(s, q1, p) == release_pos(
                        s,
                        queue@,
                        p,
                    ) by {
                        lemma_last_dep_push(s, queue@, m, queue@[p] as int, p);
                        assert(q1[p] == queue@[p]);
                    }
                    lemma_depends_row(s, gv, m as int, node);
                    assert forall|c2: int| head - 1 < c2 < pos implies !depends_on(
                        s,
                        m as int,
                        #[trigger] q1[c2] as int,
                    ) by {
                        let y = q1[c2];
                        assert(y == queue@[c2]);
                        lemma_depends_row(s, gv, m as int, y);
                        if depends_on(s, m as int, y as int) {
                            let k = choose|k: int| 0 <= k < gv[m as int].len() && gv[m as int][k] == y;
                            assert(done@[y as int]);
                            let p = choose|p: int| 0 <= p < head && queue@[p] == y;
                        }
                    }
                    lemma_last_dep_at(s, q1, m as int, pos, head - 1);
                    assert(release_pos(s, q1, pos) == head - 1);
                    assert forall|p: int| old_len <= p < q1.len() implies release_pos(s, q1, p) == head - 1
                        && q1[p] < m + 1 by {
                        if p < pos {
                            assert(q1[p] == queue@[p]);
                            assert(release_pos(s, queue@, p) == release_pos(s, q1, p));
                        }
                    }
                    assert forall|x: int| 0 <= x < n implies (done@[x] <==> exists|p: int|
                        0 <= p < head && queue@.push(m)[p] == x) by {
                        if done@[x] {
                            let p = choose|p: int| 0 <= p < head && queue@[p] == x;
                            assert(queue@.push(m)[p] == x);
                        }
                        if exists|p: int| 0 <= p < head && queue@.push(m)[p] == x {
                            let p = choose|p: int| 0 <= p < head && queue@.push(m)[p] == x;
                            assert(queue@[p] == x);
                        }
                    }
                }
                queue.push(m);
                enq.set(m, true);
            }
            m = m + 1;
        }
    }
    // Every service that was ever queued has been taken.
    proof {
        assert forall|x: int| 0 <= x < n && !done@[x] implies #[trigger] waits(gv, done@, x) by {
            if enq@[x] {
                assert(queue@.contains(x as usize));
                let p = choose|p: int| 0 <= p < queue@.len() && queue@[p] == x as usize;
            }
        }
        assert(deps_come_first(s, queue@)) by {
            assert forall|a: int, k: int|
                0 <= a < queue@.len() && 0 <= k < s[queue@[a] as int].deps@.len() implies #[trigger] dep_before(
                s,
                queue@,
                a,
                k,
            ) by {
                assert(gv[queue@[a] as int].len() == s[queue@[a] as int].deps@.len());
                assert(taken_before(gv, queue@, a, k));
                let b = choose|b: int| 0 <= b < a && queue@[b] == gv[queue@[a] as int][k];
                assert(resolves(s, queue@[a] as int, k, gv[queue@[a] as int][k] as int));
            }
        }
    }
    if queue.len() == n {
        return Ok(queue);
    }
    // Some services were never released: list them in registration order.
    let mut names: Vec<String> = Vec::new();
    let mut x: usize = 0;
    while x < n
        invariant
            n == s.len(),
            s == services@,
            n <= usize::MAX,
            x <= n,
            gv == g@.map_values(|r: Vec<usize>| r@),
            ids_distinct(s),
            resolved_graph(s, gv),
            done@.len() == n,
            settles(s, queue@),
            forall|y: int| 0 <= y < n ==> (done@[y] <==> queue@.contains(y as usize)),
            forall|y: int| 0 <= y < n && !done@[y] ==> #[trigger] waits(gv, done@, y),
            names@.map_values(|nm: String| nm@) == ungrounded_ids(s, x as int),
        decreases n - x,
    {
        proof {
            if done@[x as int] {
                assert(grounded(s, x as int));
            } else {
                lemma_not_grounded(s, gv, done@, x as int);
            }
        }
        if !done[x] {
            names.push(services[x].id.clone());
            assert(names@.map_values(|nm: String| nm@) =~= ungrounded_ids(s, x as int).push(
                sid(s, x as int),
            ));
        } else {
            assert(ungrounded_ids(s, x + 1) == ungrounded_ids(s, x as int));
        }
        x = x + 1;
    }
    proof {
        lemma_short_misses(queue@, n as nat);
        let y = choose|y: usize| y < n && !queue@.contains(y);
        assert(!done@[y as int]);
        lemma_not_grounded(s, gv, done@, y as int);
        lemma_ungrounded_nonempty(s, y as int, n as int);
        assert forall|order: Seq<usize>| !is_topological_order(s, order) by {
            if is_topological_order(s, order) {
                lemma_topo_implies_all_grounded(s, order, y as int);
            }
        }
    }
    Err(ServiceGraphError::Cycle(names))
}

/// An ungrounded service below `n` makes the list of ungrounded ids nonempty.
proof fn lemma_ungrounded_nonempty(s: Seq<ServiceNode>, y: int, n: int)
    requires
        0 <= y < n,
        !grounded(s, y),
    ensures
        ungrounded_ids(s, n).len() > 0,
    decreases n,
{
    if y < n - 1 {
        lemma_ungrounded_nonempty(s, y, n - 1);
        if !grounded(s, n - 1) {
        }
    }
}

/// Whether `name` equals the id of some service; the index of the first such service.
fn find_service(services: &Vec<ServiceNode>, name: &String) -> (res: Option<usize>)
    ensures
        match res {
            Some(d) => d < services@.len() && sid(services@, d as int) == name@ && forall|x: int|
                0 <= x < d ==> sid(services@, x) != name@,
            None => !id_known(services@, name@),
        },
{
    let n = services.len();
    let mut d: usize = 0;
    while d < n
        invariant
            n == services@.len(),
            d <= n,
            forall|x: int| 0 <= x < d ==> sid(services@, x) != name@,
        decreases n - d,
    {
        if services[d].id == *name {
            return Some(d);
        }
        d = d + 1;
    }
    None
}

/// Whether every index in `deps` is marked done.
fn all_done(deps: &Vec<usize>, done: &Vec<bool>) -> (res: bool)
    requires
        forall|k: int| 0 <= k < deps@.len() ==> deps@[k] < done@.len(),
    ensures
        res == forall|k: int| 0 <= k < deps@.len() ==> done@[deps@[k] as int],
{
    let mut k: usize = 0;
    while k < deps.len()
        invariant
            k <= deps@.len(),
            forall|k2: int| 0 <= k2 < deps@.len() ==> deps@[k2] < done@.len(),
            forall|j: int| 0 <= j < k ==> done@[deps@[j] as int],
        decreases deps@.len() - k,
    {
        if !done[deps[k]] {
            return false;
        }
        k = k + 1;
    }
    true
}

/// Whether `deps` holds `x`.
fn holds(deps: &Vec<usize>, x: usize) -> (res: bool)
    ensures
        res == deps@.contains(x),
{
    let mut k: usize = 0;
    while k < deps.len()
        invariant
            k <= deps@.len(),
            forall|j: int| 0 <= j < k ==> deps@[j] != x,
        decreases deps@.len() - k,
    {
        if deps[k] == x {
            return true;
        }
        k = k + 1;
    }
    false
}

/// Index `d` resolves dependency `k` of service `i`.
pub open spec fn resolves(s: Seq<ServiceNode>, i: int, k: int, d: int) -> bool {
    0 <= d < s.len() && sid(s, d) == sdep(s, i, k)
}

/// `g` holds, for each service and each of its dependencies, the index that resolves it.
pub open spec fn resolved_graph(s: Seq<ServiceNode>, g: Seq<Seq<usize>>) -> bool {
    &&& g.len() == s.len()
    &&& forall|i: int| 0 <= i < s.len() ==> #[trigger] g[i].len() == s[i].deps@.len()
    &&& forall|i: int, k: int|
        0 <= i < s.len() && 0 <= k < s[i].deps@.len() ==> resolves(s, i, k, #[trigger] g[i][k] as int)
}

/// Orders services so that each comes after all of its dependencies (Kahn's
/// algorithm; ready services are taken first-in first-out, seeded in
/// registration order). Duplicate ids are checked first, then unknown
/// dependencies, then cycles.
pub fn toposort(services: &Vec<ServiceNode>) -> (res: Result<Vec<usize>, ServiceGraphError>)
    ensures
        match res {
            Ok(order) => {
                &&& ids_distinct(services@)
                &&& deps_known(services@)
                &&& is_topological_order(services@, order@)
                &&& fifo_order(services@, order@)
            },
            Err(ServiceGraphError::DuplicateId(id)) => {
                &&& !ids_distinct(services@)
                &&& exists|j: int|
                    0 <= j < services@.len() && repeats_earlier(services@, j) && (forall|j2: int|
                        0 <= j2 < j ==> !repeats_earlier(services@, j2)) && id@ == sid(services@, j)
            },
            Err(ServiceGraphError::UnknownDependency { service, dep }) => {
                &&& ids_distinct(services@)
                &&& exists|i: int, k: int|
                    first_unknown(services@, i, k) && service@ == sid(services@, i) && dep@ == sdep(
                        services@,
                        i,
                        k,
                    )
            },
            Err(ServiceGraphError::Cycle(names)) => {
                &&& ids_distinct(services@)
                &&& deps_known(services@)
                &&& names@.len() > 0
                &&& names@.map_values(|n: String| n@) == ungrounded_ids(
                    services@,
                    services@.len() as int,
                )
                &&& forall|order: Seq<usize>| !is_topological_order(services@, order)
            },
        },
{
    let n = services.len();
    // Duplicate ids: report the first registration that repeats an earlier id.
    let mut j: usize = 0;
    while j < n
        invariant
            n == services@.len(),
            j <= n,
            forall|j2: int, i2: int| 0 <= i2 < j2 < j ==> sid(services@, i2) != sid(services@, j2),
        decreases n - j,
    {
        let mut i: usize = 0;
        while i < j
            invariant
                n == services@.len(),
                i <= j < n,
                forall|j2: int, i2: int| 0 <= i2 < j2 < j ==> sid(services@, i2) != sid(services@, j2),
                forall|i2: int| 0 <= i2 < i ==> sid(services@, i2) != sid(services@, j as int),
            decreases j - i,
        {
            if services[i].id == services[j].id {
                proof {
                    assert(sid(services@, i as int) == sid(services@, j as int));
                    assert(repeats_earlier(services@, j as int));
                    assert forall|j2: int| 0 <= j2 < j implies !repeats_earlier(services@, j2) by {
                        if repeats_earlier(services@, j2) {
                            let i2 = choose|i2: int| 0 <= i2 < j2 && sid(services@, i2) == sid(services@, j2);
                            assert(sid(services@, i2) != sid(services@, j2));
                        }
                    }
                    assert(!ids_distinct(services@));
                }
                return Err(ServiceGraphError::DuplicateId(services[j].id.clone()));
            }
            i = i + 1;
        }
        j = j + 1;
    }
    assert(ids_distinct(services@));
    // Resolve every dependency name to an index; the first unknown one is an error.
    let mut g: Vec<Vec<usize>> = Vec::new();
    let mut i: usize = 0;
    while i < n
        invariant
            n == services@.len(),
            i <= n,
            ids_distinct(services@),
            g@.len() == i,
            forall|i2: int| 0 <= i2 < i ==> #[trigger] g@[i2]@.len() == services@[i2].deps@.len(),
            forall|i2: int, k: int|
                0 <= i2 < i && 0 <= k < services@[i2].deps@.len() ==> resolves(
                    services@,
                    i2,
                    k,
                    #[trigger] g@[i2]@[k] as int,
                ),
        decreases n - i,
    {
        let mut row: Vec<usize> = Vec::new();
        let mut k: usize = 0;
        let m = services[i].deps.len();
        while k < m
            invariant
                n == services@.len(),
                i < n,
                m == services@[i as int].deps@.len(),
                k <= m,
                ids_distinct(services@),
                row@.len() == k,
                forall|k2: int| 0 <= k2 < k ==> resolves(services@, i as int, k2, #[trigger] row@[k2] as int),
                forall|i2: int, k2: int|
                    0 <= i2 < i && 0 <= k2 < services@[i2].deps@.len() ==> resolves(
                        services@,
                        i2,
                        k2,
                        #[trigger] g@[i2]@[k2] as int,
                    ),
            decreases m - k,
        {
            match find_service(services, &services[i].deps[k]) {
                Some(d) => {
                    row.push(d);
                },
                None => {
                    proof {
                        assert(dep_unknown(services@, i as int, k as int));
                        assert forall|i2: int, k2: int|
                            0 <= i2 < i && 0 <= k2 < services@[i2].deps@.len() implies !dep_unknown(
                            services@,
                            i2,
                            k2,
                        ) by {
                            assert(resolves(services@, i2, k2, g@[i2]@[k2] as int));
                        }
                        assert forall|k2: int| 0 <= k2 < k implies !dep_unknown(
                            services@,
                            i as int,
                            k2,
                        ) by {
                            assert(resolves(services@, i as int, k2, row@[k2] as int));
                        }
                        assert(first_unknown(services@, i as int, k as int));
                    }
                    return Err(
                        ServiceGraphError::UnknownDependency {
                            service: services[i].id.clone(),
                            dep: services[i].deps[k].clone(),
                        },
                    );
                },
            }
            k = k + 1;
        }
        g.push(row);
        i = i + 1;
    }
    let ghost gv: Seq<Seq<usize>> = g@.map_values(|r: Vec<usize>| r@);
    assert(resolved_graph(services@, gv));
    assert(deps_known(services@)) by {
        assert forall|i2: int, k: int|
            0 <= i2 < services@.len() && 0 <= k < services@[i2].deps@.len() implies id_known(
            services@,
            #[trigger] sdep(services@, i2, k),
        ) by {
            assert(resolves(services@, i2, k, gv[i2][k] as int));
        }
    }
    kahn(services, &g)
}

/// `last_dep_below` looks only at positions below `b`.
proof fn lemma_last_dep_prefix(s: Seq<ServiceNode>, o1: Seq<usize>, o2: Seq<usize>, x: int, b: int)
    requires
        b <= o1.len(),
        b <= o2.len(),
        forall|c: int| 0 <= c < b ==> o1[c] == o2[c],
    ensures
        last_dep_below(s, o1, x, b) == last_dep_below(s, o2, x, b),
    decreases b,
{
    if b > 0 {
        lemma_last_dep_prefix(s, o1, o2, x, b - 1);
    }
}

/// Positions from `p` up to `b` that hold no dependency of `x` do not move `last_dep_below`.
proof fn lemma_last_dep_skip(s: Seq<ServiceNode>, o: Seq<usize>, x: int, p: int, b: int)
    requires
        0 <= p <= b <= o.len(),
        forall|c: int| p <= c < b ==> !depends_on(s, x, #[trigger] o[c] as int),
    ensures
        last_dep_below(s, o, x, b) == last_dep_below(s, o, x, p),
    decreases b,
{
    if b > p {
        assert(!depends_on(s, x, o[b - 1] as int));
        lemma_last_dep_skip(s, o, x, p, b - 1);
    }
}

/// A service at position `p` of one prepare order, and at position `q >= p` of
/// another that agrees with the first below `p`, has the same release position
/// in both.
proof fn lemma_release_moved(s: Seq<ServiceNode>, oa: Seq<usize>, ob: Seq<usize>, p: int, q: int)
    requires
        ids_distinct(s),
        is_topological_order(s, oa),
        is_permutation(ob, s.len()),
        0 <= p <= q < ob.len(),
        p < oa.len(),
        oa[p] == ob[q],
        forall|c: int| 0 <= c < p ==> oa[c] == ob[c],
    ensures
        release_pos(s, oa, p) == release_pos(s, ob, q),
{
    let x = oa[p] as int;
    assert forall|c: int| p <= c < q implies !depends_on(s, x, #[trigger] ob[c] as int) by {
        if depends_on(s, x, ob[c] as int) {
            let d = ob[c] as int;
            let k = choose|k: int| 0 <= k < s[x].deps@.len() && sdep(s, x, k) == sid(s, d);
            assert(dep_before(s, oa, p, k));
            let b = choose|b: int| 0 <= b < p && sid(s, oa[b] as int) == sdep(s, oa[p] as int, k);
            let e = oa[b] as int;
            if e != d {
                if e < d {
                    assert(sid(s, e) != sid(s, d));
                } else {
                    assert(sid(s, d) != sid(s, e));
                }
            }
            assert(ob[b] == ob[c]);
        }
    }
    lemma_last_dep_skip(s, ob, x, p, q);
    lemma_last_dep_prefix(s, oa, ob, x, p);
}

/// Two first-in first-out prepare orders that agree below `p` agree at `p`.
proof fn lemma_fifo_agree_at(s: Seq<ServiceNode>, o1: Seq<usize>, o2: Seq<usize>, p: int)
    requires
        s.len() <= usize::MAX,
        ids_distinct(s),
        is_topological_order(s, o1),
        fifo_order(s, o1),
        is_topological_order(s, o2),
        fifo_order(s, o2),
        0 <= p < s.len(),
        forall|c: int| 0 <= c < p ==> o1[c] == o2[c],
    ensures
        o1[p] == o2[p],
{
    let n = s.len();
    let x = o1[p];
    let y = o2[p];
    if x != y {
        lemma_perm_covers(o1, n, y);
        let p1 = choose|a: int| 0 <= a < o1.len() && o1[a] == y;
        lemma_perm_covers(o2, n, x);
        let q2 = choose|a: int| 0 <= a < o2.len() && o2[a] == x;
        if p1 < p {
            assert(o2[p1] == y);
        }
        if q2 < p {
            assert(o1[q2] == x);
        }
        lemma_release_moved(s, o1, o2, p, q2);
        lemma_release_moved(s, o2, o1, p, p1);
        assert(release_pos(s, o1, p) < release_pos(s, o1, p1) || (release_pos(s, o1, p)
            == release_pos(s, o1, p1) && o1[p] < o1[p1]));
        assert(release_pos(s, o2, p) < release_pos(s, o2, q2) || (release_pos(s, o2, p)
            == release_pos(s, o2, q2) && o2[p] < o2[q2]));
    }
}

/// Two first-in first-out prepare orders agree below `p`.
proof fn lemma_fifo_agree_below(s: Seq<ServiceNode>, o1: Seq<usize>, o2: Seq<usize>, p: int)
    requires
        s.len() <= usize::MAX,
        ids_distinct(s),
        is_topological_order(s, o1),
        fifo_order(s, o1),
        is_topological_order(s, o2),
        fifo_order(s, o2),
        0 <= p <= s.len(),
    ensures
        forall|c: int| 0 <= c < p ==> o1[c] == o2[c],
    decreases p,
{
    if p > 0 {
        lemma_fifo_agree_below(s, o1, o2, p - 1);
        lemma_fifo_agree_at(s, o1, o2, p - 1);
    }
}

/// The prepare order is deterministic: with distinct ids, at most one order
/// puts every service after its dependencies and takes services first-in
/// first-out, so the order `toposort` returns is the only one it may return.
pub proof fn law_fifo_order_unique(s: Seq<ServiceNode>, o1: Seq<usize>, o2: Seq<usize>)
    requires
        s.len() <= usize::MAX,
        ids_distinct(s),
        is_topological_order(s, o1),
        fifo_order(s, o1),
        is_topological_order(s, o2),
        fifo_order(s, o2),
    ensures
        o1 == o2,
{
    lemma_fifo_agree_below(s, o1, o2, s.len() as int);
    assert(o1 =~= o2);
}


} // verus!
