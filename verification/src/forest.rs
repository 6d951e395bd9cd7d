//! The tree of entities as a mathematical object: each entity's ordered list
//! of children, and when a map of `Hierarchy` records encodes it.

use vstd::prelude::*;

use crate::component::{Hierarchy, detached_hierarchy};

verus! {

/// The first element of a list, if any.
pub open spec fn first_of(s: Seq<u64>) -> Option<u64> {
    if s.len() == 0 {
        None
    } else {
        Some(s[0])
    }
}

/// The element before position `i`, if any.
pub open spec fn prev_in(s: Seq<u64>, i: int) -> Option<u64> {
    if i <= 0 {
        None
    } else {
        Some(s[i - 1])
    }
}

/// The element after position `i`, if any.
pub open spec fn next_in(s: Seq<u64>, i: int) -> Option<u64> {
    if i + 1 < s.len() {
        Some(s[i + 1])
    } else {
        None
    }
}

/// What the record of one entity `e` must say, given the children lists.
pub open spec fn entity_consistent(recs: Map<u64, Hierarchy>, kids: Map<u64, Seq<u64>>, e: u64) -> bool {
    &&& recs[e].num_children == kids[e].len()
    &&& recs[e].first_child_runtime_id == first_of(kids[e])
    &&& kids[e].no_duplicates()
    &&& recs[e].parent_runtime_id != Some(e)
    &&& (recs[e].parent_runtime_id matches Some(p) ==> recs.dom().contains(p) && kids[p].contains(e))
    &&& (recs[e].parent_runtime_id is None ==> recs[e].prev_sibling_runtime_id is None
        && recs[e].next_sibling_runtime_id is None)
}

/// What the record of the `i`-th child of `p` must say.
pub open spec fn child_consistent(recs: Map<u64, Hierarchy>, kids: Map<u64, Seq<u64>>, p: u64, i: int) -> bool {
    let c = kids[p][i];
    &&& recs.dom().contains(c)
    &&& recs[c].parent_runtime_id == Some(p)
    &&& recs[c].prev_sibling_runtime_id == prev_in(kids[p], i)
    &&& recs[c].next_sibling_runtime_id == next_in(kids[p], i)
}

/// The records `recs` encode the children lists `kids`: every entity's count
/// and first child agree with its list, every listed child points back at its
/// parent and at its neighbours in the list, every parent pointer is matched
/// by a listing, and an entity outside every list has no neighbours.
pub open spec fn forest_wf(recs: Map<u64, Hierarchy>, kids: Map<u64, Seq<u64>>) -> bool {
    &&& kids.dom() == recs.dom()
    &&& forall|e: u64| #[trigger] recs.dom().contains(e) ==> entity_consistent(recs, kids, e)
    &&& forall|p: u64, i: int|
        recs.dom().contains(p) && 0 <= i < kids[p].len() ==> #[trigger] child_consistent(recs, kids, p, i)
}

/// The records after `c` is put in front of the children of `p`, written in
/// the order the scene writes them: the former first child's record, then the
/// parent's, then the child's (each computed from the records before the step).
pub open spec fn add_child_records(recs: Map<u64, Hierarchy>, c: u64, p: u64) -> Map<u64, Hierarchy> {
    if recs.dom().contains(c) && recs.dom().contains(p) {
        let ph = recs[p];
        let ch = recs[c];
        let ph2 = Hierarchy { num_children: (ph.num_children + 1) as usize, first_child_runtime_id: Some(c), ..ph };
        match ph.first_child_runtime_id {
            None => recs.insert(p, ph2).insert(c, Hierarchy { parent_runtime_id: Some(p), ..ch }),
            Some(f) => {
                let recs1 = if recs.dom().contains(f) {
                    recs.insert(f, Hierarchy { prev_sibling_runtime_id: Some(c), ..recs[f] })
                } else {
                    recs
                };
                recs1.insert(p, ph2).insert(
                    c,
                    Hierarchy { parent_runtime_id: Some(p), next_sibling_runtime_id: Some(f), ..ch },
                )
            },
        }
    } else {
        recs
    }
}

/// The children lists after `c` is put in front of the children of `p`.
pub open spec fn add_child_kids(kids: Map<u64, Seq<u64>>, c: u64, p: u64) -> Map<u64, Seq<u64>> {
    kids.insert(p, seq![c] + kids[p])
}

/// An entity that is not in any list of children.
pub open spec fn is_detached(recs: Map<u64, Hierarchy>, c: u64) -> bool {
    recs[c].parent_runtime_id is None
}

/// A listed child points back at its parent, so a detached entity is listed nowhere.
pub proof fn lemma_detached_unlisted(recs: Map<u64, Hierarchy>, kids: Map<u64, Seq<u64>>, c: u64, q: u64)
    requires
        forest_wf(recs, kids),
        recs.dom().contains(c),
        recs.dom().contains(q),
        is_detached(recs, c),
    ensures
        !kids[q].contains(c),
{
    if kids[q].contains(c) {
        let i = choose|i: int| 0 <= i < kids[q].len() && kids[q][i] == c;
        assert(child_consistent(recs, kids, q, i));
    }
}

/// An entity is listed only under its parent.
pub proof fn lemma_listed_under_parent(recs: Map<u64, Hierarchy>, kids: Map<u64, Seq<u64>>, q: u64, i: int)
    requires
        forest_wf(recs, kids),
        recs.dom().contains(q),
        0 <= i < kids[q].len(),
    ensures
        recs.dom().contains(kids[q][i]),
        recs[kids[q][i]].parent_runtime_id == Some(q),
{
    assert(child_consistent(recs, kids, q, i));
}

/// Putting a detached entity `c` in front of the children of another entity
/// `p` keeps the records consistent with the children lists, where `p`'s list
/// gains `c` at its front and every other list is unchanged.
pub proof fn lemma_add_child_keeps_forest(recs: Map<u64, Hierarchy>, kids: Map<u64, Seq<u64>>, c: u64, p: u64)
    requires
        forest_wf(recs, kids),
        recs.dom().contains(c),
        recs.dom().contains(p),
        c != p,
        is_detached(recs, c),
        recs[p].num_children < usize::MAX,
    ensures
        forest_wf(add_child_records(recs, c, p), add_child_kids(kids, c, p)),
{
    let r2 = add_child_records(recs, c, p);
    let k2 = add_child_kids(kids, c, p);
    let old_list = kids[p];
    let new_list = seq![c] + old_list;
    assert(entity_consistent(recs, kids, p));
    assert(entity_consistent(recs, kids, c));
    lemma_detached_unlisted(recs, kids, c, p);
    assert(k2[p] == new_list);
    assert(r2.dom() == recs.dom());
    assert(k2.dom() == kids.dom());
    // the former first child, if any, is a child of p other than c and p
    if old_list.len() > 0 {
        lemma_listed_under_parent(recs, kids, p, 0);
        assert(old_list[0] != p);
        assert(old_list[0] != c);
    }
    assert(new_list.no_duplicates()) by {
        assert forall|i: int, j: int| 0 <= i < j < new_list.len() implies new_list[i] != new_list[j] by {
            if i == 0 {
                assert(old_list.contains(new_list[j]) ==> new_list[j] != c);
                assert(old_list[j - 1] == new_list[j]);
            } else {
                assert(new_list[i] == old_list[i - 1]);
                assert(new_list[j] == old_list[j - 1]);
            }
        }
    }
    assert forall|e: u64| #[trigger] r2.dom().contains(e) implies entity_consistent(r2, k2, e) by {
        assert(entity_consistent(recs, kids, e));
        if e == p {
        } else if e == c {
            assert(k2[p].contains(c)) by {
                assert(new_list[0] == c);
            }
        } else {
            assert(k2[e] == kids[e]);
            if let Some(q) = recs[e].parent_runtime_id {
                if q == p {
                    let j = choose|j: int| 0 <= j < old_list.len() && old_list[j] == e;
                    assert(new_list[j + 1] == e);
                }
            }
        }
    }
    assert forall|q: u64, i: int| r2.dom().contains(q) && 0 <= i < k2[q].len()
        implies #[trigger] child_consistent(r2, k2, q, i) by {
        if q == p {
            if i == 0 {
                assert(k2[q][i] == c);
            } else {
                assert(k2[q][i] == old_list[i - 1]);
                assert(child_consistent(recs, kids, p, i - 1));
                lemma_listed_under_parent(recs, kids, p, i - 1);
                assert(old_list[i - 1] != c);
                assert(old_list[i - 1] != p);
                if i >= 2 {
                    assert(old_list[i - 1] != old_list[0]);
                }
            }
        } else {
            assert(k2[q] == kids[q]);
            assert(child_consistent(recs, kids, q, i));
            let d = kids[q][i];
            lemma_detached_unlisted(recs, kids, c, q);
            assert(d != c);
            if old_list.len() > 0 {
                lemma_listed_under_parent(recs, kids, p, 0);
                assert(d != old_list[0]);
            }
        }
    }
}

/// Adding a fresh entity with a detached record keeps the records consistent,
/// the new entity having no children.
pub proof fn lemma_add_detached_keeps_forest(recs: Map<u64, Hierarchy>, kids: Map<u64, Seq<u64>>, e: u64)
    requires
        forest_wf(recs, kids),
        !recs.dom().contains(e),
    ensures
        forest_wf(recs.insert(e, detached_hierarchy()), kids.insert(e, Seq::<u64>::empty())),
{
    let r2 = recs.insert(e, detached_hierarchy());
    let k2 = kids.insert(e, Seq::<u64>::empty());
    assert forall|x: u64| #[trigger] r2.dom().contains(x) implies entity_consistent(r2, k2, x) by {
        if x != e {
            assert(entity_consistent(recs, kids, x));
        }
    }
    assert forall|q: u64, i: int| r2.dom().contains(q) && 0 <= i < k2[q].len()
        implies #[trigger] child_consistent(r2, k2, q, i) by {
        assert(child_consistent(recs, kids, q, i));
    }
}

/// The records after `c` is put behind the children of `p`, whose last child
/// (if any) is `last`; written in the order last child, parent, child.
pub open spec fn append_child_records(recs: Map<u64, Hierarchy>, c: u64, p: u64, last: Option<u64>) -> Map<u64, Hierarchy> {
    let ph = recs[p];
    let ch = recs[c];
    match last {
        None => recs.insert(
            p,
            Hierarchy { num_children: (ph.num_children + 1) as usize, first_child_runtime_id: Some(c), ..ph },
        ).insert(c, Hierarchy { parent_runtime_id: Some(p), ..ch }),
        Some(l) => recs.insert(l, Hierarchy { next_sibling_runtime_id: Some(c), ..recs[l] }).insert(
            p,
            Hierarchy { num_children: (ph.num_children + 1) as usize, ..ph },
        ).insert(c, Hierarchy { parent_runtime_id: Some(p), prev_sibling_runtime_id: Some(l), ..ch }),
    }
}

/// The last element of a list, if any.
pub open spec fn last_of(s: Seq<u64>) -> Option<u64> {
    if s.len() == 0 {
        None
    } else {
        Some(s[s.len() - 1])
    }
}

/// Putting a detached entity `c` behind the children of another entity `p`
/// keeps the records consistent with the children lists, where `p`'s list
/// gains `c` at its end and every other list is unchanged.
pub proof fn lemma_append_child_keeps_forest(recs: Map<u64, Hierarchy>, kids: Map<u64, Seq<u64>>, c: u64, p: u64)
    requires
        forest_wf(recs, kids),
        recs.dom().contains(c),
        recs.dom().contains(p),
        c != p,
        is_detached(recs, c),
        recs[p].num_children < usize::MAX,
    ensures
        forest_wf(append_child_records(recs, c, p, last_of(kids[p])), kids.insert(p, kids[p].push(c))),
{
    let old_list = kids[p];
    let new_list = old_list.push(c);
    let r2 = append_child_records(recs, c, p, last_of(old_list));
    let k2 = kids.insert(p, new_list);
    let n: int = old_list.len() as int;
    assert(entity_consistent(recs, kids, p));
    assert(entity_consistent(recs, kids, c));
    lemma_detached_unlisted(recs, kids, c, p);
    if n > 0 {
        lemma_listed_under_parent(recs, kids, p, n - 1);
        assert(old_list[n - 1] != p);
        assert(old_list[n - 1] != c);
    }
    assert(r2.dom() =~= recs.dom());
    assert(k2.dom() =~= kids.dom());
    assert(new_list.no_duplicates()) by {
        assert forall|i: int, j: int| 0 <= i < j < new_list.len() implies new_list[i] != new_list[j] by {
            if j == n {
                assert(old_list.contains(new_list[i]));
            }
        }
    }
    assert forall|e: u64| #[trigger] r2.dom().contains(e) implies entity_consistent(r2, k2, e) by {
        assert(entity_consistent(recs, kids, e));
        if e == p {
            if n > 0 {
                assert(new_list[0] == old_list[0]);
            }
        } else if e == c {
            assert(new_list[n] == c);
            assert(k2[p].contains(c));
        } else {
            assert(k2[e] == kids[e]);
            if let Some(q) = recs[e].parent_runtime_id {
                if q == p {
                    let j = choose|j: int| 0 <= j < old_list.len() && old_list[j] == e;
                    assert(new_list[j] == e);
                }
            }
        }
    }
    assert forall|q: u64, i: int| r2.dom().contains(q) && 0 <= i < k2[q].len()
        implies #[trigger] child_consistent(r2, k2, q, i) by {
        if q == p {
            if i == n {
                assert(k2[q][i] == c);
            } else {
                assert(k2[q][i] == old_list[i]);
                assert(child_consistent(recs, kids, p, i));
                lemma_listed_under_parent(recs, kids, p, i);
                assert(old_list[i] != c);
                assert(old_list[i] != p);
                if i < n - 1 {
                    assert(old_list[i] != old_list[n - 1]);
                }
            }
        } else {
            assert(k2[q] == kids[q]);
            assert(child_consistent(recs, kids, q, i));
            let d = kids[q][i];
            lemma_detached_unlisted(recs, kids, c, q);
            assert(d != c);
            if n > 0 {
                lemma_listed_under_parent(recs, kids, p, n - 1);
                assert(d != old_list[n - 1]);
            }
        }
    }
}

/// A list without duplicates whose elements all occur in another list without
/// duplicates is no longer than it.
pub proof fn lemma_sublist_len(sub: Seq<u64>, all: Seq<u64>)
    requires
        sub.no_duplicates(),
        all.no_duplicates(),
        forall|i: int| 0 <= i < sub.len() ==> all.contains(#[trigger] sub[i]),
    ensures
        sub.len() <= all.len(),
{
    sub.unique_seq_to_set();
    all.unique_seq_to_set();
    assert(sub.to_set().subset_of(all.to_set())) by {
        assert forall|x: u64| sub.to_set().contains(x) implies all.to_set().contains(x) by {
            let i = choose|i: int| 0 <= i < sub.len() && sub[i] == x;
        }
    }
    vstd::set_lib::lemma_len_subset(sub.to_set(), all.to_set());
}

/// An entity has fewer children than the tree has entities: its children are
/// distinct entities other than itself.
pub proof fn lemma_child_count_below_entity_count(
    recs: Map<u64, Hierarchy>,
    kids: Map<u64, Seq<u64>>,
    p: u64,
    all: Seq<u64>,
)
    requires
        forest_wf(recs, kids),
        recs.dom().contains(p),
        all.no_duplicates(),
        forall|e: u64| recs.dom().contains(e) <==> #[trigger] all.contains(e),
    ensures
        kids[p].len() < all.len(),
{
    let list = kids[p];
    assert(entity_consistent(recs, kids, p));
    let with_p = list.push(p);
    assert forall|i: int| 0 <= i < with_p.len() implies all.contains(#[trigger] with_p[i]) by {
        if i < list.len() {
            lemma_listed_under_parent(recs, kids, p, i);
        }
    }
    assert(with_p.no_duplicates()) by {
        assert(!list.contains(p)) by {
            if list.contains(p) {
                let i = choose|i: int| 0 <= i < list.len() && list[i] == p;
                lemma_listed_under_parent(recs, kids, p, i);
            }
        }
    }
    lemma_sublist_len(with_p, all);
}

/// In a consistent tree an entity is listed under at most one parent, and
/// only once there.
pub proof fn lemma_listed_under_one_parent(
    recs: Map<u64, Hierarchy>,
    kids: Map<u64, Seq<u64>>,
    p: u64,
    q: u64,
    i: int,
    j: int,
)
    requires
        forest_wf(recs, kids),
        recs.dom().contains(p),
        recs.dom().contains(q),
        0 <= i < kids[p].len(),
        0 <= j < kids[q].len(),
        kids[p][i] == kids[q][j],
    ensures
        p == q,
        i == j,
{
    lemma_listed_under_parent(recs, kids, p, i);
    lemma_listed_under_parent(recs, kids, q, j);
    assert(entity_consistent(recs, kids, p));
}

/// In a consistent tree the records describe each list of children: the
/// count is its length, the first child is its head, and each child's
/// neighbours are the entities next to it in the list, so that following
/// next-sibling links from the first child visits the list in order.
pub proof fn lemma_records_describe_children(recs: Map<u64, Hierarchy>, kids: Map<u64, Seq<u64>>, p: u64)
    requires
        forest_wf(recs, kids),
        recs.dom().contains(p),
    ensures
        recs[p].num_children == kids[p].len(),
        recs[p].first_child_runtime_id == first_of(kids[p]),
        forall|i: int| 0 <= i < kids[p].len() ==> {
            &&& recs.dom().contains(#[trigger] kids[p][i])
            &&& recs[kids[p][i]].parent_runtime_id == Some(p)
            &&& recs[kids[p][i]].prev_sibling_runtime_id == prev_in(kids[p], i)
            &&& recs[kids[p][i]].next_sibling_runtime_id == next_in(kids[p], i)
        },
{
    assert(entity_consistent(recs, kids, p));
    assert forall|i: int| 0 <= i < kids[p].len() implies {
        &&& recs.dom().contains(#[trigger] kids[p][i])
        &&& recs[kids[p][i]].parent_runtime_id == Some(p)
        &&& recs[kids[p][i]].prev_sibling_runtime_id == prev_in(kids[p], i)
        &&& recs[kids[p][i]].next_sibling_runtime_id == next_in(kids[p], i)
    } by {
        assert(child_consistent(recs, kids, p, i));
    }
}

/// Putting `c` in front of the children of `p` links it to its parent and to
/// the former first child, and counts it among `p`'s children.
pub proof fn lemma_add_child_links(recs: Map<u64, Hierarchy>, c: u64, p: u64)
    requires
        recs.dom().contains(c),
        recs.dom().contains(p),
        c != p,
    ensures
        add_child_records(recs, c, p)[c].parent_runtime_id == Some(p),
        add_child_records(recs, c, p)[c].next_sibling_runtime_id == (match recs[p].first_child_runtime_id {
            Some(f) => Some(f),
            None => recs[c].next_sibling_runtime_id,
        }),
        add_child_records(recs, c, p)[p].first_child_runtime_id == Some(c),
        add_child_records(recs, c, p)[p].num_children == recs[p].num_children + 1
            || recs[p].num_children == usize::MAX,
{
}

} // verus!
