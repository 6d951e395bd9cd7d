//! The first version of the scene: hierarchy records name entities by raw
//! runtime id, with 0 for "none", and a new child goes behind its siblings.
//! The first entity created becomes the root; later ones become its children
//! unless a parent is given.

use shipyard::World;
use vstd::hash_map::HashMapWithView;
use vstd::prelude::*;

use crate::component::detached_hierarchy;
use crate::forest::{
    append_child_records, child_consistent, entity_consistent, forest_wf, is_detached, last_of,
    lemma_add_detached_keeps_forest, lemma_append_child_keeps_forest, lemma_child_count_below_entity_count,
    first_of, lemma_records_describe_children, next_in, prev_in,
};
use crate::world::{world_add_entity, world_alive_entities, world_entity_slots, world_new, world_slot_limit};

verus! {

broadcast use vstd::std_specs::hash::group_hash_axioms;

/// An entity's place in the scene tree; 0 stands for "no such entity".
#[derive(Clone, Copy, Debug, PartialEq, Eq, Structural)]
pub struct Hierarchy {
    pub parent_runtime_id: u64,
    pub num_children: usize,
    pub first_child_runtime_id: u64,
    pub prev_sibling_runtime_id: u64,
    pub next_sibling_runtime_id: u64,
}

/// The record of an entity that is in no tree: every field 0.
pub open spec fn zero_hierarchy() -> Hierarchy {
    Hierarchy {
        parent_runtime_id: 0,
        num_children: 0,
        first_child_runtime_id: 0,
        prev_sibling_runtime_id: 0,
        next_sibling_runtime_id: 0,
    }
}

impl Hierarchy {
    /// The record of an entity that is in no tree: every field 0.
    pub fn new() -> (r: Hierarchy)
        ensures
            r == zero_hierarchy(),
    {
        Hierarchy {
            parent_runtime_id: 0,
            num_children: 0,
            first_child_runtime_id: 0,
            prev_sibling_runtime_id: 0,
            next_sibling_runtime_id: 0,
        }
    }
}

/// A runtime id, with 0 read as "none".
pub open spec fn id_or_none(id: u64) -> Option<u64> {
    if id == 0 {
        None
    } else {
        Some(id)
    }
}

/// The record with 0 read as "none".
pub open spec fn tree_record(h: Hierarchy) -> crate::component::Hierarchy {
    crate::component::Hierarchy {
        num_children: h.num_children,
        parent_runtime_id: id_or_none(h.parent_runtime_id),
        first_child_runtime_id: id_or_none(h.first_child_runtime_id),
        prev_sibling_runtime_id: id_or_none(h.prev_sibling_runtime_id),
        next_sibling_runtime_id: id_or_none(h.next_sibling_runtime_id),
    }
}

/// A handle to an entity of a scene.
pub struct Entity {
    pub handle: u64,
}

impl Entity {
    pub fn from_handle(handle: u64) -> (r: Entity)
        ensures
            r.handle == handle,
    {
        Entity { handle }
    }

    pub fn get_runtime_id(&self) -> (r: u64)
        ensures
            r == self.handle,
    {
        self.handle
    }
}

/// The entities of a scene with their `Hierarchy` components. Runtime ids
/// come from a shipyard world and are never 0.
pub struct Scene {
    pub name: &'static str,
    pub root_entity_runtime_id: Option<u64>,
    handle: World,
    hierarchies: HashMapWithView<u64, Hierarchy>,
    entities: Vec<u64>,
    children: Ghost<Map<u64, Seq<u64>>>,
}

impl Scene {
    /// The runtime id of the root entity, if there is one.
    pub closed spec fn root_id(&self) -> Option<u64> {
        self.root_entity_runtime_id
    }

    /// The scene's name.
    pub closed spec fn scene_name(&self) -> &'static str {
        self.name
    }

    /// Each entity's `Hierarchy` component.
    pub closed spec fn hierarchy_map(&self) -> Map<u64, Hierarchy> {
        self.hierarchies@
    }

    /// Each entity's `Hierarchy` component with 0 read as "none".
    pub open spec fn tree_records(&self) -> Map<u64, crate::component::Hierarchy> {
        self.hierarchy_map().map_values(|h: Hierarchy| tree_record(h))
    }

    /// Each entity's children, first child first.
    pub closed spec fn children_map(&self) -> Map<u64, Seq<u64>> {
        self.children@
    }

    /// The entities in the order they were created.
    pub closed spec fn entity_order(&self) -> Seq<u64> {
        self.entities@
    }

    /// The scene is consistent: the hierarchy records encode the children
    /// lists, no entity has id 0, the entities are exactly those alive in the
    /// world, each listed once in creation order, and the root, if any, is one
    /// of them.
    pub closed spec fn wf(&self) -> bool {
        &&& forest_wf(self.tree_records(), self.children@)
        &&& !self.hierarchies@.dom().contains(0)
        &&& self.entities@.no_duplicates()
        &&& forall|e: u64| self.hierarchies@.dom().contains(e) <==> #[trigger] self.entities@.contains(e)
        &&& forall|e: u64| self.hierarchies@.dom().contains(e) <==> #[trigger] world_alive_entities(self.handle).contains(e)
        &&& world_entity_slots(self.handle) <= self.entities@.len()
        &&& (self.root_entity_runtime_id matches Some(rt) ==> self.hierarchies@.dom().contains(rt))
    }

    /// In a consistent scene the records describe every list of children:
    /// the count is its length, the first child (0 for none) is its head, and
    /// each child points back at the entity and at its neighbours in the list
    /// (0 at either end).
    pub proof fn lemma_children_match_records(&self, p: u64)
        requires
            self.wf(),
            self.hierarchy_map().dom().contains(p),
        ensures
            self.hierarchy_map()[p].num_children == self.children_map()[p].len(),
            id_or_none(self.hierarchy_map()[p].first_child_runtime_id) == first_of(self.children_map()[p]),
            forall|i: int| 0 <= i < self.children_map()[p].len() ==> {
                &&& self.hierarchy_map().dom().contains(#[trigger] self.children_map()[p][i])
                &&& self.hierarchy_map()[self.children_map()[p][i]].parent_runtime_id == p
                &&& id_or_none(self.hierarchy_map()[self.children_map()[p][i]].prev_sibling_runtime_id)
                    == prev_in(self.children_map()[p], i)
                &&& id_or_none(self.hierarchy_map()[self.children_map()[p][i]].next_sibling_runtime_id)
                    == next_in(self.children_map()[p], i)
            },
    {
        let tree = self.tree_records();
        assert(tree.dom().contains(p));
        lemma_records_describe_children(tree, self.children@, p);
        assert forall|i: int| 0 <= i < self.children_map()[p].len() implies {
            &&& self.hierarchy_map().dom().contains(#[trigger] self.children_map()[p][i])
            &&& self.hierarchy_map()[self.children_map()[p][i]].parent_runtime_id == p
            &&& id_or_none(self.hierarchy_map()[self.children_map()[p][i]].prev_sibling_runtime_id)
                == prev_in(self.children_map()[p], i)
            &&& id_or_none(self.hierarchy_map()[self.children_map()[p][i]].next_sibling_runtime_id)
                == next_in(self.children_map()[p], i)
        } by {
            assert(child_consistent(tree, self.children@, p, i));
            assert(p != 0);
        }
    }

    /// An empty scene named "scene" without a root.
    pub fn new() -> (s: Scene)
        ensures
            s.wf(),
            s.scene_name() == "scene",
            s.root_id() is None,
            s.hierarchy_map() == Map::<u64, Hierarchy>::empty(),
            s.children_map() == Map::<u64, Seq<u64>>::empty(),
            s.entity_order() == Seq::<u64>::empty(),
    {
        let s = Scene {
            name: "scene",
            root_entity_runtime_id: None,
            handle: world_new(),
            hierarchies: HashMapWithView::new(),
            entities: Vec::new(),
            children: Ghost(Map::empty()),
        };
        assert(s.tree_records() =~= Map::empty());
        s
    }

    /// The `Hierarchy` component of an entity, if the entity is in the scene.
    pub fn get_hierarchy(&self, entity_id: u64) -> (r: Option<Hierarchy>)
        ensures
            r == (if self.hierarchy_map().dom().contains(entity_id) {
                Some(self.hierarchy_map()[entity_id])
            } else {
                None
            }),
    {
        match self.hierarchies.get(&entity_id) {
            Some(h) => Some(*h),
            None => None,
        }
    }

    /// The runtime ids of all entities (each carries a transform), in the order
    /// they were created.
    pub fn transform_entities(&self) -> (r: Vec<u64>)
        ensures
            r@ == self.entity_order(),
    {
        self.entities.clone()
    }

    /// Adds an entity whose record is all zeros.
    fn add_detached_entity(&mut self) -> (id: u64)
        requires
            old(self).wf(),
            old(self).entities@.len() < world_slot_limit(),
            old(self).entities@.len() < usize::MAX,
        ensures
            final(self).wf(),
            id != 0,
            !old(self).hierarchies@.dom().contains(id),
            final(self).tree_records() == old(self).tree_records().insert(id, detached_hierarchy()),
            final(self).hierarchies@ == old(self).hierarchies@.insert(id, zero_hierarchy()),
            final(self).children@ == old(self).children@.insert(id, Seq::<u64>::empty()),
            final(self).entities@ == old(self).entities@.push(id),
            final(self).root_entity_runtime_id == old(self).root_entity_runtime_id,
            final(self).name == old(self).name,
    {
        let ghost old_tree = self.tree_records();
        let ghost old_kids = self.children@;
        let id = world_add_entity(&mut self.handle);
        self.hierarchies.insert(id, Hierarchy::new());
        self.entities.push(id);
        proof {
            assert(self.tree_records() =~= old_tree.insert(id, detached_hierarchy()));
            lemma_add_detached_keeps_forest(old_tree, old_kids, id);
            assert(!old(self).entities@.contains(id));
        }
        self.children = Ghost(old_kids.insert(id, Seq::<u64>::empty()));
        proof {
            assert forall|e: u64| self.hierarchies@.dom().contains(e) <==> #[trigger] self.entities@.contains(e) by {
                if self.entities@.contains(e) && e != id {
                    let i = choose|i: int| 0 <= i < self.entities@.len() && self.entities@[i] == e;
                    assert(old(self).entities@[i] == e);
                }
                if old(self).entities@.contains(e) {
                    let i = choose|i: int| 0 <= i < old(self).entities@.len() && old(self).entities@[i] == e;
                    assert(self.entities@[i] == e);
                }
                assert(self.entities@[self.entities@.len() - 1] == id);
            }
        }
        id
    }

    /// Puts the detached entity `c` behind the children of `p`: walks from
    /// `p`'s first child along next-sibling ids to the last child, links it
    /// and `c`, and counts `c` among `p`'s children. Records are written in
    /// the order last child, parent, child.
    fn attach_to_back(&mut self, c: u64, p: u64)
        requires
            old(self).wf(),
            old(self).hierarchy_map().dom().contains(c),
            old(self).hierarchy_map().dom().contains(p),
            c != p,
            is_detached(old(self).tree_records(), c),
            old(self).hierarchy_map()[p].num_children < usize::MAX,
        ensures
            final(self).wf(),
            final(self).tree_records() == append_child_records(
                old(self).tree_records(),
                c,
                p,
                last_of(old(self).children_map()[p]),
            ),
            final(self).children_map() == old(self).children_map().insert(p, old(self).children_map()[p].push(c)),
            final(self).entities@ == old(self).entities@,
            final(self).hierarchies@.dom() == old(self).hierarchies@.dom(),
            final(self).root_entity_runtime_id == old(self).root_entity_runtime_id,
            final(self).name == old(self).name,
    {
        let ghost tree = self.tree_records();
        let ghost kids = self.children@;
        let ghost list = kids[p];
        proof {
            assert(tree.dom().contains(p));
            assert(tree.dom().contains(c));
            assert(entity_consistent(tree, kids, p));
            assert(tree[p] == tree_record(self.hierarchies@[p]));
        }
        let mut parent_hierarchy: Hierarchy = *self.hierarchies.get(&p).unwrap();
        let mut child_hierarchy: Hierarchy = *self.hierarchies.get(&c).unwrap();
        parent_hierarchy.num_children = parent_hierarchy.num_children + 1;
        if parent_hierarchy.first_child_runtime_id == 0 {
            parent_hierarchy.first_child_runtime_id = c;
        } else {
            let mut cur: u64 = parent_hierarchy.first_child_runtime_id;
            let ghost mut i: int = 0;
            proof {
                assert(child_consistent(tree, kids, p, 0));
            }
            let mut cur_hierarchy: Hierarchy = *self.hierarchies.get(&cur).unwrap();
            while cur_hierarchy.next_sibling_runtime_id != 0
                invariant
                    forest_wf(tree, kids),
                    tree == self.tree_records(),
                    !self.hierarchies@.dom().contains(0),
                    tree.dom().contains(p),
                    list == kids[p],
                    0 <= i < list.len(),
                    cur == list[i],
                    self.hierarchies@.dom().contains(cur),
                    cur_hierarchy == self.hierarchies@[cur],
                decreases list.len() - i,
            {
                proof {
                    assert(child_consistent(tree, kids, p, i));
                    assert(tree[cur] == tree_record(self.hierarchies@[cur]));
                }
                cur = cur_hierarchy.next_sibling_runtime_id;
                proof {
                    i = i + 1;
                    assert(child_consistent(tree, kids, p, i));
                }
                cur_hierarchy = *self.hierarchies.get(&cur).unwrap();
            }
            proof {
                assert(child_consistent(tree, kids, p, i));
                assert(tree[cur] == tree_record(self.hierarchies@[cur]));
                assert(i == list.len() - 1);
            }
            cur_hierarchy.next_sibling_runtime_id = c;
            self.hierarchies.insert(cur, cur_hierarchy);
            child_hierarchy.prev_sibling_runtime_id = cur;
        }
        child_hierarchy.parent_runtime_id = p;
        self.hierarchies.insert(p, parent_hierarchy);
        self.hierarchies.insert(c, child_hierarchy);
        proof {
            assert(self.tree_records() =~= append_child_records(tree, c, p, last_of(list)));
            lemma_append_child_keeps_forest(tree, kids, c, p);
        }
        self.children = Ghost(kids.insert(p, list.push(c)));
        proof {
            assert(self.hierarchies@.dom() =~= old(self).hierarchies@.dom());
        }
    }

    /// In a consistent scene an entity has fewer children than there are
    /// entities, hence fewer than `usize::MAX`.
    pub proof fn lemma_child_count_below_max(&self, p: u64)
        requires
            self.wf(),
            self.hierarchy_map().dom().contains(p),
        ensures
            self.hierarchy_map()[p].num_children < usize::MAX,
            self.hierarchy_map()[p].num_children < self.entity_order().len(),
    {
        let tree = self.tree_records();
        assert(tree.dom().contains(p));
        assert(entity_consistent(tree, self.children@, p));
        assert forall|e: u64| tree.dom().contains(e) <==> #[trigger] self.entities@.contains(e) by {
            assert(tree.dom().contains(e) == self.hierarchies@.dom().contains(e));
        }
        lemma_child_count_below_entity_count(tree, self.children@, p, self.entities@);
        assert(self.entities@.len() == self.entities.len());
    }

    /// Creates an entity. The first entity of a scene becomes its root; every
    /// later one is put behind the root's other children.
    pub fn create_entity(&mut self) -> (r: Entity)
        requires
            old(self).wf(),
            old(self).entity_order().len() < world_slot_limit(),
            old(self).entity_order().len() < usize::MAX,
        ensures
            final(self).wf(),
            r.handle != 0,
            !old(self).hierarchy_map().dom().contains(r.handle),
            final(self).entity_order() == old(self).entity_order().push(r.handle),
            final(self).hierarchy_map().dom() == old(self).hierarchy_map().dom().insert(r.handle),
            final(self).scene_name() == old(self).scene_name(),
            match old(self).root_id() {
                None => {
                    &&& final(self).root_id() == Some(r.handle)
                    &&& final(self).tree_records() == old(self).tree_records().insert(r.handle, detached_hierarchy())
                    &&& final(self).children_map() == old(self).children_map().insert(r.handle, Seq::<u64>::empty())
                },
                Some(rt) => {
                    &&& final(self).root_id() == Some(rt)
                    &&& final(self).tree_records() == append_child_records(
                        old(self).tree_records().insert(r.handle, detached_hierarchy()),
                        r.handle,
                        rt,
                        last_of(old(self).children_map()[rt]),
                    )
                    &&& final(self).children_map() == old(self).children_map().insert(
                        r.handle,
                        Seq::<u64>::empty(),
                    ).insert(rt, old(self).children_map()[rt].push(r.handle))
                },
            },
    {
        let id = self.add_detached_entity();
        match self.root_entity_runtime_id {
            Some(rt) => {
                proof {
                    self.lemma_child_count_below_max(rt);
                    assert(self.tree_records()[id] == detached_hierarchy());
                }
                self.attach_to_back(id, rt);
            },
            None => {
                self.root_entity_runtime_id = Some(id);
            },
        }
        Entity::from_handle(id)
    }

    /// Creates an entity and puts it behind the other children of the entity
    /// `parent_entity_runtime_id`, which must be in the scene.
    pub fn create_entity_with_parent(&mut self, parent_entity_runtime_id: u64) -> (r: Entity)
        requires
            old(self).wf(),
            old(self).entity_order().len() < world_slot_limit(),
            old(self).entity_order().len() < usize::MAX,
            old(self).hierarchy_map().dom().contains(parent_entity_runtime_id),
        ensures
            final(self).wf(),
            r.handle != 0,
            !old(self).hierarchy_map().dom().contains(r.handle),
            final(self).entity_order() == old(self).entity_order().push(r.handle),
            final(self).hierarchy_map().dom() == old(self).hierarchy_map().dom().insert(r.handle),
            final(self).root_id() == old(self).root_id(),
            final(self).scene_name() == old(self).scene_name(),
            final(self).tree_records() == append_child_records(
                old(self).tree_records().insert(r.handle, detached_hierarchy()),
                r.handle,
                parent_entity_runtime_id,
                last_of(old(self).children_map()[parent_entity_runtime_id]),
            ),
            final(self).children_map() == old(self).children_map().insert(r.handle, Seq::<u64>::empty()).insert(
                parent_entity_runtime_id,
                old(self).children_map()[parent_entity_runtime_id].push(r.handle),
            ),
    {
        let id = self.add_detached_entity();
        proof {
            self.lemma_child_count_below_max(parent_entity_runtime_id);
            assert(self.tree_records()[id] == detached_hierarchy());
        }
        self.attach_to_back(id, parent_entity_runtime_id);
        Entity::from_handle(id)
    }
}

} // verus!
