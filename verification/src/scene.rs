//! A scene: its entities, their names, and the tree that `Hierarchy`
//! components encode, where a new child goes in front of its siblings.

use shipyard::World;
use vstd::hash_map::HashMapWithView;
use vstd::prelude::*;

use crate::component::{Hierarchy, MeshRenderer, PythonScript, Tag, detached_hierarchy};
use crate::resource::ResourceManager;
use crate::forest::{
    add_child_kids, add_child_records, entity_consistent, first_of, forest_wf, is_detached,
    lemma_add_child_keeps_forest, lemma_add_detached_keeps_forest, lemma_child_count_below_entity_count,
    lemma_listed_under_one_parent, lemma_records_describe_children, prev_in,
    child_consistent, next_in,
};
use crate::world::{world_add_entity, world_alive_entities, world_entity_slots, world_new, world_slot_limit};

verus! {

broadcast use vstd::std_specs::hash::group_hash_axioms;

/// The entities of a scene with their `Hierarchy` and `Tag` components, and
/// the `MeshRenderer` and `PythonScript` components some of them carry.
/// Runtime ids come from a shipyard world; the components are kept here, in
/// maps keyed by those ids, since shipyard's storages are reached only through
/// calls bound by its `Component` trait.
pub struct Scene {
    pub name: &'static str,
    pub root_entity_runtime_id: Option<u64>,
    handle: World,
    hierarchies: HashMapWithView<u64, Hierarchy>,
    tags: HashMapWithView<u64, Tag>,
    mesh_renderers: HashMapWithView<u64, MeshRenderer>,
    python_scripts: HashMapWithView<u64, PythonScript>,
    entities: Vec<u64>,
    children: Ghost<Map<u64, Seq<u64>>>,
}

/// A scene as a mathematical value.
pub struct SceneModel {
    pub name: &'static str,
    pub recs: Map<u64, Hierarchy>,
    pub kids: Map<u64, Seq<u64>>,
    pub tags: Map<u64, Seq<char>>,
    pub order: Seq<u64>,
    pub root: Option<u64>,
    pub meshes: Map<u64, MeshRenderer>,
    pub scripts: Map<u64, PythonScript>,
}

/// The scene after an entity `r` named `name` is created and put in front of
/// the children of the existing entity `p`.
pub open spec fn model_after_create(m: SceneModel, r: u64, p: u64, name: Seq<char>) -> SceneModel {
    SceneModel {
        recs: add_child_records(m.recs.insert(r, detached_hierarchy()), r, p),
        kids: add_child_kids(m.kids.insert(r, Seq::<u64>::empty()), r, p),
        tags: m.tags.insert(r, name),
        order: m.order.push(r),
        ..m
    }
}

/// An entity created under an existing entity is listed first among its
/// children, before the children it had; the new entity has no children.
pub proof fn lemma_created_entity_listed_first(m: SceneModel, r: u64, p: u64, name: Seq<char>)
    requires
        forest_wf(m.recs, m.kids),
        m.recs.dom().contains(p),
        !m.recs.dom().contains(r),
    ensures
        model_after_create(m, r, p, name).kids[p] == seq![r] + m.kids[p],
        model_after_create(m, r, p, name).kids[r] == Seq::<u64>::empty(),
        model_after_create(m, r, p, name).recs[r].parent_runtime_id == Some(p),
        model_after_create(m, r, p, name).recs[r].next_sibling_runtime_id == first_of(m.kids[p]),
        model_after_create(m, r, p, name).tags[r] == name,
{
    assert(entity_consistent(m.recs, m.kids, p));
}

impl Scene {
    /// The runtime id of the root entity, if there is one.
    pub closed spec fn root_id(&self) -> Option<u64> {
        self.root_entity_runtime_id
    }

    /// The scene's name.
    pub closed spec fn scene_name(&self) -> &'static str {
        self.name
    }

    /// Each entity's `Hierarchy` component.
    pub closed spec fn hierarchy_map(&self) -> Map<u64, Hierarchy> {
        self.hierarchies@
    }

    /// Each entity's children, in the order `get_children_for_entity` lists them.
    pub closed spec fn children_map(&self) -> Map<u64, Seq<u64>> {
        self.children@
    }

    /// Each entity's name (its `Tag`).
    pub closed spec fn tag_names(&self) -> Map<u64, Seq<char>> {
        self.tags@.map_values(|t: Tag| t.name@)
    }

    /// The entities in the order they were created.
    pub closed spec fn entity_order(&self) -> Seq<u64> {
        self.entities@
    }

    /// The `MeshRenderer` components by entity.
    pub closed spec fn mesh_renderer_map(&self) -> Map<u64, MeshRenderer> {
        self.mesh_renderers@
    }

    /// The `PythonScript` components by entity.
    pub closed spec fn python_script_map(&self) -> Map<u64, PythonScript> {
        self.python_scripts@
    }

    /// The scene as a mathematical value.
    pub open spec fn model(&self) -> SceneModel {
        SceneModel {
            name: self.scene_name(),
            recs: self.hierarchy_map(),
            kids: self.children_map(),
            tags: self.tag_names(),
            order: self.entity_order(),
            root: self.root_id(),
            meshes: self.mesh_renderer_map(),
            scripts: self.python_script_map(),
        }
    }

    /// The scene is consistent, and it has a root exactly when it has an
    /// entity, the root being one of its entities.
    pub closed spec fn wf(&self) -> bool {
        &&& self.structure_wf()
        &&& (self.root_entity_runtime_id matches Some(rt) ==> self.hierarchies@.dom().contains(rt))
        &&& (self.root_entity_runtime_id is None ==> self.entities@.len() == 0)
    }

    /// The hierarchy records encode the children lists, every entity has a
    /// hierarchy and a tag and only entities have other components, and the
    /// entities are exactly those alive in the world, each listed once in
    /// creation order.
    closed spec fn structure_wf(&self) -> bool {
        &&& forest_wf(self.hierarchies@, self.children@)
        &&& self.tags@.dom() == self.hierarchies@.dom()
        &&& self.mesh_renderers@.dom().subset_of(self.hierarchies@.dom())
        &&& self.python_scripts@.dom().subset_of(self.hierarchies@.dom())
        &&& self.entities@.no_duplicates()
        &&& forall|e: u64| self.hierarchies@.dom().contains(e) <==> #[trigger] self.entities@.contains(e)
        &&& forall|e: u64| self.hierarchies@.dom().contains(e) <==> #[trigger] world_alive_entities(self.handle).contains(e)
        &&& world_entity_slots(self.handle) <= self.entities@.len()
    }

    /// In a consistent scene an entity has fewer children than there are
    /// entities, hence fewer than `usize::MAX`.
    pub proof fn lemma_child_count_below_max(&self, p: u64)
        requires
            self.wf(),
            self.hierarchy_map().dom().contains(p),
        ensures
            self.hierarchy_map()[p].num_children < usize::MAX,
            self.hierarchy_map()[p].num_children < self.entity_order().len(),
    {
        assert(entity_consistent(self.hierarchies@, self.children@, p));
        lemma_child_count_below_entity_count(self.hierarchies@, self.children@, p, self.entities@);
        assert(self.entities@.len() == self.entities.len());
    }

    /// In a consistent scene the `Hierarchy` records describe every list of
    /// children: the count is its length, the first child is its head, each
    /// child points back at the entity and at its neighbours in the list; and
    /// an entity is listed under one parent only.
    pub proof fn lemma_children_match_records(&self, p: u64)
        requires
            self.wf(),
            self.hierarchy_map().dom().contains(p),
        ensures
            self.children_map().dom().contains(p),
            self.hierarchy_map()[p].num_children == self.children_map()[p].len(),
            self.hierarchy_map()[p].first_child_runtime_id == first_of(self.children_map()[p]),
            forall|i: int| 0 <= i < self.children_map()[p].len() ==> {
                &&& self.hierarchy_map().dom().contains(#[trigger] self.children_map()[p][i])
                &&& self.hierarchy_map()[self.children_map()[p][i]].parent_runtime_id == Some(p)
                &&& self.hierarchy_map()[self.children_map()[p][i]].prev_sibling_runtime_id == prev_in(self.children_map()[p], i)
                &&& self.hierarchy_map()[self.children_map()[p][i]].next_sibling_runtime_id == next_in(self.children_map()[p], i)
            },
            forall|q: u64, i: int, j: int|
                self.hierarchy_map().dom().contains(q) && 0 <= i < self.children_map()[p].len() && 0 <= j
                    < self.children_map()[q].len() && #[trigger] self.children_map()[p][i]
                    == #[trigger] self.children_map()[q][j] ==> p == q && i == j,
    {
        lemma_records_describe_children(self.hierarchies@, self.children@, p);
        assert forall|q: u64, i: int, j: int|
            self.hierarchy_map().dom().contains(q) && 0 <= i < self.children_map()[p].len() && 0 <= j
                < self.children_map()[q].len() && #[trigger] self.children_map()[p][i]
                == #[trigger] self.children_map()[q][j] implies p == q && i == j by {
            lemma_listed_under_one_parent(self.hierarchies@, self.children@, p, q, i, j);
        }
    }

    /// The entities of a consistent scene are those of its creation order.
    pub proof fn lemma_entities_are_ordered(&self, e: u64)
        requires
            self.wf(),
        ensures
            self.hierarchy_map().dom().contains(e) <==> self.entity_order().contains(e),
    {
        assert(self.hierarchies@.dom().contains(e) <==> self.entities@.contains(e));
    }

    /// In a consistent scene the entities with a list of children are exactly
    /// the entities of the scene.
    pub proof fn lemma_children_domain(&self)
        requires
            self.wf(),
        ensures
            self.children_map().dom() == self.hierarchy_map().dom(),
    {
    }

    /// In a consistent scene an entity that no list of children holds has no
    /// parent and no sibling links.
    pub proof fn lemma_unlisted_entity_detached(&self, e: u64)
        requires
            self.wf(),
            self.hierarchy_map().dom().contains(e),
            forall|q: u64| #[trigger] self.hierarchy_map().dom().contains(q) ==> !self.children_map()[q].contains(e),
        ensures
            self.hierarchy_map()[e].parent_runtime_id is None,
            self.hierarchy_map()[e].prev_sibling_runtime_id is None,
            self.hierarchy_map()[e].next_sibling_runtime_id is None,
    {
        assert(entity_consistent(self.hierarchies@, self.children@, e));
    }

    /// The root of a consistent scene, if it has one, is one of its entities;
    /// a scene without a root has no entity.
    pub proof fn lemma_root_is_entity(&self)
        requires
            self.wf(),
        ensures
            self.root_id() matches Some(rt) ==> self.hierarchy_map().dom().contains(rt),
            self.root_id() is None ==> self.entity_order().len() == 0,
    {
    }

    /// A consistent scene with an entity has a root.
    pub proof fn lemma_has_root(&self, e: u64)
        requires
            self.wf(),
            self.hierarchy_map().dom().contains(e),
        ensures
            self.root_id() is Some,
            self.entity_order().len() > 0,
    {
        assert(self.entities@.contains(e));
    }

    /// An empty scene named "scene" without a root.
    pub fn create() -> (s: Scene)
        ensures
            s.wf(),
            s.scene_name() == "scene",
            s.root_id() is None,
            s.hierarchy_map() == Map::<u64, Hierarchy>::empty(),
            s.children_map() == Map::<u64, Seq<u64>>::empty(),
            s.tag_names() == Map::<u64, Seq<char>>::empty(),
            s.entity_order() == Seq::<u64>::empty(),
            s.mesh_renderer_map() == Map::<u64, MeshRenderer>::empty(),
            s.python_script_map() == Map::<u64, PythonScript>::empty(),
    {
        let s = Scene {
            name: "scene",
            root_entity_runtime_id: None,
            handle: world_new(),
            hierarchies: HashMapWithView::new(),
            tags: HashMapWithView::new(),
            mesh_renderers: HashMapWithView::new(),
            python_scripts: HashMapWithView::new(),
            entities: Vec::new(),
            children: Ghost(Map::empty()),
        };
        assert(s.tag_names() =~= Map::<u64, Seq<char>>::empty());
        s
    }

    /// The runtime id of the root entity, if the scene has one.
    pub fn get_root_entity_runtime_id(&self) -> (r: Option<u64>)
        ensures
            r == self.root_id(),
    {
        self.root_entity_runtime_id
    }

    /// The `Hierarchy` component of an entity, if the entity is in the scene.
    pub fn get_hierarchy(&self, entity_id: u64) -> (r: Option<Hierarchy>)
        ensures
            r == (if self.hierarchy_map().dom().contains(entity_id) {
                Some(self.hierarchy_map()[entity_id])
            } else {
                None
            }),
    {
        match self.hierarchies.get(&entity_id) {
            Some(h) => Some(*h),
            None => None,
        }
    }

    /// The `Tag` component of an entity, if the entity is in the scene.
    pub fn get_tag(&self, entity_id: u64) -> (r: Option<&Tag>)
        ensures
            match r {
                Some(t) => self.tag_names().dom().contains(entity_id) && t.name@ == self.tag_names()[entity_id],
                None => !self.tag_names().dom().contains(entity_id),
            },
    {
        self.tags.get(&entity_id)
    }

    /// The ids of the entities that carry a `Hierarchy` component, which every
    /// entity of the scene does, in the order they were created.
    pub fn get_entities_with_component(&self) -> (r: Vec<u64>)
        ensures
            r@ == self.entity_order(),
            self.wf() ==> r@.no_duplicates(),
    {
        self.entities.clone()
    }

    /// Whether an entity carries a `MeshRenderer`.
    pub open spec fn holds_mesh_renderer(&self) -> spec_fn(u64) -> bool {
        |e: u64| self.mesh_renderer_map().dom().contains(e)
    }

    /// The entities that carry a `MeshRenderer`, in the order they were created.
    pub fn get_entities_with_mesh_renderer(&self) -> (r: Vec<u64>)
        ensures
            r@ == self.entity_order().filter(self.holds_mesh_renderer()),
            self.wf() ==> forall|e: u64| #[trigger] r@.contains(e) <==> self.mesh_renderer_map().dom().contains(e),
    {
        let mut r: Vec<u64> = Vec::new();
        let mut i: usize = 0;
        while i < self.entities.len()
            invariant
                i <= self.entities@.len(),
                r@ == self.entities@.take(i as int).filter(self.holds_mesh_renderer()),
            decreases self.entities@.len() - i,
        {
            let e = self.entities[i];
            proof {
                reveal(Seq::filter);
                assert(self.entities@.take(i as int + 1).drop_last() =~= self.entities@.take(i as int));
                assert(self.entities@.take(i as int + 1).last() == e);
            }
            if self.mesh_renderers.contains_key(&e) {
                r.push(e);
            }
            i = i + 1;
        }
        proof {
            assert(self.entities@.take(self.entities@.len() as int) =~= self.entities@);
            if self.wf() {
                let pred = self.holds_mesh_renderer();
                self.entities@.filter_lemma(pred);
                assert forall|e: u64| #[trigger] r@.contains(e) <==> self.mesh_renderer_map().dom().contains(e) by {
                    if r@.contains(e) {
                        let k = choose|k: int| 0 <= k < r@.len() && r@[k] == e;
                        assert(pred(r@[k]));
                    }
                    if self.mesh_renderer_map().dom().contains(e) {
                        assert(self.entities@.contains(e));
                        let k = choose|k: int| 0 <= k < self.entities@.len() && self.entities@[k] == e;
                        assert(pred(self.entities@[k]));
                    }
                }
            }
        }
        r
    }

    /// Whether an entity carries a `PythonScript`.
    pub open spec fn holds_python_script(&self) -> spec_fn(u64) -> bool {
        |e: u64| self.python_script_map().dom().contains(e)
    }

    /// The entities that carry a `PythonScript`, in the order they were created.
    pub fn get_entities_with_python_script(&self) -> (r: Vec<u64>)
        ensures
            r@ == self.entity_order().filter(self.holds_python_script()),
            self.wf() ==> forall|e: u64| #[trigger] r@.contains(e) <==> self.python_script_map().dom().contains(e),
    {
        let mut r: Vec<u64> = Vec::new();
        let mut i: usize = 0;
        while i < self.entities.len()
            invariant
                i <= self.entities@.len(),
                r@ == self.entities@.take(i as int).filter(self.holds_python_script()),
            decreases self.entities@.len() - i,
        {
            let e = self.entities[i];
            proof {
                reveal(Seq::filter);
                assert(self.entities@.take(i as int + 1).drop_last() =~= self.entities@.take(i as int));
                assert(self.entities@.take(i as int + 1).last() == e);
            }
            if self.python_scripts.contains_key(&e) {
                r.push(e);
            }
            i = i + 1;
        }
        proof {
            assert(self.entities@.take(self.entities@.len() as int) =~= self.entities@);
            if self.wf() {
                let pred = self.holds_python_script();
                self.entities@.filter_lemma(pred);
                assert forall|e: u64| #[trigger] r@.contains(e) <==> self.python_script_map().dom().contains(e) by {
                    if r@.contains(e) {
                        let k = choose|k: int| 0 <= k < r@.len() && r@[k] == e;
                        assert(pred(r@[k]));
                    }
                    if self.python_script_map().dom().contains(e) {
                        assert(self.entities@.contains(e));
                        let k = choose|k: int| 0 <= k < self.entities@.len() && self.entities@[k] == e;
                        assert(pred(self.entities@[k]));
                    }
                }
            }
        }
        r
    }

    /// Lists the children of an entity by following its first child and then
    /// each child's next sibling. An entity that is not in the scene has none.
    pub fn get_children_for_entity(&self, entity_id: u64) -> (r: Vec<u64>)
        requires
            self.wf(),
        ensures
            r@ == (if self.children_map().dom().contains(entity_id) {
                self.children_map()[entity_id]
            } else {
                Seq::<u64>::empty()
            }),
            !self.hierarchy_map().dom().contains(entity_id) ==> r@ == Seq::<u64>::empty(),
    {
        let mut result: Vec<u64> = Vec::new();
        let ghost recs = self.hierarchies@;
        let ghost kids = self.children@;
        if let Some(hierarchy_component) = self.hierarchies.get(&entity_id) {
            let ghost list = kids[entity_id];
            proof {
                assert(entity_consistent(recs, kids, entity_id));
            }
            let mut cur_entity_id = hierarchy_component.first_child_runtime_id;
            let ghost mut i: int = 0;
            while cur_entity_id.is_some()
                invariant
                    forest_wf(recs, kids),
                    recs == self.hierarchies@,
                    recs.dom().contains(entity_id),
                    list == kids[entity_id],
                    0 <= i <= list.len(),
                    result@ == list.take(i),
                    cur_entity_id == (if i < list.len() { Some(list[i]) } else { None::<u64> }),
                decreases list.len() - i,
            {
                let cur = cur_entity_id.unwrap();
                proof {
                    assert(child_consistent(recs, kids, entity_id, i));
                    assert(list.take(i + 1) =~= list.take(i).push(cur));
                }
                result.push(cur);
                match self.hierarchies.get(&cur) {
                    Some(h) => {
                        cur_entity_id = h.next_sibling_runtime_id;
                    },
                    None => {
                        cur_entity_id = None;
                    },
                }
                proof {
                    i = i + 1;
                }
            }
            proof {
                assert(list.take(i) =~= list);
            }
        }
        result
    }

    /// Puts `child_entity_id` in front of the children of `parent_entity_id`
    /// when both entities are in the scene; otherwise nothing changes. The
    /// records are read first and written back in the order former first
    /// child, parent, child.
    pub fn add_child_to_entity(&mut self, child_entity_id: u64, parent_entity_id: u64)
        requires
            old(self).hierarchy_map().dom().contains(child_entity_id)
                && old(self).hierarchy_map().dom().contains(parent_entity_id)
                ==> is_detached(old(self).hierarchy_map(), child_entity_id)
                && old(self).hierarchy_map()[parent_entity_id].num_children < usize::MAX,
        ensures
            final(self).hierarchy_map() == add_child_records(
                old(self).hierarchy_map(),
                child_entity_id,
                parent_entity_id,
            ),
            final(self).tag_names() == old(self).tag_names(),
            final(self).entity_order() == old(self).entity_order(),
            final(self).mesh_renderer_map() == old(self).mesh_renderer_map(),
            final(self).python_script_map() == old(self).python_script_map(),
            final(self).root_id() == old(self).root_id(),
            final(self).scene_name() == old(self).scene_name(),
            old(self).wf() && child_entity_id != parent_entity_id ==> final(self).wf(),
            old(self).wf() && child_entity_id != parent_entity_id ==> final(self).children_map() == (
                if old(self).hierarchy_map().dom().contains(child_entity_id)
                    && old(self).hierarchy_map().dom().contains(parent_entity_id) {
                    add_child_kids(old(self).children_map(), child_entity_id, parent_entity_id)
                } else {
                    old(self).children_map()
                }),
    {
        let ghost old_recs = self.hierarchies@;
        let ghost old_kids = self.children@;
        let c = child_entity_id;
        let p = parent_entity_id;
        if self.hierarchies.contains_key(&c) && self.hierarchies.contains_key(&p) {
            let mut parent_hierarchy_component: Hierarchy = *self.hierarchies.get(&p).unwrap();
            let mut child_hierarchy_component: Hierarchy = *self.hierarchies.get(&c).unwrap();
            parent_hierarchy_component.num_children = parent_hierarchy_component.num_children + 1;
            if parent_hierarchy_component.first_child_runtime_id.is_none() {
                parent_hierarchy_component.first_child_runtime_id = Some(c);
            } else {
                let former_first_child = parent_hierarchy_component.first_child_runtime_id;
                parent_hierarchy_component.first_child_runtime_id = Some(c);
                child_hierarchy_component.next_sibling_runtime_id = former_first_child;
                if let Some(former_first_child_entity_id) = former_first_child {
                    if self.hierarchies.contains_key(&former_first_child_entity_id) {
                        let mut former: Hierarchy = *self.hierarchies.get(&former_first_child_entity_id).unwrap();
                        former.prev_sibling_runtime_id = Some(c);
                        self.hierarchies.insert(former_first_child_entity_id, former);
                    }
                }
            }
            child_hierarchy_component.parent_runtime_id = Some(p);
            self.hierarchies.insert(p, parent_hierarchy_component);
            self.hierarchies.insert(c, child_hierarchy_component);
            proof {
                assert(self.hierarchies@ =~= add_child_records(old_recs, c, p));
                if old(self).wf() && c != p {
                    lemma_add_child_keeps_forest(old_recs, old_kids, c, p);
                }
            }
            self.children = Ghost(add_child_kids(old_kids, c, p));
            proof {
                if old(self).wf() && c != p {
                    assert(self.hierarchies@.dom() =~= old_recs.dom());
                }
            }
        }
    }

    /// Adds an entity with a detached hierarchy and the given name.
    fn add_detached_entity(&mut self, name: String) -> (id: u64)
        requires
            old(self).structure_wf(),
            old(self).entities@.len() < world_slot_limit(),
            old(self).entities@.len() < usize::MAX,
        ensures
            final(self).structure_wf(),
            final(self).mesh_renderers@ == old(self).mesh_renderers@,
            final(self).python_scripts@ == old(self).python_scripts@,
            !old(self).hierarchies@.dom().contains(id),
            final(self).hierarchies@ == old(self).hierarchies@.insert(id, detached_hierarchy()),
            final(self).children@ == old(self).children@.insert(id, Seq::<u64>::empty()),
            final(self).tag_names() == old(self).tag_names().insert(id, name@),
            final(self).entities@ == old(self).entities@.push(id),
            final(self).root_entity_runtime_id == old(self).root_entity_runtime_id,
            final(self).name == old(self).name,
    {
        let ghost old_recs = self.hierarchies@;
        let ghost old_kids = self.children@;
        let id = world_add_entity(&mut self.handle);
        let h = Hierarchy::default();
        self.hierarchies.insert(id, h);
        self.tags.insert(id, Tag::new(name));
        self.entities.push(id);
        proof {
            lemma_add_detached_keeps_forest(old_recs, old_kids, id);
            assert(!old(self).entities@.contains(id));
            assert(self.tag_names() =~= old(self).tag_names().insert(id, name@));
        }
        self.children = Ghost(old_kids.insert(id, Seq::<u64>::empty()));
        proof {
            assert forall|e: u64| self.hierarchies@.dom().contains(e) <==> #[trigger] self.entities@.contains(e) by {
                if self.entities@.contains(e) && e != id {
                    let i = choose|i: int| 0 <= i < self.entities@.len() && self.entities@[i] == e;
                    assert(old(self).entities@[i] == e);
                }
                if old(self).entities@.contains(e) {
                    let i = choose|i: int| 0 <= i < old(self).entities@.len() && old(self).entities@[i] == e;
                    assert(self.entities@[i] == e);
                }
                assert(self.entities@[self.entities@.len() - 1] == id);
            }
        }
        id
    }

    /// Adds an entity named `name` ("Entity" when none is given) and puts it in
    /// front of the children of `parent_id`, or of the root when no parent is
    /// given. A scene without a root first gets one, named "Root". An entity
    /// given as parent that is not in the scene gets no child. Returns the new
    /// entity's runtime id.
    pub fn create_entity(&mut self, name: Option<String>, parent_id: Option<u64>) -> (r: u64)
        requires
            old(self).wf(),
            old(self).entity_order().len() + (if old(self).root_id() is None { 2int } else { 1int })
                <= world_slot_limit(),
            old(self).entity_order().len() + (if old(self).root_id() is None { 2int } else { 1int })
                <= usize::MAX,
        ensures
            ({
                let rt = final(self).root_id()->0;
                let made_root = old(self).root_id() is None;
                let base = if made_root {
                    old(self).hierarchy_map().insert(rt, detached_hierarchy())
                } else {
                    old(self).hierarchy_map()
                };
                let base_kids = if made_root {
                    old(self).children_map().insert(rt, Seq::<u64>::empty())
                } else {
                    old(self).children_map()
                };
                let base_tags = if made_root {
                    old(self).tag_names().insert(rt, "Root"@)
                } else {
                    old(self).tag_names()
                };
                let base_order = if made_root {
                    old(self).entity_order().push(rt)
                } else {
                    old(self).entity_order()
                };
                let p = match parent_id {
                    Some(q) => q,
                    None => rt,
                };
                let tag = match name {
                    Some(n) => n@,
                    None => "Entity"@,
                };
                &&& final(self).root_id() is Some
                &&& base.dom().contains(rt)
                &&& !made_root ==> final(self).root_id() == old(self).root_id()
                &&& made_root ==> !old(self).hierarchy_map().dom().contains(rt)
                &&& !base.dom().contains(r)
                &&& final(self).entity_order() == base_order.push(r)
                &&& final(self).tag_names() == base_tags.insert(r, tag)
                &&& final(self).hierarchy_map() == add_child_records(base.insert(r, detached_hierarchy()), r, p)
                &&& final(self).mesh_renderer_map() == old(self).mesh_renderer_map()
                &&& final(self).python_script_map() == old(self).python_script_map()
                &&& p != r ==> final(self).wf()
                &&& p != r ==> final(self).children_map() == (if base.dom().contains(p) {
                    add_child_kids(base_kids.insert(r, Seq::<u64>::empty()), r, p)
                } else {
                    base_kids.insert(r, Seq::<u64>::empty())
                })
            }),
            final(self).scene_name() == old(self).scene_name(),
            old(self).root_id() is Some && (parent_id matches Some(q) ==> old(self).hierarchy_map().dom().contains(q))
                ==> final(self).model() == model_after_create(
                old(self).model(),
                r,
                match parent_id {
                    Some(q) => q,
                    None => old(self).root_id()->0,
                },
                match name {
                    Some(n) => n@,
                    None => "Entity"@,
                },
            ),
    {
        if self.root_entity_runtime_id.is_none() {
            let new_root_entity = self.add_detached_entity(String::from_str("Root"));
            self.root_entity_runtime_id = Some(new_root_entity);
        }
        let ghost mid = *self;
        let tag_name = match name {
            Some(n) => n,
            None => String::from_str("Entity"),
        };
        let new_entity_id = self.add_detached_entity(tag_name);
        let root_id = self.root_entity_runtime_id.unwrap();
        let parent = match parent_id {
            Some(q) => q,
            None => root_id,
        };
        proof {
            if self.hierarchies@.dom().contains(parent) && parent != new_entity_id {
                self.lemma_child_count_below_max(parent);
            }
        }
        self.add_child_to_entity(new_entity_id, parent);
        new_entity_id
    }

    /// The `MeshRenderer` component of an entity, if it has one.
    pub fn get_mesh_renderer(&self, entity_id: u64) -> (r: Option<&MeshRenderer>)
        ensures
            match r {
                Some(m) => self.mesh_renderer_map().dom().contains(entity_id) && *m == self.mesh_renderer_map()[entity_id],
                None => !self.mesh_renderer_map().dom().contains(entity_id),
            },
    {
        self.mesh_renderers.get(&entity_id)
    }

    /// The `PythonScript` component of an entity, if it has one.
    pub fn get_python_script(&self, entity_id: u64) -> (r: Option<&PythonScript>)
        ensures
            match r {
                Some(m) => self.python_script_map().dom().contains(entity_id) && *m == self.python_script_map()[entity_id],
                None => !self.python_script_map().dom().contains(entity_id),
            },
    {
        self.python_scripts.get(&entity_id)
    }

    /// Gives an entity of the scene a `MeshRenderer`, replacing any it had.
    pub fn add_mesh_renderer(&mut self, entity_id: u64, component: MeshRenderer)
        requires
            old(self).hierarchy_map().dom().contains(entity_id),
        ensures
            final(self).model() == (SceneModel {
                meshes: old(self).model().meshes.insert(entity_id, component),
                ..old(self).model()
            }),
            old(self).wf() ==> final(self).wf(),
    {
        self.mesh_renderers.insert(entity_id, component);
        proof {
            if old(self).structure_wf() {
                assert(self.mesh_renderers@.dom().subset_of(self.hierarchies@.dom()));
            }
        }
    }

    /// Gives an entity of the scene a `PythonScript`, replacing any it had.
    pub fn add_python_script(&mut self, entity_id: u64, component: PythonScript)
        requires
            old(self).hierarchy_map().dom().contains(entity_id),
        ensures
            final(self).model() == (SceneModel {
                scripts: old(self).model().scripts.insert(entity_id, component),
                ..old(self).model()
            }),
            old(self).wf() ==> final(self).wf(),
    {
        self.python_scripts.insert(entity_id, component);
        proof {
            if old(self).structure_wf() {
                assert(self.python_scripts@.dom().subset_of(self.hierarchies@.dom()));
            }
        }
    }
}

impl Scene {
    /// Takes the `MeshRenderer` off an entity; nothing changes when it has none.
    pub fn remove_mesh_renderer(&mut self, entity_id: u64)
        ensures
            final(self).model() == (SceneModel {
                meshes: old(self).model().meshes.remove(entity_id),
                ..old(self).model()
            }),
            old(self).wf() ==> final(self).wf(),
    {
        self.mesh_renderers.remove(&entity_id);
        proof {
            assert(self.mesh_renderers@ =~= old(self).mesh_renderers@.remove(entity_id));
            assert(self.model().meshes =~= old(self).model().meshes.remove(entity_id));
            if old(self).structure_wf() {
                assert(self.mesh_renderers@.dom().subset_of(self.hierarchies@.dom()));
            }
        }
    }

    /// Takes the `PythonScript` off an entity; nothing changes when it has none.
    pub fn remove_python_script(&mut self, entity_id: u64)
        ensures
            final(self).model() == (SceneModel {
                scripts: old(self).model().scripts.remove(entity_id),
                ..old(self).model()
            }),
            old(self).wf() ==> final(self).wf(),
    {
        self.python_scripts.remove(&entity_id);
        proof {
            assert(self.python_scripts@ =~= old(self).python_scripts@.remove(entity_id));
            assert(self.model().scripts =~= old(self).model().scripts.remove(entity_id));
            if old(self).structure_wf() {
                assert(self.python_scripts@.dom().subset_of(self.hierarchies@.dom()));
            }
        }
    }
}

/// A kind of component that entities may carry or lack: its map by entity
/// in a scene, and how the scene reads and writes it.
pub trait EntityComponent: Sized {
    /// The components of this kind in a scene, by entity.
    spec fn components_in(m: SceneModel) -> Map<u64, Self>;

    /// The scene with the components of this kind replaced by `components`.
    spec fn with_components(m: SceneModel, components: Map<u64, Self>) -> SceneModel;

    /// Replacing the components of this kind gives a scene that holds exactly
    /// those and keeps its entities, their records, names and order.
    proof fn lemma_with_components(m: SceneModel, components: Map<u64, Self>)
        ensures
            Self::components_in(Self::with_components(m, components)) == components,
            Self::with_components(m, components).recs == m.recs,
            Self::with_components(m, components).kids == m.kids,
            Self::with_components(m, components).tags == m.tags,
            Self::with_components(m, components).order == m.order,
            Self::with_components(m, components).root == m.root,
            Self::with_components(m, components).name == m.name,
    ;

    /// The component of this kind an entity carries, if any.
    fn get_from(scene: &Scene, entity_id: u64) -> (r: Option<&Self>)
        ensures
            match r {
                Some(c) => Self::components_in(scene.model()).dom().contains(entity_id) && *c == Self::components_in(
                    scene.model(),
                )[entity_id],
                None => !Self::components_in(scene.model()).dom().contains(entity_id),
            },
    ;

    /// Gives an entity of the scene a component of this kind, replacing any
    /// it had.
    fn add_to(scene: &mut Scene, entity_id: u64, component: Self)
        requires
            old(scene).hierarchy_map().dom().contains(entity_id),
        ensures
            final(scene).model() == Self::with_components(
                old(scene).model(),
                Self::components_in(old(scene).model()).insert(entity_id, component),
            ),
            old(scene).wf() ==> final(scene).wf(),
    ;

    /// Takes the component of this kind off an entity, if it has one.
    fn remove_from(scene: &mut Scene, entity_id: u64)
        ensures
            final(scene).model() == Self::with_components(
                old(scene).model(),
                Self::components_in(old(scene).model()).remove(entity_id),
            ),
            old(scene).wf() ==> final(scene).wf(),
    ;
}

impl EntityComponent for MeshRenderer {
    open spec fn components_in(m: SceneModel) -> Map<u64, MeshRenderer> {
        m.meshes
    }

    open spec fn with_components(m: SceneModel, components: Map<u64, MeshRenderer>) -> SceneModel {
        SceneModel { meshes: components, ..m }
    }

    proof fn lemma_with_components(m: SceneModel, components: Map<u64, MeshRenderer>) {
    }

    fn get_from(scene: &Scene, entity_id: u64) -> (r: Option<&MeshRenderer>) {
        scene.get_mesh_renderer(entity_id)
    }

    fn add_to(scene: &mut Scene, entity_id: u64, component: MeshRenderer) {
        scene.add_mesh_renderer(entity_id, component);
    }

    fn remove_from(scene: &mut Scene, entity_id: u64) {
        scene.remove_mesh_renderer(entity_id);
    }
}

impl EntityComponent for PythonScript {
    open spec fn components_in(m: SceneModel) -> Map<u64, PythonScript> {
        m.scripts
    }

    open spec fn with_components(m: SceneModel, components: Map<u64, PythonScript>) -> SceneModel {
        SceneModel { scripts: components, ..m }
    }

    proof fn lemma_with_components(m: SceneModel, components: Map<u64, PythonScript>) {
    }

    fn get_from(scene: &Scene, entity_id: u64) -> (r: Option<&PythonScript>) {
        scene.get_python_script(entity_id)
    }

    fn add_to(scene: &mut Scene, entity_id: u64, component: PythonScript) {
        scene.add_python_script(entity_id, component);
    }

    fn remove_from(scene: &mut Scene, entity_id: u64) {
        scene.remove_python_script(entity_id);
    }
}

impl Scene {
    /// Gives an entity of the scene a component of kind `C`, replacing any it had.
    pub fn add_component<C: EntityComponent>(&mut self, entity_id: u64, component: C)
        requires
            old(self).hierarchy_map().dom().contains(entity_id),
        ensures
            final(self).model() == C::with_components(
                old(self).model(),
                C::components_in(old(self).model()).insert(entity_id, component),
            ),
            old(self).wf() ==> final(self).wf(),
    {
        C::add_to(self, entity_id, component);
    }

    /// Takes the component of kind `C` off an entity, if it has one.
    pub fn remove_component<C: EntityComponent>(&mut self, entity_id: u64)
        ensures
            final(self).model() == C::with_components(
                old(self).model(),
                C::components_in(old(self).model()).remove(entity_id),
            ),
            old(self).wf() ==> final(self).wf(),
    {
        C::remove_from(self, entity_id);
    }

    /// The component of kind `C` an entity carries, if any.
    pub fn get_component<C: EntityComponent>(&self, entity_id: u64) -> (r: Option<&C>)
        ensures
            match r {
                Some(c) => C::components_in(self.model()).dom().contains(entity_id) && *c == C::components_in(
                    self.model(),
                )[entity_id],
                None => !C::components_in(self.model()).dom().contains(entity_id),
            },
    {
        C::get_from(self, entity_id)
    }

    /// Whether an entity carries a component of kind `C`.
    pub fn has_component<C: EntityComponent>(&self, entity_id: u64) -> (r: bool)
        ensures
            r == C::components_in(self.model()).dom().contains(entity_id),
    {
        C::get_from(self, entity_id).is_some()
    }
}

/// Reading a component of a kind back after it was added gives the component
/// added, and after it was removed gives none; the other entities keep their
/// components of that kind, and the scene keeps its entities and tree.
pub proof fn lemma_component_round_trip<C: EntityComponent>(m: SceneModel, e: u64, other: u64, c: C)
    ensures
        C::components_in(C::with_components(m, C::components_in(m).insert(e, c))).dom().contains(e),
        C::components_in(C::with_components(m, C::components_in(m).insert(e, c)))[e] == c,
        !C::components_in(C::with_components(m, C::components_in(m).remove(e))).dom().contains(e),
        other != e ==> C::components_in(C::with_components(m, C::components_in(m).insert(e, c))).dom().contains(
            other,
        ) == C::components_in(m).dom().contains(other),
        other != e && C::components_in(m).dom().contains(other) ==> C::components_in(
            C::with_components(m, C::components_in(m).insert(e, c)),
        )[other] == C::components_in(m)[other],
        other != e ==> C::components_in(C::with_components(m, C::components_in(m).remove(e))).dom().contains(
            other,
        ) == C::components_in(m).dom().contains(other),
        C::with_components(m, C::components_in(m).insert(e, c)).order == m.order,
        C::with_components(m, C::components_in(m).remove(e)).recs == m.recs,
{
    C::lemma_with_components(m, C::components_in(m).insert(e, c));
    C::lemma_with_components(m, C::components_in(m).remove(e));
}

impl MeshRenderer {
    /// Gives an entity a `MeshRenderer` that draws mesh `mesh_idx` of the
    /// resource with guid `guid`, which the resource manager must know.
    pub fn add_to_entity(
        scene: &mut Scene,
        entity_handle: u64,
        resource_manager: &ResourceManager,
        guid: String,
        mesh_idx: Option<usize>,
    )
        requires
            old(scene).hierarchy_map().dom().contains(entity_handle),
            resource_manager.resources().dom().contains(guid@),
        ensures
            final(scene).model() == (SceneModel {
                meshes: old(scene).model().meshes.insert(
                    entity_handle,
                    MeshRenderer { resource_handle: Some(resource_manager.handle_of(guid@)), mesh_idx },
                ),
                ..old(scene).model()
            }),
            old(scene).wf() ==> final(scene).wf(),
    {
        let resource_handle = resource_manager.copy_handle(&guid);
        scene.add_mesh_renderer(entity_handle, MeshRenderer::new(Some(resource_handle), mesh_idx));
    }
}

impl PythonScript {
    /// Gives an entity a `PythonScript` that runs the resource with guid
    /// `guid`, which the resource manager must know.
    pub fn add_to_entity(scene: &mut Scene, entity_handle: u64, resource_manager: &ResourceManager, guid: String)
        requires
            old(scene).hierarchy_map().dom().contains(entity_handle),
            resource_manager.resources().dom().contains(guid@),
        ensures
            final(scene).model() == (SceneModel {
                scripts: old(scene).model().scripts.insert(
                    entity_handle,
                    PythonScript { resource_handle: Some(resource_manager.handle_of(guid@)) },
                ),
                ..old(scene).model()
            }),
            old(scene).wf() ==> final(scene).wf(),
    {
        let resource_handle = resource_manager.copy_handle(&guid);
        scene.add_python_script(entity_handle, PythonScript::new(Some(resource_handle)));
    }
}

} // verus!
