//! What the renderer keeps between frames: the models loaded under their
//! guids, and for each mesh of a model the instances queued to be drawn.

use vstd::hash_map::StringHashMap;
use vstd::prelude::*;

verus! {

/// A mesh of a model: the model's guid and the mesh's index in it.
pub struct RenderMapKey {
    pub model_guid: String,
    pub mesh_index: i32,
}

/// A key as a mathematical value.
pub open spec fn key_of(k: RenderMapKey) -> (Seq<char>, i32) {
    (k.model_guid@, k.mesh_index)
}

/// The queues after `inst` is queued for the mesh `key`.
pub open spec fn queue_after<I>(queues: Map<(Seq<char>, i32), Seq<I>>, key: (Seq<char>, i32), inst: I) -> Map<
    (Seq<char>, i32),
    Seq<I>,
> {
    queues.insert(
        key,
        (if queues.dom().contains(key) {
            queues[key]
        } else {
            Seq::<I>::empty()
        }).push(inst),
    )
}

/// Queuing an instance for one mesh puts it behind that mesh's earlier
/// instances, keeps them in order, and leaves every other mesh's queue as it
/// was.
pub proof fn lemma_queue_appends_in_order<I>(
    queues: Map<(Seq<char>, i32), Seq<I>>,
    key: (Seq<char>, i32),
    other: (Seq<char>, i32),
    inst: I,
)
    ensures
        queue_after(queues, key, inst)[key].last() == inst,
        queues.dom().contains(key) ==> queue_after(queues, key, inst)[key].drop_last() == queues[key],
        !queues.dom().contains(key) ==> queue_after(queues, key, inst)[key].len() == 1,
        other != key ==> queue_after(queues, key, inst).dom().contains(other) == queues.dom().contains(other),
        other != key && queues.dom().contains(other) ==> queue_after(queues, key, inst)[other] == queues[other],
{
    if queues.dom().contains(key) {
        assert(queue_after(queues, key, inst)[key].drop_last() =~= queues[key]);
    }
}

/// The models (of type `M`) stored under their guids, and the instances (of
/// type `I`) queued for each mesh.
#[verifier::reject_recursive_types(M)]
pub struct RenderStorage<M, I> {
    model_guids: StringHashMap<M>,
    keys: Vec<RenderMapKey>,
    instances: Vec<Vec<I>>,
    queue: Ghost<Map<(Seq<char>, i32), Seq<I>>>,
}

impl<M, I> RenderStorage<M, I> {
    /// The stored models by guid.
    pub closed spec fn models(&self) -> Map<Seq<char>, M> {
        self.model_guids@
    }

    /// The instances queued for each mesh, in the order they were queued.
    pub closed spec fn render_map(&self) -> Map<(Seq<char>, i32), Seq<I>> {
        self.queue@
    }

    /// The queue is held as a list of distinct keys beside a list of their
    /// instance lists.
    pub closed spec fn wf(&self) -> bool {
        &&& self.keys@.len() == self.instances@.len()
        &&& forall|i: int, j: int|
            0 <= i < j < self.keys@.len() ==> key_of(#[trigger] self.keys@[i]) != key_of(#[trigger] self.keys@[j])
        &&& forall|i: int| 0 <= i < self.keys@.len() ==> #[trigger] self.queue@.dom().contains(key_of(self.keys@[i]))
            && self.queue@[key_of(self.keys@[i])] == self.instances@[i]@
        &&& forall|k: (Seq<char>, i32)| #[trigger] self.queue@.dom().contains(k) ==>
            exists|i: int| 0 <= i < self.keys@.len() && key_of(self.keys@[i]) == k
    }

    /// Nothing stored, nothing queued.
    pub fn new() -> (r: Self)
        ensures
            r.wf(),
            r.models() == Map::<Seq<char>, M>::empty(),
            r.render_map() == Map::<(Seq<char>, i32), Seq<I>>::empty(),
    {
        RenderStorage {
            model_guids: StringHashMap::new(),
            keys: Vec::new(),
            instances: Vec::new(),
            queue: Ghost(Map::empty()),
        }
    }

    /// Queues an instance of mesh `mesh_index` of model `model_guid` behind
    /// the instances already queued for that mesh.
    pub fn queue_for_drawing(&mut self, model_guid: &str, mesh_index: i32, model_mat: I)
        requires
            old(self).wf(),
        ensures
            final(self).wf(),
            final(self).models() == old(self).models(),
            final(self).render_map() == queue_after(old(self).render_map(), (model_guid@, mesh_index), model_mat),
    {
        let guid = String::from_str(model_guid);
        let ghost k = (model_guid@, mesh_index);
        let mut i: usize = 0;
        let mut found = false;
        while i < self.keys.len() && !found
            invariant
                self.wf(),
                *self == *old(self),
                guid@ == model_guid@,
                k == (model_guid@, mesh_index),
                i <= self.keys@.len(),
                found ==> i < self.keys@.len() && key_of(self.keys@[i as int]) == k,
                !found ==> forall|j: int| 0 <= j < i ==> key_of(#[trigger] self.keys@[j]) != k,
            decreases self.keys@.len() - i + (if found { 0int } else { 1int }),
        {
            let same_guid = self.keys[i].model_guid.eq(&guid);
            let same_index = self.keys[i].mesh_index == mesh_index;
            if same_guid && same_index {
                found = true;
            } else {
                i = i + 1;
            }
        }
        if found {
            proof {
                assert(self.queue@.dom().contains(k));
            }
            self.instances[i].push(model_mat);
            self.queue = Ghost(self.queue@.insert(k, self.queue@[k].push(model_mat)));
            proof {
                assert forall|j: int| 0 <= j < self.keys@.len() implies #[trigger] self.queue@.dom().contains(
                    key_of(self.keys@[j]),
                ) && self.queue@[key_of(self.keys@[j])] == self.instances@[j]@ by {
                    if j != i {
                        assert(old(self).instances@[j] == self.instances@[j]);
                        assert(key_of(self.keys@[j]) != k);
                    } else {
                        assert(key_of(self.keys@[j]) == k);
                        assert(old(self).queue@[k] == old(self).instances@[j]@);
                        assert(self.instances@[j]@ == old(self).instances@[j]@.push(model_mat));
                    }
                }
            }
        } else {
            proof {
                assert(!self.queue@.dom().contains(k));
            }
            let mut list: Vec<I> = Vec::new();
            list.push(model_mat);
            self.keys.push(RenderMapKey { model_guid: guid, mesh_index });
            self.instances.push(list);
            self.queue = Ghost(self.queue@.insert(k, Seq::<I>::empty().push(model_mat)));
            proof {
                let n = self.keys@.len() - 1;
                assert(key_of(self.keys@[n]) == k);
                assert forall|j: int| 0 <= j < self.keys@.len() implies #[trigger] self.queue@.dom().contains(
                    key_of(self.keys@[j]),
                ) && self.queue@[key_of(self.keys@[j])] == self.instances@[j]@ by {
                    if j < n {
                        assert(old(self).keys@[j] == self.keys@[j]);
                        assert(old(self).instances@[j] == self.instances@[j]);
                    } else {
                        assert(self.instances@[j]@ =~= Seq::<I>::empty().push(model_mat));
                    }
                }
                assert forall|a: int, b: int| 0 <= a < b < self.keys@.len() implies key_of(
                    #[trigger] self.keys@[a],
                ) != key_of(#[trigger] self.keys@[b]) by {
                    if b < n {
                        assert(old(self).keys@[a] == self.keys@[a]);
                        assert(old(self).keys@[b] == self.keys@[b]);
                    } else {
                        assert(old(self).keys@[a] == self.keys@[a]);
                    }
                }
                assert forall|kk: (Seq<char>, i32)| #[trigger] self.queue@.dom().contains(kk) implies exists|j: int|
                    0 <= j < self.keys@.len() && key_of(self.keys@[j]) == kk by {
                    if kk != k {
                        let j = choose|j: int| 0 <= j < old(self).keys@.len() && key_of(old(self).keys@[j]) == kk;
                        assert(self.keys@[j] == old(self).keys@[j]);
                    }
                }
            }
        }
    }

    /// The meshes that have instances queued, each once.
    pub fn queued_meshes(&self) -> (r: &Vec<RenderMapKey>)
        requires
            self.wf(),
        ensures
            forall|i: int| 0 <= i < r@.len() ==> self.render_map().dom().contains(key_of(#[trigger] r@[i])),
            forall|k: (Seq<char>, i32)| #[trigger] self.render_map().dom().contains(k) ==> exists|i: int|
                0 <= i < r@.len() && key_of(r@[i]) == k,
            forall|i: int, j: int| 0 <= i < j < r@.len() ==> key_of(#[trigger] r@[i]) != key_of(#[trigger] r@[j]),
    {
        &self.keys
    }

    /// The instances queued for mesh `mesh_index` of model `model_guid`, if any.
    pub fn get_instances(&self, model_guid: &str, mesh_index: i32) -> (r: Option<&Vec<I>>)
        requires
            self.wf(),
        ensures
            match r {
                Some(v) => self.render_map().dom().contains((model_guid@, mesh_index)) && v@ == self.render_map()[(
                    model_guid@,
                    mesh_index,
                )],
                None => !self.render_map().dom().contains((model_guid@, mesh_index)),
            },
    {
        let guid = String::from_str(model_guid);
        let ghost k = (model_guid@, mesh_index);
        let mut i: usize = 0;
        while i < self.keys.len()
            invariant
                self.wf(),
                guid@ == model_guid@,
                k == (model_guid@, mesh_index),
                i <= self.keys@.len(),
                forall|j: int| 0 <= j < i ==> key_of(#[trigger] self.keys@[j]) != k,
            decreases self.keys@.len() - i,
        {
            if self.keys[i].model_guid.eq(&guid) && self.keys[i].mesh_index == mesh_index {
                proof {
                    assert(key_of(self.keys@[i as int]) == k);
                    assert(self.queue@.dom().contains(key_of(self.keys@[i as int])));
                }
                return Some(&self.instances[i]);
            }
            i = i + 1;
        }
        None
    }

    /// Whether a model is stored under `model_guid`.
    pub fn is_model_stored(&self, model_guid: &str) -> (r: bool)
        ensures
            r == self.models().dom().contains(model_guid@),
    {
        self.model_guids.contains_key(model_guid)
    }

    /// Stores a loaded model under the given guid, replacing any model stored
    /// under it, and returns the guid. A guid must be given.
    pub fn store_model(&mut self, model_guid_in: Option<&str>, model: M) -> (r: String)
        requires
            model_guid_in is Some,
        ensures
            r@ == model_guid_in->0@,
            final(self).models() == old(self).models().insert(r@, model),
            final(self).render_map() == old(self).render_map(),
            old(self).wf() ==> final(self).wf(),
    {
        let model_guid = model_guid_in.unwrap();
        self.model_guids.insert(String::from_str(model_guid), model);
        String::from_str(model_guid)
    }

    /// Removes every stored model and every queued instance, leaving the
    /// storage as `new` made it: no model is stored under any guid afterwards.
    pub fn clear(&mut self)
        ensures
            final(self).wf(),
            final(self).models() == Map::<Seq<char>, M>::empty(),
            final(self).render_map() == Map::<(Seq<char>, i32), Seq<I>>::empty(),
    {
        self.model_guids = StringHashMap::new();
        self.clear_render_map();
    }

    /// Drops every queued instance and keeps the stored models: what is queued
    /// for one frame is dropped before the next (`clear` drops the models too).
    pub fn clear_render_map(&mut self)
        ensures
            final(self).wf(),
            final(self).models() == old(self).models(),
            final(self).render_map() == Map::<(Seq<char>, i32), Seq<I>>::empty(),
    {
        self.keys = Vec::new();
        self.instances = Vec::new();
        self.queue = Ghost(Map::empty());
    }
}

} // verus!
