//! Building entities from the node tree of a glTF model: every node without a
//! mesh becomes an entity for each of its children, named after the child; a
//! node with a mesh becomes one entity that draws the mesh. Nodes under a
//! skin's skeleton root are marked as bones.

use vstd::hash_map::HashMapWithView;
use vstd::hash_set::HashSetWithView;
use vstd::prelude::*;

use crate::component::MeshRenderer;
use crate::gltf_document::{document_built, document_fails, gltf_document_from_slice, gltf_file_table};
use crate::resource::{ResourceHandle, ResourceManager};
use crate::scene::{Scene, SceneModel, model_after_create};
use crate::world::world_slot_limit;

verus! {

broadcast use vstd::std_specs::hash::group_hash_axioms;

/// A mesh of a glTF model: its index among the model's meshes and its name.
pub struct GltfMesh {
    pub index: usize,
    pub name: Option<String>,
}

/// A node of a glTF model's scene: its index among the model's nodes, its
/// name, its mesh and its children.
pub struct GltfNode {
    pub index: u32,
    pub name: Option<String>,
    pub mesh: Option<GltfMesh>,
    pub children: Vec<GltfNode>,
}

/// A skin of a glTF model: its skeleton root node and its joint nodes.
pub struct GltfSkin {
    pub skeleton: Option<u32>,
    pub joints: Vec<u32>,
}

/// What the scene needs of a glTF model: the root nodes of its scenes, scene
/// by scene, and its skins.
pub struct GltfDocument {
    pub nodes: Vec<GltfNode>,
    pub skins: Vec<GltfSkin>,
}

/// What a bone entity is: whether it is a skeleton root, and its joint index.
#[derive(Clone, Copy, PartialEq, Eq, Structural, Debug)]
pub struct BoneInfo {
    pub is_root: bool,
    pub bone_id: u32,
}

/// An entity made for a glTF node (not for a mesh), so that the caller can
/// give it the node's transform and, for a bone, its inverse bind pose.
#[derive(Clone, Copy, PartialEq, Eq, Structural, Debug)]
pub struct NodeEntity {
    pub entity_id: u64,
    pub node_index: u32,
    pub bone: Option<BoneInfo>,
}

/// A name, or `default` when there is none.
pub open spec fn name_or(name: Option<String>, default: Seq<char>) -> Seq<char> {
    match name {
        Some(n) => n@,
        None => default,
    }
}

/// The joint index of a node: its entry in the joint table, 1 when it has none.
pub open spec fn joint_id(joints: Map<u32, u32>, node: u32) -> u32 {
    if joints.dom().contains(node) {
        joints[node]
    } else {
        1
    }
}

/// The skeleton roots of the first `i` skins.
pub open spec fn skin_roots(skins: Seq<GltfSkin>, i: int) -> Set<u32>
    decreases i,
{
    if i <= 0 {
        Set::empty()
    } else {
        let earlier = skin_roots(skins, i - 1);
        match skins[i - 1].skeleton {
            Some(s) => earlier.insert(s),
            None => earlier,
        }
    }
}

/// The joint table after the first `j` joints of a skin are entered, each
/// joint node mapped to its position in the skin's joint list.
pub open spec fn joints_entered(table: Map<u32, u32>, joints: Seq<u32>, j: int) -> Map<u32, u32>
    decreases j,
{
    if j <= 0 {
        table
    } else {
        joints_entered(table, joints, j - 1).insert(joints[j - 1], (j - 1) as u32)
    }
}

/// The joint table after the first `i` skins are entered.
pub open spec fn joint_table(skins: Seq<GltfSkin>, i: int) -> Map<u32, u32>
    decreases i,
{
    if i <= 0 {
        Map::empty()
    } else {
        joints_entered(joint_table(skins, i - 1), skins[i - 1].joints@, skins[i - 1].joints@.len() as int)
    }
}

/// How many entities processing a node makes: one for a node with a mesh,
/// otherwise one per child plus what each child makes.
pub open spec fn node_entity_count(node: GltfNode) -> nat
    decreases node, 0nat,
{
    match node.mesh {
        Some(_) => 1,
        None => {
            proof {
                assert(decreases_to!(node => node.children));
                assert(decreases_to!(node.children => node.children@));
            }
            children_entity_count(node.children@, node.children@.len() as int)
        },
    }
}

/// How many entities the first `i` children of a node make.
pub open spec fn children_entity_count(children: Seq<GltfNode>, i: int) -> nat
    decreases children, i,
{
    if i <= 0 || i > children.len() {
        0
    } else {
        children_entity_count(children, i - 1) + 1 + node_entity_count(children[i - 1])
    }
}

/// The scene and the node entities after a node is processed under entity
/// `parent`, the new entities getting the ids `ids` in order of creation.
pub open spec fn node_plan(
    m: SceneModel,
    node: GltfNode,
    parent: u64,
    is_bone: bool,
    ids: Seq<u64>,
    skin: Set<u32>,
    joints: Map<u32, u32>,
    handle: ResourceHandle,
) -> (SceneModel, Seq<NodeEntity>)
    decreases node, 0nat,
{
    match node.mesh {
        Some(mesh) => {
            let r = ids[0];
            let m1 = model_after_create(m, r, parent, name_or(mesh.name, "Mesh"@));
            (
                SceneModel {
                    meshes: m1.meshes.insert(
                        r,
                        MeshRenderer { resource_handle: Some(handle), mesh_idx: Some(mesh.index) },
                    ),
                    ..m1
                },
                Seq::<NodeEntity>::empty(),
            )
        },
        None => {
            proof {
                assert(decreases_to!(node => node.children));
                assert(decreases_to!(node.children => node.children@));
            }
            children_plan(m, node.children@, node.children@.len() as int, parent, is_bone, ids, skin, joints, handle)
        },
    }
}

/// The scene and the node entities after the first `i` children of a node
/// without a mesh are processed under entity `parent`: each child gets an
/// entity (a bone when the node is one or the child is a skeleton root), and
/// then the child is processed under that entity.
pub open spec fn children_plan(
    m: SceneModel,
    children: Seq<GltfNode>,
    i: int,
    parent: u64,
    is_bone: bool,
    ids: Seq<u64>,
    skin: Set<u32>,
    joints: Map<u32, u32>,
    handle: ResourceHandle,
) -> (SceneModel, Seq<NodeEntity>)
    decreases children, i,
{
    if i <= 0 || i > children.len() {
        (m, Seq::<NodeEntity>::empty())
    } else {
        let start: int = children_entity_count(children, i - 1) as int;
        let before = children_plan(m, children, i - 1, parent, is_bone, ids.take(start), skin, joints, handle);
        let child = children[i - 1];
        let r = ids[start];
        let is_skin_root = skin.contains(child.index);
        let child_is_bone = is_bone || is_skin_root;
        let m1 = model_after_create(before.0, r, parent, name_or(child.name, "Node"@));
        let entry = NodeEntity {
            entity_id: r,
            node_index: child.index,
            bone: if child_is_bone {
                Some(BoneInfo { is_root: is_skin_root, bone_id: joint_id(joints, child.index) })
            } else {
                None
            },
        };
        let after = node_plan(
            m1,
            child,
            r,
            child_is_bone,
            ids.subrange(start + 1, start + 1 + node_entity_count(child)),
            skin,
            joints,
            handle,
        );
        (after.0, before.1.push(entry) + after.1)
    }
}

/// How many entities processing the first `i` root nodes makes.
pub open spec fn roots_entity_count(nodes: Seq<GltfNode>, i: int) -> nat
    decreases i,
{
    if i <= 0 || i > nodes.len() {
        0
    } else {
        roots_entity_count(nodes, i - 1) + node_entity_count(nodes[i - 1])
    }
}

/// The scene and the node entities after the first `i` root nodes are
/// processed under entity `parent`, each root being a bone when it is a
/// skeleton root.
pub open spec fn roots_plan(
    m: SceneModel,
    nodes: Seq<GltfNode>,
    i: int,
    parent: u64,
    ids: Seq<u64>,
    skin: Set<u32>,
    joints: Map<u32, u32>,
    handle: ResourceHandle,
) -> (SceneModel, Seq<NodeEntity>)
    decreases i,
{
    if i <= 0 || i > nodes.len() {
        (m, Seq::<NodeEntity>::empty())
    } else {
        let start: int = roots_entity_count(nodes, i - 1) as int;
        let before = roots_plan(m, nodes, i - 1, parent, ids.take(start), skin, joints, handle);
        let node = nodes[i - 1];
        let after = node_plan(
            before.0,
            node,
            parent,
            skin.contains(node.index),
            ids.subrange(start, start + node_entity_count(node)),
            skin,
            joints,
            handle,
        );
        (after.0, before.1 + after.1)
    }
}

/// Every entity made while processing a node tree as a bone tree is a bone.
pub proof fn lemma_bone_node_makes_bones(
    m: SceneModel,
    node: GltfNode,
    parent: u64,
    ids: Seq<u64>,
    skin: Set<u32>,
    joints: Map<u32, u32>,
    handle: ResourceHandle,
)
    ensures
        forall|k: int|
            0 <= k < node_plan(m, node, parent, true, ids, skin, joints, handle).1.len() ==> (#[trigger] node_plan(
                m,
                node,
                parent,
                true,
                ids,
                skin,
                joints,
                handle,
            ).1[k]).bone is Some,
    decreases node, 0nat,
{
    match node.mesh {
        Some(_) => {},
        None => {
            assert(decreases_to!(node => node.children));
            assert(decreases_to!(node.children => node.children@));
            lemma_bone_children_make_bones(
                m,
                node.children@,
                node.children@.len() as int,
                parent,
                ids,
                skin,
                joints,
                handle,
            );
        },
    }
}

/// Every entity made while processing the first `i` children of a bone is a
/// bone.
pub proof fn lemma_bone_children_make_bones(
    m: SceneModel,
    children: Seq<GltfNode>,
    i: int,
    parent: u64,
    ids: Seq<u64>,
    skin: Set<u32>,
    joints: Map<u32, u32>,
    handle: ResourceHandle,
)
    ensures
        forall|k: int|
            0 <= k < children_plan(m, children, i, parent, true, ids, skin, joints, handle).1.len() ==> (
            #[trigger] children_plan(m, children, i, parent, true, ids, skin, joints, handle).1[k]).bone is Some,
    decreases children, i,
{
    if i <= 0 || i > children.len() {
    } else {
        let start: int = children_entity_count(children, i - 1) as int;
        lemma_bone_children_make_bones(m, children, i - 1, parent, ids.take(start), skin, joints, handle);
        let before = children_plan(m, children, i - 1, parent, true, ids.take(start), skin, joints, handle);
        let child = children[i - 1];
        let r = ids[start];
        let m1 = model_after_create(before.0, r, parent, name_or(child.name, "Node"@));
        let sub = ids.subrange(start + 1, start + 1 + node_entity_count(child));
        assert(decreases_to!(children => children[i - 1]));
        lemma_bone_node_makes_bones(m1, child, r, sub, skin, joints, handle);
        let after = node_plan(m1, child, r, true, sub, skin, joints, handle);
        let all = children_plan(m, children, i, parent, true, ids, skin, joints, handle).1;
        assert(all == before.1.push(all[before.1.len() as int]) + after.1);
        assert forall|k: int| 0 <= k < all.len() implies (#[trigger] all[k]).bone is Some by {
            if k < before.1.len() {
                assert(all[k] == before.1[k]);
            } else if k > before.1.len() {
                assert(all[k] == after.1[k - before.1.len() - 1]);
            }
        }
    }
}

/// What an entity made for a node says of bones: a node that is a skeleton
/// root always makes a bone, marked as a root; a bone is marked as a root
/// exactly when its node is a skeleton root, and its joint index is its
/// node's entry in the joint table (1 without one).
pub open spec fn bone_info_right(e: NodeEntity, skin: Set<u32>, joints: Map<u32, u32>) -> bool {
    &&& skin.contains(e.node_index) ==> e.bone is Some
    &&& e.bone matches Some(info) ==> info.is_root == skin.contains(e.node_index) && info.bone_id == joint_id(
        joints,
        e.node_index,
    )
}

/// Every entity made while processing a node tree has its bone information
/// right (see `bone_info_right`).
pub proof fn lemma_node_bone_info(
    m: SceneModel,
    node: GltfNode,
    parent: u64,
    is_bone: bool,
    ids: Seq<u64>,
    skin: Set<u32>,
    joints: Map<u32, u32>,
    handle: ResourceHandle,
)
    ensures
        forall|k: int|
            0 <= k < node_plan(m, node, parent, is_bone, ids, skin, joints, handle).1.len() ==> bone_info_right(
                #[trigger] node_plan(m, node, parent, is_bone, ids, skin, joints, handle).1[k],
                skin,
                joints,
            ),
    decreases node, 0nat,
{
    match node.mesh {
        Some(_) => {},
        None => {
            assert(decreases_to!(node => node.children));
            assert(decreases_to!(node.children => node.children@));
            lemma_children_bone_info(
                m,
                node.children@,
                node.children@.len() as int,
                parent,
                is_bone,
                ids,
                skin,
                joints,
                handle,
            );
            let out = node_plan(m, node, parent, is_bone, ids, skin, joints, handle).1;
            let kids = children_plan(
                m,
                node.children@,
                node.children@.len() as int,
                parent,
                is_bone,
                ids,
                skin,
                joints,
                handle,
            ).1;
            assert(out == kids);
            assert forall|k: int| 0 <= k < out.len() implies bone_info_right(#[trigger] out[k], skin, joints) by {
                assert(out[k] == kids[k]);
            }
        },
    }
}

/// Every entity made while processing the first `i` children of a node has
/// its bone information right (see `bone_info_right`).
pub proof fn lemma_children_bone_info(
    m: SceneModel,
    children: Seq<GltfNode>,
    i: int,
    parent: u64,
    is_bone: bool,
    ids: Seq<u64>,
    skin: Set<u32>,
    joints: Map<u32, u32>,
    handle: ResourceHandle,
)
    ensures
        forall|k: int|
            0 <= k < children_plan(m, children, i, parent, is_bone, ids, skin, joints, handle).1.len()
                ==> bone_info_right(
                #[trigger] children_plan(m, children, i, parent, is_bone, ids, skin, joints, handle).1[k],
                skin,
                joints,
            ),
    decreases children, i,
{
    if i <= 0 || i > children.len() {
    } else {
        let start: int = children_entity_count(children, i - 1) as int;
        lemma_children_bone_info(m, children, i - 1, parent, is_bone, ids.take(start), skin, joints, handle);
        let before = children_plan(m, children, i - 1, parent, is_bone, ids.take(start), skin, joints, handle);
        let child = children[i - 1];
        let r = ids[start];
        let child_is_bone = is_bone || skin.contains(child.index);
        let m1 = model_after_create(before.0, r, parent, name_or(child.name, "Node"@));
        let sub = ids.subrange(start + 1, start + 1 + node_entity_count(child));
        assert(decreases_to!(children => children[i - 1]));
        lemma_node_bone_info(m1, child, r, child_is_bone, sub, skin, joints, handle);
        let after = node_plan(m1, child, r, child_is_bone, sub, skin, joints, handle);
        let all = children_plan(m, children, i, parent, is_bone, ids, skin, joints, handle).1;
        assert(all == before.1.push(all[before.1.len() as int]) + after.1);
        assert forall|k: int| 0 <= k < all.len() implies bone_info_right(#[trigger] all[k], skin, joints) by {
            if k < before.1.len() {
                assert(all[k] == before.1[k]);
            } else if k > before.1.len() {
                assert(all[k] == after.1[k - before.1.len() - 1]);
            }
        }
    }
}

/// Every entity made for the first `i` scene root nodes has its bone
/// information right (see `bone_info_right`).
pub proof fn lemma_roots_bone_info(
    m: SceneModel,
    nodes: Seq<GltfNode>,
    i: int,
    parent: u64,
    ids: Seq<u64>,
    skin: Set<u32>,
    joints: Map<u32, u32>,
    handle: ResourceHandle,
)
    ensures
        forall|k: int|
            0 <= k < roots_plan(m, nodes, i, parent, ids, skin, joints, handle).1.len() ==> bone_info_right(
                #[trigger] roots_plan(m, nodes, i, parent, ids, skin, joints, handle).1[k],
                skin,
                joints,
            ),
    decreases i,
{
    if i <= 0 || i > nodes.len() {
    } else {
        let start: int = roots_entity_count(nodes, i - 1) as int;
        lemma_roots_bone_info(m, nodes, i - 1, parent, ids.take(start), skin, joints, handle);
        let before = roots_plan(m, nodes, i - 1, parent, ids.take(start), skin, joints, handle);
        let node = nodes[i - 1];
        let sub = ids.subrange(start, start + node_entity_count(node));
        lemma_node_bone_info(before.0, node, parent, skin.contains(node.index), sub, skin, joints, handle);
        let after = node_plan(before.0, node, parent, skin.contains(node.index), sub, skin, joints, handle);
        let all = roots_plan(m, nodes, i, parent, ids, skin, joints, handle).1;
        assert(all == before.1 + after.1);
        assert forall|k: int| 0 <= k < all.len() implies bone_info_right(#[trigger] all[k], skin, joints) by {
            if k < before.1.len() {
                assert(all[k] == before.1[k]);
            } else {
                assert(all[k] == after.1[k - before.1.len()]);
            }
        }
    }
}

/// A scene root node that is a skin's skeleton root makes bones only: the
/// entities made for the first `i` root nodes are those made for the first
/// `i - 1` followed by those made for root `i - 1`, and when that root is a
/// skeleton root every one of the latter is a bone.
pub proof fn lemma_skeleton_root_makes_bones(
    m: SceneModel,
    nodes: Seq<GltfNode>,
    i: int,
    parent: u64,
    ids: Seq<u64>,
    skin: Set<u32>,
    joints: Map<u32, u32>,
    handle: ResourceHandle,
)
    requires
        0 < i <= nodes.len(),
        skin.contains(nodes[i - 1].index),
    ensures
        ({
            let before = roots_plan(
                m,
                nodes,
                i - 1,
                parent,
                ids.take(roots_entity_count(nodes, i - 1) as int),
                skin,
                joints,
                handle,
            ).1;
            let all = roots_plan(m, nodes, i, parent, ids, skin, joints, handle).1;
            &&& before.len() <= all.len()
            &&& all.take(before.len() as int) == before
            &&& forall|k: int| before.len() <= k < all.len() ==> (#[trigger] all[k]).bone is Some
        }),
{
    let start: int = roots_entity_count(nodes, i - 1) as int;
    let before = roots_plan(m, nodes, i - 1, parent, ids.take(start), skin, joints, handle);
    let node = nodes[i - 1];
    let sub = ids.subrange(start, start + node_entity_count(node));
    lemma_bone_node_makes_bones(before.0, node, parent, sub, skin, joints, handle);
    let after = node_plan(before.0, node, parent, true, sub, skin, joints, handle);
    let all = roots_plan(m, nodes, i, parent, ids, skin, joints, handle).1;
    assert(all == before.1 + after.1);
    assert(all.take(before.1.len() as int) =~= before.1);
    assert forall|k: int| before.1.len() <= k < all.len() implies (#[trigger] all[k]).bone is Some by {
        assert(all[k] == after.1[k - before.1.len()]);
    }
}

/// Counting the first `i` children never exceeds counting all of them.
proof fn lemma_children_count_monotone(children: Seq<GltfNode>, i: int, j: int)
    requires
        0 <= i <= j <= children.len(),
    ensures
        children_entity_count(children, i) <= children_entity_count(children, j),
    decreases j - i,
{
    if i < j {
        lemma_children_count_monotone(children, i, j - 1);
    }
}

/// Counting the first `i` roots never exceeds counting all of them.
proof fn lemma_roots_count_monotone(nodes: Seq<GltfNode>, i: int, j: int)
    requires
        0 <= i <= j <= nodes.len(),
    ensures
        roots_entity_count(nodes, i) <= roots_entity_count(nodes, j),
    decreases j - i,
{
    if i < j {
        lemma_roots_count_monotone(nodes, i, j - 1);
    }
}

/// The skeleton roots and the joint table of a model's skins: the set of
/// skeleton root nodes, and each joint node mapped to its position in its
/// skin's joint list (a later skin overriding an earlier one).
pub fn build_skin_tables(skins: &Vec<GltfSkin>) -> (r: (HashSetWithView<u32>, HashMapWithView<u32, u32>))
    ensures
        r.0@ == skin_roots(skins@, skins@.len() as int),
        r.1@ == joint_table(skins@, skins@.len() as int),
{
    let mut skin_root_nodes: HashSetWithView<u32> = HashSetWithView::new();
    let mut joint_node_id_to_joint_id: HashMapWithView<u32, u32> = HashMapWithView::new();
    let mut i: usize = 0;
    while i < skins.len()
        invariant
            i <= skins@.len(),
            skin_root_nodes@ == skin_roots(skins@, i as int),
            joint_node_id_to_joint_id@ == joint_table(skins@, i as int),
        decreases skins@.len() - i,
    {
        let skin = &skins[i];
        match skin.skeleton {
            Some(skeleton) => {
                skin_root_nodes.insert(skeleton);
            },
            None => {},
        }
        let ghost table_before = joint_node_id_to_joint_id@;
        let mut idx: usize = 0;
        while idx < skin.joints.len()
            invariant
                skin == &skins@[i as int],
                idx <= skin.joints@.len(),
                joint_node_id_to_joint_id@ == joints_entered(table_before, skin.joints@, idx as int),
            decreases skin.joints@.len() - idx,
        {
            #[verifier::truncate]
            let joint_id = idx as u32;
            joint_node_id_to_joint_id.insert(skin.joints[idx], joint_id);
            idx = idx + 1;
        }
        i = i + 1;
    }
    (skin_root_nodes, joint_node_id_to_joint_id)
}

/// An entity stays in a consistent scene whose creation order only grows.
proof fn lemma_entity_kept(before: &Scene, after: &Scene, e: u64)
    requires
        before.wf(),
        after.wf(),
        before.hierarchy_map().dom().contains(e),
        after.entity_order().take(before.entity_order().len() as int) == before.entity_order(),
        after.entity_order().len() >= before.entity_order().len(),
    ensures
        after.hierarchy_map().dom().contains(e),
{
    before.lemma_entities_are_ordered(e);
    after.lemma_entities_are_ordered(e);
    let k = choose|k: int| 0 <= k < before.entity_order().len() && before.entity_order()[k] == e;
    assert(after.entity_order().take(before.entity_order().len() as int)[k] == e);
    assert(after.entity_order()[k] == e);
}

/// Processes a node under entity `entity_id` (see `node_plan`), the new
/// entities being made with `Scene::create_entity`; returns the entities made
/// for nodes. `guid` names the model resource that mesh entities draw.
pub fn process_gltf_child_node(
    scene: &mut Scene,
    child_node: &GltfNode,
    skin_root_nodes: &HashSetWithView<u32>,
    joint_node_id_to_joint_id: &HashMapWithView<u32, u32>,
    resource_manager: &ResourceManager,
    guid: &String,
    entity_id: u64,
    is_bone: bool,
) -> (out: Vec<NodeEntity>)
    requires
        old(scene).wf(),
        old(scene).hierarchy_map().dom().contains(entity_id),
        resource_manager.resources().dom().contains(guid@),
        old(scene).entity_order().len() + node_entity_count(*child_node) <= world_slot_limit(),
        old(scene).entity_order().len() + node_entity_count(*child_node) <= usize::MAX,
    ensures
        final(scene).wf(),
        forall|e: u64| old(scene).hierarchy_map().dom().contains(e) ==> #[trigger] final(scene).hierarchy_map().dom().contains(e),
        final(scene).entity_order().len() == old(scene).entity_order().len() + node_entity_count(*child_node),
        final(scene).entity_order().take(old(scene).entity_order().len() as int) == old(scene).entity_order(),
        (final(scene).model(), out@) == node_plan(
            old(scene).model(),
            *child_node,
            entity_id,
            is_bone,
            final(scene).entity_order().skip(old(scene).entity_order().len() as int),
            skin_root_nodes@,
            joint_node_id_to_joint_id@,
            resource_manager.handle_of(guid@),
        ),
    decreases child_node,
{
    let ghost m0 = scene.model();
    let ghost n0 = scene.entity_order().len() as int;
    proof {
        scene.lemma_has_root(entity_id);
    }
    match &child_node.mesh {
        Some(mesh) => {
            let name = match &mesh.name {
                Some(n) => n.clone(),
                None => String::from_str("Mesh"),
            };
            let new_entity_id = scene.create_entity(Some(name), Some(entity_id));
            MeshRenderer::add_to_entity(scene, new_entity_id, resource_manager, guid.clone(), Some(mesh.index));
            proof {
                assert(scene.entity_order().skip(n0) =~= seq![new_entity_id]);
                assert(scene.entity_order().take(n0) =~= old(scene).entity_order());
                assert forall|e: u64| old(scene).hierarchy_map().dom().contains(e) implies #[trigger] scene.hierarchy_map().dom().contains(e) by {
                    lemma_entity_kept(old(scene), scene, e);
                }
            }
            Vec::new()
        },
        None => {
            let children = &child_node.children;
            let mut out: Vec<NodeEntity> = Vec::new();
            let mut i: usize = 0;
            proof {
                assert(scene.entity_order().skip(n0) =~= Seq::<u64>::empty());
                assert(scene.entity_order().take(n0) =~= old(scene).entity_order());
                lemma_children_count_monotone(children@, 0, children@.len() as int);
            }
            while i < children.len()
                invariant
                    children == &child_node.children,
                    child_node.mesh is None,
                    i <= children@.len(),
                    scene.wf(),
                    scene.hierarchy_map().dom().contains(entity_id),
                    resource_manager.resources().dom().contains(guid@),
                    n0 == old(scene).entity_order().len(),
                    m0 == old(scene).model(),
                    n0 + children_entity_count(children@, children@.len() as int) <= world_slot_limit(),
                    n0 + children_entity_count(children@, children@.len() as int) <= usize::MAX,
                    scene.entity_order().len() == n0 + children_entity_count(children@, i as int),
                    scene.entity_order().take(n0) == old(scene).entity_order(),
                    (scene.model(), out@) == children_plan(
                        m0,
                        children@,
                        i as int,
                        entity_id,
                        is_bone,
                        scene.entity_order().skip(n0),
                        skin_root_nodes@,
                        joint_node_id_to_joint_id@,
                        resource_manager.handle_of(guid@),
                    ),
                decreases children@.len() - i,
            {
                let child = &children[i];
                let ghost before_order = scene.entity_order();
                let ghost before_out = out@;
                let ghost before_model = scene.model();
                proof {
                    lemma_children_count_monotone(children@, i as int + 1, children@.len() as int);
                    scene.lemma_has_root(entity_id);
                }
                let name = match &child.name {
                    Some(n) => n.clone(),
                    None => String::from_str("Node"),
                };
                let new_entity_id = scene.create_entity(Some(name), Some(entity_id));
                proof {
                    assert(scene.entity_order() == before_order.push(new_entity_id));
                }
                let is_skin_root = skin_root_nodes.contains(&child.index);
                let child_is_bone = is_bone || is_skin_root;
                let bone = if child_is_bone {
                    let bone_id = match joint_node_id_to_joint_id.get(&child.index) {
                        Some(id) => *id,
                        None => 1,
                    };
                    Some(BoneInfo { is_root: is_skin_root, bone_id })
                } else {
                    None
                };
                out.push(NodeEntity { entity_id: new_entity_id, node_index: child.index, bone });
                let ghost mid_order = scene.entity_order();
                let ghost mid_model = scene.model();
                proof {
                    assert(mid_order.len() == n0 + children_entity_count(children@, i as int) + 1);
                }
                let mut sub = process_gltf_child_node(
                    scene,
                    child,
                    skin_root_nodes,
                    joint_node_id_to_joint_id,
                    resource_manager,
                    guid,
                    new_entity_id,
                    child_is_bone,
                );
                let ghost sub_out = sub@;
                out.append(&mut sub);
                proof {
                    let ids = scene.entity_order().skip(n0);
                    let start = children_entity_count(children@, i as int) as int;
                    assert(scene.entity_order().take(mid_order.len() as int) == mid_order);
                    assert forall|k: int| 0 <= k < mid_order.len() implies scene.entity_order()[k] == mid_order[k] by {
                        assert(scene.entity_order().take(mid_order.len() as int)[k] == scene.entity_order()[k]);
                    }
                    assert(mid_order == before_order.push(new_entity_id));
                    assert(before_order.len() == n0 + start);
                    assert(ids.len() == scene.entity_order().len() - n0);
                    assert forall|k: int| 0 <= k < start implies #[trigger] ids.take(start)[k] == before_order.skip(n0)[k] by {
                        assert(ids[k] == scene.entity_order()[n0 + k]);
                        assert(mid_order[n0 + k] == before_order[n0 + k]);
                    }
                    assert(ids.take(start) =~= before_order.skip(n0));
                    assert(ids[start] == scene.entity_order()[n0 + start]);
                    assert(mid_order[n0 + start] == new_entity_id);
                    assert(ids[start] == new_entity_id);
                    assert(ids.subrange(start + 1, start + 1 + node_entity_count(*child)) =~= scene.entity_order().skip(
                        mid_order.len() as int,
                    ));
                    assert(scene.entity_order().take(n0) =~= old(scene).entity_order()) by {
                        assert(scene.entity_order().take(mid_order.len() as int) == mid_order);
                        assert(mid_order.take(n0) =~= before_order.take(n0));
                    }
                    assert(out@ =~= before_out.push(NodeEntity { entity_id: new_entity_id, node_index: child.index, bone }) + sub_out);
                }
                i = i + 1;
            }
            proof {
                assert(scene.entity_order().len() == n0 + node_entity_count(*child_node));
                assert forall|e: u64| old(scene).hierarchy_map().dom().contains(e) implies #[trigger] scene.hierarchy_map().dom().contains(e) by {
                    lemma_entity_kept(old(scene), scene, e);
                }
            }
            out
        },
    }
}

/// Adds the entities of a glTF model's scenes under entity `entity_id`: the
/// skin tables are built, then each root node is processed (see `roots_plan`).
/// The model resource `guid` must be known to the resource manager. Returns
/// the entities made for nodes.
pub fn add_gltf_scene(
    scene: &mut Scene,
    entity_id: u64,
    resource_manager: &ResourceManager,
    guid: String,
    document: &GltfDocument,
) -> (out: Vec<NodeEntity>)
    requires
        old(scene).wf(),
        old(scene).hierarchy_map().dom().contains(entity_id),
        resource_manager.resources().dom().contains(guid@),
        old(scene).entity_order().len() + roots_entity_count(document.nodes@, document.nodes@.len() as int)
            <= world_slot_limit(),
        old(scene).entity_order().len() + roots_entity_count(document.nodes@, document.nodes@.len() as int)
            <= usize::MAX,
    ensures
        final(scene).wf(),
        final(scene).entity_order().len() == old(scene).entity_order().len() + roots_entity_count(
            document.nodes@,
            document.nodes@.len() as int,
        ),
        final(scene).entity_order().take(old(scene).entity_order().len() as int) == old(scene).entity_order(),
        (final(scene).model(), out@) == roots_plan(
            old(scene).model(),
            document.nodes@,
            document.nodes@.len() as int,
            entity_id,
            final(scene).entity_order().skip(old(scene).entity_order().len() as int),
            skin_roots(document.skins@, document.skins@.len() as int),
            joint_table(document.skins@, document.skins@.len() as int),
            resource_manager.handle_of(guid@),
        ),
        forall|k: int|
            0 <= k < out@.len() ==> bone_info_right(
                #[trigger] out@[k],
                skin_roots(document.skins@, document.skins@.len() as int),
                joint_table(document.skins@, document.skins@.len() as int),
            ),
{
    let (skin_root_nodes, joint_node_id_to_joint_id) = build_skin_tables(&document.skins);
    let nodes = &document.nodes;
    let ghost m0 = scene.model();
    let ghost n0 = scene.entity_order().len() as int;
    let mut out: Vec<NodeEntity> = Vec::new();
    let mut i: usize = 0;
    proof {
        assert(scene.entity_order().skip(n0) =~= Seq::<u64>::empty());
        assert(scene.entity_order().take(n0) =~= old(scene).entity_order());
    }
    while i < nodes.len()
        invariant
            nodes == &document.nodes,
            i <= nodes@.len(),
            scene.wf(),
            scene.hierarchy_map().dom().contains(entity_id),
            resource_manager.resources().dom().contains(guid@),
            n0 == old(scene).entity_order().len(),
            m0 == old(scene).model(),
            skin_root_nodes@ == skin_roots(document.skins@, document.skins@.len() as int),
            joint_node_id_to_joint_id@ == joint_table(document.skins@, document.skins@.len() as int),
            n0 + roots_entity_count(nodes@, nodes@.len() as int) <= world_slot_limit(),
            n0 + roots_entity_count(nodes@, nodes@.len() as int) <= usize::MAX,
            scene.entity_order().len() == n0 + roots_entity_count(nodes@, i as int),
            scene.entity_order().take(n0) == old(scene).entity_order(),
            (scene.model(), out@) == roots_plan(
                m0,
                nodes@,
                i as int,
                entity_id,
                scene.entity_order().skip(n0),
                skin_root_nodes@,
                joint_node_id_to_joint_id@,
                resource_manager.handle_of(guid@),
            ),
        decreases nodes@.len() - i,
    {
        let node = &nodes[i];
        let ghost before_order = scene.entity_order();
        let ghost before_out = out@;
        proof {
            lemma_roots_count_monotone(nodes@, i as int + 1, nodes@.len() as int);
        }
        let is_bone = skin_root_nodes.contains(&node.index);
        let mut sub = process_gltf_child_node(
            scene,
            node,
            &skin_root_nodes,
            &joint_node_id_to_joint_id,
            resource_manager,
            &guid,
            entity_id,
            is_bone,
        );
        let ghost sub_out = sub@;
        out.append(&mut sub);
        proof {
            let ids = scene.entity_order().skip(n0);
            let start = roots_entity_count(nodes@, i as int) as int;
            assert forall|k: int| 0 <= k < before_order.len() implies scene.entity_order()[k] == before_order[k] by {
                assert(scene.entity_order().take(before_order.len() as int)[k] == scene.entity_order()[k]);
            }
            assert(ids.take(start) =~= before_order.skip(n0));
            assert(ids.subrange(start, start + node_entity_count(*node)) =~= scene.entity_order().skip(
                before_order.len() as int,
            ));
            assert(scene.entity_order().take(n0) =~= old(scene).entity_order()) by {
                assert(scene.entity_order().take(before_order.len() as int) == before_order);
                assert(before_order.take(n0) =~= old(scene).entity_order());
            }
            assert(out@ =~= before_out + sub_out);
        }
        i = i + 1;
    }
    proof {
        lemma_roots_bone_info(
            m0,
            nodes@,
            nodes@.len() as int,
            entity_id,
            scene.entity_order().skip(n0),
            skin_root_nodes@,
            joint_node_id_to_joint_id@,
            resource_manager.handle_of(guid@),
        );
        let planned = roots_plan(
            m0,
            nodes@,
            nodes@.len() as int,
            entity_id,
            scene.entity_order().skip(n0),
            skin_root_nodes@,
            joint_node_id_to_joint_id@,
            resource_manager.handle_of(guid@),
        ).1;
        assert(out@ == planned);
        assert forall|k: int| 0 <= k < out@.len() implies bone_info_right(
            #[trigger] out@[k],
            skin_roots(document.skins@, document.skins@.len() as int),
            joint_table(document.skins@, document.skins@.len() as int),
        ) by {
            assert(out@[k] == planned[k]);
        }
    }
    out
}


/// How many entities adding a node's tree makes (see `node_entity_count`);
/// `None` when that is more than `usize::MAX`.
pub fn gltf_node_entity_count(node: &GltfNode) -> (r: Option<usize>)
    ensures
        match r {
            Some(n) => n == node_entity_count(*node),
            None => node_entity_count(*node) > usize::MAX,
        },
    decreases node,
{
    if node.mesh.is_some() {
        return Some(1);
    }
    let mut total: usize = 0;
    let mut i: usize = 0;
    while i < node.children.len()
        invariant
            node.mesh is None,
            i <= node.children@.len(),
            total == children_entity_count(node.children@, i as int),
        decreases node.children@.len() - i,
    {
        proof {
            assert(decreases_to!(node => node.children));
            assert(decreases_to!(node.children => node.children@));
            assert(decreases_to!(node.children@ => node.children@[i as int]));
            lemma_children_count_monotone(node.children@, i as int + 1, node.children@.len() as int);
        }
        let next = match gltf_node_entity_count(&node.children[i]) {
            Some(n) => match n.checked_add(1) {
                Some(m) => total.checked_add(m),
                None => None,
            },
            None => None,
        };
        match next {
            Some(t) => {
                total = t;
            },
            None => {
                return None;
            },
        }
        i = i + 1;
    }
    Some(total)
}

/// How many entities adding a model's node tree makes (see
/// `roots_entity_count`); `None` when that is more than `usize::MAX`.
pub fn gltf_entity_count(document: &GltfDocument) -> (r: Option<usize>)
    ensures
        match r {
            Some(n) => n == roots_entity_count(document.nodes@, document.nodes@.len() as int),
            None => roots_entity_count(document.nodes@, document.nodes@.len() as int) > usize::MAX,
        },
{
    let mut total: usize = 0;
    let mut i: usize = 0;
    while i < document.nodes.len()
        invariant
            i <= document.nodes@.len(),
            total == roots_entity_count(document.nodes@, i as int),
        decreases document.nodes@.len() - i,
    {
        proof {
            lemma_roots_count_monotone(document.nodes@, i as int + 1, document.nodes@.len() as int);
        }
        match gltf_node_entity_count(&document.nodes[i]) {
            Some(n) => match total.checked_add(n) {
                Some(t) => {
                    total = t;
                },
                None => {
                    return None;
                },
            },
            None => {
                return None;
            },
        }
        i = i + 1;
    }
    Some(total)
}

/// Whether the scene `m1` is the scene `m0` with the node tree of `document`
/// added under entity `entity_id` for the model resource `handle`, `out`
/// being the entities made for nodes (see `roots_plan`).
pub open spec fn gltf_model_added(
    m0: SceneModel,
    m1: SceneModel,
    entity_id: u64,
    handle: ResourceHandle,
    document: GltfDocument,
    out: Seq<NodeEntity>,
) -> bool {
    let n0 = m0.order.len();
    &&& m1.order.len() == n0 + roots_entity_count(document.nodes@, document.nodes@.len() as int)
    &&& m1.order.take(n0 as int) == m0.order
    &&& (m1, out) == roots_plan(
        m0,
        document.nodes@,
        document.nodes@.len() as int,
        entity_id,
        m1.order.skip(n0 as int),
        skin_roots(document.skins@, document.skins@.len() as int),
        joint_table(document.skins@, document.skins@.len() as int),
        handle,
    )
}

/// Whether `after` is `before` with the node tree of `document` added under
/// entity `entity_id` for the model resource `handle`, `out` being the
/// entities made for nodes (what `add_gltf_scene` ensures).
pub open spec fn gltf_scene_added(
    before: Scene,
    after: Scene,
    entity_id: u64,
    handle: ResourceHandle,
    document: GltfDocument,
    out: Seq<NodeEntity>,
) -> bool {
    &&& after.wf()
    &&& gltf_model_added(before.model(), after.model(), entity_id, handle, document, out)
}

/// Whether adding `document` under a scene of `n0` entities stays within the
/// world's entity slots and `usize`.
pub open spec fn gltf_scene_fits(n0: nat, document: GltfDocument) -> bool {
    &&& n0 + roots_entity_count(document.nodes@, document.nodes@.len() as int) <= world_slot_limit()
    &&& n0 + roots_entity_count(document.nodes@, document.nodes@.len() as int) <= usize::MAX
}

/// Reads a glTF model file and adds its node tree under entity `entity_id`
/// (see `gltf_document_from_slice` and `add_gltf_scene`), the model resource
/// `guid` being known to the resource manager. Returns the entities made for
/// nodes; `None`, with the scene unchanged, when the file cannot be read into
/// a node tree or its entities would not fit in the scene.
pub fn add_gltf_scene_from_bytes(
    scene: &mut Scene,
    entity_id: u64,
    resource_manager: &ResourceManager,
    guid: String,
    bytes: &[u8],
) -> (r: Option<Vec<NodeEntity>>)
    requires
        old(scene).wf(),
        old(scene).hierarchy_map().dom().contains(entity_id),
        resource_manager.resources().dom().contains(guid@),
    ensures
        r is None ==> *final(scene) == *old(scene),
        gltf_file_table(bytes@) is None ==> r is None,
        gltf_file_table(bytes@) matches Some(t) && document_fails(t) ==> r is None,
        gltf_file_table(bytes@) matches Some(t) && !document_fails(t) && (forall|d: GltfDocument|
            #[trigger] document_built(t, d) ==> gltf_scene_fits(old(scene).entity_order().len(), d)) ==> r is Some,
        r matches Some(out) ==> (gltf_file_table(bytes@) matches Some(t) && exists|d: GltfDocument|
            #[trigger] document_built(t, d) && gltf_scene_added(
                *old(scene),
                *final(scene),
                entity_id,
                resource_manager.handle_of(guid@),
                d,
                out@,
            )),
{
    let document = match gltf_document_from_slice(bytes) {
        Some(d) => d,
        None => {
            return None;
        },
    };
    let count = match gltf_entity_count(&document) {
        Some(n) => n,
        None => {
            return None;
        },
    };
    let existing = scene.get_entities_with_component().len();
    let total = match existing.checked_add(count) {
        Some(t) => t,
        None => {
            return None;
        },
    };
    if total as u64 > 0xffff_ffff_ffffu64 {
        return None;
    }
    let out = add_gltf_scene(scene, entity_id, resource_manager, guid, &document);
    proof {
        assert(document_built(gltf_file_table(bytes@)->0, document));
    }
    Some(out)
}


impl MeshRenderer {
    /// Gives an entity a `MeshRenderer` that draws mesh `mesh_idx` of the
    /// model resource `guid` (see `MeshRenderer::add_to_entity`) and, when
    /// `create_child_nodes` is set, adds the node tree of the model file
    /// `model_bytes` under the entity (see `add_gltf_scene_from_bytes`).
    /// Returns the entities made for nodes (none when no nodes are asked
    /// for); `None`, with only the component added, when the nodes are asked
    /// for and the file cannot be read into a node tree or its entities would
    /// not fit in the scene.
    pub fn add_to_entity_with_nodes(
        scene: &mut Scene,
        entity_handle: u64,
        resource_manager: &ResourceManager,
        guid: String,
        create_child_nodes: bool,
        mesh_idx: Option<usize>,
        model_bytes: &[u8],
    ) -> (r: Option<Vec<NodeEntity>>)
        requires
            old(scene).wf(),
            old(scene).hierarchy_map().dom().contains(entity_handle),
            resource_manager.resources().dom().contains(guid@),
        ensures
            ({
                let handle = resource_manager.handle_of(guid@);
                let with_component = SceneModel {
                    meshes: old(scene).model().meshes.insert(
                        entity_handle,
                        MeshRenderer { resource_handle: Some(handle), mesh_idx },
                    ),
                    ..old(scene).model()
                };
                let table = gltf_file_table(model_bytes@);
                &&& final(scene).wf()
                &&& !create_child_nodes ==> (r matches Some(out) && out@.len() == 0 && final(scene).model()
                    == with_component)
                &&& r is None ==> create_child_nodes && final(scene).model() == with_component
                &&& create_child_nodes && table is None ==> r is None
                &&& create_child_nodes ==> (table matches Some(t) && document_fails(t) ==> r is None)
                &&& create_child_nodes ==> (table matches Some(t) && !document_fails(t) && (forall|d: GltfDocument|
                    #[trigger] document_built(t, d) ==> gltf_scene_fits(old(scene).entity_order().len(), d))
                    ==> r is Some)
                &&& create_child_nodes ==> (r matches Some(out) ==> (table matches Some(t) && exists|
                    d: GltfDocument,
                |
                    #[trigger] document_built(t, d) && gltf_model_added(
                        with_component,
                        final(scene).model(),
                        entity_handle,
                        handle,
                        d,
                        out@,
                    )))
            }),
    {
        MeshRenderer::add_to_entity(scene, entity_handle, resource_manager, guid.clone(), mesh_idx);
        if create_child_nodes {
            add_gltf_scene_from_bytes(scene, entity_handle, resource_manager, guid, model_bytes)
        } else {
            Some(Vec::new())
        }
    }
}

} // verus!
