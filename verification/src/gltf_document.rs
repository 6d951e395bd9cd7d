//! Reading a glTF model file into the node tree the scene builds from: the
//! gltf crate parses the file into its lists of nodes, scene roots and skins,
//! and the tree of each scene root is built from those lists here.

use gltf::Gltf;
use vstd::prelude::*;

use crate::gltf_scene::{GltfDocument, GltfMesh, GltfNode, GltfSkin};

verus! {

/// A node as the model file lists it: its name, its mesh (the mesh's index
/// and name), and the positions of its children in the file's node list.
pub struct GltfNodeEntry(pub Option<String>, pub Option<(usize, Option<String>)>, pub Vec<usize>);

/// The lists of a model file: its nodes in file order, the root nodes of its
/// scenes (scene by scene), and its skins (each with its skeleton root node
/// and its joint nodes), nodes given by their positions in the node list.
pub struct GltfTable(pub Vec<GltfNodeEntry>, pub Vec<usize>, pub Vec<(Option<usize>, Vec<usize>)>);

/// What `gltf::Gltf::from_slice` reads from the bytes of a model file, as the
/// lists of `GltfTable`; `None` where it returns an error. Parsing reads
/// nothing but the bytes.
pub uninterp spec fn parsed_gltf_table(bytes: Seq<u8>) -> Option<GltfTable>;

/// Whether the bytes start with a binary glTF header (the magic `glTF`) whose
/// little-endian length field, at bytes 8 to 11, is below the header's own
/// 12 bytes. `gltf::Gltf::from_slice` subtracts 12 from that field without a
/// check, so it does not return normally on such bytes in a build that
/// checks overflow.
pub open spec fn glb_length_below_header(bytes: Seq<u8>) -> bool {
    &&& bytes.len() >= 12
    &&& bytes[0] == 0x67u8 && bytes[1] == 0x6cu8 && bytes[2] == 0x54u8 && bytes[3] == 0x46u8
    &&& bytes[8] < 12 && bytes[9] == 0 && bytes[10] == 0 && bytes[11] == 0
}

/// The lists read from a model file: what gltf parses, `None` where it
/// returns an error, a binary header whose length field is below 12 included.
pub open spec fn gltf_file_table(bytes: Seq<u8>) -> Option<GltfTable> {
    if glb_length_below_header(bytes) {
        None
    } else {
        parsed_gltf_table(bytes)
    }
}

/// Whether the bytes start with such a header (see `glb_length_below_header`).
fn has_glb_length_below_header(bytes: &[u8]) -> (r: bool)
    ensures
        r == glb_length_below_header(bytes@),
{
    bytes.len() >= 12 && bytes[0] == 0x67u8 && bytes[1] == 0x6cu8 && bytes[2] == 0x54u8 && bytes[3] == 0x46u8
        && bytes[8] < 12 && bytes[9] == 0 && bytes[10] == 0 && bytes[11] == 0
}

/// Calls `gltf::Gltf::from_slice` (which parses and validates a binary or
/// JSON glTF file) and lists what it read: each node's name, mesh and
/// children, each scene's root nodes, each skin's skeleton and joints, in the
/// order the gltf iterators give them. `None` when it returns an error. The
/// bytes must not start with a binary header whose length field is below 12.
#[verifier::external_body]
fn gltf_table_from_slice(bytes: &[u8]) -> (r: Option<GltfTable>)
    requires
        !glb_length_below_header(bytes@),
    ensures
        r == parsed_gltf_table(bytes@),
{
    Gltf::from_slice(bytes).ok().map(|g| GltfTable(
        g.nodes().map(|n| GltfNodeEntry(
            n.name().map(str::to_string),
            n.mesh().map(|m| (m.index(), m.name().map(str::to_string))),
            n.children().map(|c| c.index()).collect(),
        )).collect(),
        g.scenes().flat_map(|s| s.nodes()).map(|n| n.index()).collect(),
        g.skins().map(|s| (s.skeleton().map(|n| n.index()), s.joints().map(|j| j.index()).collect())).collect(),
    ))
}

/// An optional name as text.
pub open spec fn name_view(name: Option<String>) -> Option<Seq<char>> {
    match name {
        Some(n) => Some(n@),
        None => None,
    }
}

/// Whether a node's mesh is the one the file lists for it.
pub open spec fn mesh_matches(mesh: Option<GltfMesh>, entry: Option<(usize, Option<String>)>) -> bool {
    match (mesh, entry) {
        (Some(m), Some(e)) => m.index == e.0 && name_view(m.name) == name_view(e.1),
        (None, None) => true,
        _ => false,
    }
}

/// Whether building the tree of node `idx` within `depth` levels fails: the
/// depth is used up (the children links loop back), the node is not in the
/// list or its position does not fit a `u32`, or the tree of a child fails.
pub open spec fn tree_fails(table: GltfTable, idx: usize, depth: nat) -> bool
    decreases depth,
{
    if depth == 0 || idx >= table.0@.len() || idx > u32::MAX {
        true
    } else {
        exists|i: int|
            0 <= i < table.0@[idx as int].2@.len() && tree_fails(
                table,
                #[trigger] table.0@[idx as int].2@[i],
                (depth - 1) as nat,
            )
    }
}

/// Whether `node` is the tree of node `idx` built within `depth` levels: it
/// has the node's position, name and mesh, and one child for each child the
/// file lists, in order, each the tree of that child.
pub open spec fn node_tree(table: GltfTable, idx: usize, depth: nat, node: GltfNode) -> bool
    decreases depth,
{
    if depth == 0 || idx >= table.0@.len() || idx > u32::MAX {
        false
    } else {
        let entry = table.0@[idx as int];
        &&& node.index == idx as u32
        &&& name_view(node.name) == name_view(entry.0)
        &&& mesh_matches(node.mesh, entry.1)
        &&& node.children@.len() == entry.2@.len()
        &&& forall|i: int|
            0 <= i < entry.2@.len() ==> node_tree(table, entry.2@[i], (depth - 1) as nat, #[trigger] node.children@[i])
    }
}

/// Whether a skin is the one the file lists.
pub open spec fn skin_matches(skin: GltfSkin, entry: (Option<usize>, Vec<usize>)) -> bool {
    &&& match entry.0 {
        Some(s) => skin.skeleton == Some(s as u32),
        None => skin.skeleton is None,
    }
    &&& skin.joints@.len() == entry.1@.len()
    &&& forall|j: int| 0 <= j < entry.1@.len() ==> skin.joints@[j] == #[trigger] entry.1@[j] as u32
}

/// Whether every node a skin names has a position that fits a `u32`.
pub open spec fn skin_fits(entry: (Option<usize>, Vec<usize>)) -> bool {
    &&& (entry.0 matches Some(s) ==> s <= u32::MAX)
    &&& forall|j: int| 0 <= j < entry.1@.len() ==> #[trigger] entry.1@[j] <= u32::MAX
}

/// Whether building the model's tree fails: the tree of a scene root fails
/// within as many levels as the file has nodes (a deeper tree repeats a node,
/// so its children links loop), or a skin names a node beyond `u32`.
pub open spec fn document_fails(table: GltfTable) -> bool {
    ||| exists|i: int| 0 <= i < table.1@.len() && #[trigger] tree_fails(table, table.1@[i], table.0@.len())
    ||| exists|i: int| 0 <= i < table.2@.len() && !skin_fits(#[trigger] table.2@[i])
}

/// Whether `document` is the model the file lists: the tree of each scene
/// root, in order, and each skin.
pub open spec fn document_built(table: GltfTable, document: GltfDocument) -> bool {
    &&& document.nodes@.len() == table.1@.len()
    &&& forall|i: int|
        0 <= i < table.1@.len() ==> #[trigger] node_tree(table, table.1@[i], table.0@.len(), document.nodes@[i])
    &&& document.skins@.len() == table.2@.len()
    &&& forall|i: int| 0 <= i < table.2@.len() ==> #[trigger] skin_matches(document.skins@[i], table.2@[i])
}

/// Whether `rank` ranks the nodes of the file below its node count, each
/// child below its parent: then no path of children links repeats a node.
/// Every node position also fits a `u32`.
pub open spec fn ranked_below_parents(table: GltfTable, rank: spec_fn(usize) -> nat) -> bool {
    &&& table.0@.len() <= u32::MAX as int + 1
    &&& forall|i: usize| 0 <= i < table.0@.len() ==> #[trigger] rank(i) < table.0@.len()
    &&& forall|i: usize, j: int|
        0 <= i < table.0@.len() && 0 <= j < table.0@[i as int].2@.len() ==> {
            &&& #[trigger] table.0@[i as int].2@[j] < table.0@.len()
            &&& rank(table.0@[i as int].2@[j]) < rank(i)
        }
}

/// A node whose tree has no path of children links that repeats a node is
/// built within any number of levels above its rank.
pub proof fn lemma_ranked_tree_builds(table: GltfTable, rank: spec_fn(usize) -> nat, idx: usize, depth: nat)
    requires
        ranked_below_parents(table, rank),
        idx < table.0@.len(),
        rank(idx) < depth,
    ensures
        !tree_fails(table, idx, depth),
    decreases depth,
{
    let entry = table.0@[idx as int];
    assert forall|j: int| 0 <= j < entry.2@.len() implies !tree_fails(table, #[trigger] entry.2@[j], (depth - 1) as nat) by {
        lemma_ranked_tree_builds(table, rank, entry.2@[j], (depth - 1) as nat);
    }
}

/// A file whose scene roots are nodes of the file, whose children links
/// never loop back (they rank each child below its parent), and whose skins
/// name nodes within `u32`, is read into its node tree: building it does not
/// fail, so `gltf_document_from_table` and `gltf_document_from_slice` give
/// `Some`.
pub proof fn lemma_acyclic_file_builds(table: GltfTable, rank: spec_fn(usize) -> nat)
    requires
        ranked_below_parents(table, rank),
        forall|i: int| 0 <= i < table.1@.len() ==> #[trigger] table.1@[i] < table.0@.len(),
        forall|i: int| 0 <= i < table.2@.len() ==> skin_fits(#[trigger] table.2@[i]),
    ensures
        !document_fails(table),
{
    assert forall|i: int| 0 <= i < table.1@.len() implies !#[trigger] tree_fails(table, table.1@[i], table.0@.len()) by {
        lemma_ranked_tree_builds(table, rank, table.1@[i], table.0@.len());
    }
}

/// `lemma_acyclic_file_builds`, with its conditions as an implication.
proof fn lemma_ranked_file_builds(table: GltfTable)
    ensures
        (exists|rank: spec_fn(usize) -> nat| ranked_below_parents(table, rank)) && (forall|i: int|
            0 <= i < table.1@.len() ==> #[trigger] table.1@[i] < table.0@.len()) && (forall|i: int|
            0 <= i < table.2@.len() ==> skin_fits(#[trigger] table.2@[i])) ==> !document_fails(table),
{
    if exists|rank: spec_fn(usize) -> nat| ranked_below_parents(table, rank) {
        let rank = choose|rank: spec_fn(usize) -> nat| ranked_below_parents(table, rank);
        if (forall|i: int| 0 <= i < table.1@.len() ==> #[trigger] table.1@[i] < table.0@.len()) && (forall|i: int|
            0 <= i < table.2@.len() ==> skin_fits(#[trigger] table.2@[i])) {
            lemma_acyclic_file_builds(table, rank);
        }
    }
}

/// A copy of an optional name.
fn copy_name(name: &Option<String>) -> (r: Option<String>)
    ensures
        name_view(r) == name_view(*name),
{
    match name {
        Some(n) => Some(n.clone()),
        None => None,
    }
}

/// Builds the tree of node `idx` within `depth` levels (see `node_tree`);
/// `None` where that fails (see `tree_fails`).
pub fn build_node_tree(table: &GltfTable, idx: usize, depth: usize) -> (r: Option<GltfNode>)
    ensures
        r is None <==> tree_fails(*table, idx, depth as nat),
        r matches Some(n) ==> node_tree(*table, idx, depth as nat, n),
    decreases depth,
{
    if depth == 0 || idx >= table.0.len() || idx > 0xffff_ffffusize {
        return None;
    }
    let entry = &table.0[idx];
    let mut children: Vec<GltfNode> = Vec::new();
    let mut i: usize = 0;
    while i < entry.2.len()
        invariant
            0 < depth,
            idx < table.0@.len(),
            idx <= u32::MAX,
            *entry == table.0@[idx as int],
            i <= entry.2@.len(),
            children@.len() == i,
            forall|j: int| 0 <= j < i ==> node_tree(*table, entry.2@[j], (depth - 1) as nat, #[trigger] children@[j]),
            forall|j: int| 0 <= j < i ==> !tree_fails(*table, #[trigger] entry.2@[j], (depth - 1) as nat),
        decreases entry.2@.len() - i,
    {
        match build_node_tree(table, entry.2[i], depth - 1) {
            None => {
                proof {
                    assert(table.0@[idx as int].2@[i as int] == entry.2@[i as int]);
                }
                return None;
            },
            Some(child) => {
                children.push(child);
            },
        }
        i = i + 1;
    }
    let mesh = match &entry.1 {
        Some(m) => Some(GltfMesh { index: m.0, name: copy_name(&m.1) }),
        None => None,
    };
    let node = GltfNode { index: idx as u32, name: copy_name(&entry.0), mesh, children };
    proof {
        assert forall|j: int| 0 <= j < entry.2@.len() implies #[trigger] node_tree(
            *table,
            entry.2@[j],
            (depth - 1) as nat,
            node.children@[j],
        ) by {
            assert(node.children@[j] == children@[j]);
        }
        assert(!tree_fails(*table, idx, depth as nat));
    }
    Some(node)
}

/// Builds a skin from the file's entry; `None` where a node it names does
/// not fit a `u32`.
fn build_skin(entry: &(Option<usize>, Vec<usize>)) -> (r: Option<GltfSkin>)
    ensures
        r is None <==> !skin_fits(*entry),
        r matches Some(s) ==> skin_matches(s, *entry),
{
    let skeleton = match entry.0 {
        Some(s) => {
            if s > 0xffff_ffffusize {
                return None;
            }
            Some(s as u32)
        },
        None => None,
    };
    let mut joints: Vec<u32> = Vec::new();
    let mut j: usize = 0;
    while j < entry.1.len()
        invariant
            j <= entry.1@.len(),
            joints@.len() == j,
            forall|k: int| 0 <= k < j ==> joints@[k] == #[trigger] entry.1@[k] as u32,
            forall|k: int| 0 <= k < j ==> #[trigger] entry.1@[k] <= u32::MAX,
            entry.0 matches Some(s) ==> s <= u32::MAX && skeleton == Some(s as u32),
            entry.0 is None ==> skeleton is None,
        decreases entry.1@.len() - j,
    {
        let joint = entry.1[j];
        if joint > 0xffff_ffffusize {
            return None;
        }
        joints.push(joint as u32);
        j = j + 1;
    }
    Some(GltfSkin { skeleton, joints })
}

/// Builds the model from the file's lists: the tree of each scene root within
/// as many levels as the file has nodes, and each skin (see
/// `document_built`); `None` where that fails (see `document_fails`).
pub fn gltf_document_from_table(table: &GltfTable) -> (r: Option<GltfDocument>)
    ensures
        r is None <==> document_fails(*table),
        r matches Some(d) ==> document_built(*table, d),
        (exists|rank: spec_fn(usize) -> nat| ranked_below_parents(*table, rank)) && (forall|i: int|
            0 <= i < table.1@.len() ==> #[trigger] table.1@[i] < table.0@.len()) && (forall|i: int|
            0 <= i < table.2@.len() ==> skin_fits(#[trigger] table.2@[i])) ==> r is Some,
{
    let depth = table.0.len();
    let mut nodes: Vec<GltfNode> = Vec::new();
    let mut i: usize = 0;
    while i < table.1.len()
        invariant
            depth == table.0@.len(),
            i <= table.1@.len(),
            nodes@.len() == i,
            forall|j: int| 0 <= j < i ==> node_tree(*table, table.1@[j], depth as nat, #[trigger] nodes@[j]),
            forall|j: int| 0 <= j < i ==> !tree_fails(*table, #[trigger] table.1@[j], depth as nat),
        decreases table.1@.len() - i,
    {
        match build_node_tree(table, table.1[i], depth) {
            None => {
                proof {
                    assert(tree_fails(*table, table.1@[i as int], table.0@.len()));
                }
                proof {
                    lemma_ranked_file_builds(*table);
                }
                return None;
            },
            Some(n) => {
                nodes.push(n);
            },
        }
        i = i + 1;
    }
    let mut skins: Vec<GltfSkin> = Vec::new();
    let mut k: usize = 0;
    while k < table.2.len()
        invariant
            k <= table.2@.len(),
            skins@.len() == k,
            forall|j: int| 0 <= j < k ==> skin_matches(#[trigger] skins@[j], table.2@[j]),
            forall|j: int| 0 <= j < k ==> skin_fits(#[trigger] table.2@[j]),
        decreases table.2@.len() - k,
    {
        match build_skin(&table.2[k]) {
            None => {
                proof {
                    assert(!skin_fits(table.2@[k as int]));
                }
                proof {
                    lemma_ranked_file_builds(*table);
                }
                return None;
            },
            Some(s) => {
                skins.push(s);
            },
        }
        k = k + 1;
    }
    let document = GltfDocument { nodes, skins };
    proof {
        assert forall|j: int| 0 <= j < table.1@.len() implies #[trigger] node_tree(
            *table,
            table.1@[j],
            table.0@.len(),
            document.nodes@[j],
        ) by {
            assert(document.nodes@[j] == nodes@[j]);
        }
        assert forall|j: int| 0 <= j < table.2@.len() implies #[trigger] skin_matches(
            document.skins@[j],
            table.2@[j],
        ) by {
            assert(document.skins@[j] == skins@[j]);
        }
        assert(!document_fails(*table));
    }
    Some(document)
}

/// Reads a glTF model file (binary or JSON) into its node tree: the file is
/// parsed (see `parsed_gltf_table`) and the model built from its lists (see
/// `gltf_document_from_table`). `None` where parsing or building fails (see
/// `gltf_file_table`).
pub fn gltf_document_from_slice(bytes: &[u8]) -> (r: Option<GltfDocument>)
    ensures
        match gltf_file_table(bytes@) {
            None => r is None,
            Some(table) => (r is None <==> document_fails(table)) && (r matches Some(d) ==> document_built(
                table,
                d,
            )),
        },
{
    if has_glb_length_below_header(bytes) {
        return None;
    }
    match gltf_table_from_slice(bytes) {
        None => None,
        Some(table) => gltf_document_from_table(&table),
    }
}

} // verus!
