use dream::gltf_document::gltf_document_from_slice;
use dream::gltf_scene::{
    add_gltf_scene, add_gltf_scene_from_bytes, build_skin_tables, gltf_entity_count, BoneInfo, GltfDocument, GltfMesh, GltfNode,
    GltfSkin, NodeEntity,
};
use dream::component::MeshRenderer;
use dream::resource::ResourceManager;
use dream::scene::Scene;

fn node(index: u32, name: Option<&str>, mesh: Option<(usize, Option<&str>)>, children: Vec<GltfNode>) -> GltfNode {
    GltfNode {
        index,
        name: name.map(|n| n.to_string()),
        mesh: mesh.map(|(i, n)| GltfMesh { index: i, name: n.map(|s| s.to_string()) }),
        children,
    }
}

#[test]
fn skin_tables_collect_roots_and_joint_positions() {
    let skins = vec![
        GltfSkin { skeleton: Some(5), joints: vec![5, 6, 7] },
        GltfSkin { skeleton: None, joints: vec![7, 9] },
    ];
    let (roots, joints) = build_skin_tables(&skins);
    assert!(roots.contains(&5));
    assert!(!roots.contains(&6));
    assert_eq!(joints.get(&5), Some(&0));
    assert_eq!(joints.get(&6), Some(&1));
    assert_eq!(joints.get(&7), Some(&0));
    assert_eq!(joints.get(&9), Some(&1));
    assert_eq!(joints.get(&8), None);
}

#[test]
fn gltf_nodes_become_entities() {
    // scene root node 0 without mesh, children: 1 "Arm" (no mesh, child 2 with mesh "Hand"), 3 (mesh without name)
    let document = GltfDocument {
        nodes: vec![node(
            0,
            Some("Armature"),
            None,
            vec![
                node(1, Some("Arm"), None, vec![node(2, None, Some((4, Some("Hand"))), vec![])]),
                node(3, None, Some((7, None)), vec![]),
            ],
        )],
        skins: vec![GltfSkin { skeleton: Some(1), joints: vec![1, 2] }],
    };
    let mut rm = ResourceManager::new();
    rm.insert_resource("model".to_string(), "robot.glb".to_string());
    let mut scene = Scene::create();
    let holder = scene.create_entity(Some("Robot".to_string()), None);
    let made = add_gltf_scene(&mut scene, holder, &rm, "model".to_string(), &document);

    // under the holder: entity for child 1 ("Arm") and for child 3 ("Node"), newest first
    let children = scene.get_children_for_entity(holder);
    assert_eq!(children.len(), 2);
    let node3 = children[0];
    let arm = children[1];
    assert_eq!(scene.get_tag(arm).unwrap().name, "Arm");
    assert_eq!(scene.get_tag(node3).unwrap().name, "Node");
    // child 1 has no mesh: its child 2 gets an entity "Node" with a mesh entity "Hand" under it
    let arm_children = scene.get_children_for_entity(arm);
    assert_eq!(arm_children.len(), 1);
    let node2 = arm_children[0];
    assert_eq!(scene.get_tag(node2).unwrap().name, "Node");
    let hand = scene.get_children_for_entity(node2);
    assert_eq!(hand.len(), 1);
    assert_eq!(scene.get_tag(hand[0]).unwrap().name, "Hand");
    let hand_mesh = scene.get_mesh_renderer(hand[0]).unwrap();
    assert_eq!(hand_mesh.mesh_idx, Some(4));
    assert_eq!(hand_mesh.resource_handle.as_ref().unwrap().path, "robot.glb");
    // child 3 has a mesh: its entity gets one child "Mesh" drawing mesh 7
    let mesh3 = scene.get_children_for_entity(node3);
    assert_eq!(mesh3.len(), 1);
    assert_eq!(scene.get_tag(mesh3[0]).unwrap().name, "Mesh");
    assert_eq!(scene.get_mesh_renderer(mesh3[0]).unwrap().mesh_idx, Some(7));

    // node entities in order of creation; node 1 is the skeleton root, node 2 a bone under it
    assert_eq!(
        made,
        vec![
            NodeEntity { entity_id: arm, node_index: 1, bone: Some(BoneInfo { is_root: true, bone_id: 0 }) },
            NodeEntity { entity_id: node2, node_index: 2, bone: Some(BoneInfo { is_root: false, bone_id: 1 }) },
            NodeEntity { entity_id: node3, node_index: 3, bone: None },
        ]
    );
    assert_eq!(scene.get_entities_with_component().len(), 2 + 5);
}

#[test]
fn bone_without_joint_entry_gets_joint_one() {
    let document = GltfDocument {
        nodes: vec![node(0, None, None, vec![node(4, Some("Bone"), None, vec![])])],
        skins: vec![GltfSkin { skeleton: Some(4), joints: vec![] }],
    };
    let mut rm = ResourceManager::new();
    rm.insert_resource("m".to_string(), "m.glb".to_string());
    let mut scene = Scene::create();
    let holder = scene.create_entity(None, None);
    let made = add_gltf_scene(&mut scene, holder, &rm, "m".to_string(), &document);
    assert_eq!(made.len(), 1);
    assert_eq!(made[0].bone, Some(BoneInfo { is_root: true, bone_id: 1 }));
}

#[test]
fn root_with_mesh_makes_one_entity() {
    let document = GltfDocument {
        nodes: vec![node(0, Some("Cube"), Some((0, Some("CubeMesh"))), vec![node(1, None, None, vec![])])],
        skins: vec![],
    };
    let mut rm = ResourceManager::new();
    rm.insert_resource("c".to_string(), "cube.glb".to_string());
    let mut scene = Scene::create();
    let holder = scene.create_entity(None, None);
    let made = add_gltf_scene(&mut scene, holder, &rm, "c".to_string(), &document);
    assert!(made.is_empty());
    let children = scene.get_children_for_entity(holder);
    assert_eq!(children.len(), 1);
    assert_eq!(scene.get_tag(children[0]).unwrap().name, "CubeMesh");
    assert!(scene.get_children_for_entity(children[0]).is_empty());
}

const ROBOT_GLTF: &str = r#"{
  "asset": {"version": "2.0"},
  "scenes": [{"nodes": [0]}],
  "nodes": [
    {"name": "Armature", "children": [1, 3]},
    {"name": "Arm", "children": [2]},
    {"mesh": 0},
    {"mesh": 1}
  ],
  "meshes": [
    {"name": "Hand", "primitives": [{"attributes": {"POSITION": 0}}]},
    {"primitives": [{"attributes": {"POSITION": 0}}]}
  ],
  "accessors": [{"bufferView": 0, "componentType": 5126, "count": 1, "type": "VEC3", "min": [0, 0, 0], "max": [0, 0, 0]}],
  "bufferViews": [{"buffer": 0, "byteLength": 12}],
  "buffers": [{"byteLength": 12}],
  "skins": [{"skeleton": 1, "joints": [1, 2]}]
}"#;

fn describe(node: &GltfNode) -> String {
    let mesh = node.mesh.as_ref().map(|m| format!("{}:{}", m.index, m.name.clone().unwrap_or_default()));
    let children: Vec<String> = node.children.iter().map(describe).collect();
    format!("{}({:?},{:?})[{}]", node.index, node.name, mesh, children.join(","))
}

#[test]
fn gltf_file_is_read_into_its_node_tree() {
    let document = gltf_document_from_slice(ROBOT_GLTF.as_bytes()).unwrap();
    assert_eq!(document.nodes.len(), 1);
    assert_eq!(
        describe(&document.nodes[0]),
        "0(Some(\"Armature\"),None)[1(Some(\"Arm\"),None)[2(None,Some(\"0:Hand\"))[]],3(None,Some(\"1:\"))[]]"
    );
    assert_eq!(document.skins.len(), 1);
    assert_eq!(document.skins[0].skeleton, Some(1));
    assert_eq!(document.skins[0].joints, vec![1, 2]);
    assert_eq!(gltf_entity_count(&document), Some(5));
}

#[test]
fn unreadable_or_looping_gltf_gives_none() {
    assert!(gltf_document_from_slice(b"not a model").is_none());
    let looping = r#"{"asset": {"version": "2.0"}, "scenes": [{"nodes": [0]}], "nodes": [{"children": [1]}, {"children": [0]}]}"#;
    assert!(gltf_document_from_slice(looping.as_bytes()).is_none());
}

#[test]
fn gltf_file_is_added_under_an_entity() {
    let mut rm = ResourceManager::new();
    rm.insert_resource("model".to_string(), "robot.gltf".to_string());
    let mut scene = Scene::create();
    let holder = scene.create_entity(Some("Robot".to_string()), None);
    let made = add_gltf_scene_from_bytes(&mut scene, holder, &rm, "model".to_string(), ROBOT_GLTF.as_bytes()).unwrap();
    assert_eq!(made.len(), 3);
    assert_eq!(made[0].node_index, 1);
    assert_eq!(made[0].bone, Some(BoneInfo { is_root: true, bone_id: 0 }));
    assert_eq!(scene.get_entities_with_component().len(), 2 + 5);
    let before = scene.get_entities_with_component().len();
    assert!(add_gltf_scene_from_bytes(&mut scene, holder, &rm, "model".to_string(), b"{}").is_none());
    assert_eq!(scene.get_entities_with_component().len(), before);
}

#[test]
fn binary_header_shorter_than_itself_gives_none() {
    let bytes = [0x67u8, 0x6c, 0x54, 0x46, 0x02, 0x00, 0x00, 0x00, 0x00, 0x00, 0x00, 0x00];
    assert!(gltf_document_from_slice(&bytes).is_none());
    let bytes = [0x67u8, 0x6c, 0x54, 0x46, 0x02, 0x00, 0x00, 0x00, 0x0b, 0x00, 0x00, 0x00];
    assert!(gltf_document_from_slice(&bytes).is_none());
}

#[test]
fn mesh_renderer_with_child_nodes() {
    let mut rm = ResourceManager::new();
    rm.insert_resource("model".to_string(), "robot.gltf".to_string());
    let mut scene = Scene::create();
    let holder = scene.create_entity(Some("Robot".to_string()), None);
    let made = MeshRenderer::add_to_entity_with_nodes(
        &mut scene, holder, &rm, "model".to_string(), true, None, ROBOT_GLTF.as_bytes(),
    )
    .unwrap();
    assert_eq!(made.len(), 3);
    assert_eq!(scene.get_mesh_renderer(holder).unwrap().mesh_idx, None);
    assert_eq!(scene.get_entities_with_component().len(), 2 + 5);

    let other = scene.create_entity(None, None);
    let made = MeshRenderer::add_to_entity_with_nodes(
        &mut scene, other, &rm, "model".to_string(), false, Some(2), b"not read",
    )
    .unwrap();
    assert!(made.is_empty());
    assert_eq!(scene.get_mesh_renderer(other).unwrap().mesh_idx, Some(2));
    assert_eq!(scene.get_entities_with_component().len(), 2 + 5 + 1);

    let third = scene.create_entity(None, None);
    assert!(MeshRenderer::add_to_entity_with_nodes(&mut scene, third, &rm, "model".to_string(), true, None, b"{}")
        .is_none());
    assert!(scene.get_mesh_renderer(third).is_some());
}
