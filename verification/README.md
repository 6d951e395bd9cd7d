# dream

The verified core of the Dream engine, a real-time 3D engine: the parts of
the engine that decide things, with their behaviour stated in Verus
contracts and proved.

## Layout

- `src/forest.rs` – the scene tree as a mathematical object (each entity's
  ordered list of children) and when `Hierarchy` records encode it; the
  proofs that adding a child in front of or behind its siblings keeps the
  records consistent.
- `src/scene.rs` – a scene: entities with `Hierarchy`, `Tag`, `MeshRenderer`
  and `PythonScript` components, runtime ids handed out by a shipyard world,
  a root created with the first entity, new children put in front. The
  shipyard world hands out the ids; the components are kept in maps of the
  scene keyed by those ids rather than in shipyard's storages, which only
  take types implementing shipyard's `Component` trait and are reached
  through generic calls bound by it, so that verified code could not state
  what they hold. The scene's own `EntityComponent` trait gives the generic
  add, get, has and remove of a component kind.
- `src/legacy_scene.rs` – the first scene design: ids with 0 for "none", the
  first entity as root, new children put behind their siblings.
- `src/gltf_document.rs` – reading a glTF file: the gltf crate parses it into
  its node, scene and skin lists, and the node tree of each scene root is
  built from them (a file whose children links loop is refused).
- `src/gltf_scene.rs` – turning a glTF model's node tree into entities.
- `src/resource.rs` – resource handles, the guid map, meta data, and the
  decisions of the walk through a project folder.
- `src/fs.rs`, `src/input.rs`, `src/image_loader.rs`, `src/render_storage.rs`,
  `src/renderer.rs`, `src/editor.rs`, `src/systems.rs`, `src/component.rs` –
  directory entries and the project root, editor input flags, texture
  decoding by MIME type, the renderer's per-mesh instance queues, and small
  engine types.
- `src/window_loop.rs` – the decisions of the window's event loop: what each
  window event leads to, when a redraw skips the frame or updates the
  application (at most once every 16 ms, never for a window under 32 pixels),
  and what a failed surface leads to. The command-line runner opens no
  window; a windowed runner performs these actions.
- `src/world.rs` – the shipyard calls the scenes make.
- `app/` – a command-line runner: file-system access, meta files in YAML,
  glTF node transforms and material alpha modes, floating-point components,
  and the start-up scene.
- `tests/` – tests of the library.
