//! Verified core of the Dream engine: the scene hierarchy, glTF model
//! reading, resource bookkeeping, file-system paths, texture decoding, render
//! queues, editor input state, the window loop's decisions and script
//! classes.

pub mod component;
pub mod editor;
pub mod forest;
pub mod gltf_document;
pub mod fs;
pub mod gltf_scene;
pub mod image_loader;
pub mod input;
pub mod legacy_scene;
pub mod render_storage;
pub mod renderer;
pub mod resource;
pub mod scene;
pub mod systems;
pub mod window_loop;
pub mod world;
