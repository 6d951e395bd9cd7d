//! Components that entities of a scene carry.

use vstd::prelude::*;

use crate::fs::{paths_equal, same_path};
use crate::resource::ResourceHandle;

verus! {

/// The display name of an entity.
pub struct Tag {
    pub name: String,
}

impl Tag {
    pub fn new(name: String) -> (r: Tag)
        ensures
            r.name == name,
    {
        Tag { name }
    }
}

/// An entity's place in the scene tree: its parent, how many children it has,
/// its first child, and its neighbours in its parent's list of children.
#[derive(Clone, Copy, Debug, PartialEq, Eq, Structural)]
pub struct Hierarchy {
    pub num_children: usize,
    pub parent_runtime_id: Option<u64>,
    pub first_child_runtime_id: Option<u64>,
    pub prev_sibling_runtime_id: Option<u64>,
    pub next_sibling_runtime_id: Option<u64>,
}

/// The hierarchy of an entity that is in no tree yet.
pub open spec fn detached_hierarchy() -> Hierarchy {
    Hierarchy {
        num_children: 0,
        parent_runtime_id: None,
        first_child_runtime_id: None,
        prev_sibling_runtime_id: None,
        next_sibling_runtime_id: None,
    }
}

impl Default for Hierarchy {
    fn default() -> (r: Hierarchy)
        ensures
            r == detached_hierarchy(),
    {
        Hierarchy {
            num_children: 0,
            parent_runtime_id: None,
            first_child_runtime_id: None,
            prev_sibling_runtime_id: None,
            next_sibling_runtime_id: None,
        }
    }
}

/// Draws one mesh of a model resource.
pub struct MeshRenderer {
    pub resource_handle: Option<ResourceHandle>,
    pub mesh_idx: Option<usize>,
}

/// Two mesh renderers draw the same thing when both name a resource, the
/// resources have the same guid and paths that `std::path::Path` compares
/// equal, and the mesh indices agree.
pub open spec fn same_mesh_renderer(a: &MeshRenderer, b: &MeshRenderer) -> bool {
    &&& a.mesh_idx == b.mesh_idx
    &&& a.resource_handle matches Some(ha)
    &&& b.resource_handle matches Some(hb)
    &&& ha.key@ == hb.key@
    &&& same_path(ha.path@, hb.path@)
}

impl PartialEq for MeshRenderer {
    fn eq(&self, other: &Self) -> (r: bool) {
        if self.mesh_idx == other.mesh_idx {
            match (&self.resource_handle, &other.resource_handle) {
                (Some(a), Some(b)) => a.key.eq(&b.key) && paths_equal(a.path.as_str(), b.path.as_str()),
                _ => false,
            }
        } else {
            false
        }
    }
}

impl vstd::std_specs::cmp::PartialEqSpecImpl for MeshRenderer {
    open spec fn obeys_eq_spec() -> bool {
        true
    }

    open spec fn eq_spec(&self, other: &MeshRenderer) -> bool {
        same_mesh_renderer(self, other)
    }
}

impl MeshRenderer {
    pub fn new(resource_handle: Option<ResourceHandle>, mesh_idx: Option<usize>) -> (r: MeshRenderer)
        ensures
            r.resource_handle == resource_handle,
            r.mesh_idx == mesh_idx,
    {
        MeshRenderer { resource_handle, mesh_idx }
    }
}

/// Runs a Python script resource on its entity.
pub struct PythonScript {
    pub resource_handle: Option<ResourceHandle>,
}

impl PythonScript {
    pub fn new(resource_handle: Option<ResourceHandle>) -> (r: PythonScript)
        ensures
            r.resource_handle == resource_handle,
    {
        PythonScript { resource_handle }
    }
}

} // verus!
