//! What an entity hands to the renderer.
//!
//! Buffers and bind groups live on the graphics device. Here each is known by
//! the handle under which the backend keeps it.

use vstd::prelude::*;

verus! {

/// One draw call's worth of geometry.
#[derive(Clone, Copy, Debug, PartialEq, Eq, Structural)]
pub struct Mesh {
    /// Handle of the vertex buffer.
    pub vertex_buffer: u64,
    /// Handle of the index buffer.
    pub index_buffer: u64,
    /// Number of indices to draw.
    pub num_elements: u32,
    /// Which of the model's materials the mesh is drawn with.
    pub material: usize,
}

/// The textures of a surface, as one bind group.
#[derive(Clone, Copy, Debug, PartialEq, Eq, Structural)]
pub struct Material {
    /// Handle of the texture bind group.
    pub bind_group: u64,
}

/// Whether every mesh names a material that exists.
pub open spec fn materials_in_range(meshes: Seq<Mesh>, materials: Seq<Material>) -> bool {
    forall|i: int| 0 <= i < meshes.len() ==> (#[trigger] meshes[i]).material < materials.len()
}

/// Meshes together with the materials they are drawn with. Every mesh of a
/// model names a material of that model.
pub struct Model {
    meshes: Vec<Mesh>,
    materials: Vec<Material>,
}

impl Model {
    #[verifier::type_invariant]
    spec fn well_formed(self) -> bool {
        materials_in_range(self.meshes@, self.materials@)
    }

    /// The meshes, in drawing order.
    pub closed spec fn meshes(&self) -> Seq<Mesh> {
        self.meshes@
    }

    /// The materials.
    pub closed spec fn materials(&self) -> Seq<Material> {
        self.materials@
    }

    /// A model of the given meshes and materials, unless one of the meshes
    /// names a material that is not there.
    pub fn new(meshes: Vec<Mesh>, materials: Vec<Material>) -> (model: Option<Self>)
        ensures
            model is Some <==> materials_in_range(meshes@, materials@),
            model matches Some(m) ==> m.meshes() == meshes@ && m.materials() == materials@,
    {
        let mut i: usize = 0;
        while i < meshes.len()
            invariant
                i <= meshes@.len(),
                forall|j: int| 0 <= j < i ==> (#[trigger] meshes@[j]).material < materials@.len(),
            decreases meshes@.len() - i,
        {
            if meshes[i].material >= materials.len() {
                return None;
            }
            i += 1;
        }
        Some(Model { meshes, materials })
    }

    /// Number of meshes.
    pub fn mesh_count(&self) -> (count: usize)
        ensures
            count == self.meshes().len(),
    {
        self.meshes.len()
    }

    /// The mesh at the given place in drawing order.
    pub fn mesh(&self, index: usize) -> (mesh: Mesh)
        requires
            index < self.meshes().len(),
        ensures
            mesh == self.meshes()[index as int],
            mesh.material < self.materials().len(),
    {
        proof {
            use_type_invariant(self);
        }
        self.meshes[index]
    }

    /// The material at the given place.
    pub fn material(&self, index: usize) -> (material: Material)
        requires
            index < self.materials().len(),
        ensures
            material == self.materials()[index as int],
    {
        self.materials[index]
    }
}

} // verus!
