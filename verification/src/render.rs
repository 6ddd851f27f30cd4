//! The render pass of one frame, as the list of commands that the backend
//! is to record.
//!
//! A frame is drawn in one pass. The pass clears colour and depth, binds the
//! pipeline and the bind groups that all entities share, draws every mesh of
//! every model in the order given, and is submitted and presented. Which bind
//! group goes to which slot is fixed: the shaders rely on it.

use crate::color::Color;
use crate::model::{Material, Mesh, Model};
use vstd::prelude::*;

verus! {

/// Bind-group slot of a mesh's textures.
pub const MATERIAL_SLOT: u32 = 0;

/// Bind-group slot of the camera.
pub const CAMERA_SLOT: u32 = 1;

/// Bind-group slot of the ambient light.
pub const AMBIENT_LIGHT_SLOT: u32 = 2;

/// Bind-group slot of the point lights.
pub const POINT_LIGHTS_SLOT: u32 = 3;

/// Vertex-buffer slot of a mesh's vertices.
pub const MESH_VERTEX_SLOT: u32 = 0;

/// Vertex-buffer slot of the instances.
pub const INSTANCE_VERTEX_SLOT: u32 = 1;

/// The depth that the pass clears to: the bit pattern of the single `1.0`.
pub const DEPTH_CLEAR: u32 = 0x3F80_0000;

/// A bind group that a pass binds.
#[derive(Clone, Copy, Debug, PartialEq, Eq, Structural)]
pub enum BindGroup {
    /// The textures of a material, by the handle of their bind group.
    Material(u64),
    Camera,
    AmbientLight,
    PointLights,
}

/// A vertex buffer that a pass binds.
#[derive(Clone, Copy, Debug, PartialEq, Eq, Structural)]
pub enum VertexBuffer {
    /// The vertices of a mesh, by the handle of their buffer.
    Mesh(u64),
    /// The instances, which all meshes share.
    Instances,
}

/// One step of a frame's render pass.
#[derive(Clone, Copy, Debug, PartialEq, Eq, Structural)]
pub enum RenderCommand {
    /// Opens the pass on the frame's colour and depth targets, clearing both.
    /// There are no stencil operations.
    BeginRenderPass { clear_color: Color, clear_depth: u32 },
    /// Binds the one pipeline.
    SetPipeline,
    SetBindGroup { slot: u32, group: BindGroup },
    SetVertexBuffer { slot: u32, buffer: VertexBuffer },
    /// Binds an index buffer of 32-bit indices, by its handle.
    SetIndexBuffer { indices: u64 },
    /// Draws the indices `0..index_count` for the instances
    /// `0..instance_count`.
    DrawIndexed { index_count: u32, instance_count: u32 },
    /// Closes the pass.
    EndRenderPass,
    /// Finishes the encoder and submits its one command buffer.
    Submit,
    /// Presents the frame.
    Present,
}

/// The slot that a bind group belongs to.
pub open spec fn slot_of(group: BindGroup) -> u32 {
    match group {
        BindGroup::Material(_) => MATERIAL_SLOT,
        BindGroup::Camera => CAMERA_SLOT,
        BindGroup::AmbientLight => AMBIENT_LIGHT_SLOT,
        BindGroup::PointLights => POINT_LIGHTS_SLOT,
    }
}

/// How a pass begins.
pub open spec fn opening(clear_color: Color) -> Seq<RenderCommand> {
    seq![
        RenderCommand::BeginRenderPass { clear_color, clear_depth: DEPTH_CLEAR },
        RenderCommand::SetPipeline,
        RenderCommand::SetBindGroup { slot: CAMERA_SLOT, group: BindGroup::Camera },
        RenderCommand::SetBindGroup { slot: AMBIENT_LIGHT_SLOT, group: BindGroup::AmbientLight },
        RenderCommand::SetBindGroup { slot: POINT_LIGHTS_SLOT, group: BindGroup::PointLights },
    ]
}

/// How a pass ends.
pub open spec fn closing() -> Seq<RenderCommand> {
    seq![RenderCommand::EndRenderPass, RenderCommand::Submit, RenderCommand::Present]
}

/// The commands that draw one mesh with its material.
pub open spec fn mesh_commands(mesh: Mesh, material: Material, instance_count: u32) -> Seq<
    RenderCommand,
> {
    seq![
        RenderCommand::SetVertexBuffer {
            slot: MESH_VERTEX_SLOT,
            buffer: VertexBuffer::Mesh(mesh.vertex_buffer),
        },
        RenderCommand::SetIndexBuffer { indices: mesh.index_buffer },
        RenderCommand::SetVertexBuffer {
            slot: INSTANCE_VERTEX_SLOT,
            buffer: VertexBuffer::Instances,
        },
        RenderCommand::SetBindGroup {
            slot: MATERIAL_SLOT,
            group: BindGroup::Material(material.bind_group),
        },
        RenderCommand::DrawIndexed { index_count: mesh.num_elements, instance_count },
    ]
}

/// The commands that draw the given meshes, in their order.
pub open spec fn meshes_commands(
    meshes: Seq<Mesh>,
    materials: Seq<Material>,
    instance_count: u32,
) -> Seq<RenderCommand>
    decreases meshes.len(),
{
    if meshes.len() == 0 {
        Seq::empty()
    } else {
        meshes_commands(meshes.drop_last(), materials, instance_count) + mesh_commands(
            meshes.last(),
            materials[meshes.last().material as int],
            instance_count,
        )
    }
}

/// The commands that draw the given models, in their order.
pub open spec fn models_commands(models: Seq<Model>, instance_count: u32) -> Seq<RenderCommand>
    decreases models.len(),
{
    if models.len() == 0 {
        Seq::empty()
    } else {
        models_commands(models.drop_last(), instance_count) + meshes_commands(
            models.last().meshes(),
            models.last().materials(),
            instance_count,
        )
    }
}

/// The whole pass of a frame that shows the given models.
pub open spec fn render_pass_commands(
    clear_color: Color,
    models: Seq<Model>,
    instance_count: u32,
) -> Seq<RenderCommand> {
    opening(clear_color) + models_commands(models, instance_count) + closing()
}

/// The models of a list of placed models.
pub open spec fn models_of(placed: Seq<(usize, &Model)>) -> Seq<Model> {
    Seq::new(placed.len(), |k: int| *placed[k].1)
}

/// Appends the commands that draw one model.
fn push_model_commands(commands: &mut Vec<RenderCommand>, model: &Model, instance_count: u32)
    ensures
        final(commands)@ == old(commands)@ + meshes_commands(
            model.meshes(),
            model.materials(),
            instance_count,
        ),
{
    let count: usize = model.mesh_count();
    let mut i: usize = 0;
    while i < count
        invariant
            i <= count,
            count == model.meshes().len(),
            commands@ == old(commands)@ + meshes_commands(
                model.meshes().take(i as int),
                model.materials(),
                instance_count,
            ),
        decreases count - i,
    {
        let mesh = model.mesh(i);
        let material = model.material(mesh.material);
        let ghost before = commands@;
        commands.push(
            RenderCommand::SetVertexBuffer {
                slot: MESH_VERTEX_SLOT,
                buffer: VertexBuffer::Mesh(mesh.vertex_buffer),
            },
        );
        commands.push(RenderCommand::SetIndexBuffer { indices: mesh.index_buffer });
        commands.push(
            RenderCommand::SetVertexBuffer {
                slot: INSTANCE_VERTEX_SLOT,
                buffer: VertexBuffer::Instances,
            },
        );
        commands.push(
            RenderCommand::SetBindGroup {
                slot: MATERIAL_SLOT,
                group: BindGroup::Material(material.bind_group),
            },
        );
        commands.push(RenderCommand::DrawIndexed { index_count: mesh.num_elements, instance_count });
        proof {
            let upto = model.meshes().take(i as int + 1);
            assert(upto.drop_last() =~= model.meshes().take(i as int));
            assert(upto.last() == mesh);
            assert(commands@ =~= before + mesh_commands(mesh, material, instance_count));
            assert(commands@ =~= old(commands)@ + meshes_commands(
                upto,
                model.materials(),
                instance_count,
            ));
        }
        i += 1;
    }
    proof {
        assert(model.meshes().take(count as int) =~= model.meshes());
    }
}

/// Lays out the render pass of a frame that shows the given models, each
/// given with the place of its entity, in the order of the list.
pub fn assemble_render_pass(
    clear_color: Color,
    models: &Vec<(usize, &Model)>,
    instance_count: u32,
) -> (commands: Vec<RenderCommand>)
    ensures
        commands@ == render_pass_commands(clear_color, models_of(models@), instance_count),
{
    let mut commands: Vec<RenderCommand> = Vec::new();
    commands.push(RenderCommand::BeginRenderPass { clear_color, clear_depth: DEPTH_CLEAR });
    commands.push(RenderCommand::SetPipeline);
    commands.push(RenderCommand::SetBindGroup { slot: CAMERA_SLOT, group: BindGroup::Camera });
    commands.push(
        RenderCommand::SetBindGroup { slot: AMBIENT_LIGHT_SLOT, group: BindGroup::AmbientLight },
    );
    commands.push(
        RenderCommand::SetBindGroup { slot: POINT_LIGHTS_SLOT, group: BindGroup::PointLights },
    );
    assert(commands@ =~= opening(clear_color));
    let ghost all = models_of(models@);
    let mut i: usize = 0;
    while i < models.len()
        invariant
            i <= models@.len(),
            all == models_of(models@),
            commands@ == opening(clear_color) + models_commands(all.take(i as int), instance_count),
        decreases models@.len() - i,
    {
        let ghost before = commands@;
        push_model_commands(&mut commands, models[i].1, instance_count);
        proof {
            let upto = all.take(i as int + 1);
            assert(upto.drop_last() =~= all.take(i as int));
            assert(upto.last() == *models@[i as int].1);
            assert(commands@ =~= opening(clear_color) + models_commands(upto, instance_count));
        }
        i += 1;
    }
    proof {
        assert(all.take(models@.len() as int) =~= all);
    }
    let ghost drawn = commands@;
    commands.push(RenderCommand::EndRenderPass);
    commands.push(RenderCommand::Submit);
    commands.push(RenderCommand::Present);
    assert(commands@ =~= drawn + closing());
    commands
}

/// Whether a command, if it binds a bind group, binds it to its own slot.
pub open spec fn binds_to_own_slot(command: RenderCommand) -> bool {
    command matches RenderCommand::SetBindGroup { slot, group } ==> slot == slot_of(group)
}

/// Whether a command opens or closes a pass, or submits or presents.
pub open spec fn frames_pass(command: RenderCommand) -> bool {
    command is BeginRenderPass || command is EndRenderPass || command is Submit
        || command is Present
}

/// Drawing meshes binds every bind group to its own slot and neither opens
/// nor closes a pass.
pub proof fn lemma_meshes_commands_uniform(
    meshes: Seq<Mesh>,
    materials: Seq<Material>,
    instance_count: u32,
)
    ensures
        meshes_commands(meshes, materials, instance_count).len() == 5 * meshes.len(),
        forall|k: int|
            0 <= k < meshes_commands(meshes, materials, instance_count).len() ==> {
                let command = #[trigger] meshes_commands(meshes, materials, instance_count)[k];
                binds_to_own_slot(command) && !frames_pass(command)
            },
    decreases meshes.len(),
{
    if meshes.len() > 0 {
        lemma_meshes_commands_uniform(meshes.drop_last(), materials, instance_count);
    }
}

/// Drawing models binds every bind group to its own slot and neither opens
/// nor closes a pass.
pub proof fn lemma_models_commands_uniform(models: Seq<Model>, instance_count: u32)
    ensures
        forall|k: int|
            0 <= k < models_commands(models, instance_count).len() ==> {
                let command = #[trigger] models_commands(models, instance_count)[k];
                binds_to_own_slot(command) && !frames_pass(command)
            },
    decreases models.len(),
{
    if models.len() > 0 {
        lemma_models_commands_uniform(models.drop_last(), instance_count);
        lemma_meshes_commands_uniform(
            models.last().meshes(),
            models.last().materials(),
            instance_count,
        );
    }
}

/// The shape of a frame's pass, whatever is drawn. The pass opens with its
/// first command and closes with its third from last, is then submitted and
/// presented, and nothing in between opens or closes a pass. The camera, the
/// ambient light and the point lights are bound once, before anything is
/// drawn, and every bind group of the pass goes to its own slot: textures to
/// 0, camera to 1, ambient light to 2, point lights to 3.
pub proof fn lemma_render_pass_shape(clear_color: Color, models: Seq<Model>, instance_count: u32)
    ensures
        ({
            let pass = render_pass_commands(clear_color, models, instance_count);
            let drawn = models_commands(models, instance_count).len() as int;
            &&& pass.len() == 5 + drawn + 3
            &&& pass[0] == (RenderCommand::BeginRenderPass {
                clear_color,
                clear_depth: DEPTH_CLEAR,
            })
            &&& pass[1] == RenderCommand::SetPipeline
            &&& pass[2] == (RenderCommand::SetBindGroup {
                slot: 1,
                group: BindGroup::Camera,
            })
            &&& pass[3] == (RenderCommand::SetBindGroup {
                slot: 2,
                group: BindGroup::AmbientLight,
            })
            &&& pass[4] == (RenderCommand::SetBindGroup {
                slot: 3,
                group: BindGroup::PointLights,
            })
            &&& pass[5 + drawn] == RenderCommand::EndRenderPass
            &&& pass[6 + drawn] == RenderCommand::Submit
            &&& pass[7 + drawn] == RenderCommand::Present
            &&& forall|k: int| 0 < k < 5 + drawn ==> !frames_pass(#[trigger] pass[k])
            &&& forall|k: int| 0 <= k < pass.len() ==> binds_to_own_slot(#[trigger] pass[k])
            &&& forall|k: int|
                5 <= k < pass.len() ==> ((#[trigger] pass[k]) matches RenderCommand::SetBindGroup {
                    slot,
                    group,
                } ==> slot == 0 && group is Material)
        }),
{
    let pass = render_pass_commands(clear_color, models, instance_count);
    let scene = models_commands(models, instance_count);
    lemma_models_commands_uniform(models, instance_count);
    assert forall|k: int| 5 <= k < 5 + scene.len() implies pass[k] == scene[k - 5] by {}
    assert forall|k: int| 5 <= k < pass.len() implies ((#[trigger] pass[k]) matches RenderCommand::SetBindGroup {
        slot,
        group,
    } ==> slot == 0 && group is Material) by {
        if k < 5 + scene.len() {
            assert(pass[k] == scene[k - 5]);
            assert(binds_to_own_slot(scene[k - 5]));
            lemma_set_bind_group_in_scene(models, instance_count, k - 5);
        }
    }
}

/// The only bind groups that drawing models binds are those of materials.
proof fn lemma_set_bind_group_in_scene(models: Seq<Model>, instance_count: u32, k: int)
    requires
        0 <= k < models_commands(models, instance_count).len(),
    ensures
        models_commands(models, instance_count)[k] matches RenderCommand::SetBindGroup {
            slot,
            group,
        } ==> group is Material,
    decreases models.len(),
{
    if models.len() > 0 {
        let front = models_commands(models.drop_last(), instance_count);
        if k < front.len() {
            lemma_set_bind_group_in_scene(models.drop_last(), instance_count, k);
        } else {
            lemma_set_bind_group_in_meshes(
                models.last().meshes(),
                models.last().materials(),
                instance_count,
                k - front.len(),
            );
        }
    }
}

/// The only bind groups that drawing meshes binds are those of materials.
proof fn lemma_set_bind_group_in_meshes(
    meshes: Seq<Mesh>,
    materials: Seq<Material>,
    instance_count: u32,
    k: int,
)
    requires
        0 <= k < meshes_commands(meshes, materials, instance_count).len(),
    ensures
        meshes_commands(meshes, materials, instance_count)[k] matches RenderCommand::SetBindGroup {
            slot,
            group,
        } ==> group is Material,
    decreases meshes.len(),
{
    if meshes.len() > 0 {
        let front = meshes_commands(meshes.drop_last(), materials, instance_count);
        if k < front.len() {
            lemma_set_bind_group_in_meshes(meshes.drop_last(), materials, instance_count, k);
        }
    }
}

} // verus!
