use frame_engine::color::Color;
use frame_engine::model::{Material, Mesh, Model};
use frame_engine::render::{
    assemble_render_pass, BindGroup, RenderCommand, VertexBuffer, AMBIENT_LIGHT_SLOT, CAMERA_SLOT,
    DEPTH_CLEAR, INSTANCE_VERTEX_SLOT, MATERIAL_SLOT, MESH_VERTEX_SLOT, POINT_LIGHTS_SLOT,
};

fn mesh(vertex_buffer: u64, index_buffer: u64, num_elements: u32, material: usize) -> Mesh {
    Mesh { vertex_buffer, index_buffer, num_elements, material }
}

fn opening(clear_color: Color) -> Vec<RenderCommand> {
    vec![
        RenderCommand::BeginRenderPass { clear_color, clear_depth: 1.0f32.to_bits() },
        RenderCommand::SetPipeline,
        RenderCommand::SetBindGroup { slot: 1, group: BindGroup::Camera },
        RenderCommand::SetBindGroup { slot: 2, group: BindGroup::AmbientLight },
        RenderCommand::SetBindGroup { slot: 3, group: BindGroup::PointLights },
    ]
}

fn closing() -> Vec<RenderCommand> {
    vec![RenderCommand::EndRenderPass, RenderCommand::Submit, RenderCommand::Present]
}

fn draw(vertex: u64, index: u64, bind_group: u64, count: u32, instances: u32) -> Vec<RenderCommand> {
    vec![
        RenderCommand::SetVertexBuffer { slot: 0, buffer: VertexBuffer::Mesh(vertex) },
        RenderCommand::SetIndexBuffer { indices: index },
        RenderCommand::SetVertexBuffer { slot: 1, buffer: VertexBuffer::Instances },
        RenderCommand::SetBindGroup { slot: 0, group: BindGroup::Material(bind_group) },
        RenderCommand::DrawIndexed { index_count: count, instance_count: instances },
    ]
}

#[test]
fn slots_are_the_ones_the_shaders_expect() {
    assert_eq!(MATERIAL_SLOT, 0);
    assert_eq!(CAMERA_SLOT, 1);
    assert_eq!(AMBIENT_LIGHT_SLOT, 2);
    assert_eq!(POINT_LIGHTS_SLOT, 3);
    assert_eq!(MESH_VERTEX_SLOT, 0);
    assert_eq!(INSTANCE_VERTEX_SLOT, 1);
    assert_eq!(DEPTH_CLEAR, 1.0f32.to_bits());
}

#[test]
fn model_needs_its_materials() {
    assert!(Model::new(vec![mesh(1, 2, 3, 0)], vec![]).is_none());
    assert!(Model::new(vec![mesh(1, 2, 3, 1)], vec![Material { bind_group: 5 }]).is_none());
    assert!(Model::new(
        vec![mesh(1, 2, 3, 0), mesh(1, 2, 3, 2)],
        vec![Material { bind_group: 5 }, Material { bind_group: 6 }]
    )
    .is_none());
    assert!(Model::new(vec![], vec![]).is_some());
    assert!(Model::new(vec![mesh(1, 2, 3, 0)], vec![Material { bind_group: 5 }]).is_some());
}

#[test]
fn model_hands_out_meshes_and_materials() {
    let model = Model::new(
        vec![mesh(1, 2, 3, 1), mesh(4, 5, 6, 0)],
        vec![Material { bind_group: 7 }, Material { bind_group: 8 }],
    )
    .unwrap();
    assert_eq!(model.mesh_count(), 2);
    assert_eq!(model.mesh(0), mesh(1, 2, 3, 1));
    assert_eq!(model.mesh(1), mesh(4, 5, 6, 0));
    assert_eq!(model.material(0), Material { bind_group: 7 });
    assert_eq!(model.material(1), Material { bind_group: 8 });
}

#[test]
fn empty_frame_is_opening_and_closing() {
    let color = Color { r: 1, g: 2, b: 3, a: 4 };
    let commands = assemble_render_pass(color, &vec![], 1);
    let mut expected = opening(color);
    expected.extend(closing());
    assert_eq!(commands, expected);
}

#[test]
fn meshes_are_drawn_in_order_with_their_materials() {
    let color = Color::black();
    let first = Model::new(
        vec![mesh(10, 11, 36, 1), mesh(12, 13, 6, 0)],
        vec![Material { bind_group: 100 }, Material { bind_group: 101 }],
    )
    .unwrap();
    let second = Model::new(vec![mesh(20, 21, 9, 0)], vec![Material { bind_group: 200 }]).unwrap();
    let commands = assemble_render_pass(color, &vec![(0, &first), (4, &second)], 5);
    let mut expected = opening(color);
    expected.extend(draw(10, 11, 101, 36, 5));
    expected.extend(draw(12, 13, 100, 6, 5));
    expected.extend(draw(20, 21, 200, 9, 5));
    expected.extend(closing());
    assert_eq!(commands, expected);
}

#[test]
fn model_without_meshes_draws_nothing() {
    let color = Color::black();
    let empty = Model::new(vec![], vec![Material { bind_group: 1 }]).unwrap();
    let commands = assemble_render_pass(color, &vec![(0, &empty)], 1);
    let mut expected = opening(color);
    expected.extend(closing());
    assert_eq!(commands, expected);
}

#[test]
fn one_pass_per_frame() {
    let model = Model::new(vec![mesh(1, 2, 3, 0); 4], vec![Material { bind_group: 9 }]).unwrap();
    let commands = assemble_render_pass(Color::black(), &vec![(0, &model), (1, &model)], 2);
    let begins = commands
        .iter()
        .filter(|c| matches!(c, RenderCommand::BeginRenderPass { .. }))
        .count();
    let ends = commands.iter().filter(|c| matches!(c, RenderCommand::EndRenderPass)).count();
    let draws = commands.iter().filter(|c| matches!(c, RenderCommand::DrawIndexed { .. })).count();
    assert_eq!(begins, 1);
    assert_eq!(ends, 1);
    assert_eq!(draws, 8);
    assert_eq!(commands.len(), 5 + 8 * 5 + 3);
    assert!(matches!(commands[0], RenderCommand::BeginRenderPass { .. }));
    assert_eq!(commands[commands.len() - 1], RenderCommand::Present);
    assert_eq!(commands[commands.len() - 2], RenderCommand::Submit);
}

#[test]
fn every_bind_group_goes_to_its_own_slot() {
    let model = Model::new(
        vec![mesh(1, 2, 3, 0), mesh(1, 2, 3, 1)],
        vec![Material { bind_group: 9 }, Material { bind_group: 10 }],
    )
    .unwrap();
    let commands = assemble_render_pass(Color::black(), &vec![(0, &model)], 2);
    for command in commands {
        if let RenderCommand::SetBindGroup { slot, group } = command {
            let expected = match group {
                BindGroup::Material(_) => 0,
                BindGroup::Camera => 1,
                BindGroup::AmbientLight => 2,
                BindGroup::PointLights => 3,
            };
            assert_eq!(slot, expected);
        }
    }
}
