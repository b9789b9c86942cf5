use material_binding::bind_group::{BindGroupCache, BindGroupHandle};
use material_binding::draw::{pipeline_key, prepare_draw, DrawCall, MeshRef};
use material_binding::layout::{FieldDescriptor, FieldType, FieldValue};
use material_binding::material::{MaterialDefinition, MaterialInstance, TransparencyPolicy};
use material_binding::pipeline::{
    InterfaceMismatch, PipelineError, PipelineHandle, PipelineKey, PipelineSelector,
};
use material_binding::shader::{
    BindingSlot, EntryPoints, RegistryError, ShaderRegistry, ShaderSource, SlotType, StageSlot,
};
use std::rc::Rc;

fn program(outputs: Vec<StageSlot>, inputs: Vec<StageSlot>) -> ShaderSource {
    ShaderSource {
        code: b"shader".to_vec(),
        bindings: vec![BindingSlot { group: 2, binding: 0 }],
        vertex_inputs: vec![StageSlot { location: 0, ty: SlotType::Vec3 }],
        vertex_outputs: outputs,
        fragment_inputs: inputs,
        fragment_outputs: vec![StageSlot { location: 0, ty: SlotType::Vec4 }],
    }
}

fn names() -> EntryPoints {
    EntryPoints { vertex: "vertex".to_string(), fragment: "fragment".to_string() }
}

fn registry() -> ShaderRegistry {
    let position = StageSlot { location: 0, ty: SlotType::Vec4 };
    let uv = StageSlot { location: 2, ty: SlotType::Vec2 };
    let mut registry = ShaderRegistry::new(2);
    assert!(registry.register(1, program(vec![position], vec![position]), names()).is_ok());
    assert!(registry.register(2, program(vec![], vec![uv]), names()).is_ok());
    registry
}

fn instance(id: u64, vertex: u64, fragment: u64, policy: TransparencyPolicy) -> MaterialInstance {
    let table = [FieldDescriptor { name: "color".to_string(), ty: FieldType::Color }];
    let d = MaterialDefinition::new(id, vertex, fragment, &table, policy).unwrap();
    MaterialInstance::new(Rc::new(d), vec![FieldValue::Color(1, 2, 3, 4)]).unwrap()
}

#[test]
fn pair_of_registered_programs_is_resolved() {
    let registry = registry();
    let (vertex, fragment) = registry.resolve_pair(1, 2).unwrap();
    assert_eq!(vertex.id, 1);
    assert_eq!(fragment.id, 2);
    let (vertex, fragment) = registry.resolve_pair(2, 2).unwrap();
    assert_eq!(vertex.id, 2);
    assert_eq!(fragment.id, 2);
}

#[test]
fn missing_program_of_a_pair_is_reported_vertex_first() {
    let registry = registry();
    assert_eq!(registry.resolve_pair(8, 9).err(), Some(RegistryError::NotFound(8)));
    assert_eq!(registry.resolve_pair(8, 1).err(), Some(RegistryError::NotFound(8)));
    assert_eq!(registry.resolve_pair(1, 9).err(), Some(RegistryError::NotFound(9)));
}

#[test]
fn pipeline_key_is_taken_from_the_definition() {
    let i = instance(5, 1, 2, TransparencyPolicy::Blend);
    assert_eq!(
        pipeline_key(i.definition(), 7),
        PipelineKey {
            vertex_program: 1,
            fragment_program: 2,
            policy: TransparencyPolicy::Blend,
            vertex_layout: 7
        }
    );
}

#[test]
fn prepared_draw_names_pipeline_bind_group_and_mesh() {
    let registry = registry();
    let mut selector = PipelineSelector::new();
    let mut cache = BindGroupCache::new();
    let i = instance(5, 1, 1, TransparencyPolicy::Opaque);
    let mesh = MeshRef { mesh: 40, vertex_layout: 3 };
    let draw = prepare_draw(&registry, &mut selector, &mut cache, &i, mesh);
    assert_eq!(
        draw,
        Ok(DrawCall {
            pipeline: PipelineHandle { index: 0 },
            bind_group: BindGroupHandle { definition: 5, generation: 0 },
            mesh: 40
        })
    );
    assert_eq!(selector.len(), 1);
    assert_eq!(cache.len(), 1);
    assert_eq!(selector.pipeline(PipelineHandle { index: 0 }).unwrap().key.vertex_layout, 3);
}

#[test]
fn drawing_every_frame_builds_nothing_new() {
    let registry = registry();
    let mut selector = PipelineSelector::new();
    let mut cache = BindGroupCache::new();
    let i = instance(5, 1, 1, TransparencyPolicy::Blend);
    let mesh = MeshRef { mesh: 40, vertex_layout: 3 };
    let first = prepare_draw(&registry, &mut selector, &mut cache, &i, mesh).unwrap();
    for _ in 0..5 {
        assert_eq!(prepare_draw(&registry, &mut selector, &mut cache, &i, mesh), Ok(first));
    }
    assert_eq!(selector.len(), 1);
    assert_eq!(cache.len(), 1);
}

#[test]
fn meshes_of_one_layout_share_pipeline_and_bind_group() {
    let registry = registry();
    let mut selector = PipelineSelector::new();
    let mut cache = BindGroupCache::new();
    let i = instance(5, 1, 1, TransparencyPolicy::Opaque);
    let a = prepare_draw(&registry, &mut selector, &mut cache, &i, MeshRef { mesh: 1, vertex_layout: 3 }).unwrap();
    let b = prepare_draw(&registry, &mut selector, &mut cache, &i, MeshRef { mesh: 2, vertex_layout: 3 }).unwrap();
    let c = prepare_draw(&registry, &mut selector, &mut cache, &i, MeshRef { mesh: 3, vertex_layout: 4 }).unwrap();
    assert_eq!(a.pipeline, b.pipeline);
    assert_eq!(a.bind_group, b.bind_group);
    assert_ne!(a.pipeline, c.pipeline);
    assert_eq!(a.bind_group, c.bind_group);
    assert_eq!((a.mesh, b.mesh, c.mesh), (1, 2, 3));
}

#[test]
fn draw_fails_without_building_a_bind_group() {
    let registry = registry();
    let mut selector = PipelineSelector::new();
    let mut cache = BindGroupCache::new();
    let mesh = MeshRef { mesh: 40, vertex_layout: 3 };
    let mismatched = instance(5, 1, 2, TransparencyPolicy::Opaque);
    assert_eq!(
        prepare_draw(&registry, &mut selector, &mut cache, &mismatched, mesh),
        Err(PipelineError::Build(InterfaceMismatch::MissingOutput { location: 2 }))
    );
    let unregistered = instance(6, 1, 9, TransparencyPolicy::Opaque);
    assert_eq!(
        prepare_draw(&registry, &mut selector, &mut cache, &unregistered, mesh),
        Err(PipelineError::NotFound(9))
    );
    assert_eq!(selector.len(), 0);
    assert_eq!(cache.len(), 0);
}
