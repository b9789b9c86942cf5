use material_binding::shader::{
    mesh_attribute_at, validate, BindingSlot, CompileError, EntryPoints, RegistryError,
    ShaderRegistry, ShaderSource, SlotType, Stage, StageSlot, COLOR_TARGET_LOCATION,
    NORMAL_LOCATION, POSITION_LOCATION, UV_LOCATION,
};

const GROUP: u32 = 2;

fn slot(location: u32, ty: SlotType) -> StageSlot {
    StageSlot { location, ty }
}

fn good_source() -> ShaderSource {
    ShaderSource {
        code: b"@fragment fn fragment() -> @location(0) vec4<f32> { return color; }".to_vec(),
        bindings: vec![BindingSlot { group: GROUP, binding: 0 }],
        vertex_inputs: vec![slot(0, SlotType::Vec3), slot(1, SlotType::Vec3), slot(2, SlotType::Vec2)],
        vertex_outputs: vec![slot(0, SlotType::Vec4), slot(1, SlotType::Vec3)],
        fragment_inputs: vec![slot(0, SlotType::Vec4)],
        fragment_outputs: vec![slot(0, SlotType::Vec4)],
    }
}

fn names() -> EntryPoints {
    EntryPoints { vertex: "vertex".to_string(), fragment: "fragment".to_string() }
}

#[test]
fn mesh_attributes_sit_at_fixed_locations() {
    assert_eq!(POSITION_LOCATION, 0);
    assert_eq!(NORMAL_LOCATION, 1);
    assert_eq!(UV_LOCATION, 2);
    assert_eq!(COLOR_TARGET_LOCATION, 0);
    assert_eq!(mesh_attribute_at(0), Some(SlotType::Vec3));
    assert_eq!(mesh_attribute_at(1), Some(SlotType::Vec3));
    assert_eq!(mesh_attribute_at(2), Some(SlotType::Vec2));
    assert_eq!(mesh_attribute_at(3), None);
    assert_eq!(mesh_attribute_at(u32::MAX), None);
}

#[test]
fn well_formed_program_passes_validation() {
    assert_eq!(validate(GROUP, &good_source(), &names()), Ok(()));
}

#[test]
fn program_without_uniforms_or_inputs_passes_validation() {
    let mut source = good_source();
    source.bindings.clear();
    source.vertex_inputs.clear();
    source.vertex_outputs.clear();
    source.fragment_inputs.clear();
    assert_eq!(validate(GROUP, &source, &names()), Ok(()));
}

#[test]
fn empty_code_is_rejected() {
    let mut source = good_source();
    source.code.clear();
    assert_eq!(validate(GROUP, &source, &names()), Err(CompileError::EmptySource));
}

#[test]
fn unnamed_entry_points_are_rejected() {
    let mut entry = names();
    entry.vertex.clear();
    assert_eq!(
        validate(GROUP, &good_source(), &entry),
        Err(CompileError::UnnamedEntryPoint { stage: Stage::Vertex })
    );
    let mut entry = names();
    entry.fragment.clear();
    assert_eq!(
        validate(GROUP, &good_source(), &entry),
        Err(CompileError::UnnamedEntryPoint { stage: Stage::Fragment })
    );
    let entry = EntryPoints { vertex: String::new(), fragment: String::new() };
    assert_eq!(
        validate(GROUP, &good_source(), &entry),
        Err(CompileError::UnnamedEntryPoint { stage: Stage::Vertex })
    );
}

#[test]
fn uniform_at_another_group_is_rejected() {
    let mut source = good_source();
    source.bindings = vec![BindingSlot { group: 1, binding: 0 }];
    assert_eq!(
        validate(GROUP, &source, &names()),
        Err(CompileError::BindingMismatch { index: 0 })
    );
    assert_eq!(validate(1, &source, &names()), Ok(()));
}

#[test]
fn uniform_bindings_follow_slot_order() {
    let mut source = good_source();
    source.bindings = vec![
        BindingSlot { group: GROUP, binding: 0 },
        BindingSlot { group: GROUP, binding: 1 },
        BindingSlot { group: GROUP, binding: 2 },
    ];
    assert_eq!(validate(GROUP, &source, &names()), Ok(()));
    source.bindings = vec![
        BindingSlot { group: GROUP, binding: 0 },
        BindingSlot { group: GROUP, binding: 2 },
        BindingSlot { group: GROUP, binding: 1 },
    ];
    assert_eq!(
        validate(GROUP, &source, &names()),
        Err(CompileError::BindingMismatch { index: 1 })
    );
    source.bindings = vec![BindingSlot { group: GROUP, binding: 1 }];
    assert_eq!(
        validate(GROUP, &source, &names()),
        Err(CompileError::BindingMismatch { index: 0 })
    );
}

#[test]
fn vertex_input_must_be_a_mesh_attribute() {
    let mut source = good_source();
    source.vertex_inputs = vec![slot(0, SlotType::Vec3), slot(2, SlotType::Vec3)];
    assert_eq!(
        validate(GROUP, &source, &names()),
        Err(CompileError::VertexInputMismatch { index: 1 })
    );
    source.vertex_inputs = vec![slot(5, SlotType::Vec4)];
    assert_eq!(
        validate(GROUP, &source, &names()),
        Err(CompileError::VertexInputMismatch { index: 0 })
    );
}

#[test]
fn fragment_must_write_one_color_at_location_zero() {
    let mut source = good_source();
    source.fragment_outputs = vec![];
    assert_eq!(validate(GROUP, &source, &names()), Err(CompileError::FragmentOutputMismatch));
    source.fragment_outputs = vec![slot(1, SlotType::Vec4)];
    assert_eq!(validate(GROUP, &source, &names()), Err(CompileError::FragmentOutputMismatch));
    source.fragment_outputs = vec![slot(0, SlotType::Vec3)];
    assert_eq!(validate(GROUP, &source, &names()), Err(CompileError::FragmentOutputMismatch));
    source.fragment_outputs = vec![slot(0, SlotType::Vec4), slot(1, SlotType::Vec4)];
    assert_eq!(validate(GROUP, &source, &names()), Err(CompileError::FragmentOutputMismatch));
}

#[test]
fn first_broken_rule_is_reported() {
    let mut source = good_source();
    source.bindings = vec![BindingSlot { group: 9, binding: 0 }];
    source.vertex_inputs = vec![slot(7, SlotType::Float)];
    source.fragment_outputs = vec![];
    assert_eq!(
        validate(GROUP, &source, &names()),
        Err(CompileError::BindingMismatch { index: 0 })
    );
    source.bindings.clear();
    assert_eq!(
        validate(GROUP, &source, &names()),
        Err(CompileError::VertexInputMismatch { index: 0 })
    );
    source.code.clear();
    assert_eq!(validate(GROUP, &source, &names()), Err(CompileError::EmptySource));
}

#[test]
fn new_registry_is_empty() {
    let registry = ShaderRegistry::new(GROUP);
    assert!(!registry.contains(0));
    assert_eq!(registry.resolve(0), Err(RegistryError::NotFound(0)));
}

#[test]
fn registered_program_is_resolved() {
    let mut registry = ShaderRegistry::new(GROUP);
    {
        let program = registry.register(7, good_source(), names()).unwrap();
        assert_eq!(program.id, 7);
        assert_eq!(program.source, good_source());
        assert_eq!(program.entry_points, names());
    }
    assert!(registry.contains(7));
    let program = registry.resolve(7).unwrap();
    assert_eq!(program.id, 7);
    assert_eq!(program.source, good_source());
    assert_eq!(program.entry_points.vertex, "vertex");
    assert_eq!(program.entry_points.fragment, "fragment");
}

#[test]
fn registering_same_id_twice_fails_with_duplicate_id() {
    let mut registry = ShaderRegistry::new(GROUP);
    assert!(registry.register(1, good_source(), names()).is_ok());
    let mut other = good_source();
    other.code = b"other".to_vec();
    assert_eq!(registry.register(1, other, names()).err(), Some(RegistryError::DuplicateId(1)));
    assert_eq!(registry.resolve(1).unwrap().source, good_source());
}

#[test]
fn resolving_unregistered_id_fails_with_not_found() {
    let mut registry = ShaderRegistry::new(GROUP);
    assert!(registry.register(1, good_source(), names()).is_ok());
    assert_eq!(registry.resolve(2), Err(RegistryError::NotFound(2)));
    assert_eq!(registry.resolve(u64::MAX), Err(RegistryError::NotFound(u64::MAX)));
}

#[test]
fn duplicate_id_is_reported_before_compile_error() {
    let mut registry = ShaderRegistry::new(GROUP);
    assert!(registry.register(1, good_source(), names()).is_ok());
    let mut bad = good_source();
    bad.code.clear();
    assert_eq!(registry.register(1, bad, names()).err(), Some(RegistryError::DuplicateId(1)));
}

#[test]
fn invalid_program_is_not_registered() {
    let mut registry = ShaderRegistry::new(GROUP);
    let mut bad = good_source();
    bad.bindings = vec![BindingSlot { group: GROUP + 1, binding: 0 }];
    assert_eq!(
        registry.register(4, bad, names()).err(),
        Some(RegistryError::Compile(CompileError::BindingMismatch { index: 0 }))
    );
    assert!(!registry.contains(4));
    assert_eq!(registry.resolve(4), Err(RegistryError::NotFound(4)));
    assert!(registry.register(4, good_source(), names()).is_ok());
    assert!(registry.contains(4));
}

#[test]
fn registration_only_adds() {
    let mut registry = ShaderRegistry::new(GROUP);
    for id in 0..20u64 {
        let mut source = good_source();
        source.code = vec![id as u8 + 1];
        assert!(registry.register(id, source, names()).is_ok());
        for earlier in 0..=id {
            assert_eq!(registry.resolve(earlier).unwrap().source.code, vec![earlier as u8 + 1]);
        }
    }
}

#[test]
fn registry_validates_against_its_own_group() {
    let mut registry = ShaderRegistry::new(1);
    assert_eq!(
        registry.register(1, good_source(), names()).err(),
        Some(RegistryError::Compile(CompileError::BindingMismatch { index: 0 }))
    );
    let mut source = good_source();
    source.bindings = vec![BindingSlot { group: 1, binding: 0 }];
    assert!(registry.register(1, source, names()).is_ok());
}
