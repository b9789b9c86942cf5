//! The two surface materials: a fresnel material, which is opaque, and a
//! glass material, which is blended. Each has one parameter, its colour.

use crate::layout::{
    declared_types, layout_of, packed_end, round_up, FieldDescriptor, FieldSpec, FieldType,
    FieldValue, LayoutError, LayoutSpec,
};
use crate::material::{
    DefinitionSpec, InstanceSpec, MaterialDefinition, MaterialInstance, TransparencyPolicy,
};
use std::rc::Rc;
use vstd::pervasive::unreached;
use vstd::prelude::*;

verus! {

/// A colour in linear space. Each channel is the bit pattern of a 32-bit
/// float.
#[derive(Clone, Copy, Debug, PartialEq, Eq, Structural)]
pub struct LinearColor {
    pub red: u32,
    pub green: u32,
    pub blue: u32,
    pub alpha: u32,
}

impl LinearColor {
    /// The colour as the value of a `Color` field.
    pub open spec fn spec_value(self) -> FieldValue {
        FieldValue::Color(self.red, self.green, self.blue, self.alpha)
    }

    /// The colour as the value of a `Color` field.
    #[verifier::when_used_as_spec(spec_value)]
    pub fn value(self) -> (value: FieldValue)
        ensures
            value == self.spec_value(),
    {
        FieldValue::Color(self.red, self.green, self.blue, self.alpha)
    }

    /// Black at full opacity: red, green and blue 0.0, alpha 1.0.
    pub fn black() -> (color: LinearColor)
        ensures
            color == (LinearColor { red: 0, green: 0, blue: 0, alpha: 0x3f80_0000 }),
    {
        LinearColor { red: 0, green: 0, blue: 0, alpha: 0x3f80_0000 }
    }
}

/// The parameter table of a material whose one parameter is a colour.
pub open spec fn is_color_table(table: Seq<FieldDescriptor>) -> bool {
    &&& table.len() == 1
    &&& table[0].name@ == "color"@
    &&& table[0].ty == FieldType::Color
}

/// The layout of a colour table: the colour at offset 0 of a buffer of 16
/// bytes.
pub open spec fn color_layout() -> LayoutSpec {
    LayoutSpec {
        fields: seq![
            FieldSpec { name: "color"@, ty: FieldType::Color, offset: 0, size: 16 },
        ],
        size: 16,
    }
}

/// The instance of a material of one colour, as it is first made.
pub open spec fn color_instance(definition: DefinitionSpec, color: LinearColor) -> InstanceSpec {
    InstanceSpec { definition, values: seq![color.spec_value()], generation: 0 }
}

/// A colour table is laid out as [`color_layout`] says.
pub proof fn lemma_color_table_layout(table: Seq<FieldDescriptor>)
    requires
        is_color_table(table),
    ensures
        layout_of(table) == color_layout(),
{
    let types = declared_types(table);
    assert(types[0] == FieldType::Color);
    assert(packed_end(types, 0) == 0);
    assert(packed_end(types, 1) == round_up(packed_end(types, 0), 16) + 16);
    assert(layout_of(table).fields =~= color_layout().fields);
}

/// The parameter table of a material whose one parameter is a colour.
fn color_table() -> (table: Vec<FieldDescriptor>)
    ensures
        is_color_table(table@),
{
    let mut table: Vec<FieldDescriptor> = Vec::new();
    table.push(FieldDescriptor { name: "color".to_owned(), ty: FieldType::Color });
    table
}

/// The definition of a material of one colour.
fn define(
    id: u64,
    vertex_program: u64,
    fragment_program: u64,
    policy: TransparencyPolicy,
) -> (definition: MaterialDefinition)
    ensures
        definition@ == (DefinitionSpec {
            id,
            vertex_program,
            fragment_program,
            layout: color_layout(),
            policy,
        }),
{
    let table = color_table();
    proof {
        lemma_color_table_layout(table@);
        assert(declared_types(table@)[0].is_supported());
        assert(round_up(16, 16) == 16);
    }
    match MaterialDefinition::new(id, vertex_program, fragment_program, table.as_slice(), policy) {
        Ok(definition) => definition,
        Err(_) => unreached(),
    }
}

/// An instance of `definition` with the one value `color`.
fn instantiate(definition: Rc<MaterialDefinition>, color: LinearColor) -> (result: Result<
    MaterialInstance,
    LayoutError,
>)
    ensures
        match result {
                Ok(instance) => {
                    &&& has_one_color(definition@)
                    &&& instance@ == color_instance(definition@, color)
                },
                Err(LayoutError::CountMismatch { expected, found }) => {
                    &&& definition@.layout.fields.len() != 1
                    &&& expected == definition@.layout.fields.len()
                    &&& found == 1
                },
                Err(LayoutError::TypeMismatch { index }) => {
                    &&& definition@.layout.fields.len() == 1
                    &&& definition@.layout.fields[0].ty != FieldType::Color
                    &&& index == 0
                },
                Err(_) => false,
            },
{
    let mut values: Vec<FieldValue> = Vec::new();
    values.push(color.value());
    assert(values@ =~= seq![color.spec_value()]);
    let result = MaterialInstance::new(definition, values);
    proof {
        if result is Ok {
            assert(values@[0].spec_field_type() == definition@.layout.fields[0].ty);
        }
    }
    result
}

/// The definition has one parameter, a colour.
pub open spec fn has_one_color(definition: DefinitionSpec) -> bool {
    &&& definition.layout.fields.len() == 1
    &&& definition.layout.fields[0].ty == FieldType::Color
}

/// A material that shades a surface by the angle at which it is seen.
#[derive(Clone, Copy, Debug, PartialEq, Eq, Structural)]
pub struct FresnelMaterial {
    color: LinearColor,
}

impl FresnelMaterial {
    /// The colour of the material.
    pub closed spec fn spec_color(self) -> LinearColor {
        self.color
    }

    /// A material of the given colour.
    pub fn new(color: LinearColor) -> (material: Self)
        ensures
            material.spec_color() == color,
    {
        FresnelMaterial { color }
    }

    /// The colour of the material.
    #[verifier::when_used_as_spec(spec_color)]
    pub fn color(self) -> (color: LinearColor)
        ensures
            color == self.spec_color(),
    {
        self.color
    }

    /// The asset path of the fragment program.
    pub fn fragment_shader() -> (path: &'static str)
        ensures
            path@ == "fresnel_shader.wgsl"@,
    {
        "fresnel_shader.wgsl"
    }

    /// The material is opaque.
    pub fn policy() -> (policy: TransparencyPolicy)
        ensures
            policy == TransparencyPolicy::Opaque,
    {
        TransparencyPolicy::Opaque
    }

    /// The parameter table: one colour, named `color`, at uniform slot 0.
    pub fn table() -> (table: Vec<FieldDescriptor>)
        ensures
            is_color_table(table@),
    {
        color_table()
    }

    /// The definition of the material under `id`, drawn by the two programs.
    pub fn definition(id: u64, vertex_program: u64, fragment_program: u64) -> (definition:
        MaterialDefinition)
        ensures
            definition@ == (DefinitionSpec {
                id,
                vertex_program,
                fragment_program,
                layout: color_layout(),
                policy: TransparencyPolicy::Opaque,
            }),
    {
        define(id, vertex_program, fragment_program, TransparencyPolicy::Opaque)
    }

    /// An instance of `definition` with this material's colour, at
    /// generation 0. It succeeds where the definition has one parameter, a
    /// colour, and fails for every other definition.
    pub fn instantiate(self, definition: Rc<MaterialDefinition>) -> (result: Result<
        MaterialInstance,
        LayoutError,
    >)
        ensures
            match result {
                Ok(instance) => {
                    &&& has_one_color(definition@)
                    &&& instance@ == color_instance(definition@, self.spec_color())
                },
                Err(LayoutError::CountMismatch { expected, found }) => {
                    &&& definition@.layout.fields.len() != 1
                    &&& expected == definition@.layout.fields.len()
                    &&& found == 1
                },
                Err(LayoutError::TypeMismatch { index }) => {
                    &&& definition@.layout.fields.len() == 1
                    &&& definition@.layout.fields[0].ty != FieldType::Color
                    &&& index == 0
                },
                Err(_) => false,
            },
    {
        instantiate(definition, self.color)
    }
}

/// A translucent material: a surface that is seen through.
#[derive(Clone, Copy, Debug, PartialEq, Eq, Structural)]
pub struct GlassMaterial {
    color: LinearColor,
}

impl GlassMaterial {
    /// The colour of the material.
    pub closed spec fn spec_color(self) -> LinearColor {
        self.color
    }

    /// A material of the given colour.
    pub fn new(color: LinearColor) -> (material: Self)
        ensures
            material.spec_color() == color,
    {
        GlassMaterial { color }
    }

    /// The colour of the material.
    #[verifier::when_used_as_spec(spec_color)]
    pub fn color(self) -> (color: LinearColor)
        ensures
            color == self.spec_color(),
    {
        self.color
    }

    /// The asset path of the vertex program.
    pub fn vertex_shader() -> (path: &'static str)
        ensures
            path@ == "glass_shader.wgsl"@,
    {
        "glass_shader.wgsl"
    }

    /// The asset path of the fragment program.
    pub fn fragment_shader() -> (path: &'static str)
        ensures
            path@ == "glass_shader.wgsl"@,
    {
        "glass_shader.wgsl"
    }

    /// The material is blended.
    pub fn policy() -> (policy: TransparencyPolicy)
        ensures
            policy == TransparencyPolicy::Blend,
    {
        TransparencyPolicy::Blend
    }

    /// The parameter table: one colour, named `color`, at uniform slot 0.
    pub fn table() -> (table: Vec<FieldDescriptor>)
        ensures
            is_color_table(table@),
    {
        color_table()
    }

    /// The definition of the material under `id`, drawn by the two programs.
    pub fn definition(id: u64, vertex_program: u64, fragment_program: u64) -> (definition:
        MaterialDefinition)
        ensures
            definition@ == (DefinitionSpec {
                id,
                vertex_program,
                fragment_program,
                layout: color_layout(),
                policy: TransparencyPolicy::Blend,
            }),
    {
        define(id, vertex_program, fragment_program, TransparencyPolicy::Blend)
    }

    /// An instance of `definition` with this material's colour, at
    /// generation 0. It succeeds where the definition has one parameter, a
    /// colour, and fails for every other definition.
    pub fn instantiate(self, definition: Rc<MaterialDefinition>) -> (result: Result<
        MaterialInstance,
        LayoutError,
    >)
        ensures
            match result {
                Ok(instance) => {
                    &&& has_one_color(definition@)
                    &&& instance@ == color_instance(definition@, self.spec_color())
                },
                Err(LayoutError::CountMismatch { expected, found }) => {
                    &&& definition@.layout.fields.len() != 1
                    &&& expected == definition@.layout.fields.len()
                    &&& found == 1
                },
                Err(LayoutError::TypeMismatch { index }) => {
                    &&& definition@.layout.fields.len() == 1
                    &&& definition@.layout.fields[0].ty != FieldType::Color
                    &&& index == 0
                },
                Err(_) => false,
            },
    {
        instantiate(definition, self.color)
    }
}

} // verus!
