//! Material definitions and instances: which programs draw a material, how
//! its parameters are laid out, and their current values.

use crate::layout::{
    all_supported, buffer_size, compute_layout, declared_types, first_mismatch, first_unsupported,
    layout_of, values_match, FieldDescriptor, FieldValue, LayoutError, LayoutSpec, UniformLayout,
};
use std::rc::Rc;
use vstd::prelude::*;

verus! {

/// How a material is composited with what lies behind it.
///
/// A `Blend` material is translucent: the renderer draws such materials back
/// to front.
#[derive(Clone, Copy, Debug, PartialEq, Eq, Structural)]
pub enum TransparencyPolicy {
    Opaque,
    Blend,
}

/// A kind of material: the programs that draw it, the layout of its
/// parameters, and how it is composited. It does not change once made.
#[derive(Debug, PartialEq, Eq)]
pub struct MaterialDefinition {
    id: u64,
    vertex_program: u64,
    fragment_program: u64,
    layout: UniformLayout,
    policy: TransparencyPolicy,
}

/// What a definition is, as plain mathematical values.
pub struct DefinitionSpec {
    pub id: u64,
    pub vertex_program: u64,
    pub fragment_program: u64,
    pub layout: LayoutSpec,
    pub policy: TransparencyPolicy,
}

impl View for MaterialDefinition {
    type V = DefinitionSpec;

    closed spec fn view(&self) -> DefinitionSpec {
        DefinitionSpec {
            id: self.id,
            vertex_program: self.vertex_program,
            fragment_program: self.fragment_program,
            layout: self.layout@,
            policy: self.policy,
        }
    }
}

impl MaterialDefinition {
    /// Defines a material under `id`, drawn by the two programs, with the
    /// parameters of `table`.
    ///
    /// A table that declares an unsupported type is rejected, with the index
    /// of the first such field. As for
    /// [`compute_layout`](crate::layout::compute_layout), the size of the
    /// buffer has to fit a machine word.
    pub fn new(
        id: u64,
        vertex_program: u64,
        fragment_program: u64,
        table: &[FieldDescriptor],
        policy: TransparencyPolicy,
    ) -> (result: Result<Self, LayoutError>)
        requires
            all_supported(declared_types(table@)) ==> buffer_size(declared_types(table@))
                <= usize::MAX,
        ensures
            match result {
                Ok(definition) => {
                    &&& all_supported(declared_types(table@))
                    &&& definition@ == (DefinitionSpec {
                        id,
                        vertex_program,
                        fragment_program,
                        layout: layout_of(table@),
                        policy,
                    })
                    &&& definition@.layout.wf()
                },
                Err(LayoutError::UnsupportedType { index }) => first_unsupported(
                    declared_types(table@),
                    index as int,
                ),
                Err(_) => false,
            },
    {
        match compute_layout(table) {
            Ok(layout) => Ok(
                MaterialDefinition { id, vertex_program, fragment_program, layout, policy },
            ),
            Err(error) => Err(error),
        }
    }

    /// The identifier of the material.
    pub fn id(&self) -> (id: u64)
        ensures
            id == self@.id,
    {
        self.id
    }

    /// The identifier of the program that runs the vertex stage.
    pub fn vertex_program(&self) -> (id: u64)
        ensures
            id == self@.vertex_program,
    {
        self.vertex_program
    }

    /// The identifier of the program that runs the fragment stage.
    pub fn fragment_program(&self) -> (id: u64)
        ensures
            id == self@.fragment_program,
    {
        self.fragment_program
    }

    /// The layout of the parameters.
    pub fn layout(&self) -> (layout: &UniformLayout)
        ensures
            layout@ == self@.layout,
    {
        &self.layout
    }

    /// How the material is composited.
    pub fn policy(&self) -> (policy: TransparencyPolicy)
        ensures
            policy == self@.policy,
    {
        self.policy
    }
}

/// Puts `value` in place of the value at `index`.
fn replace_at(values: &mut Vec<FieldValue>, index: usize, value: FieldValue)
    requires
        index < old(values)@.len(),
    ensures
        final(values)@ == old(values)@.update(index as int, value),
    no_unwind
{
    values[index] = value;
}

/// A material in use: a definition, a value for each of its parameters, and
/// a generation that counts the changes made to the values.
#[derive(Debug, PartialEq, Eq)]
pub struct MaterialInstance {
    definition: Rc<MaterialDefinition>,
    values: Vec<FieldValue>,
    generation: u64,
}

/// What an instance is, as plain mathematical values.
pub struct InstanceSpec {
    pub definition: DefinitionSpec,
    pub values: Seq<FieldValue>,
    pub generation: u64,
}

impl InstanceSpec {
    /// The invariant of an instance: its definition's layout is well-formed
    /// and there is one value for each field, of the field's type.
    pub open spec fn wf(self) -> bool {
        &&& self.definition.layout.wf()
        &&& values_match(self.definition.layout, self.values)
    }

    /// Whether `value` can stand at `index`: the material has such a
    /// parameter, and of the value's type.
    pub open spec fn takes(self, index: int, value: FieldValue) -> bool {
        &&& 0 <= index < self.values.len()
        &&& value.spec_field_type() == self.definition.layout.fields[index].ty
    }

    /// The instance after parameter `index` was given `value`: the next
    /// generation of the same material.
    pub open spec fn with_value(self, index: int, value: FieldValue) -> InstanceSpec {
        InstanceSpec {
            definition: self.definition,
            values: self.values.update(index, value),
            generation: (self.generation + 1) as u64,
        }
    }
}

impl View for MaterialInstance {
    type V = InstanceSpec;

    closed spec fn view(&self) -> InstanceSpec {
        InstanceSpec {
            definition: self.definition@,
            values: self.values@,
            generation: self.generation,
        }
    }
}

impl MaterialInstance {
    #[verifier::type_invariant]
    spec fn inv(self) -> bool {
        self@.wf()
    }

    /// Instantiates a material with its first values, at generation 0.
    ///
    /// Fails where the number of values differs from the number of fields,
    /// and where a value has another type than its field, with the index of
    /// the first such value.
    pub fn new(definition: Rc<MaterialDefinition>, values: Vec<FieldValue>) -> (result: Result<
        Self,
        LayoutError,
    >)
        ensures
            match result {
                Ok(instance) => {
                    &&& instance@ == (InstanceSpec {
                        definition: definition@,
                        values: values@,
                        generation: 0,
                    })
                    &&& instance@.wf()
                },
                Err(LayoutError::CountMismatch { expected, found }) => {
                    &&& values@.len() != definition@.layout.fields.len()
                    &&& expected == definition@.layout.fields.len()
                    &&& found == values@.len()
                },
                Err(LayoutError::TypeMismatch { index }) => {
                    &&& values@.len() == definition@.layout.fields.len()
                    &&& first_mismatch(definition@.layout, values@, index as int)
                },
                Err(_) => false,
            },
    {
        match definition.layout.check_values(values.as_slice()) {
            Ok(()) => Ok(MaterialInstance { definition, values, generation: 0 }),
            Err(error) => Err(error),
        }
    }

    /// Gives parameter `index` a new value and moves on to the next
    /// generation.
    ///
    /// Fails, and changes nothing, where the material has no such parameter
    /// or the value is not of the parameter's type. The generation is a
    /// 64-bit counter and must not be at its last value.
    pub fn set_value(&mut self, index: usize, value: FieldValue) -> (result: Result<
        (),
        LayoutError,
    >)
        requires
            old(self)@.generation < u64::MAX,
        ensures
            final(self)@.wf(),
            match result {
                Ok(()) => {
                    &&& old(self)@.takes(index as int, value)
                    &&& final(self)@ == old(self)@.with_value(index as int, value)
                },
                Err(LayoutError::NoSuchField { index: at }) => {
                    &&& at == index
                    &&& index >= old(self)@.values.len()
                    &&& final(self)@ == old(self)@
                },
                Err(LayoutError::TypeMismatch { index: at }) => {
                    &&& at == index
                    &&& index < old(self)@.values.len()
                    &&& value.spec_field_type() != old(self)@.definition.layout.fields[index as int].ty
                    &&& final(self)@ == old(self)@
                },
                Err(_) => false,
            },
    {
        proof {
            use_type_invariant(&*self);
        }
        if index >= self.values.len() {
            return Err(LayoutError::NoSuchField { index });
        }
        if value.field_type() != self.definition.layout.fields()[index].ty {
            return Err(LayoutError::TypeMismatch { index });
        }
        replace_at(&mut self.values, index, value);
        self.generation = self.generation + 1;
        Ok(())
    }

    /// The definition that the instance was made from.
    pub fn definition(&self) -> (definition: &MaterialDefinition)
        ensures
            definition@ == self@.definition,
    {
        &self.definition
    }

    /// The current values, one for each field of the layout.
    pub fn values(&self) -> (values: &[FieldValue])
        ensures
            values@ == self@.values,
            self@.wf(),
    {
        proof {
            use_type_invariant(self);
        }
        self.values.as_slice()
    }

    /// The number of changes made to the values since the instance was made.
    pub fn generation(&self) -> (generation: u64)
        ensures
            generation == self@.generation,
    {
        self.generation
    }
}

} // verus!
