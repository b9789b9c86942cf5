//! Shader program registry: validated shader programs under stable
//! identifiers, registered once and resolved many times.

use std::collections::HashMap;
use vstd::pervasive::unreached;
use vstd::prelude::*;

verus! {

broadcast use vstd::std_specs::hash::group_hash_axioms;

/// Location of the position attribute among the vertex inputs.
pub const POSITION_LOCATION: u32 = 0;

/// Location of the normal attribute among the vertex inputs.
pub const NORMAL_LOCATION: u32 = 1;

/// Location of the texture coordinate attribute among the vertex inputs.
pub const UV_LOCATION: u32 = 2;

/// Location of the colour that the fragment stage writes.
pub const COLOR_TARGET_LOCATION: u32 = 0;

/// The two programmable stages of a pipeline.
#[derive(Clone, Copy, Debug, PartialEq, Eq, Structural)]
pub enum Stage {
    Vertex,
    Fragment,
}

/// Type of a value that enters or leaves a stage.
#[derive(Clone, Copy, Debug, PartialEq, Eq, Structural)]
pub enum SlotType {
    Float,
    Vec2,
    Vec3,
    Vec4,
}

/// A value that enters or leaves a stage at a numbered location.
#[derive(Clone, Copy, Debug, PartialEq, Eq, Structural)]
pub struct StageSlot {
    pub location: u32,
    pub ty: SlotType,
}

/// A uniform buffer that a program declares, by bind group and binding index.
#[derive(Clone, Copy, Debug, PartialEq, Eq, Structural)]
pub struct BindingSlot {
    pub group: u32,
    pub binding: u32,
}

/// A shader program as it is handed in: its code, kept as an opaque blob,
/// and the interface that the code declares.
#[derive(Debug, PartialEq, Eq)]
pub struct ShaderSource {
    /// Source text or bytecode.
    pub code: Vec<u8>,
    /// The uniform buffers, in the order of the material's uniform slots.
    pub bindings: Vec<BindingSlot>,
    /// What the vertex stage reads from the mesh.
    pub vertex_inputs: Vec<StageSlot>,
    /// What the vertex stage hands on to the fragment stage.
    pub vertex_outputs: Vec<StageSlot>,
    /// What the fragment stage expects from the vertex stage.
    pub fragment_inputs: Vec<StageSlot>,
    /// What the fragment stage writes.
    pub fragment_outputs: Vec<StageSlot>,
}

/// The names of a program's entry points.
#[derive(Debug, PartialEq, Eq)]
pub struct EntryPoints {
    pub vertex: String,
    pub fragment: String,
}

/// A registered shader program.
#[derive(Debug, PartialEq, Eq)]
pub struct ShaderProgram {
    pub id: u64,
    pub source: ShaderSource,
    pub entry_points: EntryPoints,
}

/// Why a program was not accepted.
#[derive(Clone, Copy, Debug, PartialEq, Eq, Structural)]
pub enum CompileError {
    /// The program has no code.
    EmptySource,
    /// The entry point of `stage` has no name.
    UnnamedEntryPoint { stage: Stage },
    /// The uniform buffer at `index` is not at the material bind group, or
    /// its binding index is not `index`.
    BindingMismatch { index: usize },
    /// The vertex input at `index` is not one of the mesh attributes.
    VertexInputMismatch { index: usize },
    /// The fragment stage does not write exactly one four-component colour
    /// at [`COLOR_TARGET_LOCATION`].
    FragmentOutputMismatch,
}

/// Why the registry refused a request.
#[derive(Clone, Copy, Debug, PartialEq, Eq, Structural)]
pub enum RegistryError {
    /// A program is already registered under this identifier.
    DuplicateId(u64),
    /// The program failed validation.
    Compile(CompileError),
    /// No program is registered under this identifier.
    NotFound(u64),
}

/// The type of the mesh attribute at a vertex input location.
pub open spec fn mesh_attribute(location: u32) -> Option<SlotType> {
    if location == POSITION_LOCATION {
        Some(SlotType::Vec3)
    } else if location == NORMAL_LOCATION {
        Some(SlotType::Vec3)
    } else if location == UV_LOCATION {
        Some(SlotType::Vec2)
    } else {
        None
    }
}

/// The uniform buffer at `i` sits at the material bind group with binding
/// index `i`.
pub open spec fn binding_in_order(group: u32, bindings: Seq<BindingSlot>, i: int) -> bool {
    bindings[i].group == group && bindings[i].binding == i
}

/// The vertex input reads a mesh attribute at its fixed location.
pub open spec fn reads_mesh_attribute(slot: StageSlot) -> bool {
    mesh_attribute(slot.location) == Some(slot.ty)
}

/// The fragment stage writes one four-component colour at
/// [`COLOR_TARGET_LOCATION`] and nothing else.
pub open spec fn writes_color(outputs: Seq<StageSlot>) -> bool {
    outputs.len() == 1 && outputs[0] == (StageSlot {
        location: COLOR_TARGET_LOCATION,
        ty: SlotType::Vec4,
    })
}

/// Every uniform buffer sits at the material bind group, with binding
/// indices that count up from 0.
pub open spec fn bindings_in_order(group: u32, bindings: Seq<BindingSlot>) -> bool {
    forall|i: int| 0 <= i < bindings.len() ==> #[trigger] binding_in_order(group, bindings, i)
}

/// Every vertex input reads a mesh attribute at its fixed location.
pub open spec fn inputs_read_mesh(inputs: Seq<StageSlot>) -> bool {
    forall|i: int| 0 <= i < inputs.len() ==> reads_mesh_attribute(#[trigger] inputs[i])
}

/// A program passes validation: it has code, both entry points are named,
/// and its interface follows the binding conventions.
pub open spec fn accepts(group: u32, source: ShaderSource, entry_points: EntryPoints) -> bool {
    &&& source.code@.len() > 0
    &&& entry_points.vertex@.len() > 0
    &&& entry_points.fragment@.len() > 0
    &&& bindings_in_order(group, source.bindings@)
    &&& inputs_read_mesh(source.vertex_inputs@)
    &&& writes_color(source.fragment_outputs@)
}

/// `error` is the first rule, in the order of [`accepts`], that the program
/// breaks, with the first index at which it breaks it.
pub open spec fn reports(
    group: u32,
    source: ShaderSource,
    entry_points: EntryPoints,
    error: CompileError,
) -> bool {
    match error {
        CompileError::EmptySource => source.code@.len() == 0,
        CompileError::UnnamedEntryPoint { stage: Stage::Vertex } => {
            &&& source.code@.len() > 0
            &&& entry_points.vertex@.len() == 0
        },
        CompileError::UnnamedEntryPoint { stage: Stage::Fragment } => {
            &&& source.code@.len() > 0
            &&& entry_points.vertex@.len() > 0
            &&& entry_points.fragment@.len() == 0
        },
        CompileError::BindingMismatch { index } => {
            &&& source.code@.len() > 0
            &&& entry_points.vertex@.len() > 0
            &&& entry_points.fragment@.len() > 0
            &&& index < source.bindings@.len()
            &&& !binding_in_order(group, source.bindings@, index as int)
            &&& forall|j: int| 0 <= j < index ==> #[trigger] binding_in_order(group, source.bindings@, j)
        },
        CompileError::VertexInputMismatch { index } => {
            &&& source.code@.len() > 0
            &&& entry_points.vertex@.len() > 0
            &&& entry_points.fragment@.len() > 0
            &&& bindings_in_order(group, source.bindings@)
            &&& index < source.vertex_inputs@.len()
            &&& !reads_mesh_attribute(source.vertex_inputs@[index as int])
            &&& forall|j: int|
                0 <= j < index ==> reads_mesh_attribute(#[trigger] source.vertex_inputs@[j])
        },
        CompileError::FragmentOutputMismatch => {
            &&& source.code@.len() > 0
            &&& entry_points.vertex@.len() > 0
            &&& entry_points.fragment@.len() > 0
            &&& bindings_in_order(group, source.bindings@)
            &&& inputs_read_mesh(source.vertex_inputs@)
            &&& !writes_color(source.fragment_outputs@)
        },
    }
}

/// Whatever validation reports, the program is not accepted, and no other
/// error is reported for it.
pub proof fn lemma_reports_is_unique(
    group: u32,
    source: ShaderSource,
    entry_points: EntryPoints,
    first: CompileError,
    second: CompileError,
)
    requires
        reports(group, source, entry_points, first),
        reports(group, source, entry_points, second),
    ensures
        first == second,
        !accepts(group, source, entry_points),
{
    match first {
        CompileError::BindingMismatch { index } => {
            assert(!binding_in_order(group, source.bindings@, index as int));
            if let CompileError::BindingMismatch { index: other } = second {
                if index < other {
                    assert(binding_in_order(group, source.bindings@, index as int));
                }
                if other < index {
                    assert(binding_in_order(group, source.bindings@, other as int));
                }
            }
        },
        CompileError::VertexInputMismatch { index } => {
            assert(!reads_mesh_attribute(source.vertex_inputs@[index as int]));
            if let CompileError::BindingMismatch { index: other } = second {
                assert(binding_in_order(group, source.bindings@, other as int));
            }
            if let CompileError::VertexInputMismatch { index: other } = second {
                if index < other {
                    assert(reads_mesh_attribute(source.vertex_inputs@[index as int]));
                }
                if other < index {
                    assert(reads_mesh_attribute(source.vertex_inputs@[other as int]));
                }
            }
        },
        CompileError::FragmentOutputMismatch => {
            if let CompileError::BindingMismatch { index: other } = second {
                assert(binding_in_order(group, source.bindings@, other as int));
            }
            if let CompileError::VertexInputMismatch { index: other } = second {
                assert(reads_mesh_attribute(source.vertex_inputs@[other as int]));
            }
        },
        _ => {},
    }
}

/// The type of the mesh attribute at a vertex input location.
pub fn mesh_attribute_at(location: u32) -> (ty: Option<SlotType>)
    ensures
        ty == mesh_attribute(location),
{
    if location == POSITION_LOCATION {
        Some(SlotType::Vec3)
    } else if location == NORMAL_LOCATION {
        Some(SlotType::Vec3)
    } else if location == UV_LOCATION {
        Some(SlotType::Vec2)
    } else {
        None
    }
}

/// Validates a program against the binding conventions, for materials bound
/// at bind group `group`.
///
/// The rules are tried in the order of [`accepts`]; the first that the
/// program breaks is reported, with the first index at which it breaks it.
pub fn validate(group: u32, source: &ShaderSource, entry_points: &EntryPoints) -> (result: Result<
    (),
    CompileError,
>)
    ensures
        match result {
            Ok(()) => accepts(group, *source, *entry_points),
            Err(error) => reports(group, *source, *entry_points, error),
        },
{
    if source.code.len() == 0 {
        return Err(CompileError::EmptySource);
    }
    if entry_points.vertex.as_str().is_empty() {
        return Err(CompileError::UnnamedEntryPoint { stage: Stage::Vertex });
    }
    if entry_points.fragment.as_str().is_empty() {
        return Err(CompileError::UnnamedEntryPoint { stage: Stage::Fragment });
    }
    let mut i: usize = 0;
    while i < source.bindings.len()
        invariant
            i <= source.bindings.len(),
            source.code@.len() > 0,
            entry_points.vertex@.len() > 0,
            entry_points.fragment@.len() > 0,
            forall|j: int| 0 <= j < i ==> #[trigger] binding_in_order(group, source.bindings@, j),
        decreases source.bindings.len() - i,
    {
        let slot = source.bindings[i];
        if slot.group != group || slot.binding as usize != i {
            return Err(CompileError::BindingMismatch { index: i });
        }
        i += 1;
    }
    let mut k: usize = 0;
    while k < source.vertex_inputs.len()
        invariant
            k <= source.vertex_inputs.len(),
            source.code@.len() > 0,
            entry_points.vertex@.len() > 0,
            entry_points.fragment@.len() > 0,
            bindings_in_order(group, source.bindings@),
            forall|j: int| 0 <= j < k ==> reads_mesh_attribute(#[trigger] source.vertex_inputs@[j]),
        decreases source.vertex_inputs.len() - k,
    {
        let slot = source.vertex_inputs[k];
        if mesh_attribute_at(slot.location) != Some(slot.ty) {
            return Err(CompileError::VertexInputMismatch { index: k });
        }
        k += 1;
    }
    if source.fragment_outputs.len() != 1 {
        return Err(CompileError::FragmentOutputMismatch);
    }
    let out = source.fragment_outputs[0];
    if out.location != COLOR_TARGET_LOCATION || out.ty != SlotType::Vec4 {
        return Err(CompileError::FragmentOutputMismatch);
    }
    Ok(())
}

/// The shader programs of a renderer, keyed by identifier.
///
/// Registration only ever adds: a program, once registered, is never changed
/// or removed, so that what was resolved from the registry stays true.
#[derive(Debug)]
pub struct ShaderRegistry {
    material_group: u32,
    programs: HashMap<u64, ShaderProgram>,
}

impl ShaderRegistry {
    /// The bind group at which materials bind their uniform buffers.
    pub closed spec fn material_group(&self) -> u32 {
        self.material_group
    }

    /// The registered programs by identifier.
    pub closed spec fn programs(&self) -> Map<u64, ShaderProgram> {
        self.programs@
    }

    /// Every program is stored under its own identifier and passes
    /// validation.
    pub open spec fn wf(&self) -> bool {
        forall|id: u64| #[trigger]
            self.programs().contains_key(id) ==> {
                &&& self.programs()[id].id == id
                &&& accepts(
                    self.material_group(),
                    self.programs()[id].source,
                    self.programs()[id].entry_points,
                )
            }
    }

    #[verifier::type_invariant]
    spec fn inv(self) -> bool {
        self.wf()
    }

    /// An empty registry for materials bound at bind group `material_group`.
    pub fn new(material_group: u32) -> (registry: Self)
        ensures
            registry.material_group() == material_group,
            registry.programs() == Map::<u64, ShaderProgram>::empty(),
            registry.wf(),
    {
        ShaderRegistry { material_group, programs: HashMap::new() }
    }

    /// Whether a program is registered under `id`.
    pub fn contains(&self, id: u64) -> (found: bool)
        ensures
            found == self.programs().contains_key(id),
    {
        self.programs.contains_key(&id)
    }

    /// Registers a program under `id`.
    ///
    /// Fails with `DuplicateId` where a program is already registered under
    /// `id`, else with `Compile` where the program fails validation. The
    /// registry changes only on success, and then only by the new program.
    pub fn register(&mut self, id: u64, source: ShaderSource, entry_points: EntryPoints) -> (result:
        Result<&ShaderProgram, RegistryError>)
        ensures
            final(self).wf(),
            final(self).material_group() == old(self).material_group(),
            match result {
                Ok(program) => {
                    &&& *program == (ShaderProgram { id, source, entry_points })
                    &&& !old(self).programs().contains_key(id)
                    &&& accepts(old(self).material_group(), source, entry_points)
                    &&& final(self).programs() == old(self).programs().insert(
                        id,
                        ShaderProgram { id, source, entry_points },
                    )
                },
                Err(RegistryError::DuplicateId(at)) => {
                    &&& at == id
                    &&& old(self).programs().contains_key(id)
                    &&& final(self).programs() == old(self).programs()
                },
                Err(RegistryError::Compile(error)) => {
                    &&& !old(self).programs().contains_key(id)
                    &&& reports(old(self).material_group(), source, entry_points, error)
                    &&& final(self).programs() == old(self).programs()
                },
                Err(RegistryError::NotFound(_)) => false,
            },
    {
        proof {
            use_type_invariant(&*self);
        }
        if self.programs.contains_key(&id) {
            return Err(RegistryError::DuplicateId(id));
        }
        if let Err(error) = validate(self.material_group, &source, &entry_points) {
            return Err(RegistryError::Compile(error));
        }
        let mut programs = HashMap::new();
        std::mem::swap(&mut programs, &mut self.programs);
        programs.insert(id, ShaderProgram { id, source, entry_points });
        proof {
            assert forall|k: u64| #[trigger] programs@.contains_key(k) implies {
                &&& programs@[k].id == k
                &&& accepts(self.material_group, programs@[k].source, programs@[k].entry_points)
            } by {
                if k != id {
                    assert(old(self).programs().contains_key(k));
                }
            }
        }
        self.programs = programs;
        match self.programs.get(&id) {
            Some(program) => Ok(program),
            None => unreached(),
        }
    }

    /// The program registered under `id`.
    ///
    /// Fails with `NotFound` where no program is registered under `id`.
    pub fn resolve(&self, id: u64) -> (result: Result<&ShaderProgram, RegistryError>)
        ensures
            self.wf(),
            match result {
                Ok(program) => {
                    &&& self.programs().contains_key(id)
                    &&& *program == self.programs()[id]
                    &&& program.id == id
                },
                Err(RegistryError::NotFound(at)) => {
                    &&& at == id
                    &&& !self.programs().contains_key(id)
                },
                Err(_) => false,
            },
    {
        proof {
            use_type_invariant(self);
        }
        match self.programs.get(&id) {
            Some(program) => Ok(program),
            None => Err(RegistryError::NotFound(id)),
        }
    }

    /// The pair of programs that draws a material: its vertex program and
    /// its fragment program.
    ///
    /// Fails with `NotFound` where one of them is not registered, with the
    /// identifier of the vertex program where that one is missing.
    pub fn resolve_pair(&self, vertex: u64, fragment: u64) -> (result: Result<
        (&ShaderProgram, &ShaderProgram),
        RegistryError,
    >)
        ensures
            self.wf(),
            match result {
                Ok((vertex_program, fragment_program)) => {
                    &&& self.programs().contains_key(vertex)
                    &&& self.programs().contains_key(fragment)
                    &&& *vertex_program == self.programs()[vertex]
                    &&& *fragment_program == self.programs()[fragment]
                },
                Err(RegistryError::NotFound(at)) => {
                    if self.programs().contains_key(vertex) {
                        at == fragment && !self.programs().contains_key(fragment)
                    } else {
                        at == vertex
                    }
                },
                Err(_) => false,
            },
    {
        let vertex_program = match self.resolve(vertex) {
            Ok(program) => program,
            Err(error) => {
                return Err(error);
            },
        };
        let fragment_program = match self.resolve(fragment) {
            Ok(program) => program,
            Err(error) => {
                return Err(error);
            },
        };
        Ok((vertex_program, fragment_program))
    }
}

} // verus!
