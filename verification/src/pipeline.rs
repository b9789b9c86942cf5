//! Pipeline selector: one render pipeline for each distinct combination of
//! shader programs, transparency policy and mesh vertex layout.

use crate::material::TransparencyPolicy;
use crate::shader::{RegistryError, ShaderProgram, ShaderRegistry, StageSlot};
use vstd::pervasive::unreached;
use vstd::prelude::*;

verus! {

/// How a fragment's colour is combined with the colour already in the target.
#[derive(Clone, Copy, Debug, PartialEq, Eq, Structural)]
pub enum BlendMode {
    /// The fragment replaces what was there.
    Replace,
    /// The fragment is laid over what was there, weighted by its alpha.
    SourceOver,
}

/// Which faces are discarded before rasterization.
#[derive(Clone, Copy, Debug, PartialEq, Eq, Structural)]
pub enum CullMode {
    /// Both sides of a surface are drawn.
    Off,
    /// Faces that point away from the camera are discarded.
    Back,
}

/// The fixed-function state of a pipeline.
#[derive(Clone, Copy, Debug, PartialEq, Eq, Structural)]
pub struct RenderState {
    pub blend: BlendMode,
    pub depth_test: bool,
    pub depth_write: bool,
    pub cull: CullMode,
}

impl TransparencyPolicy {
    /// The fixed-function state that a policy asks for.
    ///
    /// An opaque material tests and writes depth and is culled on its back
    /// faces. A blended material is composited source-over; it tests depth
    /// but does not write it, and as a translucent surface shows both of its
    /// sides it is not culled.
    pub open spec fn spec_render_state(self) -> RenderState {
        match self {
            TransparencyPolicy::Opaque => RenderState {
                blend: BlendMode::Replace,
                depth_test: true,
                depth_write: true,
                cull: CullMode::Back,
            },
            TransparencyPolicy::Blend => RenderState {
                blend: BlendMode::SourceOver,
                depth_test: true,
                depth_write: false,
                cull: CullMode::Off,
            },
        }
    }

    /// The fixed-function state that the policy asks for.
    #[verifier::when_used_as_spec(spec_render_state)]
    pub fn render_state(self) -> (state: RenderState)
        ensures
            state == self.spec_render_state(),
    {
        match self {
            TransparencyPolicy::Opaque => RenderState {
                blend: BlendMode::Replace,
                depth_test: true,
                depth_write: true,
                cull: CullMode::Back,
            },
            TransparencyPolicy::Blend => RenderState {
                blend: BlendMode::SourceOver,
                depth_test: true,
                depth_write: false,
                cull: CullMode::Off,
            },
        }
    }
}

/// What a pipeline is specialized by.
#[derive(Clone, Copy, Debug, PartialEq, Eq, Structural)]
pub struct PipelineKey {
    pub vertex_program: u64,
    pub fragment_program: u64,
    pub policy: TransparencyPolicy,
    pub vertex_layout: u64,
}

/// A built pipeline.
#[derive(Clone, Copy, Debug, PartialEq, Eq, Structural)]
pub struct Pipeline {
    pub key: PipelineKey,
    pub state: RenderState,
}

/// Names a pipeline of a selector.
#[derive(Clone, Copy, Debug, PartialEq, Eq, Structural)]
pub struct PipelineHandle {
    pub index: usize,
}

/// Why what a vertex stage hands on does not serve a fragment stage.
#[derive(Clone, Copy, Debug, PartialEq, Eq, Structural)]
pub enum InterfaceMismatch {
    /// The fragment stage reads `location`, and the vertex stage writes
    /// nothing there.
    MissingOutput { location: u32 },
    /// The fragment stage reads `location` as another type than the vertex
    /// stage writes there.
    TypeMismatch { location: u32 },
}

/// Why no pipeline was resolved.
#[derive(Clone, Copy, Debug, PartialEq, Eq, Structural)]
pub enum PipelineError {
    /// No program is registered under this identifier.
    NotFound(u64),
    /// The programs do not fit together.
    Build(InterfaceMismatch),
}

/// The vertex stage writes a value of the input's type at its location.
pub open spec fn provides(outputs: Seq<StageSlot>, input: StageSlot) -> bool {
    exists|i: int| 0 <= i < outputs.len() && #[trigger] outputs[i] == input
}

/// The vertex stage writes something at `location`.
pub open spec fn writes_location(outputs: Seq<StageSlot>, location: u32) -> bool {
    exists|i: int| 0 <= i < outputs.len() && (#[trigger] outputs[i]).location == location
}

/// Everything that the fragment stage reads, the vertex stage writes, at the
/// same location and with the same type.
pub open spec fn compatible(outputs: Seq<StageSlot>, inputs: Seq<StageSlot>) -> bool {
    forall|j: int| 0 <= j < inputs.len() ==> provides(outputs, #[trigger] inputs[j])
}

/// Input `j` is the first that the vertex stage does not provide.
pub open spec fn first_unmet(outputs: Seq<StageSlot>, inputs: Seq<StageSlot>, j: int) -> bool {
    &&& 0 <= j < inputs.len()
    &&& !provides(outputs, inputs[j])
    &&& forall|k: int| 0 <= k < j ==> provides(outputs, #[trigger] inputs[k])
}

/// What is wrong with input `slot`, which the vertex stage does not provide.
pub open spec fn mismatch_of(outputs: Seq<StageSlot>, slot: StageSlot) -> InterfaceMismatch {
    if writes_location(outputs, slot.location) {
        InterfaceMismatch::TypeMismatch { location: slot.location }
    } else {
        InterfaceMismatch::MissingOutput { location: slot.location }
    }
}

/// The verdict on a pair of stages: nothing where they fit together, else
/// what is wrong with the first input that the vertex stage does not provide.
pub open spec fn interface_verdict(outputs: Seq<StageSlot>, inputs: Seq<StageSlot>) -> Option<
    InterfaceMismatch,
> {
    if compatible(outputs, inputs) {
        None
    } else {
        let j = choose|j: int| first_unmet(outputs, inputs, j);
        Some(mismatch_of(outputs, inputs[j]))
    }
}

/// At most one input is the first unmet one.
pub proof fn lemma_first_unmet_unique(
    outputs: Seq<StageSlot>,
    inputs: Seq<StageSlot>,
    j: int,
    k: int,
)
    requires
        first_unmet(outputs, inputs, j),
        first_unmet(outputs, inputs, k),
    ensures
        j == k,
{
    if j < k {
        assert(provides(outputs, inputs[j]));
    } else if k < j {
        assert(provides(outputs, inputs[k]));
    }
}

/// How one input is served: whether the vertex stage writes its location at
/// all, and whether it writes it with the input's type.
fn find_output(outputs: &[StageSlot], input: StageSlot) -> (found: (bool, bool))
    ensures
        found.0 == writes_location(outputs@, input.location),
        found.1 == provides(outputs@, input),
{
    let mut location_written = false;
    let mut provided = false;
    let mut i: usize = 0;
    while i < outputs.len()
        invariant
            i <= outputs.len(),
            location_written == exists|k: int|
                0 <= k < i && (#[trigger] outputs@[k]).location == input.location,
            provided == exists|k: int| 0 <= k < i && #[trigger] outputs@[k] == input,
        decreases outputs.len() - i,
    {
        let slot = outputs[i];
        if slot.location == input.location {
            location_written = true;
            if slot.ty == input.ty {
                provided = true;
            }
        }
        i += 1;
    }
    (location_written, provided)
}

/// Checks that a vertex stage provides what a fragment stage reads.
pub fn check_interface(outputs: &[StageSlot], inputs: &[StageSlot]) -> (result: Result<
    (),
    InterfaceMismatch,
>)
    ensures
        match result {
            Ok(()) => interface_verdict(outputs@, inputs@) is None,
            Err(mismatch) => interface_verdict(outputs@, inputs@) == Some(mismatch),
        },
{
    let mut j: usize = 0;
    while j < inputs.len()
        invariant
            j <= inputs.len(),
            forall|k: int| 0 <= k < j ==> provides(outputs@, #[trigger] inputs@[k]),
        decreases inputs.len() - j,
    {
        let input = inputs[j];
        let (location_written, provided) = find_output(outputs, input);
        if !provided {
            proof {
                assert(first_unmet(outputs@, inputs@, j as int));
                let c = choose|c: int| first_unmet(outputs@, inputs@, c);
                lemma_first_unmet_unique(outputs@, inputs@, j as int, c);
            }
            if location_written {
                return Err(InterfaceMismatch::TypeMismatch { location: input.location });
            } else {
                return Err(InterfaceMismatch::MissingOutput { location: input.location });
            }
        }
        j += 1;
    }
    Ok(())
}

/// Pipeline `i` was built for `key`.
pub open spec fn built_for(pipelines: Seq<Pipeline>, key: PipelineKey, i: int) -> bool {
    0 <= i < pipelines.len() && pipelines[i].key == key
}

/// A pipeline was built for `key`.
pub open spec fn is_cached(pipelines: Seq<Pipeline>, key: PipelineKey) -> bool {
    exists|i: int| built_for(pipelines, key, i)
}

/// The index of the pipeline that was built for `key`.
pub open spec fn cached_index(pipelines: Seq<Pipeline>, key: PipelineKey) -> int {
    choose|i: int| built_for(pipelines, key, i)
}

/// The invariant of a selector: no two pipelines were built for the same
/// key, and each has the state that its key's policy asks for.
pub open spec fn well_formed(pipelines: Seq<Pipeline>) -> bool {
    &&& forall|i: int, j: int|
        0 <= i < j < pipelines.len() ==> (#[trigger] pipelines[i]).key != (
        #[trigger] pipelines[j]).key
    &&& forall|i: int|
        0 <= i < pipelines.len() ==> (#[trigger] pipelines[i]).state
            == pipelines[i].key.policy.spec_render_state()
}

/// Why no pipeline can be built for `key`, if there is a reason: a program
/// that is not registered, the vertex program first, or stages that do not
/// fit together.
pub open spec fn build_verdict(programs: Map<u64, ShaderProgram>, key: PipelineKey) -> Option<
    PipelineError,
> {
    if !programs.contains_key(key.vertex_program) {
        Some(PipelineError::NotFound(key.vertex_program))
    } else if !programs.contains_key(key.fragment_program) {
        Some(PipelineError::NotFound(key.fragment_program))
    } else {
        match interface_verdict(
            programs[key.vertex_program].source.vertex_outputs@,
            programs[key.fragment_program].source.fragment_inputs@,
        ) {
            Some(mismatch) => Some(PipelineError::Build(mismatch)),
            None => None,
        }
    }
}

/// What resolving `key` returns: the handle of the pipeline built for it;
/// where none was built yet, the reason why none can be, or else the handle
/// of a new pipeline at the end.
pub open spec fn resolve_result(
    programs: Map<u64, ShaderProgram>,
    pipelines: Seq<Pipeline>,
    key: PipelineKey,
) -> Result<PipelineHandle, PipelineError> {
    if is_cached(pipelines, key) {
        Ok(PipelineHandle { index: cached_index(pipelines, key) as usize })
    } else {
        match build_verdict(programs, key) {
            Some(error) => Err(error),
            None => Ok(PipelineHandle { index: pipelines.len() as usize }),
        }
    }
}

/// The pipelines after resolving `key`: one more, for `key`, where none was
/// built for it yet and one can be; the same as before in every other case.
pub open spec fn pipelines_after(
    programs: Map<u64, ShaderProgram>,
    pipelines: Seq<Pipeline>,
    key: PipelineKey,
) -> Seq<Pipeline> {
    if !is_cached(pipelines, key) && build_verdict(programs, key) is None {
        pipelines.push(Pipeline { key, state: key.policy.spec_render_state() })
    } else {
        pipelines
    }
}

/// In a well-formed selector at most one pipeline was built for a key.
pub proof fn lemma_built_for_unique(pipelines: Seq<Pipeline>, key: PipelineKey, i: int, j: int)
    requires
        well_formed(pipelines),
        built_for(pipelines, key, i),
        built_for(pipelines, key, j),
    ensures
        i == j,
{
    if i < j {
        assert(pipelines[i].key != pipelines[j].key);
    } else if j < i {
        assert(pipelines[j].key != pipelines[i].key);
    }
}

/// Resolving keeps a selector well-formed, keeps every pipeline where it
/// was, and a handle that it returns names a pipeline built for the key,
/// with the state that the key's policy asks for.
pub proof fn lemma_resolve_sound(
    programs: Map<u64, ShaderProgram>,
    pipelines: Seq<Pipeline>,
    key: PipelineKey,
)
    requires
        well_formed(pipelines),
        pipelines.len() <= usize::MAX,
    ensures
        well_formed(pipelines_after(programs, pipelines, key)),
        pipelines.is_prefix_of(pipelines_after(programs, pipelines, key)),
        resolve_result(programs, pipelines, key) matches Ok(handle) ==> {
            let after = pipelines_after(programs, pipelines, key);
            &&& built_for(after, key, handle.index as int)
            &&& after[handle.index as int].state == key.policy.spec_render_state()
        },
{
    let after = pipelines_after(programs, pipelines, key);
    if is_cached(pipelines, key) {
        let i = cached_index(pipelines, key);
        assert(built_for(pipelines, key, i));
    } else if build_verdict(programs, key) is None {
        assert forall|i: int, j: int| 0 <= i < j < after.len() implies (#[trigger] after[i]).key
            != (#[trigger] after[j]).key by {
            if j == pipelines.len() {
                assert(!built_for(pipelines, key, i));
            }
        }
    }
}

/// Resolving a key again, whatever was registered in between, returns the
/// handle of the first time and builds nothing.
pub proof fn lemma_resolve_again(
    programs: Map<u64, ShaderProgram>,
    later_programs: Map<u64, ShaderProgram>,
    pipelines: Seq<Pipeline>,
    key: PipelineKey,
)
    requires
        well_formed(pipelines),
        pipelines.len() <= usize::MAX,
        resolve_result(programs, pipelines, key) is Ok,
    ensures
        resolve_result(later_programs, pipelines_after(programs, pipelines, key), key)
            == resolve_result(programs, pipelines, key),
        pipelines_after(later_programs, pipelines_after(programs, pipelines, key), key)
            == pipelines_after(programs, pipelines, key),
{
    let after = pipelines_after(programs, pipelines, key);
    lemma_resolve_sound(programs, pipelines, key);
    let first = resolve_result(programs, pipelines, key)->Ok_0;
    assert(built_for(after, key, first.index as int));
    lemma_built_for_unique(after, key, first.index as int, cached_index(after, key));
}

/// Two keys that differ, be it only in the transparency policy, never
/// resolve to the same handle.
pub proof fn lemma_keys_tell_handles_apart(
    programs: Map<u64, ShaderProgram>,
    later_programs: Map<u64, ShaderProgram>,
    pipelines: Seq<Pipeline>,
    first: PipelineKey,
    second: PipelineKey,
)
    requires
        well_formed(pipelines),
        pipelines.len() < usize::MAX,
        first != second,
        resolve_result(programs, pipelines, first) is Ok,
        resolve_result(later_programs, pipelines_after(programs, pipelines, first), second) is Ok,
    ensures
        resolve_result(programs, pipelines, first) != resolve_result(
            later_programs,
            pipelines_after(programs, pipelines, first),
            second,
        ),
{
    let mid = pipelines_after(programs, pipelines, first);
    let last = pipelines_after(later_programs, mid, second);
    lemma_resolve_sound(programs, pipelines, first);
    lemma_resolve_sound(later_programs, mid, second);
    let a = resolve_result(programs, pipelines, first)->Ok_0;
    let b = resolve_result(later_programs, mid, second)->Ok_0;
    assert(built_for(mid, first, a.index as int));
    assert(built_for(last, second, b.index as int));
    assert(last[a.index as int] == mid[a.index as int]);
}

/// The render pipelines built so far, one for each key that was resolved.
#[derive(Debug)]
pub struct PipelineSelector {
    pipelines: Vec<Pipeline>,
}

impl View for PipelineSelector {
    type V = Seq<Pipeline>;

    closed spec fn view(&self) -> Seq<Pipeline> {
        self.pipelines@
    }
}

impl PipelineSelector {
    #[verifier::type_invariant]
    spec fn inv(self) -> bool {
        well_formed(self@)
    }

    /// A selector without pipelines.
    pub fn new() -> (selector: Self)
        ensures
            selector@ == Seq::<Pipeline>::empty(),
            well_formed(selector@),
    {
        PipelineSelector { pipelines: Vec::new() }
    }

    /// The index of the pipeline built for `key`.
    fn find(&self, key: PipelineKey) -> (found: Option<usize>)
        ensures
            match found {
                Some(index) => built_for(self@, key, index as int),
                None => !is_cached(self@, key),
            },
    {
        let mut i: usize = 0;
        while i < self.pipelines.len()
            invariant
                i <= self.pipelines.len(),
                forall|k: int| 0 <= k < i ==> !built_for(self@, key, k),
            decreases self.pipelines.len() - i,
        {
            if self.pipelines[i].key == key {
                return Some(i);
            }
            i += 1;
        }
        None
    }

    /// The handle of the pipeline for `key`, which is built on the first
    /// request and handed out again on every later one.
    ///
    /// Nothing is built where a program of the key is not registered, the
    /// vertex program being looked up first, or where the vertex program
    /// does not provide what the fragment program reads. Such a failure is
    /// not remembered: the selector stays as it was.
    pub fn resolve(&mut self, registry: &ShaderRegistry, key: PipelineKey) -> (result: Result<
        PipelineHandle,
        PipelineError,
    >)
        ensures
            result == resolve_result(registry.programs(), old(self)@, key),
            final(self)@ == pipelines_after(registry.programs(), old(self)@, key),
            well_formed(final(self)@),
    {
        proof {
            use_type_invariant(&*self);
            assert(self@.len() == self.pipelines.len());
            lemma_resolve_sound(registry.programs(), self@, key);
        }
        if let Some(index) = self.find(key) {
            proof {
                lemma_built_for_unique(self@, key, index as int, cached_index(self@, key));
            }
            return Ok(PipelineHandle { index });
        }
        let (vertex, fragment) = match registry.resolve_pair(
            key.vertex_program,
            key.fragment_program,
        ) {
            Ok(pair) => pair,
            Err(RegistryError::NotFound(id)) => {
                return Err(PipelineError::NotFound(id));
            },
            Err(_) => unreached(),
        };
        if let Err(mismatch) = check_interface(
            vertex.source.vertex_outputs.as_slice(),
            fragment.source.fragment_inputs.as_slice(),
        ) {
            return Err(PipelineError::Build(mismatch));
        }
        let index = self.pipelines.len();
        let mut pipelines = Vec::new();
        std::mem::swap(&mut pipelines, &mut self.pipelines);
        pipelines.push(Pipeline { key, state: key.policy.render_state() });
        self.pipelines = pipelines;
        Ok(PipelineHandle { index })
    }

    /// The pipeline that `handle` names, if the selector built it.
    pub fn pipeline(&self, handle: PipelineHandle) -> (found: Option<&Pipeline>)
        ensures
            match found {
                Some(pipeline) => handle.index < self@.len() && *pipeline == self@[handle.index as int],
                None => handle.index >= self@.len(),
            },
    {
        if handle.index < self.pipelines.len() {
            Some(&self.pipelines[handle.index])
        } else {
            None
        }
    }

    /// The number of pipelines built so far.
    pub fn len(&self) -> (n: usize)
        ensures
            n == self@.len(),
    {
        self.pipelines.len()
    }
}

} // verus!
