//! Draw preparation: what the renderer binds to draw a mesh with a material.

use crate::bind_group::{entries_after, handle_of, BindGroupCache, BindGroupHandle};
use crate::material::{DefinitionSpec, MaterialDefinition, MaterialInstance};
use crate::pipeline::{
    pipelines_after, resolve_result, PipelineError, PipelineHandle, PipelineKey, PipelineSelector,
};
use crate::shader::ShaderRegistry;
use vstd::prelude::*;

verus! {

/// A mesh as the renderer knows it: its handle and the identifier of its
/// vertex layout.
#[derive(Clone, Copy, Debug, PartialEq, Eq, Structural)]
pub struct MeshRef {
    pub mesh: u64,
    pub vertex_layout: u64,
}

/// What the renderer binds for one draw: a pipeline, a bind group and a mesh.
#[derive(Clone, Copy, Debug, PartialEq, Eq, Structural)]
pub struct DrawCall {
    pub pipeline: PipelineHandle,
    pub bind_group: BindGroupHandle,
    pub mesh: u64,
}

/// The key of the pipeline that draws a material on meshes of a vertex
/// layout.
pub open spec fn key_of(definition: DefinitionSpec, vertex_layout: u64) -> PipelineKey {
    PipelineKey {
        vertex_program: definition.vertex_program,
        fragment_program: definition.fragment_program,
        policy: definition.policy,
        vertex_layout,
    }
}

/// The key of the pipeline that draws a material on meshes of a vertex
/// layout.
pub fn pipeline_key(definition: &MaterialDefinition, vertex_layout: u64) -> (key: PipelineKey)
    ensures
        key == key_of(definition@, vertex_layout),
{
    PipelineKey {
        vertex_program: definition.vertex_program(),
        fragment_program: definition.fragment_program(),
        policy: definition.policy(),
        vertex_layout,
    }
}

/// Prepares the draw of a mesh with a material: resolves the pipeline, then
/// the bind group.
///
/// Where no pipeline can be resolved the draw fails with the reason and no
/// bind group is built. Nothing stands in for a pipeline that cannot be
/// built.
pub fn prepare_draw(
    registry: &ShaderRegistry,
    selector: &mut PipelineSelector,
    cache: &mut BindGroupCache,
    instance: &MaterialInstance,
    mesh: MeshRef,
) -> (result: Result<DrawCall, PipelineError>)
    ensures
        final(selector)@ == pipelines_after(
            registry.programs(),
            old(selector)@,
            key_of(instance@.definition, mesh.vertex_layout),
        ),
        match resolve_result(
            registry.programs(),
            old(selector)@,
            key_of(instance@.definition, mesh.vertex_layout),
        ) {
            Ok(pipeline) => {
                &&& result == Ok::<DrawCall, PipelineError>(
                    DrawCall { pipeline, bind_group: handle_of(instance@), mesh: mesh.mesh },
                )
                &&& final(cache)@ == entries_after(old(cache)@, instance@)
            },
            Err(error) => {
                &&& result == Err::<DrawCall, PipelineError>(error)
                &&& final(cache)@ == old(cache)@
            },
        },
{
    let key = pipeline_key(instance.definition(), mesh.vertex_layout);
    match selector.resolve(registry, key) {
        Ok(pipeline) => {
            let bind_group = cache.get_or_build(instance);
            Ok(DrawCall { pipeline, bind_group, mesh: mesh.mesh })
        },
        Err(error) => Err(error),
    }
}

} // verus!
