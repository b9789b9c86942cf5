//! Material and shader binding for a renderer.
//!
//! An application registers shader programs ([`shader`]), defines materials
//! that refer to them and instantiates the materials with values
//! ([`material`], [`surface`]). For each draw the bind group cache builds the
//! uniform buffer of the material from its values ([`bind_group`], by the
//! layout of [`layout`]), the pipeline selector resolves the pipeline
//! ([`pipeline`]), and the renderer is handed both ([`draw`]).
//!
//! Every function is verified. Contracts are stated over the views of the
//! data types and over the spec functions defined beside them; what holds
//! across several calls is stated in the proof functions of each module.

pub mod bind_group;
pub mod draw;
pub mod layout;
pub mod material;
pub mod pipeline;
pub mod shader;
pub mod surface;
