//! A verified model of a small real-time rendering pipeline.
//!
//! The library models the pipeline's GPU resources and raster state as plain
//! data: a [`device::Device`] is the ledger of live GPU objects together with
//! the visible surface, an [`frame::OffscreenFrame`] owns a multisampled
//! render target and its single-sampled resolve target,
//! [`shader::ShaderProgram`] carries a linked program's uniform table, and
//! the [`pipeline::CompositingPipeline`] renders a frame by two
//! stencil-masked draw passes, a resolve blit and a presentation pass. Every
//! state change is specified and proved; the mutating operations
//! additionally emit a list of [`cmd::GlCmd`] commands that an unverified
//! driver can replay against a real OpenGL context.

pub mod cmd;
pub mod color;
pub mod device;
pub mod error;
pub mod frame;
pub mod geometry;
pub mod pipeline;
pub mod raster;
pub mod shader;

pub use color::Rgb;
pub use error::{RenderError, ShaderStage};
