//! Thin, verified wrappers around GPU shader and program objects.
//!
//! The core of the library is the shader/program compilation and lifecycle
//! component: [`program::Shader`], [`program::Program`] and
//! [`program::SourceCompiler`]. All of it works against an abstract graphics
//! context capability, [`context::GlContext`], whose behaviour is captured by
//! the state model in [`model`]. A verified in-memory driver,
//! [`stub::StubContext`], implements the capability for tests and reasoning;
//! a native adapter backed by the platform's GL binding lives outside the
//! verified library.

pub mod context;
pub mod debug;
pub mod gl_object;
pub mod model;
pub mod program;
pub mod stub;
pub mod text;
