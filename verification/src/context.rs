//! The graphics-context capability the library consumes.
//!
//! Every GPU call the shader/program component needs is a method here, and
//! each method promises the state transition described in [`crate::model`].
//! All calls for one context must stay on the thread that owns it; the
//! methods take the context by reference, which already serializes them.
//!
//! Two verdicts are the driver's alone — whether a compilation and whether a
//! link succeeds — so [`GlContext::compile_shader`] and
//! [`GlContext::link_program`] leave the `compile_ok` / `link_ok` fields and
//! the diagnostic logs unconstrained except that a failure leaves a
//! non-empty log.
//!
//! [`crate::stub::StubContext`] implements this capability in memory, with
//! every method verified against its contract. An adapter over the native
//! GL binding can implement it too; such an adapter lives outside the
//! verified library and is trusted to behave as the platform promises.

use vstd::prelude::*;

use crate::gl_object::{Handle, NO_OBJECT};
use crate::model::{
    attaches_shader, binds_program, can_allocate, compiles_shader, creates_program,
    creates_shader, deletes_program, deletes_shader, initial_state, links_program, sets_source,
    GlState,
};
use crate::program::ShaderType;
use crate::text::str_has_nul;

verus! {

/// A current graphics context: create/delete shader and program objects,
/// upload source, compile, link, query verdicts and logs, bind a program.
pub trait GlContext: Sized {
    /// The modelled state of this context. Verified implementations
    /// override this; the default says only that nothing has been created,
    /// so an implementation that keeps it can satisfy the method contracts
    /// solely for a context that never hands out an object.
    open spec fn model(&self) -> GlState {
        initial_state()
    }

    /// Creates a new shader-stage object of the given kind.
    fn create_shader(&mut self, kind: ShaderType) -> (h: Handle)
        requires
            can_allocate(old(self).model()),
        ensures
            creates_shader(old(self).model(), final(self).model(), h, kind),
    ;

    /// Replaces the source text of shader `shader`. The text is handed to
    /// the driver as a C string, hence the null-byte precondition.
    fn shader_source(&mut self, shader: Handle, source: &str)
        requires
            old(self).model().shaders.dom().contains(shader),
            !str_has_nul(source),
        ensures
            sets_source(old(self).model(), final(self).model(), shader, source@),
    ;

    /// Compiles shader `shader`; the driver picks verdict and log.
    fn compile_shader(&mut self, shader: Handle)
        requires
            old(self).model().shaders.dom().contains(shader),
        ensures
            compiles_shader(old(self).model(), final(self).model(), shader),
    ;

    /// Reports the verdict of the last compilation of `shader` (`false` if
    /// it was never compiled).
    fn shader_compile_ok(&self, shader: Handle) -> (ok: bool)
        requires
            self.model().shaders.dom().contains(shader),
        ensures
            ok == self.model().shaders[shader].compile_ok,
    ;

    /// Hands out the raw bytes of the info log of `shader`.
    fn shader_info_log(&self, shader: Handle) -> (log: Vec<u8>)
        requires
            self.model().shaders.dom().contains(shader),
        ensures
            log@ == self.model().shaders[shader].log,
    ;

    /// Releases shader object `shader`.
    fn delete_shader(&mut self, shader: Handle)
        requires
            old(self).model().shaders.dom().contains(shader),
        ensures
            deletes_shader(old(self).model(), final(self).model(), shader),
    ;

    /// Creates a new program object.
    fn create_program(&mut self) -> (h: Handle)
        requires
            can_allocate(old(self).model()),
        ensures
            creates_program(old(self).model(), final(self).model(), h),
    ;

    /// Attaches shader `shader` to program `program`.
    fn attach_shader(&mut self, program: Handle, shader: Handle)
        requires
            old(self).model().programs.dom().contains(program),
            old(self).model().shaders.dom().contains(shader),
        ensures
            attaches_shader(old(self).model(), final(self).model(), program, shader),
    ;

    /// Links program `program`; the driver picks verdict and log.
    fn link_program(&mut self, program: Handle)
        requires
            old(self).model().programs.dom().contains(program),
        ensures
            links_program(old(self).model(), final(self).model(), program),
    ;

    /// Reports the verdict of the last link of `program` (`false` if it was
    /// never linked).
    fn program_link_ok(&self, program: Handle) -> (ok: bool)
        requires
            self.model().programs.dom().contains(program),
        ensures
            ok == self.model().programs[program].link_ok,
    ;

    /// Hands out the raw bytes of the info log of `program`.
    fn program_info_log(&self, program: Handle) -> (log: Vec<u8>)
        requires
            self.model().programs.dom().contains(program),
        ensures
            log@ == self.model().programs[program].log,
    ;

    /// Binds program `program` for draw calls; `NO_OBJECT` unbinds.
    fn use_program(&mut self, program: Handle)
        requires
            program == NO_OBJECT || old(self).model().programs.dom().contains(program),
        ensures
            binds_program(old(self).model(), final(self).model(), program),
    ;

    /// Reports which program is bound (`NO_OBJECT` when none is).
    fn current_program(&self) -> (h: Handle)
        ensures
            h == self.model().active,
    ;

    /// Releases program object `program`, which must not be the bound one.
    fn delete_program(&mut self, program: Handle)
        requires
            old(self).model().programs.dom().contains(program),
            old(self).model().active != program,
        ensures
            deletes_program(old(self).model(), final(self).model(), program),
    ;
}

} // verus!
