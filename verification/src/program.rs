//! Shader-stage objects, linked programs, and the compiler that builds a
//! program from tagged source texts.
//!
//! Every function here works against a [`GlContext`] capability and is
//! specified by how it transforms the context's [`GlState`] model. GPU
//! objects are released explicitly ([`Shader::destroy`],
//! [`Program::destroy`]) rather than on scope exit, since every operation
//! needs the context at hand.

use vstd::prelude::*;
use vstd::utf8::{decode_utf8, valid_utf8};

use crate::context::GlContext;
use crate::gl_object::{GlObject, Handle, NO_OBJECT};
use crate::model::{can_allocate, with_active, DriverReply, GlState, ProgramObj, ShaderObj};
use crate::text::{contains_nul_byte, lemma_decode_nonempty, str_eq, str_has_nul, utf8_to_string};

verus! {

/// The native enumerant for a vertex shader stage.
pub const GL_VERTEX_SHADER: u32 = 0x8B31;

/// The native enumerant for a fragment shader stage.
pub const GL_FRAGMENT_SHADER: u32 = 0x8B30;

/// The native enumerant for a geometry shader stage.
pub const GL_GEOMETRY_SHADER: u32 = 0x8DD9;

/// The native enumerant for a tessellation-control shader stage.
pub const GL_TESS_CONTROL_SHADER: u32 = 0x8E88;

/// The native enumerant for a tessellation-evaluation shader stage.
pub const GL_TESS_EVALUATION_SHADER: u32 = 0x8E87;

/// The native enumerant for a compute shader stage.
pub const GL_COMPUTE_SHADER: u32 = 0x91B9;

/// The shader pipeline stages a source text can be compiled for.
#[derive(Clone, Copy, Debug, PartialEq, Eq, Structural)]
pub enum ShaderType {
    Vertex,
    Fragment,
    Geometry,
    TessControl,
    TessEvaluation,
    Compute,
}

impl ShaderType {
    /// The native enumerant of this stage kind.
    pub open spec fn gl_constant_spec(self) -> u32 {
        match self {
            ShaderType::Vertex => GL_VERTEX_SHADER,
            ShaderType::Fragment => GL_FRAGMENT_SHADER,
            ShaderType::Geometry => GL_GEOMETRY_SHADER,
            ShaderType::TessControl => GL_TESS_CONTROL_SHADER,
            ShaderType::TessEvaluation => GL_TESS_EVALUATION_SHADER,
            ShaderType::Compute => GL_COMPUTE_SHADER,
        }
    }

    /// Maps this stage kind to the native enumerant.
    pub fn gl_constant(self) -> (c: u32)
        ensures
            c == self.gl_constant_spec(),
    {
        match self {
            ShaderType::Vertex => GL_VERTEX_SHADER,
            ShaderType::Fragment => GL_FRAGMENT_SHADER,
            ShaderType::Geometry => GL_GEOMETRY_SHADER,
            ShaderType::TessControl => GL_TESS_CONTROL_SHADER,
            ShaderType::TessEvaluation => GL_TESS_EVALUATION_SHADER,
            ShaderType::Compute => GL_COMPUTE_SHADER,
        }
    }

    /// The stage kind a source file's extension names, if any.
    pub open spec fn from_extension_spec(ext: Seq<char>) -> Option<ShaderType> {
        if ext == ".vert"@ || ext == ".vs.glsl"@ {
            Some(ShaderType::Vertex)
        } else if ext == ".frag"@ || ext == ".fs.glsl"@ {
            Some(ShaderType::Fragment)
        } else if ext == ".geom"@ || ext == ".gs.glsl"@ {
            Some(ShaderType::Geometry)
        } else if ext == ".tesc"@ || ext == ".tc.glsl"@ {
            Some(ShaderType::TessControl)
        } else if ext == ".tese"@ || ext == ".te.glsl"@ {
            Some(ShaderType::TessEvaluation)
        } else if ext == ".comp"@ || ext == ".cs.glsl"@ {
            Some(ShaderType::Compute)
        } else {
            None
        }
    }

    /// Recognizes the stage kind from a source file's extension.
    pub fn from_extension(ext: &str) -> (r: Option<ShaderType>)
        ensures
            r == Self::from_extension_spec(ext@),
    {
        if str_eq(ext, ".vert") || str_eq(ext, ".vs.glsl") {
            Some(ShaderType::Vertex)
        } else if str_eq(ext, ".frag") || str_eq(ext, ".fs.glsl") {
            Some(ShaderType::Fragment)
        } else if str_eq(ext, ".geom") || str_eq(ext, ".gs.glsl") {
            Some(ShaderType::Geometry)
        } else if str_eq(ext, ".tesc") || str_eq(ext, ".tc.glsl") {
            Some(ShaderType::TessControl)
        } else if str_eq(ext, ".tese") || str_eq(ext, ".te.glsl") {
            Some(ShaderType::TessEvaluation)
        } else if str_eq(ext, ".comp") || str_eq(ext, ".cs.glsl") {
            Some(ShaderType::Compute)
        } else {
            None
        }
    }
}

/// Why creating a [`Shader`] failed.
#[derive(Debug)]
pub enum ShaderCreationError {
    /// The source text held an embedded null byte; no GPU call was made.
    InvalidSource,
    /// The driver rejected the source; the payload is its diagnostic log,
    /// verbatim.
    CompileError(String),
    /// The driver rejected the source but its log bytes were not valid
    /// text.
    InvalidInfoLog,
}

impl ShaderCreationError {
    /// Interprets the raw info-log bytes of a failed compilation: valid
    /// UTF-8 becomes the verbatim [`ShaderCreationError::CompileError`]
    /// payload, anything else is [`ShaderCreationError::InvalidInfoLog`].
    pub fn from_info_log(bytes: Vec<u8>) -> (r: ShaderCreationError)
        ensures
            valid_utf8(bytes@) ==> (r matches ShaderCreationError::CompileError(log)
                && log@ == decode_utf8(bytes@)),
            !valid_utf8(bytes@) ==> r == ShaderCreationError::InvalidInfoLog,
    {
        match utf8_to_string(bytes) {
            Some(log) => ShaderCreationError::CompileError(log),
            None => ShaderCreationError::InvalidInfoLog,
        }
    }
}

/// An owned, successfully compiled shader-stage object.
#[derive(Debug)]
pub struct Shader {
    id: Handle,
    kind: ShaderType,
}

impl GlObject for Shader {
    closed spec fn handle(&self) -> Handle {
        self.id
    }

    #[inline]
    fn id(&self) -> (h: Handle) {
        self.id
    }
}

impl Shader {
    /// The stage kind this shader was compiled for.
    pub closed spec fn shader_type(self) -> ShaderType {
        self.kind
    }

    /// Whether this value owns a live, successfully compiled stage object
    /// of its kind in context state `m`.
    pub open spec fn valid(self, m: GlState) -> bool {
        &&& self.handle() != NO_OBJECT
        &&& m.shaders.dom().contains(self.handle())
        &&& m.shaders[self.handle()].kind == self.shader_type()
        &&& m.shaders[self.handle()].compiled
        &&& m.shaders[self.handle()].compile_ok
    }

    /// Compiles `source` for stage `ty` in context `ctx`.
    ///
    /// A source with an embedded null byte is rejected before any GPU call.
    /// On a driver rejection the failed stage object is released before the
    /// error is returned, so a failure leaves no new object behind.
    pub fn new<C: GlContext>(ctx: &mut C, ty: ShaderType, source: &str) -> (r: Result<
        Shader,
        ShaderCreationError,
    >)
        requires
            can_allocate(old(ctx).model()),
        ensures
            final(ctx).model().programs == old(ctx).model().programs,
            final(ctx).model().active == old(ctx).model().active,
            !str_has_nul(source) ==> ({
                let reply = final(ctx).model().replies.last();
                &&& final(ctx).model().replies == old(ctx).model().replies.push(reply)
                &&& reply.is_compile()
                &&& reply.kind() == ty
                &&& reply.source() == source@
            }),
            r is Ok <==> (!str_has_nul(source) && final(ctx).model().replies.last().ok()),
            match r {
                Ok(shader) => {
                    &&& !str_has_nul(source)
                    &&& shader.shader_type() == ty
                    &&& shader.valid(final(ctx).model())
                    &&& !old(ctx).model().shaders.dom().contains(shader.handle())
                    &&& final(ctx).model().shaders == old(ctx).model().shaders.insert(
                        shader.handle(),
                        ShaderObj {
                            kind: ty,
                            source: source@,
                            compiled: true,
                            compile_ok: true,
                            log: final(ctx).model().shaders[shader.handle()].log,
                        },
                    )
                    &&& final(ctx).model().names_used == old(ctx).model().names_used + 1
                    &&& final(ctx).model().replies == old(ctx).model().replies.push(
                        DriverReply::Compiled {
                            kind: ty,
                            source: source@,
                            ok: true,
                            log: final(ctx).model().shaders[shader.handle()].log,
                        },
                    )
                },
                Err(ShaderCreationError::InvalidSource) => {
                    &&& str_has_nul(source)
                    &&& final(ctx).model() == old(ctx).model()
                },
                Err(ShaderCreationError::CompileError(log)) => {
                    &&& !str_has_nul(source)
                    &&& final(ctx).model().shaders == old(ctx).model().shaders
                    &&& final(ctx).model().names_used == old(ctx).model().names_used + 1
                    &&& log@.len() > 0
                    &&& ({
                        let reply = final(ctx).model().replies.last();
                        &&& final(ctx).model().replies == old(ctx).model().replies.push(reply)
                        &&& reply.is_compile()
                        &&& !reply.ok()
                        &&& reply.kind() == ty
                        &&& reply.source() == source@
                        &&& valid_utf8(reply.log())
                        &&& decode_utf8(reply.log()) == log@
                    })
                },
                Err(ShaderCreationError::InvalidInfoLog) => {
                    &&& !str_has_nul(source)
                    &&& final(ctx).model().shaders == old(ctx).model().shaders
                    &&& final(ctx).model().names_used == old(ctx).model().names_used + 1
                    &&& ({
                        let reply = final(ctx).model().replies.last();
                        &&& final(ctx).model().replies == old(ctx).model().replies.push(reply)
                        &&& reply.is_compile()
                        &&& !reply.ok()
                        &&& reply.kind() == ty
                        &&& reply.source() == source@
                        &&& !valid_utf8(reply.log())
                    })
                },
            },
    {
        if contains_nul_byte(source) {
            return Err(ShaderCreationError::InvalidSource);
        }
        let h = ctx.create_shader(ty);
        ctx.shader_source(h, source);
        ctx.compile_shader(h);
        if ctx.shader_compile_ok(h) {
            proof {
                assert(ctx.model().shaders =~= old(ctx).model().shaders.insert(
                    h,
                    ShaderObj {
                        kind: ty,
                        source: source@,
                        compiled: true,
                        compile_ok: true,
                        log: ctx.model().shaders[h].log,
                    },
                ));
            }
            Ok(Shader { id: h, kind: ty })
        } else {
            let log_bytes = ctx.shader_info_log(h);
            ctx.delete_shader(h);
            proof {
                assert(ctx.model().shaders =~= old(ctx).model().shaders);
                if valid_utf8(log_bytes@) {
                    lemma_decode_nonempty(log_bytes@);
                }
            }
            Err(ShaderCreationError::from_info_log(log_bytes))
        }
    }

    /// Releases the underlying GPU stage object.
    pub fn destroy<C: GlContext>(self, ctx: &mut C)
        requires
            old(ctx).model().shaders.dom().contains(self.handle()),
        ensures
            final(ctx).model().shaders == old(ctx).model().shaders.remove(self.handle()),
            final(ctx).model().programs == old(ctx).model().programs,
            final(ctx).model().active == old(ctx).model().active,
            final(ctx).model().names_used == old(ctx).model().names_used,
            final(ctx).model().replies == old(ctx).model().replies,
    {
        let h = self.id();
        ctx.delete_shader(h);
    }
}

/// Why creating a [`Program`] failed.
#[derive(Debug)]
pub enum ProgramCreationError {
    /// The driver could not link the attached stages; the payload is its
    /// diagnostic log, verbatim.
    LinkError(String),
    /// The driver rejected the link but its log bytes were not valid text.
    InvalidInfoLog,
}

impl ProgramCreationError {
    /// Interprets the raw info-log bytes of a failed link: valid UTF-8
    /// becomes the verbatim [`ProgramCreationError::LinkError`] payload,
    /// anything else is [`ProgramCreationError::InvalidInfoLog`].
    pub fn from_info_log(bytes: Vec<u8>) -> (r: ProgramCreationError)
        ensures
            valid_utf8(bytes@) ==> (r matches ProgramCreationError::LinkError(log)
                && log@ == decode_utf8(bytes@)),
            !valid_utf8(bytes@) ==> r == ProgramCreationError::InvalidInfoLog,
    {
        match utf8_to_string(bytes) {
            Some(log) => ProgramCreationError::LinkError(log),
            None => ProgramCreationError::InvalidInfoLog,
        }
    }
}

/// The handles of a sequence of shaders, in order.
pub open spec fn attached_handles(shaders: Seq<Shader>) -> Seq<Handle> {
    Seq::new(shaders.len(), |i: int| shaders[i].handle())
}

/// An owned, successfully linked program object.
#[derive(Debug)]
pub struct Program {
    id: Handle,
}

impl GlObject for Program {
    closed spec fn handle(&self) -> Handle {
        self.id
    }

    #[inline]
    fn id(&self) -> (h: Handle) {
        self.id
    }
}

impl Program {
    /// Whether this value owns a live, successfully linked program object
    /// in context state `m`.
    pub open spec fn valid(self, m: GlState) -> bool {
        &&& self.handle() != NO_OBJECT
        &&& m.programs.dom().contains(self.handle())
        &&& m.programs[self.handle()].linked
        &&& m.programs[self.handle()].link_ok
    }

    /// Links the given already-compiled shaders, in order, into a new
    /// program object.
    ///
    /// The input shaders are neither detached nor destroyed: they stay the
    /// caller's to release (the linked program retains the compiled stages
    /// on its own). On a driver rejection the failed program object is
    /// unbound and released before the error is returned — which, as in
    /// every destruction here, clears the context's active-program slot.
    pub fn link<C: GlContext>(ctx: &mut C, shaders: &[Shader]) -> (r: Result<
        Program,
        ProgramCreationError,
    >)
        requires
            can_allocate(old(ctx).model()),
            forall|i: int| 0 <= i < shaders@.len() ==> (#[trigger] shaders@[i]).valid(
                old(ctx).model(),
            ),
        ensures
            final(ctx).model().shaders == old(ctx).model().shaders,
            final(ctx).model().names_used == old(ctx).model().names_used + 1,
            ({
                let reply = final(ctx).model().replies.last();
                &&& final(ctx).model().replies == old(ctx).model().replies.push(reply)
                &&& reply.is_link()
                &&& reply.attached() == attached_handles(shaders@)
            }),
            r is Ok <==> final(ctx).model().replies.last().ok(),
            match r {
                Ok(program) => {
                    &&& program.valid(final(ctx).model())
                    &&& !old(ctx).model().programs.dom().contains(program.handle())
                    &&& final(ctx).model().programs == old(ctx).model().programs.insert(
                        program.handle(),
                        ProgramObj {
                            attached: attached_handles(shaders@),
                            linked: true,
                            link_ok: true,
                            log: final(ctx).model().programs[program.handle()].log,
                        },
                    )
                    &&& final(ctx).model().active == old(ctx).model().active
                    &&& final(ctx).model().replies == old(ctx).model().replies.push(
                        DriverReply::Linked {
                            attached: attached_handles(shaders@),
                            ok: true,
                            log: final(ctx).model().programs[program.handle()].log,
                        },
                    )
                },
                Err(ProgramCreationError::LinkError(log)) => {
                    &&& final(ctx).model().programs == old(ctx).model().programs
                    &&& final(ctx).model().active == NO_OBJECT
                    &&& log@.len() > 0
                    &&& ({
                        let reply = final(ctx).model().replies.last();
                        &&& final(ctx).model().replies == old(ctx).model().replies.push(reply)
                        &&& reply.is_link()
                        &&& !reply.ok()
                        &&& reply.attached() == attached_handles(shaders@)
                        &&& valid_utf8(reply.log())
                        &&& decode_utf8(reply.log()) == log@
                    })
                },
                Err(ProgramCreationError::InvalidInfoLog) => {
                    &&& final(ctx).model().programs == old(ctx).model().programs
                    &&& final(ctx).model().active == NO_OBJECT
                    &&& ({
                        let reply = final(ctx).model().replies.last();
                        &&& final(ctx).model().replies == old(ctx).model().replies.push(reply)
                        &&& reply.is_link()
                        &&& !reply.ok()
                        &&& reply.attached() == attached_handles(shaders@)
                        &&& !valid_utf8(reply.log())
                    })
                },
            },
    {
        let p = ctx.create_program();
        proof {
            assert(attached_handles(shaders@.take(0)) =~= Seq::<Handle>::empty());
            assert(ctx.model().programs =~= old(ctx).model().programs.insert(
                p,
                ProgramObj {
                    attached: attached_handles(shaders@.take(0)),
                    linked: false,
                    link_ok: false,
                    log: Seq::empty(),
                },
            ));
        }
        let n = shaders.len();
        let mut i: usize = 0;
        while i < n
            invariant
                n == shaders@.len(),
                i <= n,
                forall|k: int| 0 <= k < n ==> (#[trigger] shaders@[k]).valid(old(ctx).model()),
                ctx.model().shaders == old(ctx).model().shaders,
                ctx.model().active == old(ctx).model().active,
                ctx.model().names_used == old(ctx).model().names_used + 1,
                ctx.model().replies == old(ctx).model().replies,
                p != NO_OBJECT,
                !old(ctx).model().programs.dom().contains(p),
                ctx.model().programs == old(ctx).model().programs.insert(
                    p,
                    ProgramObj {
                        attached: attached_handles(shaders@.take(i as int)),
                        linked: false,
                        link_ok: false,
                        log: Seq::empty(),
                    },
                ),
            decreases n - i,
        {
            let ghost before = ctx.model();
            ctx.attach_shader(p, shaders[i].id());
            proof {
                assert(attached_handles(shaders@.take(i as int)).push(shaders@[i as int].handle())
                    =~= attached_handles(shaders@.take(i as int + 1)));
                assert(ctx.model().programs =~= old(ctx).model().programs.insert(
                    p,
                    ProgramObj {
                        attached: attached_handles(shaders@.take(i as int + 1)),
                        linked: false,
                        link_ok: false,
                        log: Seq::empty(),
                    },
                ));
            }
            i = i + 1;
        }
        proof {
            assert(shaders@.take(n as int) =~= shaders@);
        }
        ctx.link_program(p);
        if ctx.program_link_ok(p) {
            proof {
                assert(ctx.model().programs =~= old(ctx).model().programs.insert(
                    p,
                    ProgramObj {
                        attached: attached_handles(shaders@),
                        linked: true,
                        link_ok: true,
                        log: ctx.model().programs[p].log,
                    },
                ));
            }
            Ok(Program { id: p })
        } else {
            let log_bytes = ctx.program_info_log(p);
            ctx.use_program(NO_OBJECT);
            ctx.delete_program(p);
            proof {
                assert(ctx.model().programs =~= old(ctx).model().programs);
                if valid_utf8(log_bytes@) {
                    lemma_decode_nonempty(log_bytes@);
                }
            }
            Err(ProgramCreationError::from_info_log(log_bytes))
        }
    }

    /// Binds this program as the current one for draw calls. Idempotent.
    pub fn activate<C: GlContext>(&self, ctx: &mut C)
        requires
            old(ctx).model().programs.dom().contains(self.handle()),
        ensures
            final(ctx).model() == with_active(old(ctx).model(), self.handle()),
    {
        let h = self.id();
        ctx.use_program(h);
    }

    /// Clears the context's active-program slot, unconditionally.
    ///
    /// This is safe to call whether or not this program is the bound one —
    /// but note the hazard: it unbinds whichever program is currently
    /// active, including a different one.
    pub fn deactivate<C: GlContext>(&self, ctx: &mut C)
        ensures
            final(ctx).model() == with_active(old(ctx).model(), NO_OBJECT),
    {
        ctx.use_program(NO_OBJECT);
    }

    /// Unbinds whatever program is active, then releases the underlying GPU
    /// program object.
    ///
    /// The active-program slot is always clear afterwards, even when the
    /// destroyed program was not the active one (the same hazard as
    /// [`Program::deactivate`]).
    pub fn destroy<C: GlContext>(self, ctx: &mut C)
        requires
            old(ctx).model().programs.dom().contains(self.handle()),
            self.handle() != NO_OBJECT,
        ensures
            final(ctx).model().programs == old(ctx).model().programs.remove(self.handle()),
            final(ctx).model().shaders == old(ctx).model().shaders,
            final(ctx).model().active == NO_OBJECT,
            final(ctx).model().names_used == old(ctx).model().names_used,
            final(ctx).model().replies == old(ctx).model().replies,
    {
        let h = self.id();
        ctx.use_program(NO_OBJECT);
        ctx.delete_program(h);
    }
}

/// Whether some shader in the sequence carries handle `h`.
pub open spec fn handle_among(shaders: Seq<Shader>, h: Handle) -> bool {
    exists|k: int| 0 <= k < shaders.len() && shaders[k].handle() == h
}

/// Releases every shader in `shaders`, back to front.
fn destroy_all<C: GlContext>(ctx: &mut C, shaders: Vec<Shader>)
    requires
        forall|k: int| 0 <= k < shaders@.len() ==> old(ctx).model().shaders.dom().contains(
            (#[trigger] shaders@[k]).handle(),
        ),
        forall|k1: int, k2: int| 0 <= k1 < k2 < shaders@.len() ==> shaders@[k1].handle()
            != shaders@[k2].handle(),
    ensures
        final(ctx).model().programs == old(ctx).model().programs,
        final(ctx).model().active == old(ctx).model().active,
        final(ctx).model().names_used == old(ctx).model().names_used,
        final(ctx).model().replies == old(ctx).model().replies,
        forall|h: Handle| #[trigger] final(ctx).model().shaders.dom().contains(h) <==> (old(
            ctx,
        ).model().shaders.dom().contains(h) && !handle_among(shaders@, h)),
        forall|h: Handle| #[trigger] final(ctx).model().shaders.dom().contains(h)
            ==> final(ctx).model().shaders[h] == old(ctx).model().shaders[h],
{
    let ghost pre = old(ctx).model();
    let ghost all = shaders@;
    let ghost total = all.len();
    let mut shaders = shaders;
    while shaders.len() > 0
        invariant
            pre == old(ctx).model(),
            all.len() == total,
            shaders@.len() <= total,
            shaders@ == all.take(shaders@.len() as int),
            forall|k: int| 0 <= k < total ==> pre.shaders.dom().contains(
                (#[trigger] all[k]).handle(),
            ),
            forall|k1: int, k2: int| 0 <= k1 < k2 < total ==> all[k1].handle()
                != all[k2].handle(),
            ctx.model().programs == pre.programs,
            ctx.model().active == pre.active,
            ctx.model().names_used == pre.names_used,
            ctx.model().replies == pre.replies,
            forall|h: Handle| #[trigger] ctx.model().shaders.dom().contains(h) <==> (
            pre.shaders.dom().contains(h) && !(exists|k: int|
                shaders@.len() <= k < total && all[k].handle() == h)),
            forall|h: Handle| #[trigger] ctx.model().shaders.dom().contains(h)
                ==> ctx.model().shaders[h] == pre.shaders[h],
        decreases shaders@.len(),
    {
        let ghost len_before = shaders@.len() as int;
        match shaders.pop() {
            Some(shader) => {
                proof {
                    assert(shader == all[len_before - 1]);
                    assert(pre.shaders.dom().contains(shader.handle()));
                    assert forall|k: int|
                        len_before <= k < total implies all[k].handle() != shader.handle() by {
                        assert(all[len_before - 1].handle() != all[k].handle());
                    }
                    assert(ctx.model().shaders.dom().contains(shader.handle()));
                }
                shader.destroy(ctx);
                proof {
                    assert(shaders@ =~= all.take(len_before - 1));
                    let hd = all[len_before - 1].handle();
                    assert forall|h: Handle| #[trigger] ctx.model().shaders.dom().contains(h)
                        <==> (pre.shaders.dom().contains(h) && !(exists|k: int|
                        len_before - 1 <= k < total && all[k].handle() == h)) by {
                        if h == hd {
                            assert(all[len_before - 1].handle() == h);
                            assert(!ctx.model().shaders.dom().contains(h));
                        } else {
                            if exists|k: int| len_before <= k < total && all[k].handle() == h {
                                let k = choose|k: int|
                                    len_before <= k < total && all[k].handle() == h;
                                assert(len_before - 1 <= k < total && all[k].handle() == h);
                            }
                            if exists|k: int| len_before - 1 <= k < total && all[k].handle()
                                == h {
                                let k = choose|k: int|
                                    len_before - 1 <= k < total && all[k].handle() == h;
                                assert(k != len_before - 1);
                                assert(len_before <= k < total && all[k].handle() == h);
                            }
                        }
                    }
                }
            },
            None => {
                proof {
                    assert(false);
                }
            },
        }
    }
    proof {
        assert forall|h: Handle|
            #[trigger] ctx.model().shaders.dom().contains(h) <==> (pre.shaders.dom().contains(h)
                && !handle_among(all, h)) by {
            if exists|k: int| 0 <= k < total && all[k].handle() == h {
                let k = choose|k: int| 0 <= k < total && all[k].handle() == h;
                assert(shaders@.len() <= k < total && all[k].handle() == h);
            }
            if exists|k: int| shaders@.len() <= k < total && all[k].handle() == h {
                let k = choose|k: int| shaders@.len() <= k < total && all[k].handle() == h;
                assert(0 <= k < total && all[k].handle() == h);
            }
        }
    }
}

/// No entry among the first `count` of `sources` holds an embedded null
/// byte.
pub open spec fn nul_free_prefix(sources: Seq<(ShaderType, &str)>, count: int) -> bool {
    forall|j: int| 0 <= j < count ==> !str_has_nul((#[trigger] sources[j]).1)
}

/// `post` extends `pre` with exactly `count` driver replies: one successful
/// compilation per entry of `sources[..count]`, in order. This is the trace
/// a compile run leaves behind for the entries it got past.
pub open spec fn compiled_ok_replies(
    pre: Seq<DriverReply>,
    post: Seq<DriverReply>,
    sources: Seq<(ShaderType, &str)>,
    count: int,
) -> bool {
    &&& 0 <= count <= sources.len()
    &&& post.len() == pre.len() + count
    &&& (forall|k: int| 0 <= k < pre.len() ==> #[trigger] post[k] == pre[k])
    &&& (forall|k: int|
        0 <= k < count ==> {
            let reply = post[pre.len() + k];
            &&& reply.is_compile()
            &&& reply.ok()
            &&& reply.kind() == (#[trigger] sources[k]).0
            &&& reply.source() == sources[k].1@
        })
}

/// Why [`SourceCompiler::compile`] failed: one of its two phases did.
#[derive(Debug)]
pub enum SourceCompilerError {
    /// A shader failed to compile; no later entry was attempted.
    ShaderCreationError(ShaderCreationError),
    /// Every shader compiled, but linking them failed.
    ProgramCreationError(ProgramCreationError),
}

/// Builds a ready-to-use [`Program`] from an ordered list of
/// (stage kind, source text) pairs.
pub struct SourceCompiler {}

impl SourceCompiler {
    /// Compiles every entry in order and links the results into one
    /// program.
    ///
    /// Fail-fast: the first shader that fails to compile aborts the run and
    /// is reported as is; later entries are never attempted, and linking is
    /// never attempted — the contract pins the run's driver replies to one
    /// successful compilation per entry before the failing one and nothing
    /// else. Whatever happens, every intermediate stage object is released
    /// before the call returns — on success the linked program retains the
    /// compiled stages on its own, so the context ends up with exactly one
    /// new object: the program (and none on failure). A request may name
    /// the same stage kind twice; it is handed to the driver as is.
    pub fn compile<C: GlContext>(ctx: &mut C, shader_sources: &[(ShaderType, &str)]) -> (r:
        Result<Program, SourceCompilerError>)
        requires
            old(ctx).model().names_used + shader_sources@.len() < 0xFFFF_FFFF,
        ensures
            final(ctx).model().shaders == old(ctx).model().shaders,
            old(ctx).model().names_used <= final(ctx).model().names_used <= old(
                ctx,
            ).model().names_used + shader_sources@.len() + 1,
            shader_sources@.len() > 0 && str_has_nul(shader_sources@[0].1) ==> r matches Err(
                SourceCompilerError::ShaderCreationError(ShaderCreationError::InvalidSource),
            ),
            match r {
                Ok(program) => {
                    &&& program.valid(final(ctx).model())
                    &&& !old(ctx).model().programs.dom().contains(program.handle())
                    &&& final(ctx).model().programs.remove(program.handle()) == old(
                        ctx,
                    ).model().programs
                    &&& final(ctx).model().programs[program.handle()].attached.len()
                        == shader_sources@.len()
                    &&& final(ctx).model().active == old(ctx).model().active
                    &&& final(ctx).model().names_used == old(ctx).model().names_used
                        + shader_sources@.len() + 1
                    &&& nul_free_prefix(shader_sources@, shader_sources@.len() as int)
                    &&& final(ctx).model().replies.len() == old(ctx).model().replies.len()
                        + shader_sources@.len() + 1
                    &&& compiled_ok_replies(
                        old(ctx).model().replies,
                        final(ctx).model().replies.drop_last(),
                        shader_sources@,
                        shader_sources@.len() as int,
                    )
                    &&& ({
                        let reply = final(ctx).model().replies.last();
                        &&& reply.is_link()
                        &&& reply.ok()
                        &&& reply.attached() == final(ctx).model().programs[program.handle()]
                            .attached
                    })
                },
                Err(SourceCompilerError::ShaderCreationError(ShaderCreationError::InvalidSource)) => {
                    &&& final(ctx).model().programs == old(ctx).model().programs
                    &&& final(ctx).model().active == old(ctx).model().active
                    &&& exists|i: int|
                        #![trigger compiled_ok_replies(
                            old(ctx).model().replies,
                            final(ctx).model().replies,
                            shader_sources@,
                            i,
                        )]
                        {
                            &&& 0 <= i < shader_sources@.len()
                            &&& str_has_nul(shader_sources@[i].1)
                            &&& nul_free_prefix(shader_sources@, i)
                            &&& final(ctx).model().names_used == old(ctx).model().names_used + i
                            &&& compiled_ok_replies(
                                old(ctx).model().replies,
                                final(ctx).model().replies,
                                shader_sources@,
                                i,
                            )
                        }
                },
                Err(SourceCompilerError::ShaderCreationError(ShaderCreationError::CompileError(log))) => {
                    &&& final(ctx).model().programs == old(ctx).model().programs
                    &&& final(ctx).model().active == old(ctx).model().active
                    &&& log@.len() > 0
                    &&& exists|i: int|
                        #![trigger compiled_ok_replies(
                            old(ctx).model().replies,
                            final(ctx).model().replies.drop_last(),
                            shader_sources@,
                            i,
                        )]
                        {
                            &&& 0 <= i < shader_sources@.len()
                            &&& nul_free_prefix(shader_sources@, i + 1)
                            &&& final(ctx).model().names_used == old(ctx).model().names_used + i
                                + 1
                            &&& final(ctx).model().replies.len() == old(
                                ctx,
                            ).model().replies.len() + i + 1
                            &&& compiled_ok_replies(
                                old(ctx).model().replies,
                                final(ctx).model().replies.drop_last(),
                                shader_sources@,
                                i,
                            )
                            &&& ({
                                let reply = final(ctx).model().replies.last();
                                &&& reply.is_compile()
                                &&& !reply.ok()
                                &&& reply.kind() == shader_sources@[i].0
                                &&& reply.source() == shader_sources@[i].1@
                                &&& valid_utf8(reply.log())
                                &&& decode_utf8(reply.log()) == log@
                            })
                        }
                },
                Err(SourceCompilerError::ShaderCreationError(ShaderCreationError::InvalidInfoLog)) => {
                    &&& final(ctx).model().programs == old(ctx).model().programs
                    &&& final(ctx).model().active == old(ctx).model().active
                    &&& exists|i: int|
                        #![trigger compiled_ok_replies(
                            old(ctx).model().replies,
                            final(ctx).model().replies.drop_last(),
                            shader_sources@,
                            i,
                        )]
                        {
                            &&& 0 <= i < shader_sources@.len()
                            &&& nul_free_prefix(shader_sources@, i + 1)
                            &&& final(ctx).model().names_used == old(ctx).model().names_used + i
                                + 1
                            &&& final(ctx).model().replies.len() == old(
                                ctx,
                            ).model().replies.len() + i + 1
                            &&& compiled_ok_replies(
                                old(ctx).model().replies,
                                final(ctx).model().replies.drop_last(),
                                shader_sources@,
                                i,
                            )
                            &&& ({
                                let reply = final(ctx).model().replies.last();
                                &&& reply.is_compile()
                                &&& !reply.ok()
                                &&& reply.kind() == shader_sources@[i].0
                                &&& reply.source() == shader_sources@[i].1@
                                &&& !valid_utf8(reply.log())
                            })
                        }
                },
                Err(SourceCompilerError::ProgramCreationError(e)) => {
                    &&& final(ctx).model().programs == old(ctx).model().programs
                    &&& final(ctx).model().active == NO_OBJECT
                    &&& nul_free_prefix(shader_sources@, shader_sources@.len() as int)
                    &&& final(ctx).model().names_used == old(ctx).model().names_used
                        + shader_sources@.len() + 1
                    &&& final(ctx).model().replies.len() == old(ctx).model().replies.len()
                        + shader_sources@.len() + 1
                    &&& compiled_ok_replies(
                        old(ctx).model().replies,
                        final(ctx).model().replies.drop_last(),
                        shader_sources@,
                        shader_sources@.len() as int,
                    )
                    &&& ({
                        let reply = final(ctx).model().replies.last();
                        &&& reply.is_link()
                        &&& !reply.ok()
                        &&& reply.attached().len() == shader_sources@.len()
                        &&& (e matches ProgramCreationError::LinkError(log) ==> valid_utf8(
                            reply.log(),
                        ) && decode_utf8(reply.log()) == log@ && log@.len() > 0)
                        &&& (e matches ProgramCreationError::InvalidInfoLog ==> !valid_utf8(
                            reply.log(),
                        ))
                    })
                },
            },
    {
        let ghost pre = old(ctx).model();
        let mut shaders: Vec<Shader> = Vec::new();
        let n = shader_sources.len();
        let mut i: usize = 0;
        proof {
            assert(compiled_ok_replies(pre.replies, ctx.model().replies, shader_sources@, 0));
        }
        while i < n
            invariant
                pre == old(ctx).model(),
                n == shader_sources@.len(),
                i <= n,
                pre.names_used + n < 0xFFFF_FFFF,
                ctx.model().programs == pre.programs,
                ctx.model().active == pre.active,
                ctx.model().names_used == pre.names_used + i,
                nul_free_prefix(shader_sources@, i as int),
                compiled_ok_replies(pre.replies, ctx.model().replies, shader_sources@, i as int),
                shaders@.len() == i,
                forall|k: int| 0 <= k < i ==> (#[trigger] shaders@[k]).valid(ctx.model()),
                forall|k: int| 0 <= k < i ==> !pre.shaders.dom().contains(
                    (#[trigger] shaders@[k]).handle(),
                ),
                forall|k1: int, k2: int| 0 <= k1 < k2 < i ==> shaders@[k1].handle()
                    != shaders@[k2].handle(),
                forall|h: Handle| #[trigger] pre.shaders.dom().contains(h)
                    ==> ctx.model().shaders.dom().contains(h) && ctx.model().shaders[h]
                    == pre.shaders[h],
                forall|h: Handle| #[trigger] ctx.model().shaders.dom().contains(h)
                    ==> pre.shaders.dom().contains(h) || handle_among(shaders@, h),
            decreases n - i,
        {
            let entry = shader_sources[i];
            let ghost before = ctx.model();
            let ghost held = shaders@;
            match Shader::new(ctx, entry.0, entry.1) {
                Ok(shader) => {
                    proof {
                        assert(!pre.shaders.dom().contains(shader.handle())) by {
                            if pre.shaders.dom().contains(shader.handle()) {
                                assert(before.shaders.dom().contains(shader.handle()));
                            }
                        }
                    }
                    shaders.push(shader);
                    proof {
                        assert forall|h: Handle|
                            ctx.model().shaders.dom().contains(h) implies pre.shaders.dom()
                            .contains(h) || handle_among(shaders@, h) by {
                            if h == shader.handle() {
                                assert(shaders@[shaders@.len() - 1].handle() == h);
                            } else if handle_among(held, h) {
                                let k = choose|k: int|
                                    0 <= k < held.len() && held[k].handle() == h;
                                assert(shaders@[k].handle() == h);
                            }
                        }
                        assert(entry == shader_sources@[i as int]);
                        assert forall|j: int|
                            0 <= j < i as int + 1 implies !str_has_nul(
                            (#[trigger] shader_sources@[j]).1) by {
                            if j == i as int {
                                assert(!str_has_nul(entry.1));
                            }
                        }
                        assert(ctx.model().replies == before.replies.push(
                            DriverReply::Compiled {
                                kind: entry.0,
                                source: entry.1@,
                                ok: true,
                                log: ctx.model().shaders[shader.handle()].log,
                            },
                        ));
                        assert(compiled_ok_replies(
                            pre.replies,
                            ctx.model().replies,
                            shader_sources@,
                            i as int + 1,
                        )) by {
                            assert(before.replies.len() == pre.replies.len() + i as int);
                            assert forall|k: int|
                                0 <= k < pre.replies.len() implies #[trigger] ctx.model()
                                .replies[k] == pre.replies[k] by {
                                assert(before.replies[k] == pre.replies[k]);
                            }
                            assert forall|k: int|
                                0 <= k < i as int + 1 implies {
                                let reply = ctx.model().replies[pre.replies.len() + k];
                                &&& reply.is_compile()
                                &&& reply.ok()
                                &&& reply.kind() == (#[trigger] shader_sources@[k]).0
                                &&& reply.source() == shader_sources@[k].1@
                            } by {
                                if k < i as int {
                                    assert(ctx.model().replies[pre.replies.len() + k]
                                        == before.replies[pre.replies.len() + k]);
                                }
                            }
                        }
                    }
                },
                Err(e) => {
                    let ghost mid = ctx.model();
                    destroy_all(ctx, shaders);
                    proof {
                        assert(mid.shaders == before.shaders);
                        assert forall|h: Handle|
                            #[trigger] pre.shaders.dom().contains(h) implies mid.shaders.dom()
                            .contains(h) && mid.shaders[h] == pre.shaders[h] by {
                            assert(before.shaders.dom().contains(h) && before.shaders[h]
                                == pre.shaders[h]);
                        }
                        assert forall|h: Handle|
                            #[trigger] mid.shaders.dom().contains(h) implies pre.shaders.dom()
                            .contains(h) || handle_among(held, h) by {
                            assert(before.shaders.dom().contains(h));
                        }
                        lemma_cleanup_restores(pre, mid, ctx.model(), held);
                        assert(ctx.model().replies == mid.replies);
                        assert(entry == shader_sources@[i as int]);
                        match e {
                            ShaderCreationError::InvalidSource => {
                                assert((i as int) < shader_sources@.len() && str_has_nul(
                                    shader_sources@[i as int].1,
                                ));
                                assert(mid == before);
                                assert(compiled_ok_replies(
                                    pre.replies,
                                    ctx.model().replies,
                                    shader_sources@,
                                    i as int,
                                ));
                            },
                            _ => {
                                assert(mid.replies == before.replies.push(mid.replies.last()));
                                assert(ctx.model().replies.drop_last() =~= before.replies);
                                assert(compiled_ok_replies(
                                    pre.replies,
                                    ctx.model().replies.drop_last(),
                                    shader_sources@,
                                    i as int,
                                ));
                                assert(ctx.model().replies.last().kind()
                                    == shader_sources@[i as int].0);
                                assert(ctx.model().replies.last().source()
                                    == shader_sources@[i as int].1@);
                                assert forall|j: int|
                                    0 <= j < i as int + 1 implies !str_has_nul(
                                    (#[trigger] shader_sources@[j]).1) by {
                                    if j == i as int {
                                        assert(!str_has_nul(entry.1));
                                    }
                                }
                            },
                        }
                    }
                    return Err(SourceCompilerError::ShaderCreationError(e));
                },
            }
            i = i + 1;
        }
        let ghost at_exit = ctx.model();
        let r = Program::link(ctx, shaders.as_slice());
        let ghost held = shaders@;
        let ghost mid = ctx.model();
        destroy_all(ctx, shaders);
        proof {
            assert(mid.shaders == at_exit.shaders);
            assert forall|h: Handle|
                #[trigger] pre.shaders.dom().contains(h) implies mid.shaders.dom().contains(h)
                && mid.shaders[h] == pre.shaders[h] by {
                assert(at_exit.shaders.dom().contains(h) && at_exit.shaders[h]
                    == pre.shaders[h]);
            }
            assert forall|h: Handle|
                #[trigger] mid.shaders.dom().contains(h) implies pre.shaders.dom().contains(h)
                || handle_among(held, h) by {
                assert(at_exit.shaders.dom().contains(h));
            }
            lemma_cleanup_restores(pre, mid, ctx.model(), held);
            assert(ctx.model().replies == mid.replies);
            assert(ctx.model().replies.drop_last() =~= at_exit.replies);
            assert(compiled_ok_replies(
                pre.replies,
                ctx.model().replies.drop_last(),
                shader_sources@,
                n as int,
            ));
            assert(attached_handles(held).len() == n as int);
        }
        match r {
            Ok(program) => {
                proof {
                    assert(ctx.model().programs.remove(program.handle()) =~= pre.programs);
                    assert(ctx.model().replies.last() == DriverReply::Linked {
                        attached: attached_handles(held),
                        ok: true,
                        log: mid.programs[program.handle()].log,
                    });
                    assert(ctx.model().programs[program.handle()].attached
                        == attached_handles(held));
                }
                Ok(program)
            },
            Err(e) => {
                proof {
                    assert(ctx.model().replies.last().is_link());
                    assert(!ctx.model().replies.last().ok());
                    assert(ctx.model().replies.last().attached() == attached_handles(held));
                }
                Err(SourceCompilerError::ProgramCreationError(e))
            },
        }
    }
}

/// After the temporary shaders of one compile run are destroyed, the
/// context holds exactly the shader objects it held before the run.
proof fn lemma_cleanup_restores(pre: GlState, mid: GlState, post: GlState, held: Seq<Shader>)
    requires
        // what the compile loop maintained at the moment of cleanup:
        forall|h: Handle| #[trigger] pre.shaders.dom().contains(h) ==> mid.shaders.dom()
            .contains(h) && mid.shaders[h] == pre.shaders[h],
        forall|h: Handle| #[trigger] mid.shaders.dom().contains(h) ==> pre.shaders.dom()
            .contains(h) || handle_among(held, h),
        forall|k: int| 0 <= k < held.len() ==> !pre.shaders.dom().contains(
            (#[trigger] held[k]).handle(),
        ),
        // what destroying them ensured:
        forall|h: Handle| #[trigger] post.shaders.dom().contains(h) <==> (mid.shaders.dom()
            .contains(h) && !handle_among(held, h)),
        forall|h: Handle| #[trigger] post.shaders.dom().contains(h) ==> post.shaders[h]
            == mid.shaders[h],
    ensures
        post.shaders == pre.shaders,
{
    assert forall|h: Handle|
        post.shaders.dom().contains(h) <==> pre.shaders.dom().contains(h) by {
        if handle_among(held, h) {
            let k = choose|k: int| 0 <= k < held.len() && held[k].handle() == h;
            assert(held[k].handle() == h);
            assert(!pre.shaders.dom().contains(h));
            assert(!post.shaders.dom().contains(h));
        } else {
            if post.shaders.dom().contains(h) {
                assert(mid.shaders.dom().contains(h));
                assert(pre.shaders.dom().contains(h));
            }
            if pre.shaders.dom().contains(h) {
                assert(mid.shaders.dom().contains(h));
                assert(post.shaders.dom().contains(h));
            }
        }
    }
    assert forall|h: Handle|
        post.shaders.dom().contains(h) implies post.shaders[h] == pre.shaders[h] by {
        assert(mid.shaders.dom().contains(h));
        assert(post.shaders[h] == mid.shaders[h]);
        assert(pre.shaders.dom().contains(h));
        assert(mid.shaders[h] == pre.shaders[h]);
    }
    assert(post.shaders =~= pre.shaders);
}

} // verus!
