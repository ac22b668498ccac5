//! Mathematical model of a graphics context.
//!
//! A context owns a collection of shader-stage objects and program objects,
//! each named by a [`Handle`], plus one context-wide "currently active
//! program" slot. The spec functions here describe how each context
//! operation transforms that state; the [`crate::context::GlContext`]
//! capability promises exactly these transitions.
//!
//! Two choices the model leaves to the driver: the verdict of a compilation
//! or a link, and the diagnostic log it produces. A transition therefore
//! pins everything about the new state except those fields. Every such
//! verdict is also recorded in the state's reply list ([`DriverReply`]),
//! which outlives the object it was about: contracts can thus tie an error
//! to the request that produced it, say that a diagnostic is returned
//! verbatim, and say that nothing past a failure was ever attempted.
//!
//! Object names are never recycled: `names_used` counts how many names the
//! context has handed out, and a context can allocate only while that count
//! stays below the handle space (a machine limit, not a GL rule).

use vstd::pervasive::arbitrary;
use vstd::prelude::*;

use crate::gl_object::{Handle, NO_OBJECT};
use crate::program::ShaderType;

verus! {

/// One verdict the driver has returned: the outcome of one compilation or
/// one link request, with what was submitted and the diagnostic log it
/// recorded. The context's state keeps every reply in order, so a contract
/// can tie an error to the very request that produced it even after the
/// failed object is released.
#[verifier::ext_equal]
pub enum DriverReply {
    Compiled { kind: ShaderType, source: Seq<char>, ok: bool, log: Seq<u8> },
    Linked { attached: Seq<Handle>, ok: bool, log: Seq<u8> },
}

impl DriverReply {
    /// Whether this reply answered a compilation request.
    pub open spec fn is_compile(self) -> bool {
        self is Compiled
    }

    /// Whether this reply answered a link request.
    pub open spec fn is_link(self) -> bool {
        self is Linked
    }

    /// The verdict of this reply.
    pub open spec fn ok(self) -> bool {
        match self {
            DriverReply::Compiled { ok, .. } => ok,
            DriverReply::Linked { ok, .. } => ok,
        }
    }

    /// The raw diagnostic log of this reply.
    pub open spec fn log(self) -> Seq<u8> {
        match self {
            DriverReply::Compiled { log, .. } => log,
            DriverReply::Linked { log, .. } => log,
        }
    }

    /// The stage kind a compile reply answered for.
    pub open spec fn kind(self) -> ShaderType
        recommends
            self.is_compile(),
    {
        match self {
            DriverReply::Compiled { kind, .. } => kind,
            _ => arbitrary(),
        }
    }

    /// The source text a compile reply answered for.
    pub open spec fn source(self) -> Seq<char>
        recommends
            self.is_compile(),
    {
        match self {
            DriverReply::Compiled { source, .. } => source,
            _ => arbitrary(),
        }
    }

    /// The attachment list a link reply answered for.
    pub open spec fn attached(self) -> Seq<Handle>
        recommends
            self.is_link(),
    {
        match self {
            DriverReply::Linked { attached, .. } => attached,
            _ => arbitrary(),
        }
    }
}

/// One shader-stage object: its stage kind, the source text submitted to it,
/// whether compilation has been requested, the verdict of the last
/// compilation, and the driver's diagnostic log (raw bytes).
#[verifier::ext_equal]
pub struct ShaderObj {
    pub kind: ShaderType,
    pub source: Seq<char>,
    pub compiled: bool,
    pub compile_ok: bool,
    pub log: Seq<u8>,
}

/// One program object: the shader handles attached to it in order, whether
/// linking has been requested, the verdict of the last link, and the
/// driver's diagnostic log (raw bytes).
#[verifier::ext_equal]
pub struct ProgramObj {
    pub attached: Seq<Handle>,
    pub linked: bool,
    pub link_ok: bool,
    pub log: Seq<u8>,
}

/// The whole visible state of one graphics context.
#[verifier::ext_equal]
pub struct GlState {
    pub shaders: Map<Handle, ShaderObj>,
    pub programs: Map<Handle, ProgramObj>,
    /// Handle of the program bound for draw calls; `NO_OBJECT` when none is.
    pub active: Handle,
    /// How many object names the context has handed out so far.
    pub names_used: nat,
    /// Every compile and link verdict the driver has returned, in order.
    pub replies: Seq<DriverReply>,
}

/// The state of a context that has not created any object yet.
pub open spec fn initial_state() -> GlState {
    GlState {
        shaders: Map::empty(),
        programs: Map::empty(),
        active: NO_OBJECT,
        names_used: 0,
        replies: Seq::empty(),
    }
}

/// Whether the context can still hand out a fresh object name.
pub open spec fn can_allocate(m: GlState) -> bool {
    m.names_used < 0xFFFF_FFFF
}

/// `m` with the active-program slot set to `h`.
pub open spec fn with_active(m: GlState, h: Handle) -> GlState {
    GlState { active: h, ..m }
}

/// A shader-stage object as it is right after creation.
pub open spec fn new_shader_obj(kind: ShaderType) -> ShaderObj {
    ShaderObj {
        kind,
        source: Seq::empty(),
        compiled: false,
        compile_ok: false,
        log: Seq::empty(),
    }
}

/// A program object as it is right after creation.
pub open spec fn new_program_obj() -> ProgramObj {
    ProgramObj { attached: Seq::empty(), linked: false, link_ok: false, log: Seq::empty() }
}

/// Creating a shader-stage object: a fresh non-sentinel name `h` is handed
/// out and now names a pristine object of the given kind.
pub open spec fn creates_shader(pre: GlState, post: GlState, h: Handle, kind: ShaderType) -> bool {
    &&& h != NO_OBJECT
    &&& !pre.shaders.dom().contains(h)
    &&& post.shaders == pre.shaders.insert(h, new_shader_obj(kind))
    &&& post.programs == pre.programs
    &&& post.active == pre.active
    &&& post.names_used == pre.names_used + 1
    &&& post.replies == pre.replies
}

/// Replacing the source text of shader `h`; nothing else moves.
pub open spec fn sets_source(pre: GlState, post: GlState, h: Handle, source: Seq<char>) -> bool {
    &&& pre.shaders.dom().contains(h)
    &&& post.shaders == pre.shaders.insert(
        h,
        ShaderObj { source, ..pre.shaders[h] },
    )
    &&& post.programs == pre.programs
    &&& post.active == pre.active
    &&& post.names_used == pre.names_used
    &&& post.replies == pre.replies
}

/// Compiling shader `h`: the driver picks the verdict and the log, and must
/// leave a non-empty log when it rejects the source; everything else,
/// including the object's kind and source, stays as it was. The reply,
/// with the submitted kind and source, is recorded.
pub open spec fn compiles_shader(pre: GlState, post: GlState, h: Handle) -> bool {
    &&& pre.shaders.dom().contains(h)
    &&& post.shaders == pre.shaders.insert(
        h,
        ShaderObj {
            compiled: true,
            compile_ok: post.shaders[h].compile_ok,
            log: post.shaders[h].log,
            ..pre.shaders[h]
        },
    )
    &&& (!post.shaders[h].compile_ok ==> post.shaders[h].log.len() > 0)
    &&& post.programs == pre.programs
    &&& post.active == pre.active
    &&& post.names_used == pre.names_used
    &&& post.replies == pre.replies.push(
        DriverReply::Compiled {
            kind: pre.shaders[h].kind,
            source: pre.shaders[h].source,
            ok: post.shaders[h].compile_ok,
            log: post.shaders[h].log,
        },
    )
}

/// Releasing shader object `h`. Its name is not recycled.
pub open spec fn deletes_shader(pre: GlState, post: GlState, h: Handle) -> bool {
    &&& post.shaders == pre.shaders.remove(h)
    &&& post.programs == pre.programs
    &&& post.active == pre.active
    &&& post.names_used == pre.names_used
    &&& post.replies == pre.replies
}

/// Creating a program object: a fresh non-sentinel name `h` is handed out
/// and now names a pristine program object.
pub open spec fn creates_program(pre: GlState, post: GlState, h: Handle) -> bool {
    &&& h != NO_OBJECT
    &&& !pre.programs.dom().contains(h)
    &&& post.programs == pre.programs.insert(h, new_program_obj())
    &&& post.shaders == pre.shaders
    &&& post.active == pre.active
    &&& post.names_used == pre.names_used + 1
    &&& post.replies == pre.replies
}

/// Attaching shader `s` to program `p`: `s` is appended to `p`'s attachment
/// list; nothing else moves.
pub open spec fn attaches_shader(pre: GlState, post: GlState, p: Handle, s: Handle) -> bool {
    &&& pre.programs.dom().contains(p)
    &&& post.programs == pre.programs.insert(
        p,
        ProgramObj { attached: pre.programs[p].attached.push(s), ..pre.programs[p] },
    )
    &&& post.shaders == pre.shaders
    &&& post.active == pre.active
    &&& post.names_used == pre.names_used
    &&& post.replies == pre.replies
}

/// Linking program `p`: the driver picks the verdict and the log, and must
/// leave a non-empty log when linking fails; everything else, including the
/// attachment list, stays as it was. The reply, with the attachment list it
/// answered for, is recorded.
pub open spec fn links_program(pre: GlState, post: GlState, p: Handle) -> bool {
    &&& pre.programs.dom().contains(p)
    &&& post.programs == pre.programs.insert(
        p,
        ProgramObj {
            linked: true,
            link_ok: post.programs[p].link_ok,
            log: post.programs[p].log,
            ..pre.programs[p]
        },
    )
    &&& (!post.programs[p].link_ok ==> post.programs[p].log.len() > 0)
    &&& post.shaders == pre.shaders
    &&& post.active == pre.active
    &&& post.names_used == pre.names_used
    &&& post.replies == pre.replies.push(
        DriverReply::Linked {
            attached: pre.programs[p].attached,
            ok: post.programs[p].link_ok,
            log: post.programs[p].log,
        },
    )
}

/// Binding program `h` (or `NO_OBJECT`) as the active one: only the active
/// slot moves.
pub open spec fn binds_program(pre: GlState, post: GlState, h: Handle) -> bool {
    post == with_active(pre, h)
}

/// Releasing program object `h`. Its name is not recycled.
pub open spec fn deletes_program(pre: GlState, post: GlState, h: Handle) -> bool {
    &&& post.programs == pre.programs.remove(h)
    &&& post.shaders == pre.shaders
    &&& post.active == pre.active
    &&& post.names_used == pre.names_used
    &&& post.replies == pre.replies
}

/// Binding is idempotent: binding the same program twice leaves the same
/// state as binding it once.
pub proof fn lemma_activate_idempotent(m: GlState, h: Handle)
    ensures
        with_active(with_active(m, h), h) == with_active(m, h),
{
}

/// Unbinding is idempotent: clearing the active-program slot twice leaves
/// the same state as clearing it once.
pub proof fn lemma_deactivate_idempotent(m: GlState)
    ensures
        with_active(with_active(m, NO_OBJECT), NO_OBJECT) == with_active(m, NO_OBJECT),
{
    lemma_activate_idempotent(m, NO_OBJECT);
}

} // verus!
