//! An instrumented, in-memory graphics context.
//!
//! [`StubContext`] implements [`GlContext`] entirely in memory and is
//! verified against the capability's contract, so everything proved over
//! the capability holds of it. It stands in for a real driver in tests and
//! whenever no GPU is at hand.
//!
//! Where the capability leaves a verdict to the driver, this one decides as
//! follows: a compilation succeeds exactly when the source text is
//! non-empty, and a link succeeds exactly when every attached handle names
//! a live, successfully compiled shader and at least one of them is a
//! vertex stage. Failed verdicts leave a short diagnostic log.
//!
//! The context also counts the compilation and link requests it serves
//! ([`StubContext::compile_calls`], [`StubContext::link_calls`]), so a test
//! can observe, for example, that a failed pipeline stopped at its first
//! error.

use vstd::pervasive::arbitrary;
use vstd::prelude::*;
use vstd::slice::slice_to_vec;

use crate::context::GlContext;
use crate::gl_object::{Handle, NO_OBJECT};
use crate::model::{
    initial_state, new_program_obj, new_shader_obj, with_active, DriverReply, GlState, ProgramObj,
    ShaderObj,
};
use crate::program::ShaderType;

verus! {

/// One shader-stage object of the stub driver.
struct StubShader {
    kind: ShaderType,
    source: String,
    compiled: bool,
    compile_ok: bool,
    log: Vec<u8>,
}

impl StubShader {
    /// The modelled shader-stage object this one realizes.
    spec fn obj(&self) -> ShaderObj {
        ShaderObj {
            kind: self.kind,
            source: self.source@,
            compiled: self.compiled,
            compile_ok: self.compile_ok,
            log: self.log@,
        }
    }
}

/// One program object of the stub driver.
struct StubProgram {
    attached: Vec<Handle>,
    linked: bool,
    link_ok: bool,
    log: Vec<u8>,
}

impl StubProgram {
    /// The modelled program object this one realizes.
    spec fn obj(&self) -> ProgramObj {
        ProgramObj {
            attached: self.attached@,
            linked: self.linked,
            link_ok: self.link_ok,
            log: self.log@,
        }
    }
}

/// One slot of the stub driver's object table. The object with handle `h`
/// lives in slot `h - 1`; a released object leaves its slot `Freed`, since
/// names are never recycled.
enum StubSlot {
    ShaderSlot(StubShader),
    ProgramSlot(StubProgram),
    Freed,
}

impl StubSlot {
    spec fn is_shader(&self) -> bool {
        self is ShaderSlot
    }

    spec fn is_program(&self) -> bool {
        self is ProgramSlot
    }

    spec fn as_shader(&self) -> ShaderObj {
        match self {
            StubSlot::ShaderSlot(sh) => sh.obj(),
            _ => arbitrary(),
        }
    }

    spec fn as_program(&self) -> ProgramObj {
        match self {
            StubSlot::ProgramSlot(pr) => pr.obj(),
            _ => arbitrary(),
        }
    }
}

/// Whether handle `h` names a live shader object in the table.
spec fn shader_live(slots: Seq<StubSlot>, h: Handle) -> bool {
    &&& 1 <= h
    &&& h as int <= slots.len()
    &&& slots[h as int - 1].is_shader()
}

/// Whether handle `h` names a live program object in the table.
spec fn program_live(slots: Seq<StubSlot>, h: Handle) -> bool {
    &&& 1 <= h
    &&& h as int <= slots.len()
    &&& slots[h as int - 1].is_program()
}

/// The modelled shader collection of the table.
spec fn shaders_map_of(slots: Seq<StubSlot>) -> Map<Handle, ShaderObj> {
    Map::new(|h: Handle| shader_live(slots, h), |h: Handle| slots[h as int - 1].as_shader())
}

/// The modelled program collection of the table.
spec fn programs_map_of(slots: Seq<StubSlot>) -> Map<Handle, ProgramObj> {
    Map::new(|h: Handle| program_live(slots, h), |h: Handle| slots[h as int - 1].as_program())
}

/// The modelled context state of a table, an active-program slot and the
/// stored replies.
spec fn state_of(slots: Seq<StubSlot>, active: Handle, replies: Seq<StubReply>) -> GlState {
    GlState {
        shaders: shaders_map_of(slots),
        programs: programs_map_of(slots),
        active,
        names_used: slots.len(),
        replies: trace_of(replies),
    }
}

/// Appending a slot adds exactly one object under the one fresh handle
/// `slots.len() + 1` and leaves every other handle's meaning unchanged.
proof fn lemma_push(slots: Seq<StubSlot>, slot: StubSlot)
    requires
        slots.len() < 0xFFFF_FFFF,
    ensures
        !shader_live(slots, ((slots.len() + 1) as u32)),
        !program_live(slots, ((slots.len() + 1) as u32)),
        slot.is_shader() ==> shaders_map_of(slots.push(slot)) == shaders_map_of(slots).insert(
            ((slots.len() + 1) as u32),
            slot.as_shader(),
        ),
        slot.is_shader() ==> programs_map_of(slots.push(slot)) == programs_map_of(slots),
        slot.is_program() ==> programs_map_of(slots.push(slot)) == programs_map_of(slots).insert(
            ((slots.len() + 1) as u32),
            slot.as_program(),
        ),
        slot.is_program() ==> shaders_map_of(slots.push(slot)) == shaders_map_of(slots),
{
    let pushed = slots.push(slot);
    if slot.is_shader() {
        assert(shaders_map_of(pushed) =~= shaders_map_of(slots).insert(
            ((slots.len() + 1) as u32),
            slot.as_shader(),
        ));
        assert(programs_map_of(pushed) =~= programs_map_of(slots));
    }
    if slot.is_program() {
        assert(programs_map_of(pushed) =~= programs_map_of(slots).insert(
            ((slots.len() + 1) as u32),
            slot.as_program(),
        ));
        assert(shaders_map_of(pushed) =~= shaders_map_of(slots));
    }
}

/// Replacing the slot of handle `i + 1` rewrites exactly that handle's
/// meaning: an inserted, removed or unchanged entry in each collection,
/// depending on what the old and new slots hold.
proof fn lemma_update(slots: Seq<StubSlot>, i: int, slot: StubSlot)
    requires
        0 <= i < slots.len(),
        i < 0xFFFF_FFFF,
    ensures
        slot.is_shader() ==> shaders_map_of(slots.update(i, slot)) == shaders_map_of(
            slots,
        ).insert(((i + 1) as u32), slot.as_shader()),
        !slot.is_shader() && slots[i].is_shader() ==> shaders_map_of(slots.update(i, slot))
            == shaders_map_of(slots).remove(((i + 1) as u32)),
        !slot.is_shader() && !slots[i].is_shader() ==> shaders_map_of(slots.update(i, slot))
            == shaders_map_of(slots),
        slot.is_program() ==> programs_map_of(slots.update(i, slot)) == programs_map_of(
            slots,
        ).insert(((i + 1) as u32), slot.as_program()),
        !slot.is_program() && slots[i].is_program() ==> programs_map_of(slots.update(i, slot))
            == programs_map_of(slots).remove(((i + 1) as u32)),
        !slot.is_program() && !slots[i].is_program() ==> programs_map_of(slots.update(i, slot))
            == programs_map_of(slots),
{
    let updated = slots.update(i, slot);
    if slot.is_shader() {
        assert(shaders_map_of(updated) =~= shaders_map_of(slots).insert(
            ((i + 1) as u32),
            slot.as_shader(),
        ));
    } else if slots[i].is_shader() {
        assert(shaders_map_of(updated) =~= shaders_map_of(slots).remove(((i + 1) as u32)));
    } else {
        assert(shaders_map_of(updated) =~= shaders_map_of(slots));
    }
    if slot.is_program() {
        assert(programs_map_of(updated) =~= programs_map_of(slots).insert(
            ((i + 1) as u32),
            slot.as_program(),
        ));
    } else if slots[i].is_program() {
        assert(programs_map_of(updated) =~= programs_map_of(slots).remove(((i + 1) as u32)));
    } else {
        assert(programs_map_of(updated) =~= programs_map_of(slots));
    }
}

/// One verdict this driver has returned, as stored.
enum StubReply {
    CompileReply { kind: ShaderType, source: String, ok: bool, log: Vec<u8> },
    LinkReply { attached: Vec<Handle>, ok: bool, log: Vec<u8> },
}

impl StubReply {
    /// The modelled reply this one realizes.
    spec fn obj(&self) -> DriverReply {
        match self {
            StubReply::CompileReply { kind, source, ok, log } => DriverReply::Compiled {
                kind: *kind,
                source: source@,
                ok: *ok,
                log: log@,
            },
            StubReply::LinkReply { attached, ok, log } => DriverReply::Linked {
                attached: attached@,
                ok: *ok,
                log: log@,
            },
        }
    }
}

/// The modelled reply record of the stored one.
spec fn trace_of(replies: Seq<StubReply>) -> Seq<DriverReply> {
    Seq::new(replies.len(), |i: int| replies[i].obj())
}

/// Appending a stored reply appends its modelled record.
proof fn lemma_reply_push(replies: Seq<StubReply>, reply: StubReply)
    ensures
        trace_of(replies.push(reply)) == trace_of(replies).push(reply.obj()),
{
    assert(trace_of(replies.push(reply)) =~= trace_of(replies).push(reply.obj()));
}

/// The diagnostic a failed stub compilation leaves: `empty source`.
fn compile_fail_log() -> (log: Vec<u8>)
    ensures
        log@.len() > 0,
{
    let mut log: Vec<u8> = Vec::new();
    log.push(101u8);
    log.push(109u8);
    log.push(112u8);
    log.push(116u8);
    log.push(121u8);
    log.push(32u8);
    log.push(115u8);
    log.push(111u8);
    log.push(117u8);
    log.push(114u8);
    log.push(99u8);
    log.push(101u8);
    log
}

/// The diagnostic a failed stub link leaves: `no vertex stage`.
fn link_fail_log() -> (log: Vec<u8>)
    ensures
        log@.len() > 0,
{
    let mut log: Vec<u8> = Vec::new();
    log.push(110u8);
    log.push(111u8);
    log.push(32u8);
    log.push(118u8);
    log.push(101u8);
    log.push(114u8);
    log.push(116u8);
    log.push(101u8);
    log.push(120u8);
    log.push(32u8);
    log.push(115u8);
    log.push(116u8);
    log.push(97u8);
    log.push(103u8);
    log.push(101u8);
    log
}

/// An in-memory graphics context, verified against [`GlContext`].
pub struct StubContext {
    slots: Vec<StubSlot>,
    active: Handle,
    replies: Vec<StubReply>,
    compile_calls: u64,
    link_calls: u64,
}

impl StubContext {
    /// A fresh context: no objects, no program bound, counters at zero.
    pub fn new() -> (ctx: StubContext)
        ensures
            ctx.model() == initial_state(),
            ctx.compile_count() == 0,
            ctx.link_count() == 0,
    {
        let ctx = StubContext {
            slots: Vec::new(),
            active: NO_OBJECT,
            replies: Vec::new(),
            compile_calls: 0,
            link_calls: 0,
        };
        proof {
            assert(ctx.model().shaders =~= initial_state().shaders);
            assert(ctx.model().programs =~= initial_state().programs);
            assert(ctx.model().replies =~= initial_state().replies);
            assert(ctx.model() =~= initial_state());
        }
        ctx
    }

    /// How many compilation requests this context has served, at the
    /// specification level.
    pub closed spec fn compile_count(&self) -> u64 {
        self.compile_calls
    }

    /// How many link requests this context has served, at the specification
    /// level.
    pub closed spec fn link_count(&self) -> u64 {
        self.link_calls
    }

    /// How many compilation requests this context has served.
    pub fn compile_calls(&self) -> (n: u64)
        ensures
            n == self.compile_count(),
    {
        self.compile_calls
    }

    /// How many link requests this context has served.
    pub fn link_calls(&self) -> (n: u64)
        ensures
            n == self.link_count(),
    {
        self.link_calls
    }

    /// How many object names this context has handed out so far.
    pub fn object_count(&self) -> (n: usize)
        ensures
            n == self.model().names_used,
    {
        self.slots.len()
    }

    /// The stub's link rule: every attached handle names a live,
    /// successfully compiled shader, and at least one is a vertex stage.
    fn link_verdict(&self, idx: usize) -> bool
        requires
            idx < self.slots@.len(),
            self.slots@[idx as int].is_program(),
    {
        let mut all_ok = true;
        let mut has_vertex = false;
        match &self.slots[idx] {
            StubSlot::ProgramSlot(pr) => {
                let m = pr.attached.len();
                let mut k: usize = 0;
                while k < m
                    invariant
                        m == pr.attached@.len(),
                        k <= m,
                    decreases m - k,
                {
                    let a = pr.attached[k];
                    if a >= 1 && (a as usize) <= self.slots.len() {
                        let j = (a - 1) as usize;
                        match &self.slots[j] {
                            StubSlot::ShaderSlot(sh) => {
                                if !(sh.compiled && sh.compile_ok) {
                                    all_ok = false;
                                } else if sh.kind == ShaderType::Vertex {
                                    has_vertex = true;
                                }
                            },
                            _ => {
                                all_ok = false;
                            },
                        }
                    } else {
                        all_ok = false;
                    }
                    k = k + 1;
                }
            },
            _ => {
                proof {
                    assert(false);
                }
            },
        }
        all_ok && has_vertex
    }
}

impl GlContext for StubContext {
    closed spec fn model(&self) -> GlState {
        state_of(self.slots@, self.active, self.replies@)
    }

    fn create_shader(&mut self, kind: ShaderType) -> (h: Handle) {
        let n = self.slots.len();
        let slot = StubSlot::ShaderSlot(
            StubShader {
                kind,
                source: String::new(),
                compiled: false,
                compile_ok: false,
                log: Vec::new(),
            },
        );
        let ghost pre_slots = self.slots@;
        let ghost gslot = slot;
        self.slots.push(slot);
        proof {
            lemma_push(pre_slots, gslot);
            assert(gslot.as_shader() =~= new_shader_obj(kind));
            assert(self.model().shaders =~= old(self).model().shaders.insert(
                ((n + 1) as u32),
                new_shader_obj(kind),
            ));
            assert(self.model().programs =~= old(self).model().programs);
        }
        (n as u32) + 1
    }

    fn shader_source(&mut self, shader: Handle, source: &str) {
        let idx = (shader - 1) as usize;
        let ghost pre_slots = self.slots@;
        let slot = self.slots.remove(idx);
        match slot {
            StubSlot::ShaderSlot(sh) => {
                let updated = StubSlot::ShaderSlot(StubShader { source: source.to_owned(), ..sh });
                let ghost gnew = updated;
                self.slots.insert(idx, updated);
                proof {
                    assert(self.slots@ =~= pre_slots.update(idx as int, gnew));
                    lemma_update(pre_slots, idx as int, gnew);
                    assert(gnew.as_shader() =~= ShaderObj {
                        source: source@,
                        ..old(self).model().shaders[shader]
                    });
                    assert(self.model().shaders =~= old(self).model().shaders.insert(
                        shader,
                        ShaderObj { source: source@, ..old(self).model().shaders[shader] },
                    ));
                    assert(self.model().programs =~= old(self).model().programs);
                }
            },
            other => {
                self.slots.insert(idx, other);
                proof {
                    assert(false);
                }
            },
        }
    }

    fn compile_shader(&mut self, shader: Handle) {
        let idx = (shader - 1) as usize;
        if self.compile_calls < u64::MAX {
            self.compile_calls = self.compile_calls + 1;
        }
        let ghost pre_slots = self.slots@;
        let ghost pre_replies = self.replies@;
        let slot = self.slots.remove(idx);
        match slot {
            StubSlot::ShaderSlot(sh) => {
                let ok = !sh.source.as_str().is_empty();
                let log: Vec<u8> = if ok {
                    Vec::new()
                } else {
                    compile_fail_log()
                };
                let reply = StubReply::CompileReply {
                    kind: sh.kind,
                    source: sh.source.as_str().to_owned(),
                    ok,
                    log: slice_to_vec(log.as_slice()),
                };
                let ghost greply = reply;
                self.replies.push(reply);
                let updated = StubSlot::ShaderSlot(
                    StubShader { compiled: true, compile_ok: ok, log, ..sh },
                );
                let ghost gnew = updated;
                self.slots.insert(idx, updated);
                proof {
                    assert(self.slots@ =~= pre_slots.update(idx as int, gnew));
                    lemma_update(pre_slots, idx as int, gnew);
                    assert(self.model().shaders =~= old(self).model().shaders.insert(
                        shader,
                        ShaderObj {
                            compiled: true,
                            compile_ok: self.model().shaders[shader].compile_ok,
                            log: self.model().shaders[shader].log,
                            ..old(self).model().shaders[shader]
                        },
                    ));
                    assert(self.model().programs =~= old(self).model().programs);
                    lemma_reply_push(pre_replies, greply);
                    assert(greply.obj() =~= DriverReply::Compiled {
                        kind: old(self).model().shaders[shader].kind,
                        source: old(self).model().shaders[shader].source,
                        ok: self.model().shaders[shader].compile_ok,
                        log: self.model().shaders[shader].log,
                    });
                    assert(self.model().replies =~= old(self).model().replies.push(
                        DriverReply::Compiled {
                            kind: old(self).model().shaders[shader].kind,
                            source: old(self).model().shaders[shader].source,
                            ok: self.model().shaders[shader].compile_ok,
                            log: self.model().shaders[shader].log,
                        },
                    ));
                }
            },
            other => {
                self.slots.insert(idx, other);
                proof {
                    assert(false);
                }
            },
        }
    }

    fn shader_compile_ok(&self, shader: Handle) -> (ok: bool) {
        let idx = (shader - 1) as usize;
        match &self.slots[idx] {
            StubSlot::ShaderSlot(sh) => sh.compile_ok,
            _ => {
                proof {
                    assert(false);
                }
                false
            },
        }
    }

    fn shader_info_log(&self, shader: Handle) -> (log: Vec<u8>) {
        let idx = (shader - 1) as usize;
        match &self.slots[idx] {
            StubSlot::ShaderSlot(sh) => slice_to_vec(sh.log.as_slice()),
            _ => {
                proof {
                    assert(false);
                }
                Vec::new()
            },
        }
    }

    fn delete_shader(&mut self, shader: Handle) {
        let idx = (shader - 1) as usize;
        let ghost pre_slots = self.slots@;
        self.slots[idx] = StubSlot::Freed;
        proof {
            lemma_update(pre_slots, idx as int, StubSlot::Freed);
            assert(self.model().shaders =~= old(self).model().shaders.remove(shader));
            assert(self.model().programs =~= old(self).model().programs);
        }
    }

    fn create_program(&mut self) -> (h: Handle) {
        let n = self.slots.len();
        let slot = StubSlot::ProgramSlot(
            StubProgram { attached: Vec::new(), linked: false, link_ok: false, log: Vec::new() },
        );
        let ghost pre_slots = self.slots@;
        let ghost gslot = slot;
        self.slots.push(slot);
        proof {
            lemma_push(pre_slots, gslot);
            assert(gslot.as_program() =~= new_program_obj());
            assert(self.model().programs =~= old(self).model().programs.insert(
                ((n + 1) as u32),
                new_program_obj(),
            ));
            assert(self.model().shaders =~= old(self).model().shaders);
        }
        (n as u32) + 1
    }

    fn attach_shader(&mut self, program: Handle, shader: Handle) {
        let idx = (program - 1) as usize;
        let ghost pre_slots = self.slots@;
        let slot = self.slots.remove(idx);
        match slot {
            StubSlot::ProgramSlot(pr) => {
                let StubProgram { attached, linked, link_ok, log } = pr;
                let mut attached = attached;
                attached.push(shader);
                let updated = StubSlot::ProgramSlot(
                    StubProgram { attached, linked, link_ok, log },
                );
                let ghost gnew = updated;
                self.slots.insert(idx, updated);
                proof {
                    assert(self.slots@ =~= pre_slots.update(idx as int, gnew));
                    lemma_update(pre_slots, idx as int, gnew);
                    assert(gnew.as_program() =~= ProgramObj {
                        attached: old(self).model().programs[program].attached.push(shader),
                        ..old(self).model().programs[program]
                    });
                    assert(self.model().programs =~= old(self).model().programs.insert(
                        program,
                        ProgramObj {
                            attached: old(self).model().programs[program].attached.push(shader),
                            ..old(self).model().programs[program]
                        },
                    ));
                    assert(self.model().shaders =~= old(self).model().shaders);
                }
            },
            other => {
                self.slots.insert(idx, other);
                proof {
                    assert(false);
                }
            },
        }
    }

    fn link_program(&mut self, program: Handle) {
        let idx = (program - 1) as usize;
        if self.link_calls < u64::MAX {
            self.link_calls = self.link_calls + 1;
        }
        let ok = self.link_verdict(idx);
        let ghost pre_slots = self.slots@;
        let ghost pre_replies = self.replies@;
        let slot = self.slots.remove(idx);
        match slot {
            StubSlot::ProgramSlot(pr) => {
                let log: Vec<u8> = if ok {
                    Vec::new()
                } else {
                    link_fail_log()
                };
                let StubProgram { attached, linked: _, link_ok: _, log: _ } = pr;
                let reply = StubReply::LinkReply {
                    attached: slice_to_vec(attached.as_slice()),
                    ok,
                    log: slice_to_vec(log.as_slice()),
                };
                let ghost greply = reply;
                self.replies.push(reply);
                let updated = StubSlot::ProgramSlot(
                    StubProgram { attached, linked: true, link_ok: ok, log },
                );
                let ghost gnew = updated;
                self.slots.insert(idx, updated);
                proof {
                    assert(self.slots@ =~= pre_slots.update(idx as int, gnew));
                    lemma_update(pre_slots, idx as int, gnew);
                    assert(self.model().programs =~= old(self).model().programs.insert(
                        program,
                        ProgramObj {
                            linked: true,
                            link_ok: self.model().programs[program].link_ok,
                            log: self.model().programs[program].log,
                            ..old(self).model().programs[program]
                        },
                    ));
                    assert(self.model().shaders =~= old(self).model().shaders);
                    lemma_reply_push(pre_replies, greply);
                    assert(greply.obj() =~= DriverReply::Linked {
                        attached: old(self).model().programs[program].attached,
                        ok: self.model().programs[program].link_ok,
                        log: self.model().programs[program].log,
                    });
                    assert(self.model().replies =~= old(self).model().replies.push(
                        DriverReply::Linked {
                            attached: old(self).model().programs[program].attached,
                            ok: self.model().programs[program].link_ok,
                            log: self.model().programs[program].log,
                        },
                    ));
                }
            },
            other => {
                self.slots.insert(idx, other);
                proof {
                    assert(false);
                }
            },
        }
    }

    fn program_link_ok(&self, program: Handle) -> (ok: bool) {
        let idx = (program - 1) as usize;
        match &self.slots[idx] {
            StubSlot::ProgramSlot(pr) => pr.link_ok,
            _ => {
                proof {
                    assert(false);
                }
                false
            },
        }
    }

    fn program_info_log(&self, program: Handle) -> (log: Vec<u8>) {
        let idx = (program - 1) as usize;
        match &self.slots[idx] {
            StubSlot::ProgramSlot(pr) => slice_to_vec(pr.log.as_slice()),
            _ => {
                proof {
                    assert(false);
                }
                Vec::new()
            },
        }
    }

    fn use_program(&mut self, program: Handle) {
        let ghost pre = self.model();
        self.active = program;
        proof {
            assert(self.model() =~= with_active(pre, program));
        }
    }

    fn current_program(&self) -> (h: Handle) {
        self.active
    }

    fn delete_program(&mut self, program: Handle) {
        let idx = (program - 1) as usize;
        let ghost pre_slots = self.slots@;
        self.slots[idx] = StubSlot::Freed;
        proof {
            lemma_update(pre_slots, idx as int, StubSlot::Freed);
            assert(self.model().programs =~= old(self).model().programs.remove(program));
            assert(self.model().shaders =~= old(self).model().shaders);
        }
    }
}

} // verus!
