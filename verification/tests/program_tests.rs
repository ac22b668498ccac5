use lgl::context::GlContext;
use lgl::gl_object::GlObject;
use lgl::program::{Program, ProgramCreationError, Shader, ShaderType};
use lgl::stub::StubContext;

const VS: &str = "void main() { gl_Position = vec4(0.0); }";
const FS: &str = "out vec4 color; void main() { color = vec4(1.0); }";

#[test]
fn linking_vertex_and_fragment_succeeds() {
    let mut ctx = StubContext::new();
    let vs = Shader::new(&mut ctx, ShaderType::Vertex, VS).unwrap();
    let fs = Shader::new(&mut ctx, ShaderType::Fragment, FS).unwrap();
    let program = Program::link(&mut ctx, &[vs, fs]).unwrap();
    assert_ne!(program.id(), 0);
    assert_eq!(ctx.link_calls(), 1);
}

#[test]
fn linking_without_a_vertex_stage_fails() {
    let mut ctx = StubContext::new();
    let fs = Shader::new(&mut ctx, ShaderType::Fragment, FS).unwrap();
    let r = Program::link(&mut ctx, &[fs]);
    match r {
        Err(ProgramCreationError::LinkError(log)) => {
            assert!(!log.is_empty());
            assert_eq!(log, "no vertex stage");
        }
        other => panic!("expected a link error, got {:?}", other),
    }
}

#[test]
fn linking_no_stages_fails() {
    let mut ctx = StubContext::new();
    let r = Program::link(&mut ctx, &[]);
    assert!(matches!(r, Err(ProgramCreationError::LinkError(_))));
}

#[test]
fn failed_link_clears_the_active_program_slot() {
    let mut ctx = StubContext::new();
    let vs = Shader::new(&mut ctx, ShaderType::Vertex, VS).unwrap();
    let fs = Shader::new(&mut ctx, ShaderType::Fragment, FS).unwrap();
    let good = Program::link(&mut ctx, &[vs, fs]).unwrap();
    good.activate(&mut ctx);
    assert_eq!(ctx.current_program(), good.id());
    // a failing link destroys its half-made program, which unbinds `good`
    let lone_fs = Shader::new(&mut ctx, ShaderType::Fragment, FS).unwrap();
    let r = Program::link(&mut ctx, &[lone_fs]);
    assert!(r.is_err());
    assert_eq!(ctx.current_program(), 0);
}

#[test]
fn activate_binds_and_deactivate_unbinds() {
    let mut ctx = StubContext::new();
    let vs = Shader::new(&mut ctx, ShaderType::Vertex, VS).unwrap();
    let program = Program::link(&mut ctx, &[vs]).unwrap();
    assert_eq!(ctx.current_program(), 0);
    program.activate(&mut ctx);
    assert_eq!(ctx.current_program(), program.id());
    // activating again changes nothing
    program.activate(&mut ctx);
    assert_eq!(ctx.current_program(), program.id());
    program.deactivate(&mut ctx);
    assert_eq!(ctx.current_program(), 0);
}

#[test]
fn deactivate_twice_equals_deactivate_once() {
    let mut ctx = StubContext::new();
    let vs = Shader::new(&mut ctx, ShaderType::Vertex, VS).unwrap();
    let program = Program::link(&mut ctx, &[vs]).unwrap();
    program.activate(&mut ctx);
    program.deactivate(&mut ctx);
    let once_active = ctx.current_program();
    let once_objects = ctx.object_count();
    program.deactivate(&mut ctx);
    assert_eq!(ctx.current_program(), once_active);
    assert_eq!(ctx.current_program(), 0);
    assert_eq!(ctx.object_count(), once_objects);
}

#[test]
fn deactivate_clears_whichever_program_is_bound() {
    let mut ctx = StubContext::new();
    let vs_a = Shader::new(&mut ctx, ShaderType::Vertex, VS).unwrap();
    let a = Program::link(&mut ctx, &[vs_a]).unwrap();
    let vs_b = Shader::new(&mut ctx, ShaderType::Vertex, VS).unwrap();
    let b = Program::link(&mut ctx, &[vs_b]).unwrap();
    b.activate(&mut ctx);
    // `a` is not the bound program, yet its deactivate clears the slot
    a.deactivate(&mut ctx);
    assert_eq!(ctx.current_program(), 0);
    let _ = b;
}

#[test]
fn destroying_a_program_clears_the_active_slot_unconditionally() {
    let mut ctx = StubContext::new();
    let vs_a = Shader::new(&mut ctx, ShaderType::Vertex, VS).unwrap();
    let a = Program::link(&mut ctx, &[vs_a]).unwrap();
    let vs_b = Shader::new(&mut ctx, ShaderType::Vertex, VS).unwrap();
    let b = Program::link(&mut ctx, &[vs_b]).unwrap();
    b.activate(&mut ctx);
    assert_eq!(ctx.current_program(), b.id());
    // destroying the unrelated program `a` still empties the slot
    a.destroy(&mut ctx);
    assert_eq!(ctx.current_program(), 0);
    let _ = b;
}

#[test]
fn link_log_decoding_accepts_valid_text_and_rejects_malformed_bytes() {
    match ProgramCreationError::from_info_log(vec![b'o', b'o', b'p', b's']) {
        ProgramCreationError::LinkError(log) => assert_eq!(log, "oops"),
        other => panic!("expected a link error, got {:?}", other),
    }
    let e = ProgramCreationError::from_info_log(vec![0xC3]);
    assert!(matches!(e, ProgramCreationError::InvalidInfoLog));
}

#[test]
fn shaders_outlive_the_link_and_are_released_by_the_caller() {
    let mut ctx = StubContext::new();
    let vs = Shader::new(&mut ctx, ShaderType::Vertex, VS).unwrap();
    let fs = Shader::new(&mut ctx, ShaderType::Fragment, FS).unwrap();
    let shaders = vec![vs, fs];
    let program = Program::link(&mut ctx, &shaders).unwrap();
    // the program retains the compiled stages; the shaders can go now
    for shader in shaders {
        shader.destroy(&mut ctx);
    }
    program.activate(&mut ctx);
    assert_eq!(ctx.current_program(), program.id());
}
