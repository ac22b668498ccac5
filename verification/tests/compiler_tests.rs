use lgl::context::GlContext;
use lgl::gl_object::GlObject;
use lgl::program::{
    ProgramCreationError, ShaderCreationError, ShaderType, SourceCompiler, SourceCompilerError,
};
use lgl::stub::StubContext;

const VS: &str = "void main() { gl_Position = vec4(0.0); }";
const FS: &str = "out vec4 color; void main() { color = vec4(1.0); }";

#[test]
fn vertex_plus_fragment_round_trip() {
    let mut ctx = StubContext::new();
    let program =
        SourceCompiler::compile(&mut ctx, &[(ShaderType::Vertex, VS), (ShaderType::Fragment, FS)])
            .unwrap();
    assert_ne!(program.id(), 0);
    // two stage objects and one program were named; the stages are released
    assert_eq!(ctx.object_count(), 3);
    assert_eq!(ctx.compile_calls(), 2);
    assert_eq!(ctx.link_calls(), 1);
    // the program is usable
    program.activate(&mut ctx);
    assert_eq!(ctx.current_program(), program.id());
}

#[test]
fn fragment_only_pipeline_fails_to_link() {
    let mut ctx = StubContext::new();
    let r = SourceCompiler::compile(&mut ctx, &[(ShaderType::Fragment, FS)]);
    match r {
        Err(SourceCompilerError::ProgramCreationError(ProgramCreationError::LinkError(log))) => {
            assert!(!log.is_empty());
        }
        other => panic!("expected a link error, got {:?}", other),
    }
    assert_eq!(ctx.link_calls(), 1);
}

#[test]
fn compile_is_fail_fast() {
    let mut ctx = StubContext::new();
    // entry 1 fails to compile; entry 2 would fail too, but is never tried
    let r = SourceCompiler::compile(
        &mut ctx,
        &[(ShaderType::Vertex, ""), (ShaderType::Fragment, "")],
    );
    match r {
        Err(SourceCompilerError::ShaderCreationError(ShaderCreationError::CompileError(log))) => {
            assert!(!log.is_empty());
        }
        other => panic!("expected a compile error, got {:?}", other),
    }
    assert_eq!(ctx.compile_calls(), 1);
    assert_eq!(ctx.link_calls(), 0);
}

#[test]
fn fail_fast_reports_the_first_failing_entry() {
    let mut ctx = StubContext::new();
    // entry 1 has an embedded null byte, entry 2 would fail at the driver;
    // the reported error is entry 1's, and no driver call is made
    let r = SourceCompiler::compile(
        &mut ctx,
        &[(ShaderType::Vertex, "a\0b"), (ShaderType::Fragment, "")],
    );
    assert!(matches!(
        r,
        Err(SourceCompilerError::ShaderCreationError(ShaderCreationError::InvalidSource))
    ));
    assert_eq!(ctx.compile_calls(), 0);
    assert_eq!(ctx.object_count(), 0);
}

#[test]
fn failure_releases_every_intermediate_shader() {
    let mut ctx = StubContext::new();
    // the first entry compiles, the second fails; both stage objects are
    // released before the error returns, so only their names are spent
    let r = SourceCompiler::compile(
        &mut ctx,
        &[(ShaderType::Vertex, VS), (ShaderType::Fragment, "")],
    );
    assert!(r.is_err());
    assert_eq!(ctx.object_count(), 2);
    // a fresh run starts with the next name and still succeeds
    let program =
        SourceCompiler::compile(&mut ctx, &[(ShaderType::Vertex, VS), (ShaderType::Fragment, FS)])
            .unwrap();
    assert_eq!(program.id(), 5);
}

#[test]
fn empty_request_list_fails_at_the_link() {
    let mut ctx = StubContext::new();
    let r = SourceCompiler::compile(&mut ctx, &[]);
    assert!(matches!(
        r,
        Err(SourceCompilerError::ProgramCreationError(ProgramCreationError::LinkError(_)))
    ));
    assert_eq!(ctx.compile_calls(), 0);
    assert_eq!(ctx.link_calls(), 1);
}

#[test]
fn duplicate_stage_kinds_are_not_rejected_early() {
    let mut ctx = StubContext::new();
    // two vertex stages: the request is handed to the driver as is
    let r = SourceCompiler::compile(
        &mut ctx,
        &[(ShaderType::Vertex, VS), (ShaderType::Vertex, VS)],
    );
    assert!(r.is_ok());
    assert_eq!(ctx.compile_calls(), 2);
}
