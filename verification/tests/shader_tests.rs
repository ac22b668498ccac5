use lgl::context::GlContext;
use lgl::gl_object::GlObject;
use lgl::program::{Shader, ShaderCreationError, ShaderType};
use lgl::stub::StubContext;

#[test]
fn create_valid_shader_yields_nonzero_handle() {
    let mut ctx = StubContext::new();
    let shader = Shader::new(&mut ctx, ShaderType::Vertex, "void main() {}").unwrap();
    assert_ne!(shader.id(), 0);
    assert_eq!(ctx.object_count(), 1);
    assert_eq!(ctx.compile_calls(), 1);
}

#[test]
fn each_stage_kind_compiles() {
    let mut ctx = StubContext::new();
    let kinds = vec![
        ShaderType::Vertex,
        ShaderType::Fragment,
        ShaderType::Geometry,
        ShaderType::TessControl,
        ShaderType::TessEvaluation,
        ShaderType::Compute,
    ];
    for (i, kind) in kinds.into_iter().enumerate() {
        let shader = Shader::new(&mut ctx, kind, "void main() {}").unwrap();
        assert_eq!(shader.id(), (i + 1) as u32);
    }
    assert_eq!(ctx.object_count(), 6);
}

#[test]
fn embedded_null_byte_is_rejected_before_any_gpu_call() {
    let mut ctx = StubContext::new();
    let r = Shader::new(&mut ctx, ShaderType::Vertex, "void\0main");
    assert!(matches!(r, Err(ShaderCreationError::InvalidSource)));
    // no allocation, no compilation was requested
    assert_eq!(ctx.object_count(), 0);
    assert_eq!(ctx.compile_calls(), 0);
}

#[test]
fn null_byte_at_start_and_end_are_rejected() {
    let mut ctx = StubContext::new();
    assert!(matches!(
        Shader::new(&mut ctx, ShaderType::Fragment, "\0abc"),
        Err(ShaderCreationError::InvalidSource)
    ));
    assert!(matches!(
        Shader::new(&mut ctx, ShaderType::Fragment, "abc\0"),
        Err(ShaderCreationError::InvalidSource)
    ));
    assert_eq!(ctx.object_count(), 0);
}

#[test]
fn rejected_source_reports_nonempty_log() {
    let mut ctx = StubContext::new();
    // the stub driver rejects an empty source text
    let r = Shader::new(&mut ctx, ShaderType::Vertex, "");
    match r {
        Err(ShaderCreationError::CompileError(log)) => {
            assert!(!log.is_empty());
            assert_eq!(log, "empty source");
        }
        other => panic!("expected a compile error, got {:?}", other),
    }
    assert_eq!(ctx.compile_calls(), 1);
}

#[test]
fn failed_compilation_leaves_no_object_behind() {
    let mut ctx = StubContext::new();
    let _ = Shader::new(&mut ctx, ShaderType::Vertex, "");
    // the failed stage object was created, then released; its name is spent
    assert_eq!(ctx.object_count(), 1);
    // the next object gets the next name, and lives
    let shader = Shader::new(&mut ctx, ShaderType::Vertex, "void main() {}").unwrap();
    assert_eq!(shader.id(), 2);
}

#[test]
fn destroy_releases_the_stage_object() {
    let mut ctx = StubContext::new();
    let shader = Shader::new(&mut ctx, ShaderType::Compute, "void main() {}").unwrap();
    shader.destroy(&mut ctx);
    // names are not recycled
    assert_eq!(ctx.object_count(), 1);
}

#[test]
fn info_log_decoding_accepts_valid_text() {
    let e = ShaderCreationError::from_info_log(vec![b'a', b'b', b'c']);
    match e {
        ShaderCreationError::CompileError(log) => assert_eq!(log, "abc"),
        other => panic!("expected a compile error, got {:?}", other),
    }
}

#[test]
fn info_log_decoding_accepts_multibyte_text() {
    // "é" as UTF-8
    let e = ShaderCreationError::from_info_log(vec![0xC3, 0xA9]);
    match e {
        ShaderCreationError::CompileError(log) => assert_eq!(log, "é"),
        other => panic!("expected a compile error, got {:?}", other),
    }
}

#[test]
fn info_log_decoding_rejects_malformed_bytes() {
    let e = ShaderCreationError::from_info_log(vec![0xFF, 0xFE]);
    assert!(matches!(e, ShaderCreationError::InvalidInfoLog));
    // a lone continuation byte is malformed too
    let e = ShaderCreationError::from_info_log(vec![0x80]);
    assert!(matches!(e, ShaderCreationError::InvalidInfoLog));
}

#[test]
fn from_extension_recognizes_every_stage() {
    assert!(matches!(ShaderType::from_extension(".vert"), Some(ShaderType::Vertex)));
    assert!(matches!(ShaderType::from_extension(".vs.glsl"), Some(ShaderType::Vertex)));
    assert!(matches!(ShaderType::from_extension(".frag"), Some(ShaderType::Fragment)));
    assert!(matches!(ShaderType::from_extension(".fs.glsl"), Some(ShaderType::Fragment)));
    assert!(matches!(ShaderType::from_extension(".geom"), Some(ShaderType::Geometry)));
    assert!(matches!(ShaderType::from_extension(".gs.glsl"), Some(ShaderType::Geometry)));
    assert!(matches!(ShaderType::from_extension(".tesc"), Some(ShaderType::TessControl)));
    assert!(matches!(ShaderType::from_extension(".tc.glsl"), Some(ShaderType::TessControl)));
    assert!(matches!(ShaderType::from_extension(".tese"), Some(ShaderType::TessEvaluation)));
    assert!(matches!(ShaderType::from_extension(".te.glsl"), Some(ShaderType::TessEvaluation)));
    assert!(matches!(ShaderType::from_extension(".comp"), Some(ShaderType::Compute)));
    assert!(matches!(ShaderType::from_extension(".cs.glsl"), Some(ShaderType::Compute)));
}

#[test]
fn from_extension_rejects_unknown_extensions() {
    assert!(ShaderType::from_extension(".txt").is_none());
    assert!(ShaderType::from_extension("").is_none());
    assert!(ShaderType::from_extension("vert").is_none());
}

#[test]
fn stage_kinds_map_to_native_enumerants() {
    assert_eq!(ShaderType::Vertex.gl_constant(), 0x8B31);
    assert_eq!(ShaderType::Fragment.gl_constant(), 0x8B30);
    assert_eq!(ShaderType::Geometry.gl_constant(), 0x8DD9);
    assert_eq!(ShaderType::TessControl.gl_constant(), 0x8E88);
    assert_eq!(ShaderType::TessEvaluation.gl_constant(), 0x8E87);
    assert_eq!(ShaderType::Compute.gl_constant(), 0x91B9);
}
