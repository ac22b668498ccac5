use lgl::debug::GlError;

#[test]
fn zero_means_no_error() {
    assert_eq!(GlError::from_error_code(0), None);
}

#[test]
fn known_codes_are_classified() {
    assert_eq!(GlError::from_error_code(0x0500), Some(GlError::InvalidEnum));
    assert_eq!(GlError::from_error_code(0x0501), Some(GlError::InvalidValue));
    assert_eq!(GlError::from_error_code(0x0502), Some(GlError::InvalidOperation));
    assert_eq!(GlError::from_error_code(0x0503), Some(GlError::StackOverflow));
    assert_eq!(GlError::from_error_code(0x0504), Some(GlError::StackUnderflow));
    assert_eq!(GlError::from_error_code(0x0505), Some(GlError::OutOfMemory));
    assert_eq!(
        GlError::from_error_code(0x0506),
        Some(GlError::InvalidFramebufferOperation)
    );
}

#[test]
fn unknown_codes_keep_their_value() {
    assert_eq!(GlError::from_error_code(0xBEEF), Some(GlError::Unrecognized(0xBEEF)));
    assert_eq!(GlError::from_error_code(1), Some(GlError::Unrecognized(1)));
}

#[test]
fn descriptions_name_each_error() {
    assert_eq!(GlError::InvalidEnum.description(), "Invalid enum error");
    assert_eq!(GlError::InvalidValue.description(), "Invalid value error");
    assert_eq!(GlError::InvalidOperation.description(), "Invalid operation error");
    assert_eq!(GlError::StackOverflow.description(), "Stack overflow error");
    assert_eq!(GlError::StackUnderflow.description(), "Stack underflow error");
    assert_eq!(GlError::OutOfMemory.description(), "Out of memory error");
    assert_eq!(
        GlError::InvalidFramebufferOperation.description(),
        "Invalid framebuffer operation error"
    );
    assert_eq!(GlError::Unrecognized(7).description(), "Unrecognized error code");
}
