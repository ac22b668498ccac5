//! Classification of the native graphics API's error codes.

use vstd::prelude::*;

verus! {

/// The native code meaning "no error has been recorded".
pub const GL_NO_ERROR: u32 = 0;

/// The native code for an unacceptable enumerated argument.
pub const GL_INVALID_ENUM: u32 = 0x0500;

/// The native code for an out-of-range numeric argument.
pub const GL_INVALID_VALUE: u32 = 0x0501;

/// The native code for an operation not allowed in the current state.
pub const GL_INVALID_OPERATION: u32 = 0x0502;

/// The native code for a command that would overflow a stack.
pub const GL_STACK_OVERFLOW: u32 = 0x0503;

/// The native code for a command that would underflow a stack.
pub const GL_STACK_UNDERFLOW: u32 = 0x0504;

/// The native code for running out of memory.
pub const GL_OUT_OF_MEMORY: u32 = 0x0505;

/// The native code for reading or writing an incomplete framebuffer.
pub const GL_INVALID_FRAMEBUFFER_OPERATION: u32 = 0x0506;

/// One recorded error of the native graphics API.
#[derive(Clone, Copy, Debug, PartialEq, Eq, Structural)]
pub enum GlError {
    InvalidEnum,
    InvalidValue,
    InvalidOperation,
    StackOverflow,
    StackUnderflow,
    OutOfMemory,
    InvalidFramebufferOperation,
    /// A code this classification does not know; the payload is the raw
    /// code.
    Unrecognized(u32),
}

impl GlError {
    /// The classification of one raw error code; `None` for "no error".
    pub open spec fn from_error_code_spec(error_code: u32) -> Option<GlError> {
        if error_code == GL_NO_ERROR {
            None
        } else if error_code == GL_INVALID_ENUM {
            Some(GlError::InvalidEnum)
        } else if error_code == GL_INVALID_VALUE {
            Some(GlError::InvalidValue)
        } else if error_code == GL_INVALID_OPERATION {
            Some(GlError::InvalidOperation)
        } else if error_code == GL_STACK_OVERFLOW {
            Some(GlError::StackOverflow)
        } else if error_code == GL_STACK_UNDERFLOW {
            Some(GlError::StackUnderflow)
        } else if error_code == GL_OUT_OF_MEMORY {
            Some(GlError::OutOfMemory)
        } else if error_code == GL_INVALID_FRAMEBUFFER_OPERATION {
            Some(GlError::InvalidFramebufferOperation)
        } else {
            Some(GlError::Unrecognized(error_code))
        }
    }

    /// Classifies one raw error code; `None` for "no error".
    pub fn from_error_code(error_code: u32) -> (r: Option<GlError>)
        ensures
            r == Self::from_error_code_spec(error_code),
    {
        if error_code == GL_NO_ERROR {
            None
        } else if error_code == GL_INVALID_ENUM {
            Some(GlError::InvalidEnum)
        } else if error_code == GL_INVALID_VALUE {
            Some(GlError::InvalidValue)
        } else if error_code == GL_INVALID_OPERATION {
            Some(GlError::InvalidOperation)
        } else if error_code == GL_STACK_OVERFLOW {
            Some(GlError::StackOverflow)
        } else if error_code == GL_STACK_UNDERFLOW {
            Some(GlError::StackUnderflow)
        } else if error_code == GL_OUT_OF_MEMORY {
            Some(GlError::OutOfMemory)
        } else if error_code == GL_INVALID_FRAMEBUFFER_OPERATION {
            Some(GlError::InvalidFramebufferOperation)
        } else {
            Some(GlError::Unrecognized(error_code))
        }
    }

    /// The wording of each error, at the specification level.
    pub open spec fn description_spec(self) -> Seq<char> {
        match self {
            GlError::InvalidEnum => "Invalid enum error"@,
            GlError::InvalidValue => "Invalid value error"@,
            GlError::InvalidOperation => "Invalid operation error"@,
            GlError::StackOverflow => "Stack overflow error"@,
            GlError::StackUnderflow => "Stack underflow error"@,
            GlError::OutOfMemory => "Out of memory error"@,
            GlError::InvalidFramebufferOperation => "Invalid framebuffer operation error"@,
            GlError::Unrecognized(_) => "Unrecognized error code"@,
        }
    }

    /// A short wording of this error.
    pub fn description(&self) -> (r: &'static str)
        ensures
            r@ == self.description_spec(),
    {
        match *self {
            GlError::InvalidEnum => "Invalid enum error",
            GlError::InvalidValue => "Invalid value error",
            GlError::InvalidOperation => "Invalid operation error",
            GlError::StackOverflow => "Stack overflow error",
            GlError::StackUnderflow => "Stack underflow error",
            GlError::OutOfMemory => "Out of memory error",
            GlError::InvalidFramebufferOperation => "Invalid framebuffer operation error",
            GlError::Unrecognized(_) => "Unrecognized error code",
        }
    }
}

} // verus!
