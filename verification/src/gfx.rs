//! Typed errors for graphics-resource initialization, and the
//! classification of raw driver error codes. The calls into the driver
//! live outside the library; the decisions about what a returned code or
//! a failed uniform lookup means are made here.

use vstd::prelude::*;

verus! {

/// The driver's code for "no error pending".
pub const GL_NO_ERROR: u32 = 0;

/// The driver's code for an invalid enum argument.
pub const GL_INVALID_ENUM: u32 = 0x0500;

/// The driver's code for an invalid value argument.
pub const GL_INVALID_VALUE: u32 = 0x0501;

/// The driver's code for an operation invalid in the current state.
pub const GL_INVALID_OPERATION: u32 = 0x0502;

/// A failure while creating or wiring up a graphics resource.
#[derive(Debug)]
pub enum InitializeErr {
    /// The driver reported the carried error code.
    GL(u32),
    /// A named shader variable was not found.
    VariableNotFound(String),
    /// A named shader variable of a particular type was not found; carries
    /// the variable name and the type it was looked up as.
    TypedVariableNotFound(String, String),
    /// A name destined for the driver held an interior nul byte, at the
    /// carried position.
    InvalidCStr(usize),
}

impl InitializeErr {
    /// Attach the type a variable was looked up as: a plain
    /// `VariableNotFound` becomes `TypedVariableNotFound` with the given
    /// type text; every other error passes through unchanged.
    pub fn var_into_typed(self, type_str: &str) -> (r: InitializeErr)
        ensures
            match self {
                InitializeErr::VariableNotFound(name) => {
                    &&& r matches InitializeErr::TypedVariableNotFound(n, t)
                    &&& n == name
                    &&& t@ == type_str@
                },
                _ => r == self,
            },
    {
        match self {
            Self::VariableNotFound(name) => {
                InitializeErr::TypedVariableNotFound(name, type_str.to_owned())
            },
            e => e,
        }
    }
}

/// Classify an error code read back from the driver: anything but
/// `GL_NO_ERROR` is a driver-level failure carrying the code.
pub fn check_gl_code(code: u32) -> (r: Result<(), InitializeErr>)
    ensures
        r is Ok <==> code == GL_NO_ERROR,
        code != GL_NO_ERROR ==> (r matches Err(e) && (e matches InitializeErr::GL(c) && c == code)),
{
    if code != GL_NO_ERROR {
        return Err(InitializeErr::GL(code));
    }
    Ok(())
}

} // verus!
