//! Shader-source policy: which pipeline stage a resource name implies
//! (its extension decides), and the validity checks run over shader text
//! before it is handed to the compiler.

use vstd::prelude::*;
use vstd::string::StringSliceAdditionalSpecFns;

verus! {

/// The driver's code for a vertex shader stage.
pub const VERTEX_SHADER: u32 = 0x8B31;

/// The driver's code for a fragment shader stage.
pub const FRAGMENT_SHADER: u32 = 0x8B30;

/// The driver's code for a compute shader stage.
pub const COMPUTE_SHADER: u32 = 0x91B9;

/// Whether the byte sequence ends in `.` followed by the four given bytes.
pub open spec fn spec_has_ext4(s: Seq<u8>, a: u8, b: u8, c: u8, d: u8) -> bool {
    let n = s.len() as int;
    &&& n >= 5
    &&& s[n - 5] == 0x2Eu8
    &&& s[n - 4] == a
    &&& s[n - 3] == b
    &&& s[n - 2] == c
    &&& s[n - 1] == d
}

/// The stage a shader resource name implies: `.vert`, `.frag` and `.comp`
/// select the vertex, fragment and compute stages; any other name implies
/// no stage.
pub open spec fn spec_shader_kind(s: Seq<u8>) -> Option<u32> {
    if spec_has_ext4(s, 0x76, 0x65, 0x72, 0x74) {
        Some(VERTEX_SHADER)
    } else if spec_has_ext4(s, 0x66, 0x72, 0x61, 0x67) {
        Some(FRAGMENT_SHADER)
    } else if spec_has_ext4(s, 0x63, 0x6F, 0x6D, 0x70) {
        Some(COMPUTE_SHADER)
    } else {
        None
    }
}

/// Whether the name ends in `.` plus the four given bytes.
fn has_ext4(bytes: &[u8], a: u8, b: u8, c: u8, d: u8) -> (r: bool)
    ensures
        r == spec_has_ext4(bytes@, a, b, c, d),
{
    let n = bytes.len();
    n >= 5 && bytes[n - 5] == 0x2E && bytes[n - 4] == a && bytes[n - 3] == b
        && bytes[n - 2] == c && bytes[n - 1] == d
}

/// The pipeline stage a shader resource name implies; the extension
/// decides (`.vert`, `.frag`, `.comp`), and a name with none of the known
/// extensions implies no stage.
pub fn shader_kind_for_name(name: &str) -> (r: Option<u32>)
    ensures
        r == spec_shader_kind(name.spec_bytes()),
{
    let bytes = name.as_bytes();
    if has_ext4(bytes, 0x76, 0x65, 0x72, 0x74) {
        Some(VERTEX_SHADER)
    } else if has_ext4(bytes, 0x66, 0x72, 0x61, 0x67) {
        Some(FRAGMENT_SHADER)
    } else if has_ext4(bytes, 0x63, 0x6F, 0x6D, 0x70) {
        Some(COMPUTE_SHADER)
    } else {
        None
    }
}

/// Validity check for a pixel update function injected into the shader
/// template; every candidate is currently accepted.
pub fn is_valid_update_function(update_function: &str) -> (r: bool)
    ensures
        r == true,
{
    let _ = update_function;
    true
}

/// Validity check for a shader template; every candidate is currently
/// accepted.
pub fn is_valid_shader(shader_template: &str) -> (r: bool)
    ensures
        r == true,
{
    let _ = shader_template;
    true
}

} // verus!
