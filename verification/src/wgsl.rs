//! Validation of compute-shader source: a unit must declare a compute
//! entry point and a workgroup size.

use vstd::prelude::*;
use vstd::string::*;
use crate::text::{contains_str, has_substring};

verus! {

/// A shader source is acceptable when it holds both required markers.
pub open spec fn wgsl_ok(source: Seq<char>) -> bool {
    has_substring(source, "@compute"@) && has_substring(source, "@workgroup_size"@)
}

/// Checks a shader source for the required compute-stage markers. The
/// missing-compute error takes precedence when both markers are absent.
pub fn validate_wgsl_shader(source: &str) -> (r: Result<(), String>)
    ensures
        r is Ok <==> wgsl_ok(source@),
        !has_substring(source@, "@compute"@) ==> (r matches Err(m) && m@
            == "Missing @compute attribute"@),
        has_substring(source@, "@compute"@) && !has_substring(source@, "@workgroup_size"@) ==> (
        r matches Err(m) && m@ == "Missing @workgroup_size attribute"@),
{
    if !contains_str(source, "@compute") {
        return Err(String::from_str("Missing @compute attribute"));
    }
    if !contains_str(source, "@workgroup_size") {
        return Err(String::from_str("Missing @workgroup_size attribute"));
    }
    Ok(())
}

} // verus!
