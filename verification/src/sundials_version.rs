use vstd::prelude::*;
use vstd::string::{StringExecFns, StringSliceAdditionalSpecFns};
use crate::sundials_errors::{SUN_ERR_ARG_OUTOFRANGE, SUN_SUCCESS};
use crate::sundials_types::SUNErrCode;

verus! {

pub const SUNDIALS_VERSION_MAJOR: i32 = 7;
pub const SUNDIALS_VERSION_MINOR: i32 = 8;
pub const SUNDIALS_VERSION_PATCH: i32 = 0;

/// The version string.
pub open spec fn spec_version() -> Seq<char> {
    "7.8.0"@
}

/// The version label (empty for a release).
pub open spec fn spec_version_label() -> Seq<char> {
    ""@
}

/// Write the version string into `version`, unless a buffer of `len`
/// bytes cannot hold it with its terminator; a negative `len` reads as a
/// huge unsigned size.
pub fn SUNDIALSGetVersion(version: &mut String, len: i32) -> (err: SUNErrCode)
    ensures
        0 <= len <= 5 ==> err == SUN_ERR_ARG_OUTOFRANGE && *final(version) == *old(version),
        !(0 <= len <= 5) ==> err == SUN_SUCCESS && final(version)@ == spec_version(),
{
    let v: &str = "7.8.0";
    proof {
        reveal_strlit("7.8.0");
        broadcast use vstd::string::is_ascii_spec_bytes;
        assert(vstd::string::is_ascii(v));
        assert(v.spec_bytes().len() == 5);
        assert(len < 0 ==> (len as usize) > 5) by (bit_vector);
    }
    if v.len() >= len as usize {
        return SUN_ERR_ARG_OUTOFRANGE;
    }
    *version = String::from_str(v);
    SUN_SUCCESS
}

/// Write the version's major, minor and patch numbers and its label,
/// unless a label buffer of `len` bytes cannot hold the label with its
/// terminator.
pub fn SUNDIALSGetVersionNumber(
    major: &mut i32,
    minor: &mut i32,
    patch: &mut i32,
    label: &mut String,
    len: i32,
) -> (err: SUNErrCode)
    ensures
        len == 0 ==> err == SUN_ERR_ARG_OUTOFRANGE && *final(major) == *old(major) && *final(minor)
            == *old(minor) && *final(patch) == *old(patch) && *final(label) == *old(label),
        len != 0 ==> err == SUN_SUCCESS && *final(major) == SUNDIALS_VERSION_MAJOR && *final(minor)
            == SUNDIALS_VERSION_MINOR && *final(patch) == SUNDIALS_VERSION_PATCH && final(label)@
            == spec_version_label(),
{
    let l: &str = "";
    proof {
        reveal_strlit("");
        broadcast use vstd::string::is_ascii_spec_bytes;
        assert(vstd::string::is_ascii(l));
        assert(l.spec_bytes().len() == 0);
        assert(len < 0 ==> (len as usize) > 0) by (bit_vector);
    }
    if l.len() >= len as usize {
        return SUN_ERR_ARG_OUTOFRANGE;
    }
    *major = SUNDIALS_VERSION_MAJOR;
    *minor = SUNDIALS_VERSION_MINOR;
    *patch = SUNDIALS_VERSION_PATCH;
    *label = String::from_str(l);
    SUN_SUCCESS
}

} // verus!
