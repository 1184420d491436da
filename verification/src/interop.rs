use vstd::prelude::*;
use crate::strutil::str_eq;

verus! {

/// The shim that dispatches foreign-code fragments to external toolchains.
/// The dispatch decision lives here; running a toolchain is outside work
/// that a host performs, handing its outcome to the interpreter.
pub struct LanguageInterop;

/// The language tags the shim can dispatch.
pub open spec fn spec_supported_language(s: Seq<char>) -> bool {
    ||| s == "c"@
    ||| s == "python"@
    ||| s == "javascript"@
    ||| s == "java"@
    ||| s == "rust"@
    ||| s == "swift"@
}

/// Decides `spec_supported_language`.
pub fn supported_language(s: &str) -> (r: bool)
    ensures
        r == spec_supported_language(s@),
{
    str_eq(s, "c") || str_eq(s, "python") || str_eq(s, "javascript") || str_eq(s, "java") || str_eq(
        s,
        "rust",
    ) || str_eq(s, "swift")
}

impl LanguageInterop {
    pub fn new() -> (r: Self) {
        LanguageInterop
    }
}

} // verus!
