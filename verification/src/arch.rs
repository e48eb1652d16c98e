//! Target architecture: the user's override, else the device's compute
//! capability.  There is no default that names a particular device.

use vstd::prelude::*;

use crate::error::LaunchError;
use crate::text::{decimal, push_decimal, push_text};

verus! {

/// The environment variable that overrides the target architecture.
pub const ARCH_ENV: &'static str = "REINFER_CUDA_ARCH";

/// `sm_` followed by the two numbers of a compute capability.
pub open spec fn arch_text(major: u32, minor: u32) -> Seq<char> {
    "sm_"@ + decimal(major as nat) + decimal(minor as nat)
}

/// The architecture of a compute capability: 8.6 is `sm_86`, 12.0 is `sm_120`.
pub fn arch_from_cc(major: u32, minor: u32) -> (s: String)
    ensures
        s@ == arch_text(major, minor),
{
    let mut s = String::new();
    push_text(&mut s, "sm_");
    push_decimal(&mut s, major as u64);
    push_decimal(&mut s, minor as u64);
    s
}

/// The target architecture: the value of the override where it is set and not
/// empty, else the one of the capability that device 0 reported.
pub fn resolve_arch(
    override_arch: Option<&str>,
    device_cc: Result<(u32, u32), LaunchError>,
) -> (r: Result<String, LaunchError>)
    ensures
        match override_arch {
            Some(a) if a@.len() > 0 => r is Ok && r->Ok_0@ == a@,
            _ => match device_cc {
                Ok(cc) => r is Ok && r->Ok_0@ == arch_text(cc.0, cc.1),
                Err(e) => r == Err::<String, LaunchError>(e),
            },
        },
{
    if let Some(a) = override_arch {
        if !a.is_empty() {
            return Ok(a.to_owned());
        }
    }
    match device_cc {
        Ok(cc) => Ok(arch_from_cc(cc.0, cc.1)),
        Err(e) => Err(e),
    }
}

} // verus!
