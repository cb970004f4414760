//! Locating the `antc` compiler.

use vstd::prelude::*;

verus! {

/// Where `antc` is: the path given by the environment if any, else the path
/// in the configuration if any, else what `beside_exe` finds (it is asked
/// only then).
pub fn get_antc_path<F: Fn() -> Option<String>>(
    env_antc: Option<String>,
    configured_antc: Option<String>,
    beside_exe: F,
) -> (r: Option<String>)
    requires
        env_antc is None && configured_antc is None ==> beside_exe.requires(()),
    ensures
        env_antc is Some ==> r == env_antc,
        env_antc is None && configured_antc is Some ==> r == configured_antc,
        env_antc is None && configured_antc is None ==> beside_exe.ensures((), r),
{
    if let Some(antc) = env_antc {
        return Some(antc);
    }
    if let Some(antc) = configured_antc {
        return Some(antc);
    }
    beside_exe()
}

} // verus!
