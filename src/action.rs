//! Settings of the deployment's own actions.

use vstd::prelude::*;

verus! {

/// Name of the action configuration file, looked up beside the executable.
pub fn get_config_file_name() -> (r: &'static str)
    ensures
        r@ == "action.toml"@,
{
    "action.toml"
}

} // verus!
