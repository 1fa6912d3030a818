//! What describes a plugin.
use vstd::prelude::*;

verus! {

/// Metadata about a front end or provider plugin.
#[derive(Debug, Clone)]
pub struct PluginMetadata {
    pub name: String,
}

/// Metadata for a plugin of the given name.
pub fn plugin(name: String) -> (r: PluginMetadata)
    ensures
        r.name@ == name@,
{
    PluginMetadata { name }
}

} // verus!
