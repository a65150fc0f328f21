use vstd::prelude::*;

verus! {

/// A deletable cache location found for a plugin.
#[derive(Debug, Clone)]
pub struct CacheItem {
    pub path: String,
    pub size: u64,
    pub plugin: String,
    pub is_safe: bool,
}

} // verus!
