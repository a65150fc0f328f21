use vstd::prelude::*;

verus! {

/// A project directory and the frameworks detected in it.
#[derive(Debug, Clone)]
pub struct Project {
    pub path: String,
    pub frameworks: Vec<String>,
}

} // verus!
