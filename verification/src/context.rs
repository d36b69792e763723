//! A taskwarrior context, as the context popup shows it.
use vstd::prelude::*;

verus! {

/// A context: its name, what it filters on, and whether it is active.
#[derive(Debug, Clone, Default)]
pub struct Context {
    pub name: String,
    pub description: String,
    pub active: String,
}

impl Context {
    /// A context from its fields.
    pub fn new(name: String, description: String, active: String) -> (r: Self)
        ensures
            r.name == name,
            r.description == description,
            r.active == active,
    {
        Context { name, description, active }
    }
}

} // verus!
