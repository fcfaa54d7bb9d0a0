//! The bare form for a new prompt.

use vstd::prelude::*;

verus! {

/// What the bare form shows: nothing but itself.
#[derive(Debug)]
pub struct AddPromptTemplate {}

/// The bare form for a new prompt.
pub fn add_prompt() -> AddPromptTemplate {
    AddPromptTemplate {  }
}

} // verus!
