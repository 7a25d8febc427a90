use vstd::prelude::*;

pub mod frontend;
pub mod instruction_laws;
pub mod laws;
pub mod machine;
pub mod parser;

verus! {
} // verus!
