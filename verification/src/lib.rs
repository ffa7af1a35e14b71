use vstd::prelude::*;

pub mod text;
pub mod tokenizer;
pub mod ir;
pub mod shared;
pub mod grammar;
pub mod parser;
pub mod messages;
pub mod analyzer;
pub mod codegen;
pub mod sizing;
pub mod ir_copy;
pub mod registry;
pub mod params;
pub mod generics;
pub mod eval;
pub mod lvalue;
pub mod args;
pub mod imports;

verus! {
} // verus!
