//! LLVM IR generation for the AX toolchain's ahead-of-time backend.
use vstd::prelude::*;

pub mod text;
pub mod name_map;
pub mod id_map;
pub mod toolchain;
pub mod aot;
pub mod mir;
pub mod abi;
pub mod diagnostic;
pub mod symbols;
pub mod runtime;
pub mod ir;
pub mod monomorph;

verus! {
}
