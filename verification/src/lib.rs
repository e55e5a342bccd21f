//! Building blocks for writing a fuzzer: a mutator that drives random
//! choices, the number and collection mutations built on it, and a hex dump
//! of byte buffers.
mod corpus;
pub mod hexdump;
pub mod mutatable;
pub mod mutator;
pub mod number;
pub mod resize;
mod rng;
mod strings;
pub mod traits;
pub mod types;
mod vec_ops;

pub use corpus::CorpusFuzzingState;
pub use hexdump::hexdump;
pub use mutator::{slice_weights, weighted_slices, Mutator, MutatorView, Weighted};
pub use number::FuzzNumber;
pub use resize::{
    advanced_resize, grow_vec, mutate_char_vec, resize_grow, resize_or_replace, resize_shrink,
    shrink_vec,
};
pub use traits::{Constraints, Mutatable, NewFuzzed, SerializedSize};
pub use types::{AsciiChar, AsciiString, ToPrimitive, UnsafeEnum, Utf8Char, Utf8String};
