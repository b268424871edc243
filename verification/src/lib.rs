//! K2: a stream-processing framework with its command language and code generator.
use vstd::prelude::*;

pub mod text;
pub mod name_map;
pub mod numbers;
pub mod k2_stream;
pub mod k2_lang;
pub mod k2lang;
pub mod k2_coder;
pub mod k2coder;
pub mod interfaces;

verus! {
}
