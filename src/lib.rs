//! Validating decoder: certifies that a byte buffer holds a legal value of a
//! described shape, reserving every region it reads through a forward-only,
//! bounds- and alignment-checked heap so that no two regions overlap.
pub mod error;
pub mod heap;
pub mod leaf;
pub mod shape;
pub mod types;
pub mod validate;

pub use error::Error;
pub use heap::Heap;
pub use shape::Shape;
pub use validate::{decode, decode_reserving, exhume};
pub use types::{Exhume, decode_as};
