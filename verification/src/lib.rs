//! A non-empty ordered collection: a mandatory head element plus a tail
//! sequence, so that the empty state is structurally unrepresentable.
//!
//! The container is constructed through [`OneOrMany::one`] (infallible) or
//! [`OneOrMany::many`] (fails on empty input), grown with `push`/`insert`,
//! transformed with `map`/`try_map`/`merge`, and traversed by reference,
//! by mutable reference, or by value. The `codec` module gives the wire
//! normalization rules: a container always encodes as a sequence, and decodes
//! from a sequence, a bare scalar, or a keyed value.

use vstd::prelude::*;

pub mod container;
pub mod codec;

pub use codec::DecodeError;
pub use codec::WireValue;
pub use container::EmptyListError;
pub use container::IntoIter;
pub use container::Iter;
pub use container::IterMut;
pub use container::OneOrMany;

verus! {

} // verus!
