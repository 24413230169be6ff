//! The items most programs want in scope.

pub use crate::extension_traits::IteratorExt as _;
pub use crate::{all, any};
