//! The types by which tables and arguments are described.

pub use crate::types::{AlgebraicType, ProductType, ProductTypeElement, SumType};
