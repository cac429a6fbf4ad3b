//! Engine for generating type-stub documents for a dynamic scripting
//! language from structural metadata about native declarations.
//!
//! Declaration sites (an external extraction step) hand the engine
//! normalized records describing classes, enums, methods and functions.
//! The engine translates native type signatures into stub type
//! expressions, accumulates the records in a [`registry::Registry`], and
//! renders one deterministic stub document per module.

pub mod type_expr;
pub mod records;
pub mod registry;
pub mod translate;
pub mod render;

pub use registry::Registry;
pub use render::render;
pub use translate::NativeType;
pub use translate::translate;
pub use type_expr::TypeExpr;
pub use type_expr::TypeExprV;
