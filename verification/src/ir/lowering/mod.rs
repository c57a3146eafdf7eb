//! Lowering of an analyzed translation unit: the context that it works on, the
//! tables that it is driven by, and the order in which it proceeds.

pub mod constants;
pub mod context;
pub mod enums;
pub mod error;
pub mod numbering;
pub mod structs;
pub mod tables;
pub mod unit;

pub use constants::resolve_type_name_for_const;
pub use context::{LoweringContext, SwitchContext};
pub use error::LoweringError;
pub use unit::{alignment_of, ctype_to_irtype, lower_translation_unit, size_of};
