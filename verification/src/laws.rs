//! What holds of the engine as a whole, stated over the outcomes that the
//! contracts of its functions speak of.

pub mod paths;
pub mod files;
pub mod features;
pub mod registry;
