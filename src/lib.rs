//! A registry of desktop projects kept as a JSON list, with the rules for
//! creating, listing, updating and removing project records.

pub mod model;
pub mod json;
pub mod codec;
pub mod registry;
pub mod factory;
pub mod opener;
pub mod greeting;
