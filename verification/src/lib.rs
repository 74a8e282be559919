//! A fluent construction helper over an entity-component store.
//!
//! The store (`World`) owns entity identity and component data; the builder
//! (`WorldBuilder`) keeps a cursor naming the "current" entity and forwards
//! each chained operation to the store immediately.

pub mod builder;
pub mod component;
pub mod entity;
pub mod world;
