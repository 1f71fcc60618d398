//! An entity-component runtime: entities carry a pose, a store of components
//! keyed by runtime type identity, and an injected set of lifecycle hooks;
//! scenes own entities and drive their lifecycle.

pub mod component;
pub mod entity;
pub mod openpal4;
pub mod scene;
