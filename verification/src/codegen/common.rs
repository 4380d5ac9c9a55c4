//! Pieces shared by all backends: naming, types, expressions, actors, natives,
//! priorities and the scaffolding of `main`.
pub mod actor;
pub mod expr;
pub mod names;
pub mod natives;
pub mod ports;
pub mod priority;
pub mod scaffold;
pub mod scope;
pub mod types;
pub mod typestate;
