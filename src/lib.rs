pub mod collections;
pub mod limited_vecs;
pub mod models;
pub mod semantics;
