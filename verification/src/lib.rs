//! Plain-value core of a Java bridge: typed data wrappers, pair types,
//! the encoding of comparison results, and generators of the glue
//! sources that both sides of the bridge are built from.
pub mod data_wrapper;
pub mod types;
pub mod ordering;
pub mod text;
pub mod codegen;
pub mod java_type;
pub mod derive_plan;
pub mod item;
pub mod derive_text;
pub mod from_instance_text;
pub mod java_attr_text;
