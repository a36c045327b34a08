use vstd::prelude::*;

pub mod database;
pub mod exec;
pub mod filter;
pub mod loader;
pub mod model;
pub mod mutation;
pub mod order;
pub mod pattern;
pub mod plan;
pub mod registry;
pub mod rest;
pub mod schema;
pub mod selection;
pub mod shape;
pub mod value;
pub mod versioning;

verus! {

} // verus!
