//! A client-side query-construction toolkit for SurrealQL: compose
//! parameterized queries from reusable typed fragments, producing a query
//! string together with a map of bound parameter values.

pub mod ast;
pub mod bindings;
pub mod foreign_key;
pub mod laws;
pub mod model;
pub mod node;
pub mod node_builder;
pub mod parser;
pub mod queries;
pub mod querybuilder;
pub mod text;
pub mod types;
