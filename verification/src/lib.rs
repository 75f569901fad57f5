//! Walks over the syntax tree of a template, and the pass that finds the
//! names a template refers to.
//!
//! [`ast`] is the tree. [`visit`] says where a walk stops and what lies below
//! each stop; [`visitor_mut`] and [`visitor`] are the two flavors of visitor
//! and their walks. [`variables`] is the pass that collects the names of a
//! template by the role they are used in, [`names`] says which names those
//! are, and [`order`] is the order in which they are listed.
//!
//! [`types`], [`address`], [`assets`] and [`filters`] hold what is decided
//! about sources of data, output files, addresses and Markdown before
//! anything is read or written.

pub mod address;
pub mod assets;
pub mod ast;
pub mod errors;
pub mod filters;
pub mod measure;
pub mod names;
pub mod order;
pub mod text;
pub mod types;
pub mod variables;
pub mod visit;
pub mod visitor;
pub mod visitor_mut;
