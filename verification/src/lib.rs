//! A small ORM: a model definition (a struct, its fields and `orm` attribute arguments)
//! expands into a model of a table, and the model answers lookups between field and
//! column names and builds the select queries and joins of its associations.
pub mod meta;
pub mod error;
pub mod helper;
pub mod derive_input;
pub mod inflect;
pub mod model;
pub mod belongs_to;
pub mod has_one;
pub mod orm_struct;
pub mod query;
pub mod orm;
pub mod laws;
