//! A typed SQL query-construction library.
//!
//! Given a declarative description of a record type (its fields and their
//! markers), the library derives table metadata, synthesizes parameterized
//! SQL statement templates, and offers a composable predicate algebra for
//! building WHERE clauses without ever splicing user values into the text.
//! Every statement comes with an ordered parameter list whose length and
//! order match the `?` placeholders in the generated SQL.

pub mod operation;
pub mod schema;
pub mod select;
pub mod statement;
pub mod text;

pub use operation::{Operation, Operational};
pub use schema::{get_primary_keys, get_unique_keys, parse_fields, Constraint, Field, FieldDecl};
pub use select::{SelectQuery, WhereClause};
pub use statement::{ColumnValue, Entity};
pub use text::join_strings;
