//! A schema of the calls that a sandboxed applet may make into its host, with
//! the rules that make it trustworthy: field shapes, unique linkage symbols,
//! stable event identifiers, the result convention and callback registration.

pub mod event;
pub mod field;
pub mod marshal;
pub mod schema;
pub mod serial;
pub mod validate;

pub use event::{Callback, EventError, EventTable, State};
pub use field::{check_fields, supported_width, Field, FieldType};
pub use marshal::{interpret, Buffer};
pub use schema::{Enumeration, Function, Item, Mod, Variant};
pub use validate::{distinct_symbols, distinct_values, validate, Schema, SchemaError};
