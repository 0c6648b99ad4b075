//! A streaming form-binding engine: named field events are pushed, one at a
//! time, into a binder context, which is finalized once into a typed value or
//! into every error that the events produced, each located by its field path.

pub mod capped;
pub mod datetime;
pub mod error;
pub mod field;
pub mod form;
pub mod from_form_field;
pub mod leaf;
pub mod name;
pub mod temp_file;
pub mod text;
pub mod value;
