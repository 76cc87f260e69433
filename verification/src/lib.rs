//! Compiler from XML mapper documents to C sources that run the mapped SQL
//! statements through the MySQL prepared-statement interface.
//!
//! A mapper document declares result maps, reusable SQL fragments and
//! statements whose bodies mix literal SQL with `<include>`, `<if>` and
//! `<trim>`. [`parse`] reads a document into a [`mapper::Mapper`]; [`genc`]
//! turns a mapper into the text of a header and a source file, with the help
//! of [`record`] for the record types, [`render`] for the statement bodies and
//! [`emit`] for the generated functions. [`compile`] does both steps at once.
//!
//! [`dynamic`] says what a statement body means when the statement runs,
//! [`placeholder`] what becomes of its `#{name}` placeholders, and [`pairing`]
//! shows that what is checked of them at compile time holds at run time.
//! [`starter`] and [`schema`] make the first mapper documents for the tables of
//! an existing database.

pub mod compile;
pub mod dom;
pub mod dynamic;
pub mod emit;
pub mod genc;
pub mod info;
pub mod mapper;
pub mod pairing;
pub mod parse;
pub mod pattern;
pub mod placeholder;
pub mod record;
pub mod render;
pub mod schema;
pub mod starter;
pub mod table;
pub mod text;
