//! Application domains of an AVM2-style virtual machine: export tables,
//! name resolution along a chain of domains, on-demand specialization of
//! generic classes, per-domain memory, and the native accessors of the
//! `flash.text.TextField` class.

pub mod avm;
pub mod class;
pub mod color;
pub mod domain;
pub mod edit_text;
mod error;
pub mod memory;
mod names;
pub mod property_map;
pub mod script;
pub mod text;
pub mod text_field;
pub mod text_format;
pub mod value;

pub use avm::{Avm2, Class, Domain, Script};
pub use class::apply;
pub use color::Rgba;
pub use edit_text::{AutoSizeMode, EditText, GridFit, TextSelection};
pub use error::{Error, UNDEFINED_VARIABLE};
pub use memory::{ByteArray, DEFAULT_MEMORY_LENGTH};
pub use names::{split_vector_name, Multiname, Namespace, QName, QNameView};
pub use text_field::Object;
pub use text_format::TextFormat;
pub use value::Value;
