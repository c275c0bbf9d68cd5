//! A record-schema facility: declare a record type once — field names, field
//! types, default values — and get a checked schema, an all-defaults
//! constructor, per-field default providers (the fallback values a
//! serialization layer uses for fields absent from its input), and a chosen
//! set of structural capabilities (equality, duplication, ordering,
//! formatting) attached to the declared type.

pub mod capability;
pub mod codec;
pub mod convert;
pub mod order;
pub mod record;
pub mod render;
pub mod schema;
