//! A reference-counted arena for the runtime values of a scripting-language
//! virtual machine.
//!
//! The arena owns every heap-resident value ("datum") that a script produces.
//! Callers hold cheap handles, tell the arena whenever a handle is duplicated or
//! discarded, and the arena reclaims a value the moment its count falls to zero.
//! The one value that stands for "nothing" never enters the arena: every handle
//! to it is the same tag, and it consumes no identifier.
//!
//! The behaviour of the arena is stated over a mathematical model,
//! [`model::ArenaState`], and proved against it.

pub mod allocator;
pub mod datum;
pub mod laws;
pub mod model;
pub mod session;
pub mod table;
