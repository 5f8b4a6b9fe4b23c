//! Marshaling and dispatch core for exporting objects over a D-Bus style bus.
//!
//! Type signatures are parsed into [`signature::TypeNode`] trees, wire values
//! are decoded into native values and back, incoming calls are validated and
//! routed, and introspection XML is rendered from the descriptors.
pub mod signature;
pub mod codec;
pub mod descriptor;
pub mod dispatch;
pub mod reply;
pub mod introspect;
