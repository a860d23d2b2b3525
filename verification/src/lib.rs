//! Extraction of annotation metadata from compiled interface-definition
//! schemas.
//!
//! The input is a flat stream of schema nodes, already decoded into plain
//! values by the caller. A first pass indexes every annotation declaration
//! by its numeric identity; a second pass walks the stream again, classifies
//! each node by kind, and produces one output container per record,
//! enumeration or interface, with every annotation reference on a child
//! resolved through the index into a name/value pair.

pub mod index;
pub mod laws;
pub mod model;
pub mod reduce;
