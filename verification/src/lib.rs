//! A gateway core for a JSON-based query protocol over a wide-column store:
//! a generic value model and codec, a compiler from operation descriptors to
//! parameterized statements, per-connection session state, and a
//! tamper-evident envelope layer.

pub mod codec;
pub mod decimal;
pub mod descriptors;
pub mod envelope;
pub mod integrity;
pub mod queries;
pub mod records;
pub mod state;
pub mod value;
