//! Automatic tracing instrumentation of a running process: target
//! resolution, symbol inventory of the target's executable image, the
//! instrumentor registry and the decisions of the event pipeline.

pub mod discovery;
pub mod errors;
pub mod events;
pub mod hyper_instrumentor;
pub mod image;
pub mod instrumentors;
pub mod names;
pub mod process;
pub mod text;
