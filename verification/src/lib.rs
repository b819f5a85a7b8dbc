//! Transport core for a half-duplex serial radio link, together with the
//! small pure computations of the surrounding services: message-boundary
//! inference for a stream without delimiters, serialization of writes over
//! a shared channel, telemetry accessors, file payload encoding, the ground
//! commands' text handling, the telemetry-save request and judgement, and
//! parsing of the kernel's CPU, memory and disk tables.
pub mod channel;
pub mod disk;
pub mod framing;
pub mod model;
pub mod save;
pub mod schema;
pub mod system_info;
pub mod vector_math;
