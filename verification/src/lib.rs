//! Runtime probe sidecar for MCP server fuzzing.
pub mod addr;
pub mod cli;
pub mod clock;
pub mod control;
pub mod decode;
pub mod ebpf;
pub mod events;
pub mod fake;
pub mod json;
pub mod laws;
pub mod replay;
pub mod text;
pub mod wire;
