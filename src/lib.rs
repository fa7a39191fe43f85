//! Sandboxed code-execution orchestration: language runtimes, the guest event
//! protocol, the per-job container lifecycle, and the teaching models
//! (CPU scheduling, a byte-addressable memory, a mock filesystem) served
//! beside it.

pub mod language;
pub mod profiler;
pub mod decoder;
pub mod container;
pub mod trace;
pub mod job;
pub mod channels;
pub mod image;
pub mod memory;
pub mod fs;
pub mod simulation;
pub mod scheduler;
pub mod engine;
pub mod text;
pub mod api;
pub mod aether;
