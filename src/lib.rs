//! A sandboxed execution harness for WebAssembly "function" modules: input and
//! output containers, the scale-limits analysis, module validation, the
//! guest/host I/O protocol and the run report, each stated and proved.
pub mod benchmark;
pub mod codec;
pub mod container;
pub mod encoding;
pub mod humanize;
pub mod io;
pub mod json;
pub mod logs;
pub mod metering;
pub mod options;
pub mod run_result;
pub mod runner;
pub mod scale_limits;
pub mod test_report;
pub mod text;
pub mod validated_module;
pub mod validation;

pub use benchmark::{FunctionBenchmark, RunStatistics};
pub use codec::Codec;
pub use container::{BytesContainer, BytesContainerType, ContainerError};
pub use json::Json;
pub use logs::LogStream;
pub use metering::InstrCounter;
pub use options::{Opts, ProfileOpts};
pub use run_result::{FunctionOutput, FunctionRunResult, InvalidOutput};
pub use runner::MemoryLimiter;
pub use scale_limits::ScaleLimits;
pub use test_report::{TestFailure, TestReport};
pub use validated_module::{Provider, ValidatedModule};
pub use validation::OutputValidationError;
