use vstd::prelude::*;

verus! {

/// Relies on `Duration::as_nanos`: the whole nanoseconds of a duration.
#[verifier::external_body]
fn nanos(d: &std::time::Duration) -> (r: u128) {
    d.as_nanos()
}

/// The longest runtime allowed for a function, in nanoseconds (5 ms).
pub const RUNTIME_THRESHOLD_NANOS: u128 = 5000000;

/// Whether a runtime of `runtime` nanoseconds is within `threshold` nanoseconds.
pub fn runtime_allowed(runtime: u128, threshold: u128) -> (r: bool)
    ensures
        r == (runtime <= threshold),
{
    runtime <= threshold
}

/// How long a function took.
#[derive(Debug)]
pub struct FunctionBenchmark {
    pub runtime: std::time::Duration,
}

impl FunctionBenchmark {
    /// A benchmark of the given runtime.
    pub fn new(runtime: std::time::Duration) -> (r: FunctionBenchmark)
        ensures
            r.runtime == runtime,
    {
        FunctionBenchmark { runtime }
    }

    /// Whether the runtime is within the allowed threshold.
    pub fn within_threshold(&self) -> (r: bool) {
        runtime_allowed(nanos(&self.runtime), RUNTIME_THRESHOLD_NANOS)
    }
}

/// The runtime of a run against its threshold, with its logs and output.
#[derive(Debug)]
pub struct RunStatistics {
    pub runtime: std::time::Duration,
    pub threshold: std::time::Duration,
    pub logs: String,
    pub output: serde_json::Value,
}

impl RunStatistics {
    /// Statistics of a run.
    pub fn new(
        runtime: std::time::Duration,
        threshold: std::time::Duration,
        output: serde_json::Value,
        logs: String,
    ) -> (r: RunStatistics)
        ensures
            r.runtime == runtime,
            r.threshold == threshold,
            r.output == output,
            r.logs == logs,
    {
        RunStatistics { runtime, threshold, output, logs }
    }

    /// Whether the runtime is within the threshold.
    pub fn within_threshold(&self) -> (r: bool) {
        runtime_allowed(nanos(&self.runtime), nanos(&self.threshold))
    }
}

} // verus!
