use vstd::prelude::*;

use crate::codec::Codec;
use crate::text::text;

verus! {

/// The sampling interval used when profiling is asked for without one.
pub const PROFILE_DEFAULT_INTERVAL: u32 = 500000;

/// What `Path::file_name` gives for a path, as text.
pub uninterp spec fn path_file_name(p: Seq<char>) -> Option<Seq<char>>;

/// What `Path::with_extension` gives for a path and the extension "perf", as text.
pub uninterp spec fn path_with_perf_extension(p: Seq<char>) -> Seq<char>;

/// Relies on `std::path::Path::file_name`: the last component of a path, if it
/// names a file; the result depends on the text alone.
#[verifier::external_body]
fn file_name_of(p: &str) -> (r: Option<String>)
    ensures
        match r {
            Some(s) => path_file_name(p@) == Some(s@),
            None => path_file_name(p@) is None,
        },
{
    std::path::Path::new(p).file_name().map(|n| n.to_string_lossy().into_owned())
}

/// Relies on `std::path::Path::with_extension`: the path with its extension
/// replaced by "perf" (an extension without a separator, so it does not
/// panic); the result depends on the text alone.
#[verifier::external_body]
fn with_perf_extension(p: &str) -> (r: String)
    ensures
        r@ == path_with_perf_extension(p@),
{
    std::path::Path::new(p).with_extension("perf").to_string_lossy().into_owned()
}

/// How to profile a run: the sampling interval and where the profile goes.
#[derive(Clone, Debug)]
pub struct ProfileOpts {
    pub interval: u32,
    pub out: String,
}

/// The options of a run.
#[derive(Debug)]
pub struct Opts {
    /// Path of the module.
    pub function: String,
    /// Path of the input; standard input when absent.
    pub input: Option<String>,
    /// The export to call.
    pub export: String,
    /// Print the result as JSON.
    pub json: bool,
    /// Profile the run.
    pub profile: bool,
    /// Where to write the profile.
    pub profile_out: Option<String>,
    /// Samples per second.
    pub profile_frequency: Option<u32>,
    pub codec: Codec,
    /// Path of the schema used to scale the limits.
    pub schema_path: Option<String>,
    /// Path of the query used to scale the limits.
    pub query_path: Option<String>,
}

/// The profile path used when none is given: the module's file name (or
/// "function") with the extension "perf".
pub open spec fn default_profile_path(function: Seq<char>) -> Seq<char> {
    path_with_perf_extension(
        match path_file_name(function) {
            Some(n) => n,
            None => "function"@,
        },
    )
}

impl Opts {
    /// Whether any profiling option was given.
    pub open spec fn wants_profile(&self) -> bool {
        self.profile || self.profile_out is Some || self.profile_frequency is Some
    }

    /// The profiling options, when any profiling option was given: the given
    /// frequency or the default one, the given path or the default one.
    pub fn profile_opts(&self) -> (r: Option<ProfileOpts>)
        ensures
            !self.wants_profile() ==> r is None,
            self.wants_profile() ==> (r matches Some(p) && p.interval == match self.profile_frequency {
                Some(f) => f,
                None => PROFILE_DEFAULT_INTERVAL,
            } && p.out@ == match self.profile_out {
                Some(o) => o@,
                None => default_profile_path(self.function@),
            }),
    {
        if !self.profile && self.profile_out.is_none() && self.profile_frequency.is_none() {
            return None;
        }
        let interval = match self.profile_frequency {
            Some(f) => f,
            None => PROFILE_DEFAULT_INTERVAL,
        };
        let out = match &self.profile_out {
            Some(o) => o.clone(),
            None => self.default_profile_out(),
        };
        Some(ProfileOpts { interval, out })
    }

    /// The profile path used when none is given (see `default_profile_path`).
    pub fn default_profile_out(&self) -> (r: String)
        ensures
            r@ == default_profile_path(self.function@),
    {
        let name = match file_name_of(self.function.as_str()) {
            Some(n) => n,
            None => text("function"),
        };
        with_perf_extension(name.as_str())
    }
}

} // verus!
