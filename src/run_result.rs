use vstd::prelude::*;

use crate::container::{is_output_of, BytesContainer};
use crate::encoding::json_to_vec;
use crate::humanize::{instructions_text, instructions_text_of, size_text, size_text_of};
use crate::io::FUNCTION_LOG_LIMIT;
use crate::runner::{
    guest_result, instructions_used, outcome_error, GuestOutcome, MemoryLimiter, STARTING_FUEL,
};
use crate::scale_limits::SCALE_UNIT;
use crate::text::{
    decimal, from_utf8_lossy, lossy_utf8, push_decimal, push_text, text, utf8_byte_len, utf8_len,
};

verus! {

/// The default instruction budget, before scaling.
pub const DEFAULT_INSTRUCTIONS_LIMIT: u64 = 11000000;

/// The default input size budget in bytes, before scaling.
pub const DEFAULT_INPUT_SIZE_LIMIT: u64 = 128000;

/// The default output size budget in bytes, before scaling.
pub const DEFAULT_OUTPUT_SIZE_LIMIT: u64 = 20000;

/// Output that could not be decoded: what the guest wrote, and why.
#[derive(Clone, Debug)]
pub struct InvalidOutput {
    pub error: String,
    pub stdout: String,
}

/// A guest's output as reported: a decoded value, or the invalid bytes.
#[derive(Debug)]
pub enum FunctionOutput {
    JsonOutput(serde_json::Value),
    InvalidJsonOutput(InvalidOutput),
}

/// The report of one run of a guest.
#[derive(Debug)]
pub struct FunctionRunResult {
    pub name: String,
    /// Module size in KB.
    pub size: u64,
    /// Linear-memory high-water mark in KB.
    pub memory_usage: u64,
    /// Fuel consumed.
    pub instructions: u64,
    pub logs: String,
    pub input: BytesContainer,
    pub output: BytesContainer,
    pub profile: Option<String>,
    /// The scale factor, in billionths.
    pub scale_factor: u64,
    pub success: bool,
}

/// The marker put in front of logs longer than `FUNCTION_LOG_LIMIT` bytes.
pub open spec fn truncation_sentinel() -> Seq<char> {
    "[TRUNCATED]..."@
}

/// The logs of a run: the marker when the guest's logs exceed the limit, the
/// guest's logs read as UTF-8, then the error, if any.
pub open spec fn run_logs(guest_logs: Seq<u8>, outcome: GuestOutcome) -> Seq<char> {
    (if guest_logs.len() > FUNCTION_LOG_LIMIT {
        truncation_sentinel()
    } else {
        Seq::empty()
    }) + lossy_utf8(guest_logs) + match outcome_error(outcome) {
        Some(m) => m,
        None => Seq::empty(),
    }
}

/// `base` scaled by `scale` billionths, rounded down.
pub open spec fn scaled(base: u64, scale: u64) -> int {
    (base as int * scale as int) / SCALE_UNIT as int
}

/// Scale a base limit by a factor in billionths, rounding down.
pub fn scaled_limit(base: u64, scale: u64) -> (r: u64)
    requires
        scaled(base, scale) <= u64::MAX,
    ensures
        r == scaled(base, scale),
{
    assert(base as int * scale as int <= u64::MAX as int * u64::MAX as int) by (nonlinear_arith)
        requires
            base <= u64::MAX,
            scale <= u64::MAX,
    ;
    let p: u128 = base as u128 * scale as u128;
    (p / SCALE_UNIT as u128) as u64
}

/// A default budget scaled by any factor fits in a `u64`.
proof fn lemma_default_budget_fits(base: u64, scale: u64)
    requires
        base <= DEFAULT_INSTRUCTIONS_LIMIT,
    ensures
        scaled(base, scale) <= u64::MAX,
{
    assert(base as int * scale as int <= 11000000 * 18446744073709551615) by (nonlinear_arith)
        requires
            base <= 11000000,
            scale <= 18446744073709551615u64,
    ;
    assert((base as int * scale as int) / 1000000000 <= 11000000 * 18446744073709551615
        / 1000000000) by (nonlinear_arith)
        requires
            base as int * scale as int <= 11000000 * 18446744073709551615,
            base as int * scale as int >= 0,
    ;
}

/// How a part of the report is shown.
#[derive(Clone, Copy, Debug, PartialEq, Eq, Structural)]
pub enum Style {
    Plain,
    /// A value over its limit, or a warning.
    Alert,
    /// A section title.
    Banner(Banner),
}

/// The section titles of the report.
#[derive(Clone, Copy, Debug, PartialEq, Eq, Structural)]
pub enum Banner {
    Input,
    Logs,
    Output,
    InvalidOutput,
    JsonError,
    ResourceLimits,
    BenchmarkResults,
}

/// A run of report text in one style.
#[derive(Debug)]
pub struct Piece {
    pub text: String,
    pub style: Style,
}

/// The text of a section title.
pub open spec fn banner_text(b: Banner) -> Seq<char> {
    match b {
        Banner::Input => "            Input            "@,
        Banner::Logs => "            Logs            "@,
        Banner::Output => "           Output           "@,
        Banner::InvalidOutput => "        Invalid Output      "@,
        Banner::JsonError => "         JSON Error         "@,
        Banner::ResourceLimits => "        Resource Limits        "@,
        Banner::BenchmarkResults => "     Benchmark Results      "@,
    }
}

/// A measured line: `title: value`, alerting when the amount is over the limit.
pub open spec fn measure(title: Seq<char>, value: Seq<char>, over: bool) -> Seq<(Seq<char>, Style)> {
    seq![
        (title + ": "@ + value, if over { Style::Alert } else { Style::Plain }),
        ("\n"@, Style::Plain),
    ]
}

/// The warning for logs longer than the limit.
pub open spec fn truncation_warning(len: nat) -> Seq<char> {
    "Logs would be truncated in production, length "@ + decimal(len) + " > 1000 limit"@
}

/// The input and logs sections.
pub open spec fn report_head(r: FunctionRunResult) -> Seq<(Seq<char>, Style)> {
    seq![
        (banner_text(Banner::Input), Style::Banner(Banner::Input)),
        ("\n\n"@ + r.input.humanized@ + "\n"@, Style::Plain),
        (banner_text(Banner::Logs), Style::Banner(Banner::Logs)),
        ("\n\n"@ + r.logs@ + "\n\n"@, Style::Plain),
    ]
}

/// The warning for long logs, when they are.
pub open spec fn report_warning(r: FunctionRunResult) -> Seq<(Seq<char>, Style)> {
    let log_len = utf8_len(r.logs@);
    if log_len > FUNCTION_LOG_LIMIT {
        seq![(truncation_warning(log_len as nat), Style::Alert), ("\n\n\n"@, Style::Plain)]
    } else {
        Seq::empty()
    }
}

/// The output section: the decoded output, or the invalid bytes and why.
pub open spec fn report_output(r: FunctionRunResult) -> Seq<(Seq<char>, Style)> {
    if r.output.json_value is Some {
        seq![
            (banner_text(Banner::Output), Style::Banner(Banner::Output)),
            ("\n\n"@ + r.output.humanized@ + "\n"@, Style::Plain),
        ]
    } else {
        seq![
            (banner_text(Banner::InvalidOutput), Style::Banner(Banner::InvalidOutput)),
            ("\n\n"@ + r.output.humanized@ + "\n"@, Style::Plain),
            (banner_text(Banner::JsonError), Style::Banner(Banner::JsonError)),
            ("\n\n"@ + match r.output.encoding_error {
                Some(e) => e@,
                None => Seq::empty(),
            } + "\n"@, Style::Plain),
        ]
    }
}

/// The resource limits section: each default budget scaled by the factor.
pub open spec fn report_limits(r: FunctionRunResult) -> Seq<(Seq<char>, Style)> {
    seq![
        ("\n"@, Style::Plain),
        (banner_text(Banner::ResourceLimits), Style::Banner(Banner::ResourceLimits)),
        ("\n\n\n"@, Style::Plain),
    ] + measure("Input Size"@, size_text(scaled(DEFAULT_INPUT_SIZE_LIMIT, r.scale_factor) as nat), false)
        + measure(
        "Output Size"@,
        size_text(scaled(DEFAULT_OUTPUT_SIZE_LIMIT, r.scale_factor) as nat),
        false,
    ) + measure(
        "Instructions"@,
        instructions_text(scaled(DEFAULT_INSTRUCTIONS_LIMIT, r.scale_factor) as nat),
        false,
    )
}

/// The measurements section, each amount over its limit marked as an alert.
pub open spec fn report_measurements(r: FunctionRunResult, input_size: u64, output_size: u64) -> Seq<
    (Seq<char>, Style),
> {
    let instr_limit = scaled(DEFAULT_INSTRUCTIONS_LIMIT, r.scale_factor);
    seq![
        ("\n\n"@, Style::Plain),
        (banner_text(Banner::BenchmarkResults), Style::Banner(Banner::BenchmarkResults)),
        ("\n\n"@, Style::Plain),
        ("Name: "@ + r.name@ + "\n"@, Style::Plain),
        ("Linear Memory Usage: "@ + decimal(r.memory_usage as nat) + "KB\n"@, Style::Plain),
    ] + measure(
        "Instructions"@,
        instructions_text(r.instructions as nat),
        r.instructions > instr_limit,
    ) + measure(
        "Input Size"@,
        size_text(input_size as nat),
        input_size > scaled(DEFAULT_INPUT_SIZE_LIMIT, r.scale_factor),
    ) + measure(
        "Output Size"@,
        size_text(output_size as nat),
        output_size > scaled(DEFAULT_OUTPUT_SIZE_LIMIT, r.scale_factor),
    ) + seq![("Module Size: "@ + decimal(r.size as nat) + "KB\n\n"@, Style::Plain)]
}

/// The report of `r`, given the measured input and output sizes in bytes.
pub open spec fn report(r: FunctionRunResult, input_size: u64, output_size: u64) -> Seq<
    (Seq<char>, Style),
> {
    report_head(r) + report_warning(r) + report_output(r) + report_limits(r) + report_measurements(
        r,
        input_size,
        output_size,
    )
}

/// Report pieces as text and style.
pub open spec fn pieces_view(p: Seq<Piece>) -> Seq<(Seq<char>, Style)> {
    p.map_values(|x: Piece| (x.text@, x.style))
}

fn banner_piece(b: Banner) -> (r: Piece)
    ensures
        r.text@ == banner_text(b),
        r.style == Style::Banner(b),
{
    let t = match b {
        Banner::Input => text("            Input            "),
        Banner::Logs => text("            Logs            "),
        Banner::Output => text("           Output           "),
        Banner::InvalidOutput => text("        Invalid Output      "),
        Banner::JsonError => text("         JSON Error         "),
        Banner::ResourceLimits => text("        Resource Limits        "),
        Banner::BenchmarkResults => text("     Benchmark Results      "),
    };
    Piece { text: t, style: Style::Banner(b) }
}

fn plain(t: String) -> (r: Piece)
    ensures
        r.text@ == t@,
        r.style == Style::Plain,
{
    Piece { text: t, style: Style::Plain }
}

/// `a`, then `b`, then `c`.
fn framed(a: &str, b: &str, c: &str) -> (r: String)
    ensures
        r@ == a@ + b@ + c@,
{
    let mut r = text(a);
    push_text(&mut r, b);
    push_text(&mut r, c);
    r
}

fn push_measure(out: &mut Vec<Piece>, title: &str, value: String, over: bool)
    ensures
        pieces_view(final(out)@) == pieces_view(old(out)@) + measure(title@, value@, over),
{
    let t = framed(title, ": ", value.as_str());
    let ghost before = out@;
    out.push(Piece { text: t, style: if over { Style::Alert } else { Style::Plain } });
    out.push(plain(text("\n")));
    assert(pieces_view(out@) =~= pieces_view(before) + measure(title@, value@, over));
}

fn push_piece(out: &mut Vec<Piece>, p: Piece)
    ensures
        pieces_view(final(out)@) == pieces_view(old(out)@).push((p.text@, p.style)),
{
    let ghost before = out@;
    out.push(p);
    assert(pieces_view(out@) =~= pieces_view(before).push((p.text@, p.style)));
}

impl FunctionRunResult {
    /// Put together the result of a run: the measurements, the guest's output
    /// decoded under the input's codec, and its logs followed by the error, if any.
    pub fn from_run(
        name: String,
        module_bytes: u64,
        limiter: &MemoryLimiter,
        remaining_fuel: Option<u64>,
        outcome: GuestOutcome,
        guest_output: Vec<u8>,
        guest_logs: Vec<u8>,
        input: BytesContainer,
        profile: Option<String>,
        scale_factor: u64,
    ) -> (r: FunctionRunResult)
        ensures
            r.name == name,
            r.size == module_bytes / 1024,
            r.memory_usage == limiter.high_water() / 1024,
            r.instructions == STARTING_FUEL - match remaining_fuel {
                Some(f) => f,
                None => 0,
            },
            r.instructions <= STARTING_FUEL,
            r.logs@ == run_logs(guest_logs@, outcome),
            guest_logs@.len() == 0 ==> r.logs@ == match outcome_error(outcome) {
                Some(m) => m,
                None => Seq::empty(),
            },
            r.success == outcome_error(outcome) is None,
            is_output_of(r.output, input.codec, guest_output@),
            r.input == input,
            r.profile == profile,
            r.scale_factor == scale_factor,
    {
        let ghost o = outcome;
        let result = guest_result(outcome);
        let mut logs = if guest_logs.len() > FUNCTION_LOG_LIMIT {
            text("[TRUNCATED]...")
        } else {
            String::new()
        };
        let guest_text = from_utf8_lossy(guest_logs.as_slice());
        push_text(&mut logs, guest_text.as_str());
        let success = match &result {
            Ok(()) => true,
            Err(m) => {
                push_text(&mut logs, m.as_str());
                false
            },
        };
        assert(logs@ =~= run_logs(guest_logs@, o));
        if guest_logs.len() == 0 {
            assert(vstd::utf8::valid_utf8(guest_logs@)) by {
                reveal_with_fuel(vstd::utf8::valid_utf8, 1);
            }
            assert(vstd::utf8::decode_utf8(guest_logs@) =~= Seq::<char>::empty()) by {
                reveal_with_fuel(vstd::utf8::decode_utf8, 1);
            }
        }
        let output = BytesContainer::output(input.codec, guest_output);
        FunctionRunResult {
            name,
            size: module_bytes / 1024,
            memory_usage: limiter.memory_usage_kb(),
            instructions: instructions_used(remaining_fuel),
            logs,
            input,
            output,
            profile,
            scale_factor,
            success,
        }
    }

    /// The size of the input as minified JSON, in bytes (zero when it has no JSON value).
    pub fn input_size(&self) -> (r: usize)
        ensures
            self.input.json_value is None ==> r == 0,
    {
        json_size(&self.input)
    }

    /// The size of the output as minified JSON, in bytes (zero when it is invalid).
    pub fn output_size(&self) -> (r: usize)
        ensures
            self.output.json_value is None ==> r == 0,
    {
        json_size(&self.output)
    }

    /// The report, measuring the input and output sizes (see `report_with_sizes`).
    pub fn report(&self) -> (r: Vec<Piece>)
        ensures
            exists|i: u64, o: u64| pieces_view(r@) == report(*self, i, o),
    {
        let i = self.input_size() as u64;
        let o = self.output_size() as u64;
        self.report_with_sizes(i, o)
    }

    /// The report, given the input and output sizes in bytes: input, logs (with
    /// a warning when they exceed the limit), output, the scaled resource
    /// limits, then the measurements, each over its limit marked as an alert.
    pub fn report_with_sizes(&self, input_size: u64, output_size: u64) -> (r: Vec<Piece>)
        ensures
            pieces_view(r@) == report(*self, input_size, output_size),
    {
        let mut out: Vec<Piece> = Vec::new();
        self.push_head(&mut out);
        self.push_warning(&mut out);
        self.push_output(&mut out);
        self.push_limits(&mut out);
        self.push_measurements(&mut out, input_size, output_size);
        assert(pieces_view(out@) =~= report(*self, input_size, output_size));
        out
    }

    fn push_head(&self, out: &mut Vec<Piece>)
        ensures
            pieces_view(final(out)@) == pieces_view(old(out)@) + report_head(*self),
    {
        let ghost before = pieces_view(out@);
        push_piece(out, banner_piece(Banner::Input));
        push_piece(out, plain(framed("\n\n", self.input.humanized.as_str(), "\n")));
        push_piece(out, banner_piece(Banner::Logs));
        push_piece(out, plain(framed("\n\n", self.logs.as_str(), "\n\n")));
        assert(pieces_view(out@) =~= before + report_head(*self));
    }

    fn push_warning(&self, out: &mut Vec<Piece>)
        ensures
            pieces_view(final(out)@) == pieces_view(old(out)@) + report_warning(*self),
    {
        let ghost before = pieces_view(out@);
        let log_len = utf8_byte_len(&self.logs);
        if log_len > FUNCTION_LOG_LIMIT {
            let mut w = text("Logs would be truncated in production, length ");
            push_decimal(&mut w, log_len as u128);
            push_text(&mut w, " > 1000 limit");
            push_piece(out, Piece { text: w, style: Style::Alert });
            push_piece(out, plain(text("\n\n\n")));
        }
        assert(pieces_view(out@) =~= before + report_warning(*self));
    }

    fn push_output(&self, out: &mut Vec<Piece>)
        ensures
            pieces_view(final(out)@) == pieces_view(old(out)@) + report_output(*self),
    {
        let ghost before = pieces_view(out@);
        if self.output.json_value.is_some() {
            push_piece(out, banner_piece(Banner::Output));
            push_piece(out, plain(framed("\n\n", self.output.humanized.as_str(), "\n")));
        } else {
            push_piece(out, banner_piece(Banner::InvalidOutput));
            push_piece(out, plain(framed("\n\n", self.output.humanized.as_str(), "\n")));
            push_piece(out, banner_piece(Banner::JsonError));
            let mut e = text("\n\n");
            match &self.output.encoding_error {
                Some(m) => push_text(&mut e, m.as_str()),
                None => {},
            }
            push_text(&mut e, "\n");
            push_piece(out, plain(e));
        }
        assert(pieces_view(out@) =~= before + report_output(*self));
    }

    fn push_limits(&self, out: &mut Vec<Piece>)
        ensures
            pieces_view(final(out)@) == pieces_view(old(out)@) + report_limits(*self),
    {
        let ghost before = pieces_view(out@);
        proof {
            lemma_default_budget_fits(DEFAULT_INPUT_SIZE_LIMIT, self.scale_factor);
            lemma_default_budget_fits(DEFAULT_OUTPUT_SIZE_LIMIT, self.scale_factor);
            lemma_default_budget_fits(DEFAULT_INSTRUCTIONS_LIMIT, self.scale_factor);
        }
        let in_limit = scaled_limit(DEFAULT_INPUT_SIZE_LIMIT, self.scale_factor);
        let out_limit = scaled_limit(DEFAULT_OUTPUT_SIZE_LIMIT, self.scale_factor);
        let instr_limit = scaled_limit(DEFAULT_INSTRUCTIONS_LIMIT, self.scale_factor);
        push_piece(out, plain(text("\n")));
        push_piece(out, banner_piece(Banner::ResourceLimits));
        push_piece(out, plain(text("\n\n\n")));
        push_measure(out, "Input Size", size_text_of(in_limit), false);
        push_measure(out, "Output Size", size_text_of(out_limit), false);
        push_measure(out, "Instructions", instructions_text_of(instr_limit), false);
        assert(pieces_view(out@) =~= before + report_limits(*self));
    }

    fn push_measurements(&self, out: &mut Vec<Piece>, input_size: u64, output_size: u64)
        ensures
            pieces_view(final(out)@) == pieces_view(old(out)@) + report_measurements(
                *self,
                input_size,
                output_size,
            ),
    {
        let ghost before = pieces_view(out@);
        proof {
            lemma_default_budget_fits(DEFAULT_INPUT_SIZE_LIMIT, self.scale_factor);
            lemma_default_budget_fits(DEFAULT_OUTPUT_SIZE_LIMIT, self.scale_factor);
            lemma_default_budget_fits(DEFAULT_INSTRUCTIONS_LIMIT, self.scale_factor);
        }
        let in_limit = scaled_limit(DEFAULT_INPUT_SIZE_LIMIT, self.scale_factor);
        let out_limit = scaled_limit(DEFAULT_OUTPUT_SIZE_LIMIT, self.scale_factor);
        let instr_limit = scaled_limit(DEFAULT_INSTRUCTIONS_LIMIT, self.scale_factor);
        push_piece(out, plain(text("\n\n")));
        push_piece(out, banner_piece(Banner::BenchmarkResults));
        push_piece(out, plain(text("\n\n")));
        push_piece(out, plain(framed("Name: ", self.name.as_str(), "\n")));
        let mut m = text("Linear Memory Usage: ");
        push_decimal(&mut m, self.memory_usage as u128);
        push_text(&mut m, "KB\n");
        push_piece(out, plain(m));
        push_measure(
            out,
            "Instructions",
            instructions_text_of(self.instructions),
            self.instructions > instr_limit,
        );
        push_measure(out, "Input Size", size_text_of(input_size), input_size > in_limit);
        push_measure(out, "Output Size", size_text_of(output_size), output_size > out_limit);
        let mut s = text("Module Size: ");
        push_decimal(&mut s, self.size as u128);
        push_text(&mut s, "KB\n\n");
        push_piece(out, plain(s));
        assert(pieces_view(out@) =~= before + report_measurements(*self, input_size, output_size));
    }
}

/// The length of a value's minified JSON text, zero if it cannot be written.
pub fn get_json_size_as_bytes(value: &serde_json::Value) -> (r: usize) {
    match json_to_vec(value) {
        Ok(b) => b.len(),
        Err(_) => 0,
    }
}

/// The size of a container's value as minified JSON, zero when it has none.
fn json_size(c: &BytesContainer) -> (r: usize)
    ensures
        c.json_value is None ==> r == 0,
{
    match &c.json_value {
        Some(v) => get_json_size_as_bytes(v),
        None => 0,
    }
}

/// Logs over the limit are reported: the report then carries the warning that
/// names their length, as an alert, and the logs themselves.
pub proof fn lemma_long_logs_reported(r: FunctionRunResult, input_size: u64, output_size: u64)
    requires
        utf8_len(r.logs@) > FUNCTION_LOG_LIMIT,
    ensures
        report(r, input_size, output_size)[4] == (
            truncation_warning(utf8_len(r.logs@) as nat),
            Style::Alert,
        ),
        report(r, input_size, output_size)[3].0 == "\n\n"@ + r.logs@ + "\n\n"@,
{
}

/// A run whose guest wrote more than `FUNCTION_LOG_LIMIT` bytes of logs is
/// reported with the truncation marker at the start of its logs section; when
/// its logs text is over the limit too, the warning naming its length follows.
pub proof fn lemma_truncated_logs_reported(
    r: FunctionRunResult,
    guest_logs: Seq<u8>,
    outcome: GuestOutcome,
    input_size: u64,
    output_size: u64,
)
    requires
        r.logs@ == run_logs(guest_logs, outcome),
        guest_logs.len() > FUNCTION_LOG_LIMIT,
    ensures
        report(r, input_size, output_size)[3].0.subrange(2, 16) == truncation_sentinel(),
        utf8_len(r.logs@) > FUNCTION_LOG_LIMIT ==> report(r, input_size, output_size)[4] == (
            truncation_warning(utf8_len(r.logs@) as nat),
            Style::Alert,
        ),
{
    reveal_strlit("[TRUNCATED]...");
    reveal_strlit("\n\n");
    let body = "\n\n"@ + r.logs@ + "\n\n"@;
    assert(report(r, input_size, output_size)[3].0 == body);
    assert(body.subrange(2, 16) =~= truncation_sentinel());
}

/// A guest that exits with code 0 succeeds, and with no logs of its own its
/// run has no logs; one that exits with another code fails, and its run's
/// logs end with "module exited with code: N".
pub proof fn lemma_exit_code_mapping(guest_logs: Seq<u8>, code: i32)
    ensures
        code == 0 && guest_logs.len() <= FUNCTION_LOG_LIMIT ==> outcome_error(
            GuestOutcome::Exited(code),
        ) is None && run_logs(guest_logs, GuestOutcome::Exited(code)) == lossy_utf8(guest_logs),
        code != 0 ==> outcome_error(GuestOutcome::Exited(code)) is Some && run_logs(
            guest_logs,
            GuestOutcome::Exited(code),
        ).subrange(
            run_logs(guest_logs, GuestOutcome::Exited(code)).len() - crate::runner::exit_message(
                code,
            ).len(),
            run_logs(guest_logs, GuestOutcome::Exited(code)).len() as int,
        ) == crate::runner::exit_message(code),
{
    assert(Seq::<char>::empty() + lossy_utf8(guest_logs) + Seq::<char>::empty() =~= lossy_utf8(
        guest_logs,
    ));
    let l = run_logs(guest_logs, GuestOutcome::Exited(code));
    let m = crate::runner::exit_message(code);
    if code != 0 {
        assert(l.subrange(l.len() - m.len(), l.len() as int) =~= m);
    }
}

} // verus!
