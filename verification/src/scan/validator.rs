//! What the validator process reports.
//!
//! The reports are JSON. How JSON becomes a report is up to the caller, who passes the two
//! parsers in; where in the output the report is looked for, and what it comes to, is decided
//! here.

use std::path::Path;
use vstd::prelude::*;
use vstd::string::*;

use super::PluginFormat;
use crate::clap::{self, clap_plugins, ClapPlugin, ClapPluginMetadata};
use crate::paths::{display, path_bytes, path_text};
use crate::text::{lossy_text, trim, trimmed, utf8_lossy};
use crate::vst3::{self, vst3_plugins, Vst3Plugin, Vst3PluginMetadata};

verus! {

/// Plugins that the validator vouches for.
#[derive(Debug)]
pub enum ValidatedPlugins {
    /// CLAP plugins.
    Clap(Vec<ClapPluginMetadata>),
    /// VST3 plugins.
    Vst3(Vec<Vst3PluginMetadata>),
}

/// The contents of a [`ValidatedPlugins`].
pub enum Validated {
    Clap(Seq<ClapPlugin>),
    Vst3(Seq<Vst3Plugin>),
}

impl View for ValidatedPlugins {
    type V = Validated;

    open spec fn view(&self) -> Validated {
        match self {
            ValidatedPlugins::Clap(plugins) => Validated::Clap(clap_plugins(plugins@)),
            ValidatedPlugins::Vst3(plugins) => Validated::Vst3(vst3_plugins(plugins@)),
        }
    }
}

/// What a validation came to.
pub open spec fn verdict_view(verdict: Result<ValidatedPlugins, String>) -> Result<
    Validated,
    Seq<char>,
> {
    match verdict {
        Ok(plugins) => Ok(plugins@),
        Err(error) => Err(error@),
    }
}

/// What the validator process left behind.
pub struct ValidatorOutput {
    /// Whether it exited with success.
    pub success: bool,
    /// What it wrote to its standard output.
    pub stdout: Vec<u8>,
    /// What it wrote to its standard error.
    pub stderr: Vec<u8>,
}

/// Whether a parser may make this of some bytes.
pub open spec fn may_yield<T, F: Fn(&[u8]) -> Result<T, String>>(
    parse: F,
    bytes: Seq<u8>,
    parsed: Result<T, String>,
) -> bool {
    exists|slice: &[u8]| slice@ == bytes && #[trigger] call_ensures(parse, (slice,), parsed)
}

/// The positions of the opening braces among the first `n` bytes.
pub open spec fn braces(bytes: Seq<u8>, n: int) -> Seq<int>
    decreases n,
{
    if n <= 0 {
        seq![]
    } else if bytes[n - 1] == 123u8 {
        braces(bytes, n - 1).push(n - 1)
    } else {
        braces(bytes, n - 1)
    }
}

/// Whether these are attempts to parse a report at one opening brace after the other, each but
/// possibly the last a failure.
pub open spec fn are_attempts<T, F: Fn(&[u8]) -> Result<T, String>>(
    prefix: F,
    bytes: Seq<u8>,
    attempts: Seq<Result<T, String>>,
) -> bool {
    let places = braces(bytes, bytes.len() as int);
    &&& attempts.len() <= places.len()
    &&& forall|i: int|
        0 <= i < attempts.len() ==> may_yield(
            prefix,
            bytes.skip(places[i]),
            #[trigger] attempts[i],
        )
    &&& forall|i: int| 0 <= i < attempts.len() - 1 ==> (#[trigger] attempts[i]) is Err
    &&& attempts.len() == places.len() || (attempts.len() > 0 && attempts.last() is Ok)
}

/// What is made of some output: the report that the whole of it is, or else the first that
/// begins at an opening brace, or else the error of the last attempt.
pub open spec fn is_parse<T, W: Fn(&[u8]) -> Result<T, String>, P: Fn(&[u8]) -> Result<T, String>>(
    whole: W,
    prefix: P,
    bytes: Seq<u8>,
    first: Result<T, String>,
    attempts: Seq<Result<T, String>>,
    parsed: Result<T, String>,
) -> bool {
    &&& may_yield(whole, bytes, first)
    &&& if first is Ok {
        attempts.len() == 0 && parsed == first
    } else {
        &&& are_attempts(prefix, bytes, attempts)
        &&& parsed == if attempts.len() > 0 {
            attempts.last()
        } else {
            first
        }
    }
}

/// Whether some output can be made out to be this.
pub open spec fn may_parse<
    T,
    W: Fn(&[u8]) -> Result<T, String>,
    P: Fn(&[u8]) -> Result<T, String>,
>(whole: W, prefix: P, bytes: Seq<u8>, parsed: Result<T, String>) -> bool {
    exists|first: Result<T, String>, attempts: Seq<Result<T, String>>|
        is_parse(whole, prefix, bytes, first, attempts, parsed)
}

proof fn lemma_braces_prefix(bytes: Seq<u8>, n: int, m: int)
    requires
        0 <= n <= m <= bytes.len(),
    ensures
        braces(bytes, n).len() <= braces(bytes, m).len(),
        forall|i: int|
            0 <= i < braces(bytes, n).len() ==> braces(bytes, n)[i] == #[trigger] braces(
                bytes,
                m,
            )[i],
    decreases m,
{
    if n < m {
        lemma_braces_prefix(bytes, n, m - 1);
    }
}

/// Parses the report in the validator's output. `whole` parses all the bytes it is given,
/// `prefix` one value at their beginning.
pub fn parse_validator_stdout<
    T,
    W: Fn(&[u8]) -> Result<T, String>,
    P: Fn(&[u8]) -> Result<T, String>,
>(stdout: &[u8], whole: W, prefix: P) -> (parsed: Result<T, String>)
    requires
        forall|bytes: &[u8]| #[trigger] call_requires(whole, (bytes,)),
        forall|bytes: &[u8]| #[trigger] call_requires(prefix, (bytes,)),
    ensures
        may_parse(whole, prefix, stdout@, parsed),
{
    let first = whole(stdout);
    let ghost outset = first;
    let ghost mut attempts: Seq<Result<T, String>> = seq![];
    assert(may_yield(whole, stdout@, outset));
    let mut last_error = match first {
        Ok(report) => {
            assert(is_parse(whole, prefix, stdout@, outset, attempts, Ok(report)));
            return Ok(report);
        },
        Err(error) => error,
    };
    for index in 0..stdout.len()
        invariant
            outset is Err,
            may_yield(whole, stdout@, outset),
            forall|bytes: &[u8]| #[trigger] call_requires(prefix, (bytes,)),
            attempts.len() == braces(stdout@, index as int).len(),
            forall|i: int|
                0 <= i < attempts.len() ==> may_yield(
                    prefix,
                    stdout@.skip(braces(stdout@, index as int)[i]),
                    #[trigger] attempts[i],
                ),
            forall|i: int| 0 <= i < attempts.len() ==> (#[trigger] attempts[i]) is Err,
            Err::<T, String>(last_error) == if attempts.len() > 0 {
                attempts.last()
            } else {
                outset
            },
    {
        if stdout[index] == 123u8 {
            let rest = vstd::slice::slice_subrange(stdout, index, stdout.len());
            assert(rest@ == stdout@.skip(index as int));
            let attempt = prefix(rest);
            proof {
                assert(may_yield(prefix, stdout@.skip(index as int), attempt));
                attempts = attempts.push(attempt);
            }
            match attempt {
                Ok(report) => {
                    proof {
                        lemma_braces_prefix(stdout@, index + 1, stdout@.len() as int);
                        let places = braces(stdout@, stdout@.len() as int);
                        assert forall|i: int| 0 <= i < attempts.len() implies may_yield(
                            prefix,
                            stdout@.skip(places[i]),
                            #[trigger] attempts[i],
                        ) by {
                            assert(places[i] == braces(stdout@, index + 1)[i]);
                        }
                        assert(are_attempts(prefix, stdout@, attempts));
                        assert(is_parse(whole, prefix, stdout@, outset, attempts, Ok(report)));
                    }
                    return Ok(report);
                },
                Err(error) => {
                    last_error = error;
                },
            }
        }
    }
    proof {
        assert(are_attempts(prefix, stdout@, attempts));
        assert(is_parse(whole, prefix, stdout@, outset, attempts, Err(last_error)));
    }
    Err(last_error)
}

/// What a report comes to: its own result, or else the parse error of a validator that
/// succeeded and the standard error of one that did not.
pub open spec fn settled<R>(
    success: bool,
    report: Result<Result<R, Seq<char>>, Seq<char>>,
    stderr: Seq<u8>,
) -> Result<R, Seq<char>> {
    match report {
        Ok(result) => result,
        Err(error) => if success {
            Err(error)
        } else {
            Err(trimmed(lossy_text(stderr)))
        },
    }
}

/// The contents of a parsed CLAP report.
pub open spec fn clap_report_view(report: Result<clap::ValidationReport, String>) -> Result<
    Result<Validated, Seq<char>>,
    Seq<char>,
> {
    match report {
        Ok(r) => Ok(
            match r.result {
                Ok(plugins) => Ok(Validated::Clap(clap_plugins(plugins@))),
                Err(error) => Err(error@),
            },
        ),
        Err(error) => Err(error@),
    }
}

/// The contents of a parsed VST3 report.
pub open spec fn vst3_report_view(report: Result<vst3::ValidationReport, String>) -> Result<
    Result<Validated, Seq<char>>,
    Seq<char>,
> {
    match report {
        Ok(r) => Ok(
            match r.result {
                Ok(plugins) => Ok(Validated::Vst3(vst3_plugins(plugins@))),
                Err(error) => Err(error@),
            },
        ),
        Err(error) => Err(error@),
    }
}

/// Settles what a CLAP validation came to.
pub fn settle_clap_report(
    success: bool,
    report: Result<clap::ValidationReport, String>,
    stderr: &[u8],
) -> (verdict: Result<ValidatedPlugins, String>)
    ensures
        verdict_view(verdict) == settled(success, clap_report_view(report), stderr@),
{
    match report {
        Ok(report) => match report.result {
            Ok(plugins) => Ok(ValidatedPlugins::Clap(plugins)),
            Err(error) => Err(error),
        },
        Err(error) => {
            if success {
                Err(error)
            } else {
                Err(trim(utf8_lossy(stderr).as_str()))
            }
        },
    }
}

/// Settles what a VST3 validation came to.
pub fn settle_vst3_report(
    success: bool,
    report: Result<vst3::ValidationReport, String>,
    stderr: &[u8],
) -> (verdict: Result<ValidatedPlugins, String>)
    ensures
        verdict_view(verdict) == settled(success, vst3_report_view(report), stderr@),
{
    match report {
        Ok(report) => match report.result {
            Ok(plugins) => Ok(ValidatedPlugins::Vst3(plugins)),
            Err(error) => Err(error),
        },
        Err(error) => {
            if success {
                Err(error)
            } else {
                Err(trim(utf8_lossy(stderr).as_str()))
            }
        },
    }
}

/// Reads the verdict of a CLAP validation from the validator's output.
pub fn parse_clap_validator_output<
    W: Fn(&[u8]) -> Result<clap::ValidationReport, String>,
    P: Fn(&[u8]) -> Result<clap::ValidationReport, String>,
>(success: bool, stdout: &[u8], stderr: &[u8], whole: W, prefix: P) -> (verdict: Result<
    ValidatedPlugins,
    String,
>)
    requires
        forall|bytes: &[u8]| #[trigger] call_requires(whole, (bytes,)),
        forall|bytes: &[u8]| #[trigger] call_requires(prefix, (bytes,)),
    ensures
        exists|report: Result<clap::ValidationReport, String>| #[trigger]
            may_parse(whole, prefix, stdout@, report) && verdict_view(verdict) == settled(
                success,
                clap_report_view(report),
                stderr@,
            ),
{
    let report = parse_validator_stdout(stdout, whole, prefix);
    settle_clap_report(success, report, stderr)
}

/// Reads the verdict of a VST3 validation from the validator's output.
pub fn parse_vst3_validator_output<
    W: Fn(&[u8]) -> Result<vst3::ValidationReport, String>,
    P: Fn(&[u8]) -> Result<vst3::ValidationReport, String>,
>(success: bool, stdout: &[u8], stderr: &[u8], whole: W, prefix: P) -> (verdict: Result<
    ValidatedPlugins,
    String,
>)
    requires
        forall|bytes: &[u8]| #[trigger] call_requires(whole, (bytes,)),
        forall|bytes: &[u8]| #[trigger] call_requires(prefix, (bytes,)),
    ensures
        exists|report: Result<vst3::ValidationReport, String>| #[trigger]
            may_parse(whole, prefix, stdout@, report) && verdict_view(verdict) == settled(
                success,
                vst3_report_view(report),
                stderr@,
            ),
{
    let report = parse_validator_stdout(stdout, whole, prefix);
    settle_vst3_report(success, report, stderr)
}

/// The arguments that make the validator check one format; the candidate's path follows them.
pub open spec fn validator_arguments(format: PluginFormat) -> Seq<Seq<char>> {
    seq![
        "--format"@,
        match format {
            PluginFormat::Clap => clap::FORMAT@,
            PluginFormat::Vst3 => vst3::FORMAT@,
        },
        "--path"@,
    ]
}

/// Returns the arguments that make the validator check one format; the candidate's path follows
/// them.
pub fn validator_args(format: PluginFormat) -> (args: Vec<String>)
    ensures
        crate::text::all_texts(args@) == validator_arguments(format),
{
    let mut args: Vec<String> = Vec::new();
    args.push("--format".to_owned());
    match format {
        PluginFormat::Clap => {
            args.push(clap::FORMAT.to_owned());
        },
        PluginFormat::Vst3 => {
            args.push(vst3::FORMAT.to_owned());
        },
    }
    args.push("--path".to_owned());
    assert(crate::text::all_texts(args@) =~= validator_arguments(format));
    args
}

/// The report of a validator that could not be run.
pub open spec fn run_failure_text(validator: Seq<u8>, error: Seq<char>) -> Seq<char> {
    "failed to run validator "@ + path_text(validator) + ": "@ + error
}

/// Returns the report of a validator that could not be run.
pub(crate) fn run_failure(validator: &Path, error: &str) -> (text: String)
    ensures
        text@ == run_failure_text(path_bytes(validator), error@),
{
    let mut text = "failed to run validator ".to_owned();
    text.append(display(validator).as_str());
    text.append(": ");
    text.append(error);
    text
}

/// Whether a run of the validator on a CLAP candidate may come to this.
pub open spec fn may_settle_clap<
    W: Fn(&[u8]) -> Result<clap::ValidationReport, String>,
    P: Fn(&[u8]) -> Result<clap::ValidationReport, String>,
>(
    validator: Seq<u8>,
    output: Result<ValidatorOutput, String>,
    whole: W,
    prefix: P,
    verdict: Result<Validated, Seq<char>>,
) -> bool {
    match output {
        Err(error) => verdict == Err::<Validated, Seq<char>>(run_failure_text(validator, error@)),
        Ok(run) => exists|report: Result<clap::ValidationReport, String>| #[trigger]
            may_parse(whole, prefix, run.stdout@, report) && verdict == settled(
                run.success,
                clap_report_view(report),
                run.stderr@,
            ),
    }
}

/// Whether a run of the validator on a VST3 candidate may come to this.
pub open spec fn may_settle_vst3<
    W: Fn(&[u8]) -> Result<vst3::ValidationReport, String>,
    P: Fn(&[u8]) -> Result<vst3::ValidationReport, String>,
>(
    validator: Seq<u8>,
    output: Result<ValidatorOutput, String>,
    whole: W,
    prefix: P,
    verdict: Result<Validated, Seq<char>>,
) -> bool {
    match output {
        Err(error) => verdict == Err::<Validated, Seq<char>>(run_failure_text(validator, error@)),
        Ok(run) => exists|report: Result<vst3::ValidationReport, String>| #[trigger]
            may_parse(whole, prefix, run.stdout@, report) && verdict == settled(
                run.success,
                vst3_report_view(report),
                run.stderr@,
            ),
    }
}

/// Decides what a run of the validator on a CLAP candidate came to.
pub fn validate_clap_candidate<
    W: Fn(&[u8]) -> Result<clap::ValidationReport, String>,
    P: Fn(&[u8]) -> Result<clap::ValidationReport, String>,
>(validator: &Path, output: Result<ValidatorOutput, String>, whole: W, prefix: P) -> (verdict:
    Result<ValidatedPlugins, String>)
    requires
        forall|bytes: &[u8]| #[trigger] call_requires(whole, (bytes,)),
        forall|bytes: &[u8]| #[trigger] call_requires(prefix, (bytes,)),
    ensures
        may_settle_clap(path_bytes(validator), output, whole, prefix, verdict_view(verdict)),
{
    match output {
        Err(error) => Err(run_failure(validator, error.as_str())),
        Ok(run) => parse_clap_validator_output(
            run.success,
            run.stdout.as_slice(),
            run.stderr.as_slice(),
            whole,
            prefix,
        ),
    }
}

/// Decides what a run of the validator on a VST3 candidate came to.
pub fn validate_vst3_candidate<
    W: Fn(&[u8]) -> Result<vst3::ValidationReport, String>,
    P: Fn(&[u8]) -> Result<vst3::ValidationReport, String>,
>(validator: &Path, output: Result<ValidatorOutput, String>, whole: W, prefix: P) -> (verdict:
    Result<ValidatedPlugins, String>)
    requires
        forall|bytes: &[u8]| #[trigger] call_requires(whole, (bytes,)),
        forall|bytes: &[u8]| #[trigger] call_requires(prefix, (bytes,)),
    ensures
        may_settle_vst3(path_bytes(validator), output, whole, prefix, verdict_view(verdict)),
{
    match output {
        Err(error) => Err(run_failure(validator, error.as_str())),
        Ok(run) => parse_vst3_validator_output(
            run.success,
            run.stdout.as_slice(),
            run.stderr.as_slice(),
            whole,
            prefix,
        ),
    }
}

/// Decides what a run of the validator on a candidate of some format came to. Each format has
/// its own two parsers.
pub fn validate_candidate<
    CW: Fn(&[u8]) -> Result<clap::ValidationReport, String>,
    CP: Fn(&[u8]) -> Result<clap::ValidationReport, String>,
    VW: Fn(&[u8]) -> Result<vst3::ValidationReport, String>,
    VP: Fn(&[u8]) -> Result<vst3::ValidationReport, String>,
>(
    format: PluginFormat,
    validator: &Path,
    output: Result<ValidatorOutput, String>,
    clap_parsers: (CW, CP),
    vst3_parsers: (VW, VP),
) -> (verdict: Result<ValidatedPlugins, String>)
    requires
        forall|bytes: &[u8]| #[trigger] call_requires(clap_parsers.0, (bytes,)),
        forall|bytes: &[u8]| #[trigger] call_requires(clap_parsers.1, (bytes,)),
        forall|bytes: &[u8]| #[trigger] call_requires(vst3_parsers.0, (bytes,)),
        forall|bytes: &[u8]| #[trigger] call_requires(vst3_parsers.1, (bytes,)),
    ensures
        match format {
            PluginFormat::Clap => may_settle_clap(
                path_bytes(validator),
                output,
                clap_parsers.0,
                clap_parsers.1,
                verdict_view(verdict),
            ),
            PluginFormat::Vst3 => may_settle_vst3(
                path_bytes(validator),
                output,
                vst3_parsers.0,
                vst3_parsers.1,
                verdict_view(verdict),
            ),
        },
{
    match format {
        PluginFormat::Clap => {
            let (whole, prefix) = clap_parsers;
            validate_clap_candidate(validator, output, whole, prefix)
        },
        PluginFormat::Vst3 => {
            let (whole, prefix) = vst3_parsers;
            validate_vst3_candidate(validator, output, whole, prefix)
        },
    }
}

/// A report counts whatever the validator's exit status says; without one, the validator is
/// refused whatever it says.
pub proof fn law_report_counts_whatever_the_exit<R>(
    report: Result<Result<R, Seq<char>>, Seq<char>>,
    stderr: Seq<u8>,
)
    ensures
        report is Ok ==> settled(true, report, stderr) == report->Ok_0 && settled(
            false,
            report,
            stderr,
        ) == report->Ok_0,
        report is Err ==> settled(true, report, stderr) is Err && settled(
            false,
            report,
            stderr,
        ) is Err,
{
}

proof fn lemma_no_braces(bytes: Seq<u8>, n: int)
    requires
        0 <= n <= bytes.len(),
        forall|i: int| 0 <= i < n ==> bytes[i] != 123u8,
    ensures
        braces(bytes, n) == Seq::<int>::empty(),
    decreases n,
{
    if n > 0 {
        lemma_no_braces(bytes, n - 1);
    }
}

/// Output before a report does not keep the report from being found, as long as it holds no
/// opening brace, and whatever follows the report: if the parser reads a value where the first
/// opening brace is, and the whole is either not a report or the same one, then that value is what
/// is found.
pub proof fn law_noise_before_report_is_ignored<
    T,
    W: Fn(&[u8]) -> Result<T, String>,
    P: Fn(&[u8]) -> Result<T, String>,
>(whole: W, prefix: P, noise: Seq<u8>, report: Seq<u8>, value: T, parsed: Result<T, String>)
    requires
        forall|i: int| 0 <= i < noise.len() ==> noise[i] != 123u8,
        report.len() > 0,
        report[0] == 123u8,
        forall|r: Result<T, String>| #[trigger]
            may_yield(whole, noise + report, r) ==> r is Err || r == Ok::<T, String>(value),
        forall|r: Result<T, String>| #[trigger] may_yield(prefix, report, r) ==> r == Ok::<
            T,
            String,
        >(value),
        may_parse(whole, prefix, noise + report, parsed),
    ensures
        parsed == Ok::<T, String>(value),
{
    let bytes = noise + report;
    let (first, attempts) = choose|first: Result<T, String>, attempts: Seq<Result<T, String>>|
        is_parse(whole, prefix, bytes, first, attempts, parsed);
    if first is Err {
        let at = noise.len() as int;
        assert forall|i: int| 0 <= i < at implies bytes[i] != 123u8 by {
            assert(bytes[i] == noise[i]);
        }
        lemma_no_braces(bytes, at);
        assert(bytes[at] == report[0]);
        assert(braces(bytes, at + 1) =~= seq![at]);
        lemma_braces_prefix(bytes, at + 1, bytes.len() as int);
        let places = braces(bytes, bytes.len() as int);
        assert(places[0] == at);
        assert(bytes.skip(at) =~= report);
        assert(attempts.len() > 0);
        assert(may_yield(prefix, report, attempts[0]));
        assert(attempts.len() == 1);
    }
}

/// A report that was read comes to its own result, plugin by plugin; one that could not be read
/// comes to the parser's error if the validator succeeded, and else to what it wrote to its
/// standard error, without the white space around it.
pub proof fn law_report_is_passed_on(
    success: bool,
    clap: Result<clap::ValidationReport, String>,
    vst3: Result<vst3::ValidationReport, String>,
    stderr: Seq<u8>,
)
    ensures
        clap matches Ok(report) ==> match report.result {
            Ok(plugins) => settled(success, clap_report_view(clap), stderr) matches Ok(
                Validated::Clap(list),
            ) && list.len() == plugins@.len() && forall|i: int|
                0 <= i < list.len() ==> #[trigger] list[i] == plugins@[i]@,
            Err(error) => settled(success, clap_report_view(clap), stderr) == Err::<
                Validated,
                Seq<char>,
            >(error@),
        },
        vst3 matches Ok(report) ==> match report.result {
            Ok(plugins) => settled(success, vst3_report_view(vst3), stderr) matches Ok(
                Validated::Vst3(list),
            ) && list.len() == plugins@.len() && forall|i: int|
                0 <= i < list.len() ==> #[trigger] list[i] == plugins@[i]@,
            Err(error) => settled(success, vst3_report_view(vst3), stderr) == Err::<
                Validated,
                Seq<char>,
            >(error@),
        },
        clap matches Err(error) ==> settled(true, clap_report_view(clap), stderr) == Err::<
            Validated,
            Seq<char>,
        >(error@) && settled(false, clap_report_view(clap), stderr) == Err::<Validated, Seq<char>>(
            trimmed(lossy_text(stderr)),
        ),
        vst3 matches Err(error) ==> settled(true, vst3_report_view(vst3), stderr) == Err::<
            Validated,
            Seq<char>,
        >(error@) && settled(false, vst3_report_view(vst3), stderr) == Err::<Validated, Seq<char>>(
            trimmed(lossy_text(stderr)),
        ),
{
}

/// The validator is called with its format option and the name of the format, then with its path
/// option, which the path follows.
pub proof fn law_validator_is_told_the_format()
    ensures
        validator_arguments(PluginFormat::Clap) == seq!["--format"@, "clap"@, "--path"@],
        validator_arguments(PluginFormat::Vst3) == seq!["--format"@, "vst3"@, "--path"@],
{
}

/// A validator that could not be run is reported with its path and the error.
pub proof fn law_run_failure_names_the_validator(validator: Seq<u8>, error: Seq<char>)
    ensures
        run_failure_text(validator, error) == "failed to run validator "@ + path_text(validator)
            + ": "@ + error,
{
}

/// Output that is a report as a whole is that report, whatever could be read from parts of it.
pub proof fn law_whole_report_counts_first<
    T,
    W: Fn(&[u8]) -> Result<T, String>,
    P: Fn(&[u8]) -> Result<T, String>,
>(whole: W, prefix: P, bytes: Seq<u8>, value: T, parsed: Result<T, String>)
    requires
        forall|r: Result<T, String>| #[trigger]
            may_yield(whole, bytes, r) ==> r == Ok::<T, String>(value),
        may_parse(whole, prefix, bytes, parsed),
    ensures
        parsed == Ok::<T, String>(value),
{
}

/// What is found in some output was read from all of it, or from an opening brace on; output that
/// no parser reads holds no report.
pub proof fn law_report_is_read_at_a_brace<
    T,
    W: Fn(&[u8]) -> Result<T, String>,
    P: Fn(&[u8]) -> Result<T, String>,
>(whole: W, prefix: P, bytes: Seq<u8>, parsed: Result<T, String>)
    requires
        may_parse(whole, prefix, bytes, parsed),
    ensures
        may_yield(whole, bytes, parsed) || exists|at: int|
            0 <= at < bytes.len() && bytes[at] == 123u8 && #[trigger] may_yield(
                prefix,
                bytes.skip(at),
                parsed,
            ),
{
    let (first, attempts) = choose|first: Result<T, String>, attempts: Seq<Result<T, String>>|
        is_parse(whole, prefix, bytes, first, attempts, parsed);
    if first is Err && attempts.len() > 0 {
        let places = braces(bytes, bytes.len() as int);
        let last = attempts.len() - 1;
        lemma_braces_are_braces(bytes, bytes.len() as int, last);
        assert(may_yield(prefix, bytes.skip(places[last]), attempts[last]));
    }
}

proof fn lemma_braces_are_braces(bytes: Seq<u8>, n: int, i: int)
    requires
        0 <= n <= bytes.len(),
        0 <= i < braces(bytes, n).len(),
    ensures
        0 <= braces(bytes, n)[i] < n,
        bytes[braces(bytes, n)[i]] == 123u8,
    decreases n,
{
    if n > 0 && i < braces(bytes, n - 1).len() {
        lemma_braces_are_braces(bytes, n - 1, i);
    }
}

/// Every opening brace is tried, in order, until one begins a report.
pub proof fn law_every_brace_is_a_place(bytes: Seq<u8>, n: int, at: int)
    requires
        0 <= at < n <= bytes.len(),
        bytes[at] == 123u8,
    ensures
        braces(bytes, n).contains(at),
        forall|i: int, j: int|
            0 <= i < j < braces(bytes, n).len() ==> #[trigger] braces(bytes, n)[i]
                < #[trigger] braces(bytes, n)[j],
    decreases n,
{
    lemma_braces_ascend(bytes, n);
    if at < n - 1 {
        law_every_brace_is_a_place(bytes, n - 1, at);
        let before = braces(bytes, n - 1);
        let i = choose|i: int| 0 <= i < before.len() && before[i] == at;
        assert(braces(bytes, n)[i] == at);
    } else {
        assert(braces(bytes, n).last() == at);
    }
}

proof fn lemma_braces_ascend(bytes: Seq<u8>, n: int)
    requires
        0 <= n <= bytes.len(),
    ensures
        forall|i: int, j: int|
            0 <= i < j < braces(bytes, n).len() ==> #[trigger] braces(bytes, n)[i]
                < #[trigger] braces(bytes, n)[j],
    decreases n,
{
    if n > 0 {
        lemma_braces_ascend(bytes, n - 1);
        let before = braces(bytes, n - 1);
        assert forall|i: int| 0 <= i < before.len() implies #[trigger] before[i] < n - 1 by {
            lemma_braces_are_braces(bytes, n - 1, i);
        }
    }
}

/// The report is the first that begins at an opening brace and can be read there, whatever braces
/// stand before it, unless the whole output is one.
pub proof fn law_first_readable_brace_counts<
    T,
    W: Fn(&[u8]) -> Result<T, String>,
    P: Fn(&[u8]) -> Result<T, String>,
>(whole: W, prefix: P, bytes: Seq<u8>, at: int, value: T, parsed: Result<T, String>)
    requires
        0 <= at < bytes.len(),
        bytes[at] == 123u8,
        forall|r: Result<T, String>| #[trigger] may_yield(whole, bytes, r) ==> r is Err,
        forall|r: Result<T, String>| #[trigger]
            may_yield(prefix, bytes.skip(at), r) ==> r == Ok::<T, String>(value),
        forall|i: int, r: Result<T, String>|
            0 <= i < at && bytes[i] == 123u8 && #[trigger] may_yield(prefix, bytes.skip(i), r)
                ==> r is Err,
        may_parse(whole, prefix, bytes, parsed),
    ensures
        parsed == Ok::<T, String>(value),
{
    let (first, attempts) = choose|first: Result<T, String>, attempts: Seq<Result<T, String>>|
        is_parse(whole, prefix, bytes, first, attempts, parsed);
    let n = bytes.len() as int;
    let places = braces(bytes, n);
    law_every_brace_is_a_place(bytes, n, at);
    let k = choose|k: int| 0 <= k < places.len() && places[k] == at;
    if attempts.len() > 0 {
        let last = attempts.len() - 1;
        assert(may_yield(prefix, bytes.skip(places[last]), attempts[last]));
        if last < k {
            lemma_braces_are_braces(bytes, n, last);
            assert(places[last] < places[k]);
            assert(attempts[last] is Err);
        } else {
            assert(may_yield(prefix, bytes.skip(places[k]), attempts[k]));
            assert(attempts[k] is Ok);
        }
    }
}

} // verus!
