//! What the validator process reports to a host that runs CLAP plugins only.

use std::path::Path;
use vstd::prelude::*;
use vstd::string::*;

use crate::clap::{self, clap_plugins, ClapPlugin, ClapPluginMetadata};
use crate::paths::{path_bytes, path_text};
use crate::scan::validator::{may_yield, run_failure, run_failure_text, ValidatorOutput};
use crate::scan::PluginFormat;
use crate::text::{lossy_text, trim, trimmed, utf8_lossy};

verus! {

/// What a validation came to.
pub open spec fn verdict_view(verdict: Result<Vec<ClapPluginMetadata>, String>) -> Result<
    Seq<ClapPlugin>,
    Seq<char>,
> {
    match verdict {
        Ok(plugins) => Ok(clap_plugins(plugins@)),
        Err(error) => Err(error@),
    }
}

/// What the report of a validator that succeeded comes to.
pub open spec fn reported(report: Result<clap::ValidationReport, String>) -> Result<
    Seq<ClapPlugin>,
    Seq<char>,
> {
    match report {
        Ok(r) => verdict_view(r.result),
        Err(error) => Err(error@),
    }
}

/// Whether a run of the validator may come to this: a run that failed comes to what it wrote to
/// its standard error, any other to its report, which is all of its output.
pub open spec fn may_settle<P: Fn(&[u8]) -> Result<clap::ValidationReport, String>>(
    validator: Seq<u8>,
    output: Result<ValidatorOutput, String>,
    parse: P,
    verdict: Result<Seq<ClapPlugin>, Seq<char>>,
) -> bool {
    match output {
        Err(error) => verdict == Err::<Seq<ClapPlugin>, Seq<char>>(
            run_failure_text(validator, error@),
        ),
        Ok(run) => if run.success {
            exists|report: Result<clap::ValidationReport, String>| #[trigger]
                may_yield(parse, run.stdout@, report) && verdict == reported(report)
        } else {
            verdict == Err::<Seq<ClapPlugin>, Seq<char>>(trimmed(lossy_text(run.stderr@)))
        },
    }
}

/// Settles what the report of a validator that succeeded comes to.
pub fn settle_report(report: Result<clap::ValidationReport, String>) -> (verdict: Result<
    Vec<ClapPluginMetadata>,
    String,
>)
    ensures
        verdict_view(verdict) == reported(report),
{
    match report {
        Ok(report) => report.result,
        Err(error) => Err(error),
    }
}

/// Decides what a run of the validator on a CLAP candidate came to.
pub fn validate_clap_candidate<P: Fn(&[u8]) -> Result<clap::ValidationReport, String>>(
    validator: &Path,
    output: Result<ValidatorOutput, String>,
    parse: P,
) -> (verdict: Result<Vec<ClapPluginMetadata>, String>)
    requires
        forall|bytes: &[u8]| #[trigger] call_requires(parse, (bytes,)),
    ensures
        may_settle(path_bytes(validator), output, parse, verdict_view(verdict)),
{
    match output {
        Err(error) => Err(run_failure(validator, error.as_str())),
        Ok(run) => {
            if !run.success {
                return Err(trim(utf8_lossy(run.stderr.as_slice()).as_str()));
            }
            let report = parse(run.stdout.as_slice());
            assert(may_yield(parse, run.stdout@, report));
            settle_report(report)
        },
    }
}

/// Decides what a validation of a candidate of some format came to. VST3 candidates are refused
/// without a run.
pub fn validate_candidate<P: Fn(&[u8]) -> Result<clap::ValidationReport, String>>(
    format: PluginFormat,
    validator: &Path,
    output: Result<ValidatorOutput, String>,
    parse: P,
) -> (verdict: Result<Vec<ClapPluginMetadata>, String>)
    requires
        forall|bytes: &[u8]| #[trigger] call_requires(parse, (bytes,)),
    ensures
        match format {
            PluginFormat::Clap => may_settle(
                path_bytes(validator),
                output,
                parse,
                verdict_view(verdict),
            ),
            PluginFormat::Vst3 => verdict_view(verdict) == Err::<Seq<ClapPlugin>, Seq<char>>(
                "VST3 adapter is not implemented yet"@,
            ),
        },
{
    match format {
        PluginFormat::Clap => validate_clap_candidate(validator, output, parse),
        PluginFormat::Vst3 => Err("VST3 adapter is not implemented yet".to_owned()),
    }
}

/// A run of the validator comes to its report's own result, plugin by plugin, if it succeeded; if
/// it did not, to what it wrote to its standard error, without the white space around it; and if
/// it could not be run, to the failure with its path.
pub proof fn law_report_is_passed_on<P: Fn(&[u8]) -> Result<clap::ValidationReport, String>>(
    validator: Seq<u8>,
    run: ValidatorOutput,
    error: String,
    parse: P,
    report: clap::ValidationReport,
    verdict: Result<Seq<ClapPlugin>, Seq<char>>,
)
    requires
        forall|r: Result<clap::ValidationReport, String>| #[trigger]
            may_yield(parse, run.stdout@, r) ==> r == Ok::<clap::ValidationReport, String>(report),
    ensures
        may_settle(validator, Ok(run), parse, verdict) && run.success ==> match report.result {
            Ok(plugins) => verdict matches Ok(list) && list.len() == plugins@.len() && forall|
                i: int,
            |
                0 <= i < list.len() ==> #[trigger] list[i] == plugins@[i]@,
            Err(text) => verdict == Err::<Seq<ClapPlugin>, Seq<char>>(text@),
        },
        may_settle(validator, Ok(run), parse, verdict) && !run.success ==> verdict == Err::<
            Seq<ClapPlugin>,
            Seq<char>,
        >(trimmed(lossy_text(run.stderr@))),
        may_settle(validator, Err(error), parse, verdict) ==> verdict == Err::<
            Seq<ClapPlugin>,
            Seq<char>,
        >("failed to run validator "@ + path_text(validator) + ": "@ + error@),
{
}

/// A report that could not be read comes to the parser's error.
pub proof fn law_unreadable_report_is_an_error(error: String)
    ensures
        reported(Err(error)) == Err::<Seq<ClapPlugin>, Seq<char>>(error@),
{
}

} // verus!
