//! The helper process that validates one plugin, apart from the host.

use std::path::PathBuf;
use vstd::prelude::*;
use vstd::string::*;
use vstd::utf8::encode_utf8;

use crate::clap::{self, clap_plugins, ClapPluginMetadata, ClapProbeError};
use crate::paths::{buffer_bytes, path_from_text};
use crate::scan::validator::validator_arguments;
use crate::scan::PluginFormat;
use crate::text::{all_texts, same_text};

verus! {

/// What the helper is asked to do.
#[derive(Debug, PartialEq, Eq)]
pub struct ValidationTask {
    /// Plugin format.
    pub format: String,
    /// Candidate path.
    pub path: PathBuf,
}

/// The contents of a [`ValidationTask`].
pub struct Task {
    pub format: Seq<char>,
    pub path: Seq<u8>,
}

impl View for ValidationTask {
    type V = Task;

    open spec fn view(&self) -> Task {
        Task { format: self.format@, path: buffer_bytes(self.path) }
    }
}

/// How the helper is called.
pub open spec fn usage_text() -> Seq<char> {
    "usage: lilypalooza-plugin-validator --format clap --path <plugin>"@
}

/// Returns how the helper is called.
pub fn usage() -> (text: String)
    ensures
        text@ == usage_text(),
{
    "usage: lilypalooza-plugin-validator --format clap --path <plugin>".to_owned()
}

/// The argument at a position, if there is one.
pub open spec fn argument(args: Seq<Seq<char>>, at: int) -> Option<Seq<char>> {
    if 0 <= at < args.len() {
        Some(args[at])
    } else {
        None
    }
}

/// What the arguments from a position on ask for, after the options before it gave this format
/// and this path. An option takes the argument after it, if there is one, and the last option of
/// a kind counts.
pub open spec fn parsed(
    args: Seq<Seq<char>>,
    at: int,
    format: Option<Seq<char>>,
    path: Option<Seq<char>>,
) -> Result<Task, Seq<char>>
    decreases args.len() + 1 - at,
{
    if at >= args.len() {
        match (format, path) {
            (Some(f), Some(p)) => if f == clap::FORMAT@ {
                Ok(Task { format: f, path: encode_utf8(p) })
            } else {
                Err("unsupported plugin format: "@ + f)
            },
            _ => Err(usage_text()),
        }
    } else if args[at] == "--format"@ {
        parsed(args, at + 2, argument(args, at + 1), path)
    } else if args[at] == "--path"@ {
        parsed(args, at + 2, format, argument(args, at + 1))
    } else if args[at] == "--help"@ || args[at] == "-h"@ {
        Err(usage_text())
    } else {
        Err("unknown argument: "@ + args[at] + "\n"@ + usage_text())
    }
}

/// The contents of a task or a complaint.
pub open spec fn task_view(task: Result<ValidationTask, String>) -> Result<Task, Seq<char>> {
    match task {
        Ok(task) => Ok(task@),
        Err(error) => Err(error@),
    }
}

/// The texts of optional arguments.
spec fn text_of(text: Option<&String>) -> Option<Seq<char>> {
    match text {
        Some(t) => Some(t@),
        None => None,
    }
}

/// Returns the argument at a position, if there is one.
fn argument_at(args: &Vec<String>, at: usize) -> (text: Option<&String>)
    ensures
        text_of(text) == argument(all_texts(args@), at as int),
{
    if at < args.len() {
        Some(&args[at])
    } else {
        None
    }
}

/// Reads what the helper is asked to do from its arguments.
pub fn run(args: Vec<String>) -> (task: Result<ValidationTask, String>)
    ensures
        task_view(task) == parsed(all_texts(args@), 0, None, None),
{
    let ghost texts = all_texts(args@);
    let mut format: Option<&String> = None;
    let mut path: Option<&String> = None;
    let mut i: usize = 0;
    let end = args.len();
    while i < end
        invariant
            end == args@.len(),
            texts == all_texts(args@),
            parsed(texts, 0, None, None) == parsed(
                texts,
                i as int,
                text_of(format),
                text_of(path),
            ),
        decreases end - i,
    {
        let arg = args[i].as_str();
        assert(texts[i as int] == arg@);
        if same_text(arg, "--format") {
            if i == end - 1 {
                format = None;
                i = end;
                assert(parsed(texts, end + 1, text_of(format), text_of(path)) == parsed(
                    texts,
                    end as int,
                    text_of(format),
                    text_of(path),
                ));
            } else {
                format = argument_at(&args, i + 1);
                i = i + 2;
            }
        } else if same_text(arg, "--path") {
            if i == end - 1 {
                path = None;
                i = end;
                assert(parsed(texts, end + 1, text_of(format), text_of(path)) == parsed(
                    texts,
                    end as int,
                    text_of(format),
                    text_of(path),
                ));
            } else {
                path = argument_at(&args, i + 1);
                i = i + 2;
            }
        } else if same_text(arg, "--help") || same_text(arg, "-h") {
            return Err(usage());
        } else {
            let mut text = "unknown argument: ".to_owned();
            text.append(arg);
            text.append("\n");
            text.append(usage().as_str());
            return Err(text);
        }
    }
    match (format, path) {
        (Some(format), Some(path)) => {
            if same_text(format.as_str(), clap::FORMAT) {
                let path = path_from_text(path.clone());
                Ok(ValidationTask { format: format.clone(), path })
            } else {
                let mut text = "unsupported plugin format: ".to_owned();
                text.append(format.as_str());
                Err(text)
            }
        },
        _ => Err(usage()),
    }
}

impl ValidationTask {
    /// Makes the report on the task from what a probe found.
    pub fn report(
        self,
        outcome: Result<Vec<ClapPluginMetadata>, ClapProbeError>,
    ) -> (report: clap::ValidationReport)
        ensures
            report.format@ == self@.format,
            buffer_bytes(report.path) == self@.path,
            match (report.result, outcome) {
                (Ok(reported), Ok(plugins)) => clap_plugins(reported@) == clap_plugins(plugins@),
                (Err(text), Err(error)) => text@ == error@.text(),
                _ => false,
            },
    {
        let result = match outcome {
            Ok(plugins) => Ok(plugins),
            Err(error) => Err(error.message()),
        };
        clap::ValidationReport { format: self.format, path: self.path, result }
    }
}

/// The helper understands the arguments that a scanner gives it for a CLAP candidate, and it
/// tells a scanner that asks for another format that it does not support it.
pub proof fn law_helper_understands_scanner(format: PluginFormat, path: Seq<char>)
    ensures
        parsed(validator_arguments(format).push(path), 0, None, None) == match format {
            PluginFormat::Clap => Ok::<Task, Seq<char>>(
                Task { format: clap::FORMAT@, path: encode_utf8(path) },
            ),
            PluginFormat::Vst3 => Err("unsupported plugin format: "@ + crate::vst3::FORMAT@),
        },
{
    lemma_options_differ();
    let args = validator_arguments(format).push(path);
    reveal_with_fuel(parsed, 3);
    assert(args[0] == "--format"@);
    assert(args[2] == "--path"@);
    assert(args[3] == path);
    reveal_strlit("clap");
    reveal_strlit("vst3");
    assert("clap"@[0] != "vst3"@[0]);
}

proof fn lemma_options_differ()
    ensures
        "--format"@ != "--path"@,
{
    reveal_strlit("--format");
    reveal_strlit("--path");
    assert("--format"@.len() != "--path"@.len());
}

/// The two options can stand in either order.
pub proof fn law_options_in_any_order(format: Seq<char>, path: Seq<char>)
    ensures
        parsed(seq!["--format"@, format, "--path"@, path], 0, None, None) == parsed(
            seq!["--path"@, path, "--format"@, format],
            0,
            None,
            None,
        ),
{
    lemma_options_differ();
    reveal_with_fuel(parsed, 3);
}

/// Whether an argument is one of the options.
pub open spec fn is_option(arg: Seq<char>) -> bool {
    arg == "--format"@ || arg == "--path"@ || arg == "--help"@ || arg == "-h"@
}

proof fn lemma_all_options_differ()
    ensures
        "--format"@ != "--path"@,
        "--help"@ != "--format"@,
        "--help"@ != "--path"@,
        "-h"@ != "--format"@,
        "-h"@ != "--path"@,
{
    reveal_strlit("--format");
    reveal_strlit("--path");
    reveal_strlit("--help");
    reveal_strlit("-h");
    assert("--format"@.len() != "--path"@.len());
    assert("--help"@.len() != "--format"@.len());
    assert("--help"@[2] != "--path"@[2]);
    assert("-h"@.len() != "--format"@.len());
    assert("-h"@.len() != "--path"@.len());
}

/// The helper takes on CLAP candidates, each under its own path, and no other format; it asks for
/// both options.
pub proof fn law_helper_takes_on_clap_candidates(format: Seq<char>, path: Seq<char>)
    ensures
        parsed(seq!["--format"@, "clap"@, "--path"@, path], 0, None, None) matches Ok(task)
            && task.format == "clap"@ && task.path == encode_utf8(path),
        format != "clap"@ ==> parsed(seq!["--format"@, format, "--path"@, path], 0, None, None)
            == Err::<Task, Seq<char>>("unsupported plugin format: "@ + format),
        parsed(seq!["--format"@, format], 0, None, None) == Err::<Task, Seq<char>>(
            "usage: lilypalooza-plugin-validator --format clap --path <plugin>"@,
        ),
        parsed(seq!["--path"@, path], 0, None, None) == Err::<Task, Seq<char>>(
            "usage: lilypalooza-plugin-validator --format clap --path <plugin>"@,
        ),
        parsed(seq![], 0, None, None) == Err::<Task, Seq<char>>(
            "usage: lilypalooza-plugin-validator --format clap --path <plugin>"@,
        ),
{
    lemma_all_options_differ();
    reveal_with_fuel(parsed, 3);
}

/// A call for help, where an option may stand, is answered with the usage, and an argument that is
/// no option with that argument and the usage, whatever stands before and behind it.
pub proof fn law_odd_arguments_are_refused(
    args: Seq<Seq<char>>,
    at: int,
    format: Option<Seq<char>>,
    path: Option<Seq<char>>,
)
    requires
        0 <= at < args.len(),
    ensures
        args[at] == "--help"@ || args[at] == "-h"@ ==> parsed(args, at, format, path) == Err::<
            Task,
            Seq<char>,
        >("usage: lilypalooza-plugin-validator --format clap --path <plugin>"@),
        !is_option(args[at]) ==> parsed(args, at, format, path) == Err::<Task, Seq<char>>(
            "unknown argument: "@ + args[at] + "\n"@
                + "usage: lilypalooza-plugin-validator --format clap --path <plugin>"@,
        ),
{
    lemma_all_options_differ();
}

/// Of several options of one kind the last one counts.
pub proof fn law_last_option_counts(
    first: Seq<char>,
    second: Seq<char>,
    other: Seq<char>,
)
    ensures
        parsed(seq!["--path"@, first, "--path"@, second, "--format"@, other], 0, None, None)
            == parsed(seq!["--path"@, second, "--format"@, other], 0, None, None),
        parsed(seq!["--format"@, first, "--format"@, second, "--path"@, other], 0, None, None)
            == parsed(seq!["--format"@, second, "--path"@, other], 0, None, None),
{
    lemma_all_options_differ();
    reveal_with_fuel(parsed, 4);
}

/// Wherever an option may stand, it takes the argument after it, whatever that is, and where none
/// follows, what an earlier option of its kind gave is forgotten. At the end both options must
/// have been given, and the format must be the one that the helper knows.
pub proof fn law_option_takes_the_next_argument(
    args: Seq<Seq<char>>,
    at: int,
    format: Option<Seq<char>>,
    path: Option<Seq<char>>,
)
    requires
        0 <= at <= args.len(),
    ensures
        at < args.len() - 1 && args[at] == "--format"@ ==> parsed(args, at, format, path)
            == parsed(args, at + 2, Some(args[at + 1]), path),
        at < args.len() - 1 && args[at] == "--path"@ ==> parsed(args, at, format, path) == parsed(
            args,
            at + 2,
            format,
            Some(args[at + 1]),
        ),
        at == args.len() - 1 && (args[at] == "--format"@ || args[at] == "--path"@) ==> parsed(
            args,
            at,
            format,
            path,
        ) == Err::<Task, Seq<char>>(
            "usage: lilypalooza-plugin-validator --format clap --path <plugin>"@,
        ),
        at == args.len() ==> match (format, path) {
            (Some(f), Some(p)) => if f == "clap"@ {
                parsed(args, at, format, path) matches Ok(task) && task.format == f && task.path
                    == encode_utf8(p)
            } else {
                parsed(args, at, format, path) == Err::<Task, Seq<char>>(
                    "unsupported plugin format: "@ + f,
                )
            },
            _ => parsed(args, at, format, path) == Err::<Task, Seq<char>>(
                "usage: lilypalooza-plugin-validator --format clap --path <plugin>"@,
            ),
        },
{
    lemma_all_options_differ();
    reveal_with_fuel(parsed, 2);
}

} // verus!
