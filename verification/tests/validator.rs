//! The command line of the validation helper.

use std::path::PathBuf;

use lilypalooza_plugins::clap::ClapProbeError;
use lilypalooza_plugins::validator::{run, usage, ValidationTask};

fn args(list: &[&str]) -> Vec<String> {
    list.iter().map(|arg| arg.to_string()).collect()
}

fn clap_task(path: &str) -> ValidationTask {
    ValidationTask {
        format: "clap".to_string(),
        path: PathBuf::from(path),
    }
}

#[test]
fn options_are_read_in_any_order() {
    assert_eq!(
        run(args(&["--format", "clap", "--path", "/a.clap"])),
        Ok(clap_task("/a.clap"))
    );
    assert_eq!(
        run(args(&["--path", "/a.clap", "--format", "clap"])),
        Ok(clap_task("/a.clap"))
    );
}

#[test]
fn last_option_of_a_kind_counts() {
    assert_eq!(
        run(args(&["--format", "x", "--path", "/b", "--format", "clap", "--path", "/a.clap"])),
        Ok(clap_task("/a.clap"))
    );
    assert_eq!(
        run(args(&["--format", "clap", "--path", "/a.clap", "--format"])),
        Err(usage())
    );
    assert_eq!(
        run(args(&["--format", "clap", "--path", "/a.clap", "--path"])),
        Err(usage())
    );
}

#[test]
fn options_take_whatever_follows() {
    assert_eq!(
        run(args(&["--path", "--format", "--format", "clap"])),
        Ok(clap_task("--format"))
    );
}

#[test]
fn missing_options_and_help_show_the_usage() {
    assert_eq!(
        usage(),
        "usage: lilypalooza-plugin-validator --format clap --path <plugin>"
    );
    for list in [
        &[][..],
        &["--format", "clap"][..],
        &["--path", "/a.clap"][..],
        &["--help"][..],
        &["-h"][..],
        &["--format", "clap", "--path", "/a.clap", "-h"][..],
    ] {
        assert_eq!(run(args(list)), Err(usage()));
    }
}

#[test]
fn unknown_arguments_are_named() {
    assert_eq!(
        run(args(&["--format", "clap", "extra", "--path", "/a.clap"])),
        Err(format!("unknown argument: extra\n{}", usage()))
    );
}

#[test]
fn other_formats_are_refused() {
    assert_eq!(
        run(args(&["--format", "vst3", "--path", "/a.vst3"])),
        Err("unsupported plugin format: vst3".to_string())
    );
    assert_eq!(
        run(args(&["--format", "CLAP", "--path", "/a.clap"])),
        Err("unsupported plugin format: CLAP".to_string())
    );
}

#[test]
fn report_carries_the_task_and_the_outcome() {
    let report = clap_task("/a.clap").report(Ok(Vec::new()));
    assert_eq!(report.format, "clap");
    assert_eq!(report.path, PathBuf::from("/a.clap"));
    assert_eq!(report.result, Ok(Vec::new()));

    let report = clap_task("/a.clap").report(Err(ClapProbeError::InitFailed));
    assert_eq!(
        report.result,
        Err("CLAP entry initialization failed".to_string())
    );
}
