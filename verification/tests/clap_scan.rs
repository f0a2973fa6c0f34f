//! The scanner of a host that runs CLAP plugins only.

use std::path::{Path, PathBuf};
use std::sync::mpsc;

use lilypalooza_plugins::clap::{ClapPluginMetadata, ValidationReport};
use lilypalooza_plugins::clap_scan::state::{Drain, Poll};
use lilypalooza_plugins::clap_scan::validator::validate_candidate;
use lilypalooza_plugins::clap_scan::worker::{ScanAction, ScanReply};
use lilypalooza_plugins::clap_scan::{
    cache_path, candidates_for_root, scan_worker, validator_path, PluginCandidateFingerprint,
    PluginScanCache, PluginScanEvent, PluginScanState,
};
use lilypalooza_plugins::paths::DirListing;
use lilypalooza_plugins::registry::Role;
use lilypalooza_plugins::scan::cache::FileFacts;
use lilypalooza_plugins::scan::saving::SaveAction;
use lilypalooza_plugins::scan::validator::ValidatorOutput;
use lilypalooza_plugins::scan::{PluginFormat, PluginScanSummary, PluginSearchPath};

fn print(modified_millis: u128, len: u64) -> PluginCandidateFingerprint {
    PluginCandidateFingerprint {
        modified_millis,
        len,
    }
}

fn plugin(id: &str) -> ClapPluginMetadata {
    ClapPluginMetadata {
        processor_id: format!("clap:/a.clap#{id}"),
        clap_id: id.to_string(),
        name: id.to_string(),
        vendor: None,
        version: None,
        features: Vec::new(),
        role: Role::Effect,
        path: PathBuf::from("/a.clap"),
        library_path: PathBuf::from("/a.clap"),
    }
}

fn root(format: PluginFormat, path: &str, enabled: bool) -> PluginSearchPath {
    PluginSearchPath {
        format,
        path: PathBuf::from(path),
        enabled,
    }
}

fn log(line: &str) -> PluginScanEvent {
    PluginScanEvent::Log(line.to_string())
}

fn log_lines(events: &[PluginScanEvent]) -> Vec<String> {
    let mut lines = Vec::new();
    for event in events {
        if let PluginScanEvent::Log(line) = event {
            lines.push(line.clone());
        }
    }
    lines
}

#[test]
fn plugin_scan_cache_marks_changed_candidate_as_stale() {
    let path = PathBuf::from("/tmp/test.clap");
    let mut cache = PluginScanCache::default();
    let old = PluginCandidateFingerprint {
        modified_millis: 10,
        len: 20,
    };
    let new = PluginCandidateFingerprint {
        modified_millis: 11,
        len: 20,
    };

    assert!(cache.is_stale(&path, old));
    cache.mark_checked(path.clone(), old, true, Vec::new());
    assert!(!cache.is_stale(&path, old));
    assert!(cache.is_stale(&path, new));
}

#[test]
fn plugin_scan_clap_root_collects_only_clap_candidates() {
    let dir = PathBuf::from("/tmp/roots");
    let root = PluginSearchPath {
        format: PluginFormat::Clap,
        path: dir.clone(),
        enabled: true,
    };
    let listing = DirListing::Entries(vec![Ok(dir.join("a.clap")), Ok(dir.join("b.vst3"))]);

    let candidates = candidates_for_root(&root, listing).expect("scan root");

    assert_eq!(candidates, vec![dir.join("a.clap")]);
}

#[test]
fn vst3_root_has_no_candidates_here() {
    let listing = DirListing::Entries(vec![Ok(PathBuf::from("/b.vst3")), Err("x".to_string())]);
    assert_eq!(
        candidates_for_root(&root(PluginFormat::Vst3, "/", true), listing),
        Ok(Vec::<PathBuf>::new())
    );
}

#[test]
fn only_valid_unchanged_candidates_have_cached_plugins() {
    let path = Path::new("/a.clap");
    let mut cache = PluginScanCache::default();
    assert!(cache.cached_clap_plugins(path, print(1, 1)).is_none());
    cache.mark_checked(path.to_path_buf(), print(1, 1), true, vec![plugin("one")]);
    assert_eq!(
        cache.cached_clap_plugins(path, print(1, 1)),
        Some(vec![plugin("one")])
    );
    assert!(cache.cached_clap_plugins(path, print(2, 1)).is_none());
    cache.mark_checked(path.to_path_buf(), print(1, 1), false, vec![plugin("one")]);
    assert!(cache.cached_clap_plugins(path, print(1, 1)).is_none());
}

#[test]
fn fingerprint_time_is_not_cut_off() {
    let millis = u128::from(u64::MAX) + 1;
    assert_eq!(
        PluginCandidateFingerprint::from_path(Ok(FileFacts {
            modified_millis: Some(millis),
            len: 3,
        })),
        Ok(print(millis, 3))
    );
    assert_eq!(
        PluginCandidateFingerprint::from_path(Ok(FileFacts {
            modified_millis: None,
            len: 3,
        })),
        Ok(print(0, 3))
    );
    assert_eq!(
        PluginCandidateFingerprint::from_path(Err("gone".to_string())),
        Err("gone".to_string())
    );
}

#[test]
fn cache_file_stands_in_the_config_directory() {
    assert_eq!(
        cache_path(Some(Path::new("/home/me/.config/lilypalooza"))),
        Ok(PathBuf::from("/home/me/.config/lilypalooza/plugin-cache.ron"))
    );
    assert_eq!(
        cache_path(None),
        Err("Failed to resolve user config directory".to_string())
    );
    let cache = PluginScanCache::load(None);
    assert_eq!(cache.entries.len(), 0);
    assert!(matches!(
        cache.save(cache_path(None)),
        Err(text) if text == "Failed to resolve user config directory"
    ));
    let Ok((_, action)) = cache.save(Ok(PathBuf::from("/cfg/plugin-cache.ron"))) else {
        panic!("expected a request");
    };
    assert!(matches!(action, SaveAction::CreateDirectory(path) if path == Path::new("/cfg")));
}

#[test]
fn validator_stands_beside_the_program() {
    assert_eq!(
        validator_path(Some(PathBuf::from("/opt/lily/bin/lilypalooza.exe")), ".exe"),
        PathBuf::from("/opt/lily/bin/lilypalooza-plugin-validator.exe")
    );
    assert_eq!(
        validator_path(None, ""),
        PathBuf::from("lilypalooza-plugin-validator")
    );
}

#[test]
fn validator_output_is_a_report_only_on_success() {
    let report = |_: &[u8]| -> Result<ValidationReport, String> {
        Ok(ValidationReport {
            format: "clap".to_string(),
            path: PathBuf::from("/a.clap"),
            result: Ok(vec![plugin("one")]),
        })
    };
    let refusal = |_: &[u8]| -> Result<ValidationReport, String> {
        Ok(ValidationReport {
            format: "clap".to_string(),
            path: PathBuf::from("/a.clap"),
            result: Err("no entry".to_string()),
        })
    };
    let garbage = |_: &[u8]| -> Result<ValidationReport, String> { Err("garbage".to_string()) };
    let run = |success: bool| {
        Ok(ValidatorOutput {
            success,
            stdout: b"{}".to_vec(),
            stderr: b" crashed \n".to_vec(),
        })
    };
    let validator = Path::new("/bin/v");

    assert_eq!(
        validate_candidate(PluginFormat::Clap, validator, run(true), report),
        Ok(vec![plugin("one")])
    );
    assert_eq!(
        validate_candidate(PluginFormat::Clap, validator, run(false), report),
        Err("crashed".to_string())
    );
    assert_eq!(
        validate_candidate(PluginFormat::Clap, validator, run(true), refusal),
        Err("no entry".to_string())
    );
    assert_eq!(
        validate_candidate(PluginFormat::Clap, validator, run(true), garbage),
        Err("garbage".to_string())
    );
    assert_eq!(
        validate_candidate(PluginFormat::Clap, validator, Err("gone".to_string()), report),
        Err("failed to run validator /bin/v: gone".to_string())
    );
    assert_eq!(
        validate_candidate(PluginFormat::Vst3, validator, run(true), report),
        Err("VST3 adapter is not implemented yet".to_string())
    );
}

#[test]
fn drain_goes_on_after_the_end_of_the_scan() {
    let (sender, receiver) = mpsc::channel();
    let mut state = PluginScanState::default();
    assert!(!state.is_active());
    assert!(state.drain_events().is_empty());
    state.start(receiver);
    assert!(state.is_active());
    sender.send(log("one")).expect("send");
    assert_eq!(state.drain_events().len(), 1);
    assert!(state.is_active());

    sender
        .send(PluginScanEvent::Finished {
            summary: PluginScanSummary::default(),
            cache: PluginScanCache::default(),
        })
        .expect("send");
    sender.send(log("late")).expect("send");
    let events = state.drain_events();

    assert_eq!(log_lines(&events), vec!["late"]);
    assert_eq!(events.len(), 2);
    assert!(!state.is_active());
    assert!(state.drain_events().is_empty());
}

#[test]
fn clap_start_listens_to_the_new_scan_alone() {
    let (old_sender, old_receiver) = mpsc::channel();
    old_sender.send(log("old")).expect("send");
    let (sender, receiver) = mpsc::channel();
    sender.send(log("new")).expect("send");
    let mut state = PluginScanState::default();
    state.start(old_receiver);
    state.start(receiver);

    assert_eq!(log_lines(&state.drain_events()), vec!["new"]);
    assert!(old_sender.send(log("late")).is_err());
}

#[test]
fn clap_drain_ignores_polls_it_did_not_ask_for() {
    let mut drain = Drain::new(true);
    drain.accept(Poll::Event(log("one")));
    assert!(drain.wants_more());
    drain.accept(Poll::Disconnected);
    assert!(!drain.wants_more());
    drain.accept(Poll::Event(log("two")));

    let (events, active) = drain.finish();

    assert_eq!(log_lines(&events), vec!["one"]);
    assert!(active);
}

#[test]
fn listed_clap_cache_is_rebuilt() {
    let path = Path::new("/a.clap");
    let mut cache = PluginScanCache::default();
    cache.mark_checked(path.to_path_buf(), print(1, 1), true, vec![plugin("one")]);
    cache.mark_checked(PathBuf::from("/b.clap"), print(2, 2), false, Vec::new());

    let mut entries = cache.clone().to_entries();
    entries.reverse();
    let loaded = PluginScanCache::load(Some(entries));

    assert_eq!(loaded.entries.len(), 2);
    assert_eq!(
        loaded.cached_clap_plugins(path, print(1, 1)),
        Some(vec![plugin("one")])
    );
    assert!(!loaded.is_stale(Path::new("/b.clap"), print(2, 2)));
}

#[test]
fn lost_sender_leaves_the_scan_active_here() {
    let (sender, receiver) = mpsc::channel();
    let mut state = PluginScanState::default();
    state.start(receiver);
    sender.send(log("one")).expect("send");
    drop(sender);

    assert_eq!(state.drain_events().len(), 1);
    assert!(state.drain_events().is_empty());
    assert!(state.is_active());
}

fn run_scan(
    roots: Vec<PluginSearchPath>,
    cache: PluginScanCache,
    found: Result<Vec<PathBuf>, String>,
    fingerprint: impl Fn(&Path) -> Result<PluginCandidateFingerprint, String>,
    validate: impl Fn(&Path) -> Result<Vec<ClapPluginMetadata>, String>,
) -> Vec<PluginScanEvent> {
    let (mut worker, step) = scan_worker(roots, cache);
    let mut events = step.events;
    let mut action = step.action;
    loop {
        let reply = match action {
            ScanAction::FindCandidates(_) => ScanReply::Candidates(found.clone()),
            ScanAction::FingerprintCandidate(path) => ScanReply::Fingerprint(fingerprint(&path)),
            ScanAction::Validate { format, path } => {
                assert_eq!(format, PluginFormat::Clap);
                ScanReply::Verdict(validate(&path))
            }
            ScanAction::Finish => return events,
            ScanAction::Wait => panic!("an answer was given"),
        };
        assert!(worker.has_room(&reply));
        let step = worker.try_resume(reply).expect("counters have room");
        events.extend(step.events);
        action = step.action;
    }
}

#[test]
fn scan_decides_on_every_candidate() {
    let mut cache = PluginScanCache::default();
    cache.mark_checked(PathBuf::from("/d.clap"), print(1, 1), true, vec![plugin("d")]);
    cache.mark_checked(PathBuf::from("/e.clap"), print(1, 1), false, Vec::new());
    let events = run_scan(
        vec![
            root(PluginFormat::Clap, "/off", false),
            root(PluginFormat::Clap, "/", true),
        ],
        cache,
        Ok(["/a.clap", "/b.clap", "/c.clap", "/d.clap", "/e.clap", "/f.clap"]
            .iter()
            .map(PathBuf::from)
            .collect()),
        |path| {
            if path == Path::new("/b.clap") {
                Err("gone".to_string())
            } else {
                Ok(print(1, 1))
            }
        },
        |path| {
            if path == Path::new("/a.clap") {
                Ok(vec![plugin("one"), plugin("two")])
            } else if path == Path::new("/f.clap") {
                Ok(Vec::new())
            } else {
                Err("crashed".to_string())
            }
        },
    );

    assert_eq!(
        log_lines(&events),
        vec![
            "Scanning plugins with 1 validator process",
            "Validated 2 CLAP plugin(s) from /a.clap",
            "Plugin scan skipped /b.clap: gone",
            "Invalid plugin /c.clap: crashed",
            "Validated 0 CLAP plugin(s) from /f.clap",
            "Plugin scan finished: 6 candidate(s), 3 plugin(s), 2 invalid",
        ]
    );
    let Some(PluginScanEvent::Finished { summary, cache }) = events.last() else {
        panic!("expected the end of the scan");
    };
    assert_eq!(summary.valid_plugins, 3);
    assert!(!cache.is_stale(Path::new("/c.clap"), print(1, 1)));
    assert_eq!(
        cache.cached_clap_plugins(Path::new("/f.clap"), print(1, 1)),
        Some(Vec::new())
    );
}

#[test]
fn scan_skips_a_root_that_cannot_be_read() {
    let events = run_scan(
        vec![root(PluginFormat::Clap, "/denied", true)],
        PluginScanCache::default(),
        Err("denied".to_string()),
        |_| panic!("no candidate"),
        |_| panic!("no candidate"),
    );

    assert_eq!(
        log_lines(&events),
        vec![
            "Scanning plugins with 1 validator process",
            "Plugin scan skipped /denied: denied",
            "Plugin scan finished: 0 candidate(s), 0 plugin(s), 0 invalid",
        ]
    );
}

#[test]
fn scan_without_enabled_roots_ends_at_once() {
    let (mut worker, step) = scan_worker(
        vec![root(PluginFormat::Clap, "/off", false)],
        PluginScanCache::default(),
    );
    assert_eq!(step.events.len(), 3);
    assert!(matches!(step.action, ScanAction::Finish));
    let step = worker.resume(ScanReply::Candidates(Ok(Vec::new())));
    assert!(step.events.is_empty());
    assert!(matches!(step.action, ScanAction::Finish));
}
