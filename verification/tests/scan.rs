//! The scanner: its cache, its candidates, the validator's reports and whole scans.

use std::path::{Path, PathBuf};

use serde::Deserialize;
use serde_json::Value;

use lilypalooza_plugins::clap;
use lilypalooza_plugins::clap::ClapPluginMetadata;
use lilypalooza_plugins::paths::{DirListing, SearchAction};
use lilypalooza_plugins::registry::Role;
use lilypalooza_plugins::scan::cache::FileFacts;
use lilypalooza_plugins::scan::saving::{SaveAction, SaveReply};
use lilypalooza_plugins::scan::validator::{
    parse_clap_validator_output, parse_validator_stdout, parse_vst3_validator_output,
    validate_candidate, validator_args, ValidatedPlugins, ValidatorOutput,
};
use lilypalooza_plugins::scan::worker::{ScanAction, ScanReply, ScanStep, ScanWorker};
use lilypalooza_plugins::scan::{
    candidates_for_root, reuse_cached_valid_candidate, scan_worker, CachedCandidateResult,
    CachedPluginCandidate, PluginCandidateFingerprint, PluginFormat, PluginScanCache,
    PluginScanEvent, PluginScanSummary, PluginSearchPath,
};
use lilypalooza_plugins::vst3;
use lilypalooza_plugins::vst3::Vst3PluginMetadata;

fn test_path(file: &str) -> PathBuf {
    PathBuf::from("/tmp/lilypalooza-plugin-scan").join(file)
}

fn print(modified_millis: u64, len: u64) -> PluginCandidateFingerprint {
    PluginCandidateFingerprint {
        modified_millis,
        len,
    }
}

fn text(value: &Value, key: &str) -> Result<String, String> {
    match value.get(key).and_then(Value::as_str) {
        Some(text) => Ok(text.to_string()),
        None => Err(format!("missing {key}")),
    }
}

fn optional_text(value: &Value, key: &str) -> Option<String> {
    value.get(key).and_then(Value::as_str).map(str::to_string)
}

fn role(value: &Value) -> Result<Role, String> {
    match text(value, "role")?.as_str() {
        "instrument" => Ok(Role::Instrument),
        "effect" => Ok(Role::Effect),
        other => Err(format!("unknown role {other}")),
    }
}

fn vst3_plugin(value: &Value) -> Result<Vst3PluginMetadata, String> {
    Ok(Vst3PluginMetadata {
        processor_id: text(value, "processor_id")?,
        class_id: text(value, "class_id")?,
        name: text(value, "name")?,
        vendor: optional_text(value, "vendor"),
        version: optional_text(value, "version"),
        category: optional_text(value, "category"),
        role: role(value)?,
        path: PathBuf::from(text(value, "path")?),
        library_path: PathBuf::from(text(value, "library_path")?),
    })
}

fn clap_plugin(value: &Value) -> Result<ClapPluginMetadata, String> {
    Ok(ClapPluginMetadata {
        processor_id: text(value, "processor_id")?,
        clap_id: text(value, "clap_id")?,
        name: text(value, "name")?,
        vendor: optional_text(value, "vendor"),
        version: optional_text(value, "version"),
        features: Vec::new(),
        role: role(value)?,
        path: PathBuf::from(text(value, "path")?),
        library_path: PathBuf::from(text(value, "library_path")?),
    })
}

fn outcome<P>(
    value: &Value,
    plugin: fn(&Value) -> Result<P, String>,
) -> Result<Result<Vec<P>, String>, String> {
    let result = value.get("result").ok_or("missing result")?;
    if let Some(error) = result.get("Err").and_then(Value::as_str) {
        return Ok(Err(error.to_string()));
    }
    let list = result.get("Ok").and_then(Value::as_array).ok_or("missing Ok")?;
    let mut plugins = Vec::new();
    for entry in list {
        plugins.push(plugin(entry)?);
    }
    Ok(Ok(plugins))
}

fn vst3_report(value: Value) -> Result<vst3::ValidationReport, String> {
    Ok(vst3::ValidationReport {
        format: text(&value, "format")?,
        path: PathBuf::from(text(&value, "path")?),
        result: outcome(&value, vst3_plugin)?,
    })
}

fn clap_report(value: Value) -> Result<clap::ValidationReport, String> {
    Ok(clap::ValidationReport {
        format: text(&value, "format")?,
        path: PathBuf::from(text(&value, "path")?),
        result: outcome(&value, clap_plugin)?,
    })
}

fn whole_value(bytes: &[u8]) -> Result<Value, String> {
    serde_json::from_slice(bytes).map_err(|error| error.to_string())
}

fn first_value(bytes: &[u8]) -> Result<Value, String> {
    let mut deserializer = serde_json::Deserializer::from_slice(bytes);
    Value::deserialize(&mut deserializer).map_err(|error| error.to_string())
}

fn whole_vst3(bytes: &[u8]) -> Result<vst3::ValidationReport, String> {
    whole_value(bytes).and_then(vst3_report)
}

fn first_vst3(bytes: &[u8]) -> Result<vst3::ValidationReport, String> {
    first_value(bytes).and_then(vst3_report)
}

fn whole_clap(bytes: &[u8]) -> Result<clap::ValidationReport, String> {
    whole_value(bytes).and_then(clap_report)
}

fn first_clap(bytes: &[u8]) -> Result<clap::ValidationReport, String> {
    first_value(bytes).and_then(clap_report)
}

fn object(fields: Vec<(&str, Value)>) -> Value {
    let mut map = serde_json::Map::new();
    for (key, value) in fields {
        map.insert(key.to_string(), value);
    }
    Value::Object(map)
}

fn path_value(path: &Path) -> Value {
    Value::String(path.display().to_string())
}

fn string(text: &str) -> Value {
    Value::String(text.to_string())
}

fn vst3_report_stdout(path: &Path, role: &str) -> Vec<u8> {
    object(vec![
        ("format", string("vst3")),
        ("path", path_value(path)),
        (
            "result",
            object(vec![(
                "Ok",
                Value::Array(vec![object(vec![
                    (
                        "processor_id",
                        Value::String(format!(
                            "vst3:{}#00112233445566778899aabbccddeeff",
                            path.display()
                        )),
                    ),
                    ("class_id", string("00112233445566778899aabbccddeeff")),
                    ("name", string("Plugin")),
                    ("vendor", string("Vendor")),
                    ("version", Value::Null),
                    ("category", Value::Null),
                    ("role", string(role)),
                    ("path", path_value(path)),
                    ("library_path", path_value(path)),
                ])]),
            )]),
        ),
    ])
    .to_string()
    .into_bytes()
}

fn vst3_metadata(path: &Path) -> Vst3PluginMetadata {
    Vst3PluginMetadata {
        processor_id: format!("vst3:{}#00", path.display()),
        class_id: "00".to_string(),
        name: "Plugin".to_string(),
        vendor: None,
        version: None,
        category: None,
        role: Role::Effect,
        path: path.to_path_buf(),
        library_path: path.to_path_buf(),
    }
}

fn clap_metadata(path: &Path, id: &str) -> ClapPluginMetadata {
    ClapPluginMetadata {
        processor_id: format!("clap:{}#{id}", path.display()),
        clap_id: id.to_string(),
        name: id.to_string(),
        vendor: None,
        version: None,
        features: Vec::new(),
        role: Role::Effect,
        path: path.to_path_buf(),
        library_path: path.to_path_buf(),
    }
}

fn root(format: PluginFormat, path: &Path, enabled: bool) -> PluginSearchPath {
    PluginSearchPath {
        format,
        path: path.to_path_buf(),
        enabled,
    }
}

fn log_lines(events: &[PluginScanEvent]) -> Vec<String> {
    let mut lines = Vec::new();
    for event in events {
        if let PluginScanEvent::Log(line) = event {
            lines.push(line.clone());
        }
    }
    lines
}

#[test]
fn lib_cache_marks_changed_candidate_as_stale() {
    let path = test_path("test.clap");
    let mut cache = PluginScanCache::default();
    let old = PluginCandidateFingerprint {
        modified_millis: 10,
        len: 20,
    };
    let new = PluginCandidateFingerprint {
        modified_millis: 11,
        len: 20,
    };

    assert!(cache.is_stale(&path, old));
    cache.mark_checked(path.clone(), old, None, true, Vec::new(), Vec::new());
    assert!(!cache.is_stale(&path, old));
    assert!(cache.is_stale(&path, new));
}

#[test]
fn cache_marks_changed_validator_as_stale() {
    let path = test_path("test.clap");
    let candidate = PluginCandidateFingerprint {
        modified_millis: 10,
        len: 20,
    };
    let old_validator = Some(PluginCandidateFingerprint {
        modified_millis: 1,
        len: 2,
    });
    let new_validator = Some(PluginCandidateFingerprint {
        modified_millis: 2,
        len: 2,
    });
    let mut cache = PluginScanCache::default();

    cache.mark_checked(
        path.clone(),
        candidate,
        old_validator,
        true,
        Vec::new(),
        Vec::new(),
    );

    assert!(!cache.is_stale_for_validator(&path, candidate, old_validator));
    assert!(cache.is_stale_for_validator(&path, candidate, new_validator));
}

#[test]
fn unchanged_candidate_is_not_stale_whatever_validator_checked_it() {
    let path = test_path("test.clap");
    let mut cache = PluginScanCache::default();
    cache.mark_checked(
        path.clone(),
        print(10, 20),
        Some(print(1, 2)),
        true,
        Vec::new(),
        Vec::new(),
    );

    assert!(!cache.is_stale(&path, print(10, 20)));
    assert!(cache.is_stale(&path, print(10, 21)));
    assert!(cache.is_stale(&test_path("other.clap"), print(10, 20)));
    assert!(cache.is_stale_for_validator(&path, print(10, 20), None));
}

#[test]
fn cache_keeps_one_entry_for_two_spellings_of_a_path() {
    let mut cache = PluginScanCache::default();
    let other = test_path("other.clap");
    cache.mark_checked(
        PathBuf::from("/Plug/./a.clap"),
        print(1, 1),
        None,
        false,
        Vec::new(),
        Vec::new(),
    );
    cache.mark_checked(
        PathBuf::from("/Plug//a.clap/"),
        print(2, 2),
        None,
        true,
        vec![clap_metadata(Path::new("/Plug/a.clap"), "org.a")],
        Vec::new(),
    );

    assert_eq!(cache.entries.len(), 1);
    assert_eq!(cache.entries.entry_at(0).0, Path::new("/Plug/a.clap"));
    assert!(cache.is_stale(Path::new("/Plug/a.clap"), print(1, 1)));
    assert!(!cache.is_stale(Path::new("/Plug/a.clap"), print(2, 2)));
    assert!(cache.is_stale(&other, print(2, 2)));
}

#[test]
fn cached_candidates_are_told_apart() {
    let path = test_path("a.clap");
    let mut cache = PluginScanCache::default();
    assert!(cache.cached_candidate(&path, print(1, 1)).is_none());

    cache.mark_checked(path.clone(), print(1, 1), None, true, Vec::new(), Vec::new());
    assert!(matches!(
        cache.cached_candidate(&path, print(1, 1)),
        Some(CachedCandidateResult::Invalid)
    ));

    cache.mark_checked(
        path.clone(),
        print(1, 1),
        None,
        true,
        vec![clap_metadata(&path, "org.a")],
        vec![vst3_metadata(&path)],
    );
    assert!(matches!(
        cache.cached_candidate(&path, print(1, 1)),
        Some(CachedCandidateResult::ValidClapPlugins(plugins)) if plugins[0].clap_id == "org.a"
    ));
    assert!(cache.cached_candidate(&path, print(1, 2)).is_none());

    cache.mark_checked(
        path.clone(),
        print(1, 1),
        None,
        true,
        Vec::new(),
        vec![vst3_metadata(&path)],
    );
    assert!(matches!(
        cache.cached_candidate(&path, print(1, 1)),
        Some(CachedCandidateResult::ValidVst3Plugins(plugins)) if plugins.len() == 1
    ));

    cache.mark_checked(
        path.clone(),
        print(1, 1),
        None,
        false,
        vec![clap_metadata(&path, "org.a")],
        Vec::new(),
    );
    assert!(matches!(
        cache.cached_candidate(&path, print(1, 1)),
        Some(CachedCandidateResult::Invalid)
    ));
}

#[test]
fn fingerprints_keep_time_and_length() {
    let facts = |modified_millis| {
        Ok(FileFacts {
            modified_millis,
            len: 9,
        })
    };
    assert_eq!(
        PluginCandidateFingerprint::from_path(facts(Some(7))),
        Ok(print(7, 9))
    );
    assert_eq!(
        PluginCandidateFingerprint::from_path(facts(None)),
        Ok(print(0, 9))
    );
    assert_eq!(
        PluginCandidateFingerprint::from_path(facts(Some(u128::from(u64::MAX) + 1))),
        Ok(print(u64::MAX, 9))
    );
    assert_eq!(
        PluginCandidateFingerprint::from_path(Err("denied".to_string())),
        Err("denied".to_string())
    );
}

#[test]
fn default_root_is_an_enabled_clap_root() {
    assert_eq!(
        PluginSearchPath::default(),
        root(PluginFormat::Clap, Path::new(""), true)
    );
}

#[test]
fn lib_clap_root_collects_only_clap_candidates() {
    let dir = test_path("");
    let root = PluginSearchPath {
        format: PluginFormat::Clap,
        path: dir.clone(),
        enabled: true,
    };

    let (mut search, action) = candidates_for_root(&root);
    assert!(matches!(action, SearchAction::List(path) if path == dir));
    let SearchAction::Finish(found) = search.resume(DirListing::Entries(vec![
        Ok(dir.join("a.clap")),
        Ok(dir.join("b.vst3")),
    ])) else {
        panic!("expected the candidates");
    };
    let candidates = found.expect("scan root");

    assert_eq!(candidates, vec![dir.join("a.clap")]);
    assert!(matches!(
        search.resume(DirListing::NotADirectory),
        SearchAction::Wait
    ));
}

#[test]
fn vst3_root_collects_vst3_candidates_recursively() {
    let dir = test_path("");
    let nested = dir.join("Vendor").join("b.vst3");
    let root = PluginSearchPath {
        format: PluginFormat::Vst3,
        path: dir.clone(),
        enabled: true,
    };

    let (mut search, mut action) = candidates_for_root(&root);
    let found = loop {
        action = match action {
            SearchAction::List(path) if path == dir => search.resume(DirListing::Entries(vec![
                Ok(dir.join("a.clap")),
                Ok(dir.join("Vendor")),
            ])),
            SearchAction::List(path) if path == dir.join("Vendor") => {
                search.resume(DirListing::Entries(vec![Ok(nested.clone())]))
            }
            SearchAction::List(path) => {
                assert_eq!(path, dir.join("a.clap"));
                search.resume(DirListing::NotADirectory)
            }
            SearchAction::Finish(found) => break found,
            SearchAction::Wait => panic!("a listing was given"),
        };
    };
    let candidates = found.expect("scan root");

    assert_eq!(candidates, vec![nested]);
}

fn ron_text(text: &str) -> ron::Value {
    ron::Value::String(text.to_string())
}

/// The entries of a cache as text: for each path its fingerprint.
fn serialized(entries: &[(PathBuf, CachedPluginCandidate)]) -> Result<String, String> {
    let mut list = Vec::new();
    for (path, entry) in entries {
        list.push(ron::Value::Seq(vec![
            ron_text(&path.display().to_string()),
            ron_text(&entry.fingerprint.modified_millis.to_string()),
            ron_text(&entry.fingerprint.len.to_string()),
        ]));
    }
    ron::ser::to_string_pretty(&ron::Value::Seq(list), ron::ser::PrettyConfig::new())
        .map_err(|error| error.to_string())
}

fn field(value: &ron::Value) -> Option<String> {
    match value {
        ron::Value::String(text) => Some(text.clone()),
        _ => None,
    }
}

fn deserialized(contents: &str) -> Option<Vec<(PathBuf, CachedPluginCandidate)>> {
    let Ok(ron::Value::Seq(list)) = ron::from_str::<ron::Value>(contents) else {
        return None;
    };
    let mut entries = Vec::new();
    for entry in list {
        let ron::Value::Seq(fields) = entry else {
            return None;
        };
        entries.push((
            PathBuf::from(field(&fields[0])?),
            CachedPluginCandidate {
                fingerprint: print(
                    field(&fields[1])?.parse().ok()?,
                    field(&fields[2])?.parse().ok()?,
                ),
                validator_fingerprint: None,
                valid: true,
                clap_plugins: Vec::new(),
                vst3_plugins: Vec::new(),
            },
        ));
    }
    Some(entries)
}

#[test]
fn cache_roundtrips_from_explicit_path() {
    let path = test_path("plugin-cache.ron");
    let candidate = test_path("test.clap");
    let fingerprint = PluginCandidateFingerprint {
        modified_millis: 7,
        len: 9,
    };
    let mut cache = PluginScanCache::default();
    cache.mark_checked(
        candidate.clone(),
        fingerprint,
        None,
        true,
        Vec::new(),
        Vec::new(),
    );

    let mut file = None;
    let (mut save, mut action) = cache.save_to(&path);
    let saved = loop {
        action = match action {
            SaveAction::CreateDirectory(directory) => {
                assert_eq!(directory, test_path(""));
                save.resume(SaveReply::Directory(Ok(())))
            }
            SaveAction::Serialize(entries) => {
                save.resume(SaveReply::Contents(serialized(&entries)))
            }
            SaveAction::Write {
                path: target,
                contents,
            } => {
                assert_eq!(target, path);
                file = Some(contents);
                save.resume(SaveReply::Written(Ok(())))
            }
            SaveAction::Done(outcome) => break outcome,
            SaveAction::Wait => panic!("an answer was given"),
        };
    };
    saved.expect("cache should save");
    let loaded = PluginScanCache::load_from(deserialized(&file.expect("file was written")));

    assert!(!loaded.is_stale(&candidate, fingerprint));
}

#[test]
fn listed_cache_is_rebuilt_in_any_order() {
    let path = Path::new("/Plug/./a.clap");
    let mut cache = PluginScanCache::default();
    cache.mark_checked(
        path.to_path_buf(),
        print(1, 2),
        Some(print(3, 4)),
        true,
        vec![clap_metadata(path, "org.a")],
        vec![vst3_metadata(path)],
    );
    cache.mark_checked(test_path("b.clap"), print(5, 6), None, false, Vec::new(), Vec::new());

    let copy = cache.clone();
    let mut entries = copy.to_entries();
    entries.reverse();
    let rebuilt = PluginScanCache::from_entries(entries);

    assert_eq!(rebuilt.entries.len(), 2);
    assert!(!rebuilt.is_stale_for_validator(path, print(1, 2), Some(print(3, 4))));
    assert!(!rebuilt.is_stale(&test_path("b.clap"), print(5, 6)));
    assert!(matches!(
        rebuilt.cached_candidate(path, print(1, 2)),
        Some(CachedCandidateResult::ValidClapPlugins(plugins)) if plugins[0].clap_id == "org.a"
    ));
    assert_eq!(rebuilt.entries.get(path).map(|entry| entry.vst3_plugins.len()), Some(1));
}

#[test]
fn later_entry_for_the_same_path_counts() {
    let candidate = |len| CachedPluginCandidate {
        fingerprint: print(1, len),
        validator_fingerprint: None,
        valid: true,
        clap_plugins: Vec::new(),
        vst3_plugins: Vec::new(),
    };
    let cache = PluginScanCache::load_from(Some(vec![
        (PathBuf::from("/a/./b"), candidate(1)),
        (PathBuf::from("/a/b"), candidate(2)),
    ]));
    assert_eq!(cache.entries.len(), 1);
    assert!(!cache.is_stale(Path::new("/a/b"), print(1, 2)));
}

#[test]
fn missing_cache_file_makes_an_empty_cache() {
    let cache = PluginScanCache::load_from(None);
    assert_eq!(cache.entries.len(), 0);
}

#[test]
fn saving_reports_what_failed() {
    let cache = PluginScanCache::default();
    let failed = |action| match action {
        SaveAction::Done(Err(text)) => text,
        _ => panic!("expected a failure"),
    };

    let (_, action) = cache.save_to(Path::new(""));
    assert_eq!(failed(action), "Plugin cache path has no parent: ");

    let path = Path::new("/cfg/plugin-cache.ron");
    let (mut save, _) = cache.save_to(path);
    assert_eq!(
        failed(save.resume(SaveReply::Directory(Err("denied".to_string())))),
        "Failed to create plugin cache directory /cfg: denied"
    );

    let (mut save, _) = cache.save_to(path);
    save.resume(SaveReply::Directory(Ok(())));
    assert_eq!(
        failed(save.resume(SaveReply::Contents(Err("odd".to_string())))),
        "Failed to serialize plugin cache: odd"
    );

    let (mut save, _) = cache.save_to(path);
    save.resume(SaveReply::Directory(Ok(())));
    assert!(matches!(
        save.resume(SaveReply::Directory(Ok(()))),
        SaveAction::Wait
    ));
    save.resume(SaveReply::Contents(Ok("()".to_string())));
    assert_eq!(
        failed(save.resume(SaveReply::Written(Err("full".to_string())))),
        "Failed to write plugin cache /cfg/plugin-cache.ron: full"
    );
}

#[test]
fn unchanged_valid_plugin_is_reused_when_revalidation_fails() {
    let path = test_path("plugin.vst3");
    let fingerprint = PluginCandidateFingerprint {
        modified_millis: 7,
        len: 9,
    };
    let stdout = vst3_report_stdout(&path, "instrument");
    let ValidatedPlugins::Vst3(plugins) =
        parse_vst3_validator_output(true, &stdout, b"", whole_vst3, first_vst3)
            .expect("valid plugin metadata")
    else {
        panic!("expected VST3 plugins");
    };
    let mut cache = PluginScanCache::default();
    cache.mark_checked(
        path.clone(),
        fingerprint,
        Some(PluginCandidateFingerprint {
            modified_millis: 1,
            len: 2,
        }),
        true,
        Vec::new(),
        plugins,
    );
    let mut events = Vec::new();
    let mut summary = PluginScanSummary::default();

    assert!(reuse_cached_valid_candidate(
        &cache,
        &path,
        fingerprint,
        &mut summary,
        &mut events,
        "validation failed"
    ));

    assert_eq!(summary.valid_plugins, 1);
    assert!(matches!(
        events.last(),
        Some(PluginScanEvent::Vst3Plugins(plugins)) if plugins[0].name == "Plugin"
    ));
    assert_eq!(
        log_lines(&events),
        vec![format!(
            "Reusing cached VST3 plugin metadata for {} (validation failed)",
            path.display()
        )]
    );
}

#[test]
fn changed_or_invalid_candidate_is_not_reused() {
    let path = test_path("plugin.clap");
    let mut cache = PluginScanCache::default();
    cache.mark_checked(
        path.clone(),
        print(1, 1),
        None,
        true,
        vec![clap_metadata(&path, "org.a")],
        Vec::new(),
    );
    let mut events = Vec::new();
    let mut summary = PluginScanSummary::default();

    assert!(!reuse_cached_valid_candidate(
        &cache,
        &path,
        print(1, 2),
        &mut summary,
        &mut events,
        "x"
    ));
    assert!(events.is_empty());
    assert_eq!(summary, PluginScanSummary::default());
    assert!(reuse_cached_valid_candidate(
        &cache,
        &path,
        print(1, 1),
        &mut summary,
        &mut events,
        "x"
    ));
    assert_eq!(events.len(), 2);
}

#[test]
fn empty_clap_validation_result_parses_as_empty_plugin_list() {
    let path = test_path("empty.clap");
    let stdout = object(vec![
        ("format", string("clap")),
        ("path", path_value(&path)),
        ("result", object(vec![("Ok", Value::Array(Vec::new()))])),
    ])
    .to_string()
    .into_bytes();
    let plugins = parse_clap_validator_output(true, &stdout, b"", whole_clap, first_clap)
        .expect("empty valid report should parse");

    match plugins {
        ValidatedPlugins::Clap(plugins) => assert!(plugins.is_empty()),
        ValidatedPlugins::Vst3(_) => panic!("expected CLAP plugins"),
    }
}

#[test]
fn non_success_validator_with_valid_report_is_accepted() {
    let path = test_path("plugin.vst3");
    let stdout = vst3_report_stdout(&path, "effect");
    let plugins = parse_vst3_validator_output(
        false,
        &stdout,
        b"process exited non-zero",
        whole_vst3,
        first_vst3,
    )
    .expect("valid stdout should parse");

    match plugins {
        ValidatedPlugins::Vst3(plugins) => assert_eq!(plugins.len(), 1),
        ValidatedPlugins::Clap(_) => panic!("expected VST3 plugins"),
    }
}

#[test]
fn validator_stdout_prefix_noise_is_ignored() {
    let path = test_path("plugin.vst3");
    let mut stdout = b"[info] initializing\n[info] ready\n".to_vec();
    stdout.extend(vst3_report_stdout(&path, "effect"));
    let plugins = parse_vst3_validator_output(true, &stdout, b"", whole_vst3, first_vst3)
        .expect("valid report after log lines should parse");

    match plugins {
        ValidatedPlugins::Vst3(plugins) => assert_eq!(plugins[0].name, "Plugin"),
        ValidatedPlugins::Clap(_) => panic!("expected VST3 plugins"),
    }
}

#[test]
fn report_is_found_after_other_braces_and_before_more_noise() {
    let path = test_path("plugin.vst3");
    let mut stdout = b"{not json} {} ".to_vec();
    stdout.extend(vst3_report_stdout(&path, "effect"));
    stdout.extend(b"\nbye {".to_vec());

    let report = parse_validator_stdout(&stdout, whole_vst3, first_vst3).expect("report");

    assert_eq!(report.format, "vst3");
}

#[test]
fn output_without_report_gives_the_last_error() {
    let whole = |_: &[u8]| -> Result<u8, String> { Err("whole".to_string()) };
    let first = |bytes: &[u8]| -> Result<u8, String> { Err(format!("rest of {}", bytes.len())) };

    assert_eq!(
        parse_validator_stdout(b"no braces", whole, first),
        Err("whole".to_string())
    );
    assert_eq!(
        parse_validator_stdout(b"a{b{c", whole, first),
        Err("rest of 2".to_string())
    );
    assert_eq!(parse_validator_stdout(b"", whole, first), Err("whole".to_string()));
}

#[test]
fn failed_validator_without_report_is_judged_by_its_stderr() {
    let verdict = parse_clap_validator_output(
        false,
        b"",
        b"  segfault \xff\n",
        whole_clap,
        first_clap,
    );
    assert!(matches!(verdict, Err(text) if text == "segfault \u{fffd}"));

    let verdict = parse_clap_validator_output(true, b"", b"ignored", whole_clap, first_clap);
    assert!(matches!(verdict, Err(text) if text.contains("EOF")));

    let stdout = object(vec![
        ("format", string("clap")),
        ("path", string("/a.clap")),
        ("result", object(vec![("Err", string("no entry"))])),
    ])
    .to_string()
    .into_bytes();
    for success in [true, false] {
        let verdict = parse_clap_validator_output(success, &stdout, b"x", whole_clap, first_clap);
        assert!(matches!(verdict, Err(text) if text == "no entry"));
    }
}

#[test]
fn validation_depends_on_the_format() {
    let validator = Path::new("/bin/validator");
    let path = test_path("plugin.vst3");
    let run = || {
        Ok(ValidatorOutput {
            success: true,
            stdout: vst3_report_stdout(&path, "effect"),
            stderr: Vec::new(),
        })
    };
    let parsers = || ((whole_clap, first_clap), (whole_vst3, first_vst3));

    let (clap, vst3) = parsers();
    assert!(matches!(
        validate_candidate(PluginFormat::Vst3, validator, run(), clap, vst3),
        Ok(ValidatedPlugins::Vst3(plugins)) if plugins.len() == 1
    ));
    let (clap, vst3) = parsers();
    assert!(matches!(
        validate_candidate(PluginFormat::Clap, validator, run(), clap, vst3),
        Err(text) if text == "missing format"
    ));
    let (clap, vst3) = parsers();
    assert!(matches!(
        validate_candidate(
            PluginFormat::Clap,
            validator,
            Err("not found".to_string()),
            clap,
            vst3
        ),
        Err(text) if text == "failed to run validator /bin/validator: not found"
    ));
    assert_eq!(
        validator_args(PluginFormat::Clap),
        vec!["--format", "clap", "--path"]
    );
    assert_eq!(
        validator_args(PluginFormat::Vst3),
        vec!["--format", "vst3", "--path"]
    );
}

/// Drives a scan with one function for each question, and returns all its events.
fn run_scan(
    roots: Vec<PluginSearchPath>,
    cache: PluginScanCache,
    find: impl Fn(&PluginSearchPath) -> Result<Vec<PathBuf>, String>,
    fingerprint: impl Fn(&Path) -> Result<PluginCandidateFingerprint, String>,
    validate: impl Fn(PluginFormat, &Path) -> Result<ValidatedPlugins, String>,
) -> Vec<PluginScanEvent> {
    let (mut worker, step) = scan_worker(roots, cache);
    let mut events = step.events;
    let mut action = step.action;
    loop {
        let reply = match action {
            ScanAction::FingerprintValidator => ScanReply::Validator(Some(print(100, 100))),
            ScanAction::FindCandidates(root) => ScanReply::Candidates(find(&root)),
            ScanAction::FingerprintCandidate(path) => ScanReply::Fingerprint(fingerprint(&path)),
            ScanAction::Validate { format, path } => ScanReply::Verdict(validate(format, &path)),
            ScanAction::Finish => return events,
            ScanAction::Wait => panic!("an answer was given"),
        };
        assert!(worker.has_room(&reply));
        let step = worker.try_resume(reply).expect("counters have room");
        events.extend(step.events);
        action = step.action;
    }
}

#[test]
fn scan_reports_valid_and_invalid_candidates() {
    let clap_root = Path::new("/clap");
    let vst3_root = Path::new("/vst3");
    let events = run_scan(
        vec![
            root(PluginFormat::Clap, clap_root, true),
            root(PluginFormat::Clap, Path::new("/off"), false),
            root(PluginFormat::Vst3, vst3_root, true),
            root(PluginFormat::Clap, Path::new("/denied"), true),
        ],
        PluginScanCache::default(),
        |root| {
            if root.path == Path::new("/denied") {
                Err("denied".to_string())
            } else if root.format == PluginFormat::Clap {
                assert_ne!(root.path, Path::new("/off"));
                Ok(vec![
                    clap_root.join("a.clap"),
                    clap_root.join("b.clap"),
                    clap_root.join("c.clap"),
                    clap_root.join("d.clap"),
                ])
            } else {
                Ok(vec![vst3_root.join("e.vst3"), vst3_root.join("f.vst3")])
            }
        },
        |path| {
            if path == clap_root.join("b.clap") {
                Err("gone".to_string())
            } else {
                Ok(print(1, 1))
            }
        },
        |format, path| {
            if path == clap_root.join("a.clap") {
                assert_eq!(format, PluginFormat::Clap);
                Ok(ValidatedPlugins::Clap(vec![
                    clap_metadata(path, "one"),
                    clap_metadata(path, "two"),
                ]))
            } else if path == clap_root.join("c.clap") {
                Ok(ValidatedPlugins::Clap(Vec::new()))
            } else if path == clap_root.join("d.clap") {
                Err("crashed".to_string())
            } else if path == vst3_root.join("e.vst3") {
                assert_eq!(format, PluginFormat::Vst3);
                Ok(ValidatedPlugins::Vst3(vec![vst3_metadata(path)]))
            } else {
                Ok(ValidatedPlugins::Vst3(Vec::new()))
            }
        },
    );

    assert_eq!(
        log_lines(&events),
        vec![
            "Scanning plugins with 1 validator process",
            "Validated 2 CLAP plugin(s) from /clap/a.clap",
            "Plugin scan skipped /clap/b.clap: gone",
            "No CLAP plugins found in /clap/c.clap",
            "Invalid plugin /clap/d.clap: crashed",
            "Validated 1 VST3 plugin(s) from /vst3/e.vst3",
            "No VST3 plugins found in /vst3/f.vst3",
            "Plugin scan skipped /denied: denied",
            "Plugin scan finished: 6 candidate(s), 3 plugin(s), 4 invalid",
        ]
    );
    assert!(matches!(&events[2], PluginScanEvent::ClapPlugins(plugins) if plugins.len() == 2));
    let Some(PluginScanEvent::Finished { summary, cache }) = events.last() else {
        panic!("expected the end of the scan");
    };
    assert_eq!(
        *summary,
        PluginScanSummary {
            candidates: 6,
            valid_plugins: 3,
            invalid_candidates: 4,
        }
    );
    assert_eq!(cache.entries.len(), 5);
    assert!(!cache.is_stale_for_validator(
        &clap_root.join("d.clap"),
        print(1, 1),
        Some(print(100, 100))
    ));
    assert!(cache.is_stale(&clap_root.join("b.clap"), print(1, 1)));
}

#[test]
fn unreadable_root_changes_nothing_else() {
    let scan = |roots: Vec<PluginSearchPath>| {
        run_scan(
            roots,
            PluginScanCache::default(),
            |root| match root.path.to_str() {
                Some("/denied") => Err("denied".to_string()),
                _ => Ok(vec![root.path.join("a.clap")]),
            },
            |_| Ok(print(1, 1)),
            |_, path| Ok(ValidatedPlugins::Clap(vec![clap_metadata(path, "one")])),
        )
    };
    let first = root(PluginFormat::Clap, Path::new("/first"), true);
    let denied = root(PluginFormat::Clap, Path::new("/denied"), true);
    let last = root(PluginFormat::Clap, Path::new("/last"), true);
    let mut with = scan(vec![first.clone(), denied, last.clone()]);
    let without = scan(vec![first, last]);

    let line = "Plugin scan skipped /denied: denied";
    let place = with
        .iter()
        .position(|event| matches!(event, PluginScanEvent::Log(text) if text == line))
        .expect("the root is skipped");
    with.remove(place);
    assert_eq!(with.len(), without.len());
    assert_eq!(log_lines(&with), log_lines(&without));
    match (with.last(), without.last()) {
        (
            Some(PluginScanEvent::Finished { summary, cache }),
            Some(PluginScanEvent::Finished { summary: other, cache: others }),
        ) => {
            assert_eq!(summary, other);
            assert_eq!(cache.entries.len(), others.entries.len());
        }
        _ => panic!("expected the end of both scans"),
    }
}

#[test]
fn second_scan_validates_nothing_that_has_not_changed() {
    let path = PathBuf::from("/clap/a.clap");
    let bad = PathBuf::from("/clap/b.clap");
    let vst3 = PathBuf::from("/clap/c.vst3");
    let mut cache = PluginScanCache::default();
    let validator = Some(print(100, 100));
    cache.mark_checked(
        path.clone(),
        print(1, 1),
        validator,
        true,
        vec![clap_metadata(&path, "one")],
        Vec::new(),
    );
    cache.mark_checked(bad.clone(), print(1, 1), validator, false, Vec::new(), Vec::new());
    cache.mark_checked(
        vst3.clone(),
        print(1, 1),
        validator,
        true,
        Vec::new(),
        vec![vst3_metadata(&vst3)],
    );

    let events = run_scan(
        vec![root(PluginFormat::Clap, Path::new("/clap"), true)],
        cache,
        |_| Ok(vec![path.clone(), bad.clone(), vst3.clone()]),
        |_| Ok(print(1, 1)),
        |_, _| panic!("nothing is stale"),
    );

    assert_eq!(
        log_lines(&events),
        vec![
            "Scanning plugins with 1 validator process",
            "Plugin scan finished: 3 candidate(s), 2 plugin(s), 1 invalid",
        ]
    );
    assert!(matches!(&events[1], PluginScanEvent::ClapPlugins(plugins) if plugins.len() == 1));
    assert!(matches!(&events[2], PluginScanEvent::Vst3Plugins(plugins) if plugins.len() == 1));
}

#[test]
fn scan_leaves_nothing_for_the_next_one_to_validate() {
    let roots = || vec![root(PluginFormat::Clap, Path::new("/clap"), true)];
    let found = |_: &PluginSearchPath| -> Result<Vec<PathBuf>, String> {
        Ok(vec![
            PathBuf::from("/clap/a.clap"),
            PathBuf::from("/clap/./a.clap"),
            PathBuf::from("/clap/b.clap"),
            PathBuf::from("/clap/c.clap"),
        ])
    };
    let fingerprint = |_: &Path| Ok(print(1, 1));
    // A cache of another validator, whose entry no longer holds plugins.
    let mut cache = PluginScanCache::default();
    cache.mark_checked(
        PathBuf::from("/clap/b.clap"),
        print(1, 1),
        Some(print(99, 99)),
        false,
        Vec::new(),
        Vec::new(),
    );
    let mut first = run_scan(
        roots(),
        cache,
        found,
        fingerprint,
        |_, path| {
            if path == Path::new("/clap/a.clap") {
                Ok(ValidatedPlugins::Clap(vec![clap_metadata(path, "one")]))
            } else if path == Path::new("/clap/b.clap") {
                Ok(ValidatedPlugins::Clap(Vec::new()))
            } else {
                Err("crashed".to_string())
            }
        },
    );
    let Some(PluginScanEvent::Finished { summary, cache }) = first.pop() else {
        panic!("expected the end of the scan");
    };
    assert_eq!(cache.entries.len(), 3);
    let lists = |events: &[PluginScanEvent]| -> Vec<Vec<String>> {
        let mut lists = Vec::new();
        for event in events {
            if let PluginScanEvent::ClapPlugins(plugins) = event {
                lists.push(plugins.iter().map(|plugin| plugin.clap_id.clone()).collect());
            }
        }
        lists
    };

    let second_cache = cache.clone();
    let second_events = run_scan(roots(), second_cache, found, fingerprint, |_, _| {
        panic!("nothing is stale")
    });

    assert_eq!(lists(&first), vec![vec!["one"], vec!["one"]]);
    assert_eq!(lists(&second_events), lists(&first));
    let Some(PluginScanEvent::Finished {
        summary: second,
        cache: second_cache,
    }) = second_events.last()
    else {
        panic!("expected the end of the scan");
    };
    assert_eq!(*second, summary);
    assert_eq!(second_cache.to_entries(), cache.to_entries());
}

#[test]
fn scan_with_a_new_validator_keeps_plugins_that_no_longer_validate() {
    let path = PathBuf::from("/clap/a.clap");
    let mut cache = PluginScanCache::default();
    cache.mark_checked(
        path.clone(),
        print(1, 1),
        Some(print(99, 99)),
        true,
        vec![clap_metadata(&path, "one")],
        Vec::new(),
    );

    let events = run_scan(
        vec![root(PluginFormat::Clap, Path::new("/clap"), true)],
        cache,
        |_| Ok(vec![path.clone()]),
        |_| Ok(print(1, 1)),
        |_, _| Err("timeout".to_string()),
    );

    assert_eq!(
        log_lines(&events),
        vec![
            "Scanning plugins with 1 validator process",
            "Reusing cached CLAP plugin metadata for /clap/a.clap (validation failed: timeout)",
            "Plugin scan finished: 1 candidate(s), 1 plugin(s), 0 invalid",
        ]
    );
    let Some(PluginScanEvent::Finished { cache, .. }) = events.last() else {
        panic!("expected the end of the scan");
    };
    assert!(cache.is_stale_for_validator(&path, print(1, 1), Some(print(100, 100))));
    assert!(!cache.is_stale_for_validator(&path, print(1, 1), Some(print(99, 99))));
}

#[test]
fn empty_revalidation_is_logged_with_its_format() {
    for format in [PluginFormat::Clap, PluginFormat::Vst3] {
        let path = PathBuf::from("/any/a");
        let mut cache = PluginScanCache::default();
        cache.mark_checked(
            path.clone(),
            print(1, 1),
            None,
            true,
            vec![clap_metadata(&path, "one")],
            Vec::new(),
        );
        let events = run_scan(
            vec![root(format, Path::new("/any"), true)],
            cache,
            |_| Ok(vec![path.clone()]),
            |_| Ok(print(1, 1)),
            |format, _| match format {
                PluginFormat::Clap => Ok(ValidatedPlugins::Clap(Vec::new())),
                PluginFormat::Vst3 => Ok(ValidatedPlugins::Vst3(Vec::new())),
            },
        );
        let name = match format {
            PluginFormat::Clap => "CLAP",
            PluginFormat::Vst3 => "VST3",
        };
        assert_eq!(
            log_lines(&events)[1],
            format!(
                "Reusing cached CLAP plugin metadata for /any/a (validator returned no {name} plugins)"
            )
        );
    }
}

#[test]
fn scan_ignores_answers_it_did_not_ask_for() {
    let (mut worker, ScanStep { events, action }): (ScanWorker, ScanStep) = scan_worker(
        vec![root(PluginFormat::Clap, Path::new("/clap"), true)],
        PluginScanCache::default(),
    );
    assert_eq!(events.len(), 1);
    assert!(matches!(action, ScanAction::FingerprintValidator));

    let step = worker.resume(ScanReply::Candidates(Ok(Vec::new())));
    assert!(step.events.is_empty());
    assert!(matches!(step.action, ScanAction::Wait));

    let step = worker.resume(ScanReply::Validator(None));
    assert!(matches!(step.action, ScanAction::FindCandidates(_)));
    let step = worker.resume(ScanReply::Candidates(Ok(Vec::new())));
    assert_eq!(step.events.len(), 2);
    assert!(matches!(step.action, ScanAction::Finish));
    let step = worker.resume(ScanReply::Validator(None));
    assert!(step.events.is_empty());
    assert!(matches!(step.action, ScanAction::Finish));
}
