//! The CLAP adapter.

use std::path::{Path, PathBuf};

use lilypalooza_plugins::clap::descriptor::{
    cstr_field, features_from_descriptor, role_from_features, ClapVersion, DescriptorFacts,
};
use lilypalooza_plugins::clap::probing::{
    ClapAction, ClapEvent, ClapProbe, EntryFacts, FactoryFacts,
};
use lilypalooza_plugins::clap::{
    candidate_paths, is_clap_candidate, macos_bundle_binary, probe, register_plugins,
    resolve_clap_library_path, stable_processor_id, ClapPluginMetadata, ClapProbeError,
};
use lilypalooza_plugins::paths::DirListing;
use lilypalooza_plugins::registry::{Backend, Role};

fn texts(list: &[&str]) -> Vec<String> {
    list.iter().map(|text| text.to_string()).collect()
}

fn bytes(text: &str) -> Option<Vec<u8>> {
    Some(text.as_bytes().to_vec())
}

fn version(major: u32) -> ClapVersion {
    ClapVersion {
        major,
        minor: 2,
        revision: 0,
    }
}

fn full_entry() -> EntryFacts {
    EntryFacts {
        clap_version: version(1),
        has_init: true,
        has_deinit: true,
        has_get_factory: true,
    }
}

fn full_factory() -> FactoryFacts {
    FactoryFacts {
        has_get_plugin_count: true,
        has_get_plugin_descriptor: true,
    }
}

fn descriptor(id: &str) -> DescriptorFacts {
    DescriptorFacts {
        clap_version: version(1),
        id: bytes(id),
        name: bytes("Test"),
        vendor: bytes("Vendor"),
        version: bytes("1.0"),
        features: Some(vec![b"synthesizer".to_vec(), b"stereo".to_vec()]),
    }
}

/// A probe that has come as far as its entry.
fn at_entry(path: &str) -> ClapProbe {
    let (mut probe, action) = probe(Path::new(path));
    assert!(matches!(action, ClapAction::CheckBundle(_)));
    let action = probe.resume(ClapEvent::BundleChecked(false));
    assert!(matches!(action, ClapAction::LoadLibrary(library) if library == Path::new(path)));
    assert!(matches!(
        probe.resume(ClapEvent::LibraryLoaded(Ok(()))),
        ClapAction::ReadEntry
    ));
    probe
}

/// A probe that has come as far as its factory.
fn at_factory(path: &str) -> ClapProbe {
    let mut probe = at_entry(path);
    assert!(matches!(
        probe.resume(ClapEvent::EntryRead(Some(full_entry()))),
        ClapAction::CallInit(text) if text == path
    ));
    assert!(matches!(
        probe.resume(ClapEvent::Initialized(true)),
        ClapAction::GetFactory
    ));
    probe
}

fn message(action: ClapAction) -> String {
    match action {
        ClapAction::Finish(Err(error)) => error.message(),
        _ => panic!("expected a failure"),
    }
}

#[test]
fn clap_candidate_detection_is_extension_based() {
    assert!(is_clap_candidate(Path::new("Plugin.clap")));
    assert!(is_clap_candidate(Path::new("Plugin.CLAP")));
    assert!(!is_clap_candidate(Path::new("Plugin.vst3")));
}

#[test]
fn clap_candidate_needs_a_stem_before_the_extension() {
    assert!(!is_clap_candidate(Path::new(".clap")));
    assert!(!is_clap_candidate(Path::new("clap")));
    assert!(!is_clap_candidate(Path::new("")));
    assert!(!is_clap_candidate(Path::new("..")));
    assert!(is_clap_candidate(Path::new("a.b.cLaP")));
    assert!(is_clap_candidate(Path::new("/Plug/Bundle.clap/")));
    assert!(!is_clap_candidate(Path::new("/Plug/Bundle.clap/inner")));
}

#[test]
fn stable_processor_id_includes_path_and_clap_id() {
    assert_eq!(
        stable_processor_id(Path::new("/Plug/Test.clap"), "org.test"),
        "clap:/Plug/Test.clap#org.test"
    );
}

#[test]
fn clap_candidates_are_sorted_and_filtered() {
    let root = PathBuf::from("/Plug");
    let listing = DirListing::Entries(vec![
        Ok(root.join("b.clap")),
        Ok(root.join("c.vst3")),
        Ok(root.join("a.CLAP")),
    ]);

    let found = candidate_paths(listing).expect("listing is fine");

    assert_eq!(found, vec![root.join("a.CLAP"), root.join("b.clap")]);
}

#[test]
fn clap_root_that_is_no_directory_has_no_candidates() {
    assert_eq!(
        candidate_paths(DirListing::NotADirectory),
        Ok(Vec::<PathBuf>::new())
    );
}

#[test]
fn clap_listing_errors_are_passed_on() {
    assert_eq!(
        candidate_paths(DirListing::Unreadable("denied".to_string())),
        Err("denied".to_string())
    );
    assert_eq!(
        candidate_paths(DirListing::Entries(vec![
            Ok(PathBuf::from("a.clap")),
            Err("gone".to_string()),
            Err("later".to_string()),
        ])),
        Err("gone".to_string())
    );
}

#[test]
fn clap_library_is_the_bundle_binary_where_that_is_a_file() {
    let bundle = Path::new("/Plug/Synth.clap");
    let binary = PathBuf::from("/Plug/Synth.clap/Contents/MacOS/Synth");

    assert_eq!(macos_bundle_binary(bundle), binary);
    assert_eq!(resolve_clap_library_path(bundle, true), binary);
    assert_eq!(resolve_clap_library_path(bundle, false), bundle.to_path_buf());
}

#[test]
fn clap_role_follows_features() {
    for feature in ["instrument", "synthesizer", "sampler", "drum", "drum-machine"] {
        assert_eq!(
            role_from_features(&texts(&["stereo", feature])),
            Role::Instrument
        );
    }
    assert_eq!(
        role_from_features(&texts(&["audio-effect", "Instrument"])),
        Role::Effect
    );
    assert_eq!(role_from_features(&Vec::new()), Role::Effect);
}

#[test]
fn clap_strings_that_are_not_text_are_dropped() {
    assert_eq!(cstr_field(&None), None);
    assert_eq!(cstr_field(&bytes("name")), Some("name".to_string()));
    assert_eq!(cstr_field(&Some(vec![0xff])), None);
    let mut facts = descriptor("org.test");
    facts.features = Some(vec![b"sampler".to_vec(), vec![0xff], b"mono".to_vec()]);
    assert_eq!(features_from_descriptor(&facts), texts(&["sampler", "mono"]));
    facts.features = None;
    assert!(features_from_descriptor(&facts).is_empty());
}

#[test]
fn clap_probe_finds_the_plugins_of_a_binary() {
    let mut probe = at_factory("/Plug/Test.clap");
    assert!(matches!(
        probe.resume(ClapEvent::FactoryRead(Some(full_factory()))),
        ClapAction::CountPlugins
    ));
    assert!(matches!(
        probe.resume(ClapEvent::PluginsCounted(2)),
        ClapAction::ReadDescriptor(0)
    ));
    assert!(matches!(
        probe.resume(ClapEvent::DescriptorRead(Some(descriptor("org.one")))),
        ClapAction::ReadDescriptor(1)
    ));
    assert!(matches!(
        probe.resume(ClapEvent::DescriptorRead(Some(descriptor("org.two")))),
        ClapAction::CallDeinit
    ));

    let ClapAction::Finish(Ok(plugins)) = probe.resume(ClapEvent::Deinitialized) else {
        panic!("expected plugins");
    };

    assert_eq!(plugins.len(), 2);
    assert_eq!(
        plugins[0],
        ClapPluginMetadata {
            processor_id: "clap:/Plug/Test.clap#org.one".to_string(),
            clap_id: "org.one".to_string(),
            name: "Test".to_string(),
            vendor: Some("Vendor".to_string()),
            version: Some("1.0".to_string()),
            features: texts(&["synthesizer", "stereo"]),
            role: Role::Instrument,
            path: PathBuf::from("/Plug/Test.clap"),
            library_path: PathBuf::from("/Plug/Test.clap"),
        }
    );
    assert_eq!(plugins[1].clap_id, "org.two");
}

#[test]
fn clap_probe_of_another_file_fails_at_once() {
    let (mut probe, action) = probe(Path::new("/Plug/Test.vst3"));
    assert_eq!(message(action), "not a CLAP candidate: /Plug/Test.vst3");
    assert!(matches!(
        probe.resume(ClapEvent::BundleChecked(true)),
        ClapAction::Wait
    ));
}

#[test]
fn clap_probe_rejects_a_nul_in_the_path() {
    let (mut probe, _) = probe(Path::new("/Pl\0ug/Test.clap"));
    assert_eq!(
        message(probe.resume(ClapEvent::BundleChecked(false))),
        "plugin path contains an interior NUL byte: /Pl\0ug/Test.clap"
    );
}

#[test]
fn clap_probe_reports_what_is_wrong_with_the_library() {
    let (mut first, _) = probe(Path::new("/Plug/Test.clap"));
    first.resume(ClapEvent::BundleChecked(false));
    assert_eq!(
        message(first.resume(ClapEvent::LibraryLoaded(Err("bad image".to_string())))),
        "failed to load CLAP library /Plug/Test.clap: bad image"
    );
    assert_eq!(
        message(at_entry("/Plug/Test.clap").resume(ClapEvent::EntryRead(None))),
        "CLAP entry symbol is missing in /Plug/Test.clap"
    );
    let mut old = full_entry();
    old.clap_version = version(0);
    assert_eq!(
        message(at_entry("/Plug/Test.clap").resume(ClapEvent::EntryRead(Some(old)))),
        "CLAP version is not compatible"
    );
    for name in ["init", "deinit", "get_factory"] {
        let mut entry = full_entry();
        match name {
            "init" => entry.has_init = false,
            "deinit" => entry.has_deinit = false,
            _ => entry.has_get_factory = false,
        }
        assert_eq!(
            message(at_entry("/Plug/Test.clap").resume(ClapEvent::EntryRead(Some(entry)))),
            format!("CLAP entry is missing required function: {name}")
        );
    }
    let mut probe = at_entry("/Plug/Test.clap");
    probe.resume(ClapEvent::EntryRead(Some(full_entry())));
    assert_eq!(
        message(probe.resume(ClapEvent::Initialized(false))),
        "CLAP entry initialization failed"
    );
}

#[test]
fn clap_probe_shuts_the_plugin_down_before_it_reports_a_bad_factory() {
    let mut probe = at_factory("/Plug/Test.clap");
    assert!(matches!(
        probe.resume(ClapEvent::FactoryRead(None)),
        ClapAction::CallDeinit
    ));
    assert_eq!(
        message(probe.resume(ClapEvent::Deinitialized)),
        "CLAP plugin factory is missing"
    );

    for name in ["get_plugin_count", "get_plugin_descriptor"] {
        let mut probe = at_factory("/Plug/Test.clap");
        let mut factory = full_factory();
        if name == "get_plugin_count" {
            factory.has_get_plugin_count = false;
        } else {
            factory.has_get_plugin_descriptor = false;
        }
        assert!(matches!(
            probe.resume(ClapEvent::FactoryRead(Some(factory))),
            ClapAction::CallDeinit
        ));
        assert_eq!(
            message(probe.resume(ClapEvent::Deinitialized)),
            format!("CLAP entry is missing required function: {name}")
        );
    }
}

#[test]
fn clap_probe_reports_the_index_of_a_bad_descriptor() {
    let mut nameless = descriptor("org.two");
    nameless.name = None;
    for bad in [None, Some(nameless)] {
        let mut probe = at_factory("/Plug/Test.clap");
        probe.resume(ClapEvent::FactoryRead(Some(full_factory())));
        probe.resume(ClapEvent::PluginsCounted(3));
        probe.resume(ClapEvent::DescriptorRead(Some(descriptor("org.one"))));
        assert!(matches!(
            probe.resume(ClapEvent::DescriptorRead(bad)),
            ClapAction::CallDeinit
        ));
        assert_eq!(
            message(probe.resume(ClapEvent::Deinitialized)),
            "CLAP plugin descriptor 1 is invalid"
        );
    }
}

#[test]
fn clap_probe_ignores_answers_it_did_not_ask_for() {
    let mut probe = at_entry("/Plug/Test.clap");
    assert!(matches!(
        probe.resume(ClapEvent::PluginsCounted(4)),
        ClapAction::Wait
    ));
    assert!(matches!(
        probe.resume(ClapEvent::EntryRead(Some(full_entry()))),
        ClapAction::CallInit(_)
    ));
}

#[test]
fn clap_entries_have_no_editor_and_no_vendor() {
    let entries = register_plugins(vec![ClapPluginMetadata {
        processor_id: "clap:/Plug/Test.clap#org.test".to_string(),
        clap_id: "org.test".to_string(),
        name: "Test".to_string(),
        vendor: Some("Vendor".to_string()),
        version: None,
        features: Vec::new(),
        role: Role::Effect,
        path: PathBuf::from("/Plug/Test.clap"),
        library_path: PathBuf::from("/Plug/Test.clap"),
    }]);

    assert_eq!(entries.len(), 1);
    assert_eq!(entries[0].id, "clap:/Plug/Test.clap#org.test");
    assert_eq!(entries[0].name, "Test");
    assert_eq!(entries[0].backend, Backend::Clap);
    assert_eq!(entries[0].role, Role::Effect);
    assert_eq!(entries[0].vendor, None);
    assert!(entries[0].editor.is_none());
}

#[test]
fn clap_error_messages_name_the_path() {
    assert_eq!(
        ClapProbeError::MissingEntry(PathBuf::from("/a b/c.clap")).message(),
        "CLAP entry symbol is missing in /a b/c.clap"
    );
    assert_eq!(
        ClapProbeError::InvalidDescriptor { index: 4_294_967_295 }.message(),
        "CLAP plugin descriptor 4294967295 is invalid"
    );
}
