//! The VST3 adapter.

use std::path::{Path, PathBuf};

use lilypalooza_plugins::path_map::PathMap;
use lilypalooza_plugins::paths::{DirListing, SearchAction};
use lilypalooza_plugins::registry::{Backend, EditorSize, Role};
use lilypalooza_plugins::vst3::class_info::{
    c_char_array_to_string, copy_tchar_string, hex_splits_in_pairs, hex_to_tuid,
    is_settled_by_info2, non_empty_string, role_from_subcategories, tuid_to_hex, ClassFacts,
    ClassInfo, ClassInfo2,
};
use lilypalooza_plugins::vst3::module::{
    load_module, load_module_uncached, ModuleAction, ModuleReply,
};
use lilypalooza_plugins::vst3::probing::{Vst3Action, Vst3Event, Vst3Probe};
use lilypalooza_plugins::vst3::store::{metadata_and_descriptor, MetadataStore, SlotKind};
use lilypalooza_plugins::vst3::{
    candidate_paths, is_vst3_candidate, library_candidates, platform_vst3_binary_candidates, probe,
    register_plugins, resolve_vst3_library_path, stable_processor_id, Platform, Vst3PluginMetadata,
    Vst3ProbeError,
};

fn plugin(id: &str, name: &str) -> Vst3PluginMetadata {
    Vst3PluginMetadata {
        processor_id: id.to_string(),
        class_id: "00112233445566778899aabbccddeeff".to_string(),
        name: name.to_string(),
        vendor: Some("Vendor".to_string()),
        version: None,
        category: Some("Fx".to_string()),
        role: Role::Effect,
        path: PathBuf::from("/Plug/Editor.vst3"),
        library_path: PathBuf::from("/Plug/Editor.vst3"),
    }
}

fn array(text: &str) -> Vec<u8> {
    let mut bytes = text.as_bytes().to_vec();
    bytes.push(0);
    bytes.extend(b"garbage");
    bytes
}

fn cid() -> [u8; 16] {
    [
        0x00, 0x11, 0x22, 0x33, 0x44, 0x55, 0x66, 0x77, 0x88, 0x99, 0xaa, 0xbb, 0xcc, 0xdd, 0xee,
        0xff,
    ]
}

fn info2(category: &str, sub_categories: &str) -> ClassInfo2 {
    ClassInfo2 {
        cid: cid(),
        category: array(category),
        name: array(" Synth "),
        sub_categories: array(sub_categories),
        vendor: array("Vendor"),
        version: array(""),
    }
}

fn info(category: &str) -> ClassInfo {
    ClassInfo {
        cid: cid(),
        category: array(category),
        name: array("Old"),
    }
}

#[test]
fn vst3_candidate_detection_is_extension_based() {
    assert!(is_vst3_candidate(Path::new("Plugin.vst3")));
    assert!(is_vst3_candidate(Path::new("Plugin.VST3")));
    assert!(!is_vst3_candidate(Path::new("Plugin.clap")));
}

#[test]
fn vst3_candidate_paths_recurse() {
    let dir = PathBuf::from("/tmp/vst3-root");
    let vendor = dir.join("Vendor");
    let nested = vendor.join("Plugin.vst3");
    let (mut walk, mut action) = candidate_paths(&dir);
    let found = loop {
        action = match action {
            SearchAction::List(path) if path == dir => walk.resume(DirListing::Entries(vec![
                Ok(vendor.clone()),
                Ok(dir.join("Root.vst3")),
                Ok(dir.join("Other.clap")),
            ])),
            SearchAction::List(path) if path == vendor => {
                walk.resume(DirListing::Entries(vec![Ok(nested.clone())]))
            }
            SearchAction::List(_) => walk.resume(DirListing::NotADirectory),
            SearchAction::Finish(found) => break found,
            SearchAction::Wait => panic!("a listing was given"),
        };
    };

    let candidates = found.expect("candidate scan");

    assert_eq!(candidates, vec![dir.join("Root.vst3"), nested]);
}

#[test]
fn vst3_walk_does_not_look_into_candidates() {
    let (mut walk, action) = candidate_paths(Path::new("/Plug/Bundle.vst3"));
    assert!(matches!(
        action,
        SearchAction::Finish(Ok(found)) if found == vec![PathBuf::from("/Plug/Bundle.vst3")]
    ));
    assert!(matches!(
        walk.resume(DirListing::NotADirectory),
        SearchAction::Wait
    ));
}

#[test]
fn vst3_walk_ends_with_the_first_error() {
    let (mut walk, _) = candidate_paths(Path::new("/Plug"));
    assert!(matches!(
        walk.resume(DirListing::Unreadable("denied".to_string())),
        SearchAction::Finish(Err(text)) if text == "denied"
    ));

    let (mut walk, _) = candidate_paths(Path::new("/Plug"));
    let listing = DirListing::Entries(vec![
        Ok(PathBuf::from("/Plug/a.vst3")),
        Err("gone".to_string()),
        Ok(PathBuf::from("/Plug/sub")),
    ]);
    assert!(matches!(
        walk.resume(listing),
        SearchAction::Finish(Err(text)) if text == "gone"
    ));
}

#[test]
fn stable_processor_id_includes_path_and_class_id() {
    assert_eq!(
        stable_processor_id(Path::new("/Plug/Test.vst3"), "001122"),
        "vst3:/Plug/Test.vst3#001122"
    );
}

#[test]
fn role_detection_treats_instrument_subcategories_as_instruments() {
    assert_eq!(
        role_from_subcategories(Some("Instrument|Synth")),
        Role::Instrument
    );
    assert_eq!(role_from_subcategories(Some("Fx|Delay")), Role::Effect);
}

#[test]
fn role_detection_ignores_case_and_looks_inside_words() {
    assert_eq!(role_from_subcategories(Some("SAMPLER")), Role::Instrument);
    assert_eq!(role_from_subcategories(Some("Fx|EDrums")), Role::Instrument);
    assert_eq!(role_from_subcategories(Some("xsynthx")), Role::Instrument);
    assert_eq!(role_from_subcategories(Some("")), Role::Effect);
    assert_eq!(role_from_subcategories(None), Role::Effect);
}

#[test]
fn tuid_hex_roundtrips() {
    let hex = "00112233445566778899aabbccddeeff";
    assert_eq!(tuid_to_hex(&hex_to_tuid(hex).expect("tuid")), hex);
    assert_eq!(hex_to_tuid(hex), Some(cid()));
}

#[test]
fn tuid_hex_needs_sixteen_pairs() {
    assert_eq!(hex_to_tuid(""), None);
    assert_eq!(hex_to_tuid("00112233445566778899aabbccddeef"), None);
    assert_eq!(hex_to_tuid("00112233445566778899aabbccddeeffa"), None);
    assert_eq!(hex_to_tuid("0011223344556677889gaabbccddeeff"), None);
    assert_eq!(
        hex_to_tuid("00112233445566778899AABBCCDDEEFF"),
        Some(cid())
    );
    let upper = hex_to_tuid("00112233445566778899aAbBcCdDeEfF").expect("either case");
    assert_eq!(tuid_to_hex(&upper), "00112233445566778899aabbccddeeff");
    let signed = hex_to_tuid("+0+1+2+3+4+5+6+7+8+9+a+b+c+d+e+f").expect("signed digits");
    assert_eq!(signed[15], 15);
    assert_eq!(hex_to_tuid("-0112233445566778899aabbccddeeff"), None);
}

#[test]
fn characters_that_straddle_a_pair_are_told() {
    assert!(hex_splits_in_pairs("00112233445566778899aabbccddeeff"));
    assert!(hex_splits_in_pairs("short \u{e9}"));
    assert!(!hex_splits_in_pairs("0\u{e9}12233445566778899aabbccddeeff"));
    assert!(hex_splits_in_pairs("\u{e9}112233445566778899aabbccddeeff"));
}

#[test]
fn character_arrays_end_at_the_first_nul() {
    assert_eq!(c_char_array_to_string(&array(" Name ")), "Name");
    assert_eq!(c_char_array_to_string(b"full"), "full");
    assert_eq!(c_char_array_to_string(b""), "");
    assert_eq!(c_char_array_to_string(b"a\xffb"), "a\u{fffd}b");
    assert_eq!(non_empty_string(" ".to_string()), None);
    assert_eq!(non_empty_string(" a".to_string()), Some(" a".to_string()));
}

#[test]
fn host_name_is_copied_and_terminated() {
    let mut wide = [9u16; 8];
    copy_tchar_string("Lily", &mut wide);
    assert_eq!(wide, [76, 105, 108, 121, 0, 9, 9, 9]);

    let mut tight = [9u16; 4];
    copy_tchar_string("Lily", &mut tight);
    assert_eq!(tight, [76, 105, 108, 0]);

    let mut pair = [9u16; 4];
    copy_tchar_string("\u{1f3b5}", &mut pair);
    assert_eq!(pair, [0xd83c, 0xdfb5, 0, 9]);

    let mut none: [u16; 0] = [];
    copy_tchar_string("Lily", &mut none);
}

#[test]
fn bundle_binaries_depend_on_the_platform() {
    let path = Path::new("/Plug/Synth.vst3");
    assert_eq!(
        platform_vst3_binary_candidates(Platform::MacOs, path, "Synth"),
        vec![PathBuf::from("/Plug/Synth.vst3/Contents/MacOS/Synth")]
    );
    assert_eq!(
        library_candidates(Platform::Windows, path),
        vec![
            PathBuf::from("/Plug/Synth.vst3/Contents/x86_64-win/Synth.vst3"),
            PathBuf::from("/Plug/Synth.vst3/Synth.vst3"),
        ]
    );
    assert_eq!(
        library_candidates(Platform::Unix, path),
        vec![
            PathBuf::from("/Plug/Synth.vst3/Contents/x86_64-linux/Synth.so"),
            PathBuf::from("/Plug/Synth.vst3/Synth.so"),
        ]
    );
}

#[test]
fn library_is_the_first_place_that_exists() {
    let path = Path::new("/Plug/Synth.vst3");
    let places = library_candidates(Platform::Unix, path);
    let resolve = |is_file, existing: &[bool]| {
        resolve_vst3_library_path(Platform::Unix, path, is_file, &existing.to_vec())
    };
    assert_eq!(resolve(true, &[true, true]), path.to_path_buf());
    assert_eq!(resolve(false, &[true, true]), places[0]);
    assert_eq!(resolve(false, &[false, true]), places[1]);
    assert_eq!(resolve(false, &[false, false]), path.to_path_buf());
}

/// A probe that has come as far as the classes of a factory.
fn at_classes(count: i32, read: i32) -> Vst3Probe {
    let path = PathBuf::from("/Plug/Synth.vst3");
    let (mut probe, action) = probe(Platform::Unix, &path);
    assert!(matches!(
        action,
        Vst3Action::Inspect { path: inspected, places } if inspected == path && places.len() == 2
    ));
    let action = probe.resume(Vst3Event::Inspected {
        is_file: false,
        existing: vec![false, true],
    });
    assert!(matches!(
        action,
        Vst3Action::CheckLibrary(library) if library == Path::new("/Plug/Synth.vst3/Synth.so")
    ));
    let action = probe.resume(Vst3Event::LibraryChecked(true));
    assert!(matches!(action, Vst3Action::LoadModule { .. }));
    assert!(matches!(
        probe.resume(Vst3Event::ModuleLoaded(Ok(()))),
        Vst3Action::CountClasses
    ));
    assert!(matches!(
        probe.resume(Vst3Event::ClassesCounted(count)),
        Vst3Action::ReadClasses(asked) if asked == read
    ));
    probe
}

fn message(action: Vst3Action) -> String {
    match action {
        Vst3Action::Finish(Err(error)) => error.message(),
        _ => panic!("expected a failure"),
    }
}

#[test]
fn vst3_probe_finds_audio_processors() {
    let mut probe = at_classes(4, 4);
    let classes = vec![
        ClassFacts {
            info2: Some(info2("Audio Module Class", "Instrument|Synth")),
            info: None,
        },
        ClassFacts {
            info2: Some(info2("Component Controller Class", "")),
            info: Some(info("Component Controller Class")),
        },
        ClassFacts {
            info2: None,
            info: Some(info("Audio Module Class")),
        },
        ClassFacts {
            info2: None,
            info: None,
        },
    ];

    let Vst3Action::Finish(Ok(plugins)) = probe.resume(Vst3Event::ClassesRead(classes)) else {
        panic!("expected plugins");
    };

    assert_eq!(plugins.len(), 2);
    assert_eq!(
        plugins[0],
        Vst3PluginMetadata {
            processor_id: "vst3:/Plug/Synth.vst3#00112233445566778899aabbccddeeff".to_string(),
            class_id: "00112233445566778899aabbccddeeff".to_string(),
            name: "Synth".to_string(),
            vendor: Some("Vendor".to_string()),
            version: None,
            category: Some("Instrument|Synth".to_string()),
            role: Role::Instrument,
            path: PathBuf::from("/Plug/Synth.vst3"),
            library_path: PathBuf::from("/Plug/Synth.vst3/Synth.so"),
        }
    );
    assert_eq!(plugins[1].name, "Old");
    assert_eq!(plugins[1].role, Role::Effect);
    assert_eq!(plugins[1].vendor, None);
    assert!(matches!(
        probe.resume(Vst3Event::ClassesCounted(1)),
        Vst3Action::Wait
    ));
}

#[test]
fn vst3_probe_without_processors_fails() {
    let mut probe = at_classes(-3, 0);
    assert_eq!(
        message(probe.resume(Vst3Event::ClassesRead(Vec::new()))),
        "no VST3 audio processor classes found"
    );
}

#[test]
fn vst3_probe_reports_what_is_missing() {
    let (_, action) = probe(Platform::Unix, Path::new("/Plug/Synth.clap"));
    assert_eq!(message(action), "not a VST3 candidate: /Plug/Synth.clap");

    let (mut missing, _) = probe(Platform::Unix, Path::new("/Plug/Synth.vst3"));
    missing.resume(Vst3Event::Inspected {
        is_file: false,
        existing: vec![false, false],
    });
    assert_eq!(
        message(missing.resume(Vst3Event::LibraryChecked(false))),
        "VST3 binary not found for /Plug/Synth.vst3"
    );

    let (mut broken, _) = probe(Platform::Unix, Path::new("/Plug/Synth.vst3"));
    broken.resume(Vst3Event::Inspected {
        is_file: true,
        existing: Vec::new(),
    });
    broken.resume(Vst3Event::LibraryChecked(true));
    assert_eq!(
        message(broken.resume(Vst3Event::ModuleLoaded(Err(Vst3ProbeError::MissingFactory)))),
        "VST3 factory export returned null"
    );
}

#[test]
fn loaded_module_is_found_under_every_spelling() {
    let library = Path::new("/Plug/Synth.so");
    let mut modules = PathMap::new();
    let Err((_, action)) = load_module(&modules, Platform::Unix, library) else {
        panic!("nothing is loaded");
    };
    assert!(matches!(action, ModuleAction::Open(path) if path == library));

    modules.insert(library.to_path_buf(), 7);
    for spelling in ["/Plug/Synth.so", "/Plug//Synth.so", "/Plug/./Synth.so/"] {
        let found = load_module(&modules, Platform::Unix, Path::new(spelling));
        assert!(matches!(found, Ok(module) if *module == 7));
    }
    let other = load_module(&modules, Platform::Unix, Path::new("/Plug/Other.so"));
    assert!(other.is_err());
}

#[test]
fn only_a_processor_settles_its_class() {
    assert!(is_settled_by_info2(&Some(info2("Audio Module Class", ""))));
    assert!(!is_settled_by_info2(&Some(info2("Component Controller Class", ""))));
    assert!(!is_settled_by_info2(&None));
}

#[test]
fn module_loading_reports_what_is_missing() {
    let failed = |action| match action {
        ModuleAction::Failed(error) => error.message(),
        _ => panic!("expected a failure"),
    };
    let library = Path::new("/Plug/Synth.so");
    let opened = |platform| {
        let (mut load, action) = load_module_uncached(platform, library);
        assert!(matches!(action, ModuleAction::Open(path) if path == library));
        let action = load.resume(ModuleReply::Opened(Ok(())));
        (load, action)
    };

    let (mut load, _) = load_module_uncached(Platform::Unix, library);
    assert_eq!(
        failed(load.resume(ModuleReply::Opened(Err("bad image".to_string())))),
        "failed to load VST3 library /Plug/Synth.so: bad image"
    );

    for (platform, name) in [
        (Platform::MacOs, "BundleEntry"),
        (Platform::Windows, "InitDll"),
        (Platform::Unix, "ModuleEntry"),
    ] {
        let (mut load, action) = opened(platform);
        assert!(matches!(action, ModuleAction::CallEntry(entry) if entry == name));
        assert_eq!(
            failed(load.resume(ModuleReply::Entered(Some(false)))),
            format!("missing VST3 export `{name}`")
        );
    }

    let (mut load, _) = opened(Platform::Unix);
    assert!(matches!(
        load.resume(ModuleReply::Entered(None)),
        ModuleAction::FindExport("GetPluginFactory")
    ));
    assert_eq!(
        failed(load.resume(ModuleReply::Found(false))),
        "missing VST3 export `GetPluginFactory`"
    );

    let (mut load, _) = opened(Platform::Unix);
    load.resume(ModuleReply::Entered(Some(true)));
    assert!(matches!(
        load.resume(ModuleReply::Found(true)),
        ModuleAction::CallFactory
    ));
    assert_eq!(
        failed(load.resume(ModuleReply::Factory(false))),
        "VST3 factory export returned null"
    );

    let (mut load, _) = opened(Platform::Unix);
    load.resume(ModuleReply::Entered(None));
    load.resume(ModuleReply::Found(true));
    assert!(matches!(
        load.resume(ModuleReply::Factory(true)),
        ModuleAction::Loaded
    ));
    assert!(matches!(
        load.resume(ModuleReply::Factory(true)),
        ModuleAction::Wait
    ));
}

#[test]
fn registered_vst3_plugin_entry_exposes_editor_descriptor() {
    let plugin = Vst3PluginMetadata {
        processor_id: "vst3:/Plug/Editor.vst3#00112233445566778899aabbccddeeff".to_string(),
        class_id: "00112233445566778899aabbccddeeff".to_string(),
        name: "Editor".to_string(),
        vendor: Some("Vendor".to_string()),
        version: None,
        category: Some("Fx".to_string()),
        role: Role::Effect,
        path: PathBuf::from("/Plug/Editor.vst3"),
        library_path: PathBuf::from("/Plug/Editor.vst3"),
    };
    let mut store = MetadataStore::new();

    let entries = register_plugins(&mut store, vec![plugin.clone()]);
    let entry = entries
        .iter()
        .find(|entry| entry.id == plugin.processor_id)
        .expect("registered plugin");

    assert_eq!(entry.backend, Backend::Vst3);
    assert_eq!(entry.role, Role::Effect);
    assert!(entry.editor.is_some());
    let editor = entry.editor.expect("editor");
    assert_eq!(
        editor.default_size,
        EditorSize {
            width: 640,
            height: 480,
        }
    );
    assert_eq!(editor.min_size, None);
    assert!(editor.resizable);
    assert_eq!(entry.vendor, Some("Vendor".to_string()));
    assert_eq!(entry.descriptor_name, "Editor");
}

#[test]
fn last_registered_plugin_of_an_id_is_found() {
    let mut store = MetadataStore::new();
    register_plugins(&mut store, vec![plugin("a", "One"), plugin("b", "Two")]);
    register_plugins(&mut store, vec![plugin("a", "Three"), plugin("c", "Four")]);

    assert_eq!(store.plugin_metadata("a").expect("a").name, "Three");
    assert_eq!(store.plugin_metadata("b").expect("b").name, "Two");
    assert_eq!(store.plugin_metadata("c").expect("c").name, "Four");
    assert_eq!(
        store.plugin_metadata("d").expect_err("d").message(),
        "VST3 plugin `d` is not registered"
    );
}

#[test]
fn slot_needs_metadata_and_a_descriptor() {
    let mut store = MetadataStore::new();
    register_plugins(&mut store, vec![plugin("a", "One")]);
    let slot = |id: &str| SlotKind::Plugin {
        plugin_id: id.to_string(),
    };

    let found = metadata_and_descriptor(&store, &slot("a"), Some(7)).expect("found");
    assert!(matches!(found, Some((metadata, 7)) if metadata.name == "One"));
    let missing = Some("VST3 plugin `a` is not registered".to_string());
    assert_eq!(
        metadata_and_descriptor::<u8>(&store, &slot("a"), None).err(),
        missing
    );
    assert_eq!(
        metadata_and_descriptor(&store, &slot("b"), Some(7)).err(),
        Some("VST3 plugin `b` is not registered".to_string())
    );
    assert!(matches!(
        metadata_and_descriptor(&store, &SlotKind::Other, Some(7)),
        Ok(None)
    ));
}
