//! What holds across the plugin formats.

use std::path::Path;

use lilypalooza_plugins::clap::{self, is_clap_candidate};
use lilypalooza_plugins::vst3::{self, is_vst3_candidate};

#[test]
fn no_path_is_a_candidate_of_both_formats() {
    for name in ["a.clap", "a.vst3", "a.clap.vst3", "a.vst3.clap", "a.txt", "clap.vst3", ""] {
        let path = Path::new(name);
        assert!(!(is_clap_candidate(path) && is_vst3_candidate(path)));
    }
    assert!(is_vst3_candidate(Path::new("a.clap.vst3")));
    assert!(is_clap_candidate(Path::new("a.vst3.clap")));
}

#[test]
fn only_the_extension_makes_a_candidate() {
    for (a, b) in [("x/a.clap", "y z.CLAP"), ("a.Vst3", "/b/c.vST3")] {
        let (a, b) = (Path::new(a), Path::new(b));
        assert_eq!(is_clap_candidate(a), is_clap_candidate(b));
        assert_eq!(is_vst3_candidate(a), is_vst3_candidate(b));
    }
}

#[test]
fn processor_ids_tell_plugins_apart() {
    let path = Path::new("/Plug/Test");
    assert_ne!(
        clap::stable_processor_id(path, "org.a"),
        clap::stable_processor_id(path, "org.b")
    );
    assert_ne!(
        vst3::stable_processor_id(path, "00"),
        vst3::stable_processor_id(path, "01")
    );
    assert_ne!(
        clap::stable_processor_id(path, "00"),
        vst3::stable_processor_id(path, "00")
    );
}
