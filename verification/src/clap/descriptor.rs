//! Plugin descriptors as a CLAP factory hands them out.

use std::path::Path;
use vstd::prelude::*;
use vstd::utf8::{encode_utf8, encode_utf8_decode_utf8, encode_utf8_valid_utf8, valid_utf8};

use clap_sys::plugin_features::{
    CLAP_PLUGIN_FEATURE_DRUM, CLAP_PLUGIN_FEATURE_DRUM_MACHINE, CLAP_PLUGIN_FEATURE_INSTRUMENT,
    CLAP_PLUGIN_FEATURE_SAMPLER, CLAP_PLUGIN_FEATURE_SYNTHESIZER,
};
use clap_sys::version::{clap_version, clap_version_is_compatible};

use super::{processor_id, stable_processor_id, ClapPlugin, ClapPluginMetadata, ClapProbeError};
use crate::paths::{as_text, path_bytes};
use crate::registry::Role;
use crate::text::{all_texts, optional_text, utf8_strict};

verus! {

/// CLAP version number.
#[derive(Debug, Clone, Copy, PartialEq, Eq, Structural)]
pub struct ClapVersion {
    /// Major version.
    pub major: u32,
    /// Minor version.
    pub minor: u32,
    /// Revision.
    pub revision: u32,
}

/// Whether a version can be hosted.
pub open spec fn is_compatible(version: ClapVersion) -> bool {
    version.major >= 1
}

/// Calls `clap_version_is_compatible`, which asks for a major version of at least one.
#[verifier::external_body]
pub(crate) fn version_is_compatible(version: ClapVersion) -> (r: bool)
    ensures
        r == is_compatible(version),
{
    clap_version_is_compatible(clap_version {
        major: version.major,
        minor: version.minor,
        revision: version.revision,
    })
}

/// Reads `CLAP_PLUGIN_FEATURE_INSTRUMENT`, which holds the text `instrument`.
#[verifier::external_body]
fn feature_instrument() -> (text: String)
    ensures
        text@ == "instrument"@,
{
    CLAP_PLUGIN_FEATURE_INSTRUMENT.to_string_lossy().into_owned()
}

/// Reads `CLAP_PLUGIN_FEATURE_SYNTHESIZER`, which holds the text `synthesizer`.
#[verifier::external_body]
fn feature_synthesizer() -> (text: String)
    ensures
        text@ == "synthesizer"@,
{
    CLAP_PLUGIN_FEATURE_SYNTHESIZER.to_string_lossy().into_owned()
}

/// Reads `CLAP_PLUGIN_FEATURE_SAMPLER`, which holds the text `sampler`.
#[verifier::external_body]
fn feature_sampler() -> (text: String)
    ensures
        text@ == "sampler"@,
{
    CLAP_PLUGIN_FEATURE_SAMPLER.to_string_lossy().into_owned()
}

/// Reads `CLAP_PLUGIN_FEATURE_DRUM`, which holds the text `drum`.
#[verifier::external_body]
fn feature_drum() -> (text: String)
    ensures
        text@ == "drum"@,
{
    CLAP_PLUGIN_FEATURE_DRUM.to_string_lossy().into_owned()
}

/// Reads `CLAP_PLUGIN_FEATURE_DRUM_MACHINE`, which holds the text `drum-machine`.
#[verifier::external_body]
fn feature_drum_machine() -> (text: String)
    ensures
        text@ == "drum-machine"@,
{
    CLAP_PLUGIN_FEATURE_DRUM_MACHINE.to_string_lossy().into_owned()
}

/// Decides whether a feature is listed.
pub fn has_feature(features: &Vec<String>, feature: &String) -> (r: bool)
    ensures
        r == all_texts(features@).contains(feature@),
{
    for i in 0..features.len()
        invariant
            forall|j: int| 0 <= j < i ==> all_texts(features@)[j] != feature@,
    {
        if features[i] == *feature {
            assert(all_texts(features@)[i as int] == feature@);
            return true;
        }
    }
    false
}

/// The role that a list of features stands for.
pub open spec fn role_of(features: Seq<Seq<char>>) -> Role {
    if features.contains("instrument"@) || features.contains("synthesizer"@) || features.contains(
        "sampler"@,
    ) || features.contains("drum"@) || features.contains("drum-machine"@) {
        Role::Instrument
    } else {
        Role::Effect
    }
}

/// Infers the mixer role from the descriptor features.
pub fn role_from_features(features: &Vec<String>) -> (role: Role)
    ensures
        role == role_of(all_texts(features@)),
{
    if has_feature(features, &feature_instrument()) || has_feature(
        features,
        &feature_synthesizer(),
    ) || has_feature(features, &feature_sampler()) || has_feature(features, &feature_drum())
        || has_feature(features, &feature_drum_machine()) {
        Role::Instrument
    } else {
        Role::Effect
    }
}

/// The strings of a plugin descriptor, each without its terminating NUL. A null pointer is
/// `None`.
pub struct DescriptorFacts {
    /// CLAP version that the plugin was built for.
    pub clap_version: ClapVersion,
    /// Plugin id.
    pub id: Option<Vec<u8>>,
    /// Display name.
    pub name: Option<Vec<u8>>,
    /// Vendor.
    pub vendor: Option<Vec<u8>>,
    /// Plugin version.
    pub version: Option<Vec<u8>>,
    /// Feature strings up to the first null pointer.
    pub features: Option<Vec<Vec<u8>>>,
}

/// The contents of a [`DescriptorFacts`].
pub struct Descriptor {
    pub clap_version: ClapVersion,
    pub id: Option<Seq<u8>>,
    pub name: Option<Seq<u8>>,
    pub vendor: Option<Seq<u8>>,
    pub version: Option<Seq<u8>>,
    pub features: Seq<Seq<u8>>,
}

/// The bytes of each string of a list.
pub open spec fn all_strings(strings: Seq<Vec<u8>>) -> Seq<Seq<u8>> {
    strings.map_values(|string: Vec<u8>| string@)
}

impl View for DescriptorFacts {
    type V = Descriptor;

    open spec fn view(&self) -> Descriptor {
        Descriptor {
            clap_version: self.clap_version,
            id: crate::paths::name_view(self.id),
            name: crate::paths::name_view(self.name),
            vendor: crate::paths::name_view(self.vendor),
            version: crate::paths::name_view(self.version),
            features: match self.features {
                Some(features) => all_strings(features@),
                None => seq![],
            },
        }
    }
}

/// A descriptor string as text: there is none for a null pointer or for bytes that are not UTF-8.
pub open spec fn string_text(value: Option<Seq<u8>>) -> Option<Seq<char>> {
    match value {
        Some(bytes) => as_text(bytes),
        None => None,
    }
}

/// Reads one descriptor string.
pub fn cstr_field(value: &Option<Vec<u8>>) -> (text: Option<String>)
    ensures
        optional_text(text) == string_text(crate::paths::name_view(*value)),
{
    match value {
        Some(bytes) => utf8_strict(bytes.as_slice()),
        None => None,
    }
}

/// The feature strings that are UTF-8, in order.
pub open spec fn feature_texts(features: Seq<Seq<u8>>) -> Seq<Seq<char>>
    decreases features.len(),
{
    if features.len() == 0 {
        seq![]
    } else {
        match as_text(features.last()) {
            Some(text) => feature_texts(features.drop_last()).push(text),
            None => feature_texts(features.drop_last()),
        }
    }
}

/// Reads the feature strings of a descriptor; those that are not UTF-8 are left out.
pub fn features_from_descriptor(descriptor: &DescriptorFacts) -> (features: Vec<String>)
    ensures
        all_texts(features@) == feature_texts(descriptor@.features),
{
    let mut features: Vec<String> = Vec::new();
    match &descriptor.features {
        Some(strings) => {
            for i in 0..strings.len()
                invariant
                    descriptor@.features == all_strings(strings@),
                    all_texts(features@) == feature_texts(descriptor@.features.take(i as int)),
            {
                proof {
                    let all = descriptor@.features;
                    assert(all.take(i + 1).drop_last() == all.take(i as int));
                    assert(all.take(i + 1).last() == strings@[i as int]@);
                }
                if let Some(text) = utf8_strict(strings[i].as_slice()) {
                    let ghost before = features@;
                    features.push(text);
                    assert(all_texts(features@) =~= all_texts(before).push(text@));
                }
            }
            assert(descriptor@.features.take(strings@.len() as int) == descriptor@.features);
        },
        None => {},
    }
    assert(all_texts(features@) =~= feature_texts(descriptor@.features));
    features
}

/// What a descriptor says about a plugin: nothing unless its version is compatible and it has
/// an id and a name.
pub open spec fn plugin_of(
    path: Seq<u8>,
    library_path: Seq<u8>,
    descriptor: Descriptor,
) -> Option<ClapPlugin> {
    if is_compatible(descriptor.clap_version) && string_text(descriptor.id) is Some && string_text(
        descriptor.name,
    ) is Some {
        let clap_id = string_text(descriptor.id)->0;
        let features = feature_texts(descriptor.features);
        Some(
            ClapPlugin {
                processor_id: processor_id(path, clap_id),
                clap_id,
                name: string_text(descriptor.name)->0,
                vendor: string_text(descriptor.vendor),
                version: string_text(descriptor.version),
                features,
                role: role_of(features),
                path,
                library_path,
            },
        )
    } else {
        None
    }
}

/// Reads the metadata of one plugin from its descriptor, which has this index in its factory.
pub fn metadata_from_descriptor(
    path: &Path,
    library_path: &Path,
    descriptor: &DescriptorFacts,
    index: u32,
) -> (metadata: Result<ClapPluginMetadata, ClapProbeError>)
    ensures
        match plugin_of(path_bytes(path), path_bytes(library_path), descriptor@) {
            Some(plugin) => metadata matches Ok(m) && m@ == plugin,
            None => metadata matches Err(e) && e == ClapProbeError::InvalidDescriptor { index },
        },
{
    if !version_is_compatible(descriptor.clap_version) {
        return Err(ClapProbeError::InvalidDescriptor { index });
    }
    let clap_id = match cstr_field(&descriptor.id) {
        Some(id) => id,
        None => return Err(ClapProbeError::InvalidDescriptor { index }),
    };
    let name = match cstr_field(&descriptor.name) {
        Some(name) => name,
        None => return Err(ClapProbeError::InvalidDescriptor { index }),
    };
    let features = features_from_descriptor(descriptor);
    let role = role_from_features(&features);
    Ok(
        ClapPluginMetadata {
            processor_id: stable_processor_id(path, clap_id.as_str()),
            clap_id,
            name,
            vendor: cstr_field(&descriptor.vendor),
            version: cstr_field(&descriptor.version),
            features,
            role,
            path: path.to_path_buf(),
            library_path: library_path.to_path_buf(),
        },
    )
}

/// A plugin is an instrument if one of its features is "instrument", "synthesizer", "sampler",
/// "drum" or "drum-machine", and an effect if none is.
pub proof fn law_feature_makes_an_instrument(features: Seq<Seq<char>>, i: int)
    ensures
        0 <= i < features.len() && (features[i] == "instrument"@ || features[i] == "synthesizer"@
            || features[i] == "sampler"@ || features[i] == "drum"@ || features[i]
            == "drum-machine"@) ==> role_of(features) == Role::Instrument,
        (forall|k: int|
            0 <= k < features.len() ==> #[trigger] features[k] != "instrument"@ && features[k]
                != "synthesizer"@ && features[k] != "sampler"@ && features[k] != "drum"@
                && features[k] != "drum-machine"@) ==> role_of(features) == Role::Effect,
{
    if 0 <= i < features.len() {
        assert(features.contains(features[i]));
    }
}

/// A descriptor of a version from one on, with an id and a name, is a plugin with the descriptor's
/// own id, name, vendor, version and features, at the paths that were probed, under the id that
/// these make; what the descriptor leaves out is left out.
pub proof fn law_descriptor_is_described_in_full(
    path: Seq<u8>,
    library_path: Seq<u8>,
    descriptor: Descriptor,
    id: Seq<char>,
    name: Seq<char>,
    vendor: Seq<char>,
    version: Seq<char>,
)
    requires
        descriptor.clap_version.major >= 1,
        descriptor.id == Some(encode_utf8(id)),
        descriptor.name == Some(encode_utf8(name)),
    ensures
        plugin_of(path, library_path, descriptor) matches Some(plugin) && {
            &&& plugin.clap_id == id
            &&& plugin.name == name
            &&& plugin.processor_id == processor_id(path, id)
            &&& plugin.path == path
            &&& plugin.library_path == library_path
            &&& descriptor.vendor == Some(encode_utf8(vendor)) ==> plugin.vendor == Some(vendor)
            &&& descriptor.vendor is None ==> plugin.vendor is None
            &&& descriptor.version == Some(encode_utf8(version)) ==> plugin.version == Some(version)
            &&& descriptor.version is None ==> plugin.version is None
            &&& plugin.features == feature_texts(descriptor.features)
            &&& plugin.role == role_of(plugin.features)
        },
{
    encode_utf8_valid_utf8(id);
    encode_utf8_decode_utf8(id);
    encode_utf8_valid_utf8(name);
    encode_utf8_decode_utf8(name);
    encode_utf8_valid_utf8(vendor);
    encode_utf8_decode_utf8(vendor);
    encode_utf8_valid_utf8(version);
    encode_utf8_decode_utf8(version);
}

/// A descriptor without an id or a name, or of a version before one, is no plugin.
pub proof fn law_incomplete_descriptor_is_refused(
    path: Seq<u8>,
    library_path: Seq<u8>,
    descriptor: Descriptor,
)
    requires
        descriptor.clap_version.major == 0 || descriptor.id is None || descriptor.name is None,
    ensures
        plugin_of(path, library_path, descriptor) is None,
{
}

/// The features of a descriptor are its feature strings as texts, each in its place; those of two
/// runs of strings are those of the first and then those of the second, and a string that is no
/// UTF-8 is left out.
pub proof fn law_features_keep_their_places(
    a: Seq<Seq<u8>>,
    b: Seq<Seq<u8>>,
    text: Seq<char>,
    odd: Seq<u8>,
)
    ensures
        feature_texts(a + b) == feature_texts(a) + feature_texts(b),
        feature_texts(seq![encode_utf8(text)]) == seq![text],
        !valid_utf8(odd) ==> feature_texts(seq![odd]).len() == 0,
    decreases b.len(),
{
    reveal_with_fuel(feature_texts, 2);
    encode_utf8_valid_utf8(text);
    encode_utf8_decode_utf8(text);
    assert(seq![encode_utf8(text)].drop_last() =~= Seq::<Seq<u8>>::empty());
    assert(seq![odd].drop_last() =~= Seq::<Seq<u8>>::empty());
    assert(feature_texts(seq![encode_utf8(text)]) =~= seq![text]);
    if b.len() == 0 {
        assert(a + b =~= a);
        assert(feature_texts(a) + feature_texts(b) =~= feature_texts(a));
    } else {
        law_features_keep_their_places(a, b.drop_last(), text, odd);
        assert((a + b).drop_last() =~= a + b.drop_last());
        assert(feature_texts(a + b) =~= feature_texts(a) + feature_texts(b));
    }
}

/// A string of a descriptor that is no UTF-8 is as good as none: an id or a name like that makes
/// the descriptor no plugin, and a vendor or a version like that is left out.
pub proof fn law_odd_strings_are_left_out(
    path: Seq<u8>,
    library_path: Seq<u8>,
    descriptor: Descriptor,
    odd: Seq<u8>,
)
    requires
        !valid_utf8(odd),
    ensures
        descriptor.id == Some(odd) || descriptor.name == Some(odd) ==> plugin_of(
            path,
            library_path,
            descriptor,
        ) is None,
        plugin_of(path, library_path, descriptor) matches Some(plugin) ==> {
            &&& descriptor.vendor == Some(odd) ==> plugin.vendor is None
            &&& descriptor.version == Some(odd) ==> plugin.version is None
        },
{
}

} // verus!
