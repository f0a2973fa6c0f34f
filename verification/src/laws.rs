//! What holds across the plugin formats.

use vstd::prelude::*;
use vstd::utf8::{encode_utf8, valid_utf8};

use crate::clap;
use crate::paths::{
    as_text, file_name_of, law_extension_in_any_case, law_name_is_stem_and_extension,
    law_plain_name_has_no_extension, name_extension, path_text,
};
use crate::text::{ascii_lower, lowered};
use crate::vst3;

verus! {

/// No path is a candidate of both formats.
pub proof fn law_formats_are_disjoint(path: Seq<u8>)
    ensures
        !(clap::is_candidate(path) && vst3::is_candidate(path)),
{
    reveal_strlit("clap");
    reveal_strlit("vst3");
    if clap::is_candidate(path) && vst3::is_candidate(path) {
        assert(lowered(clap::FORMAT@)[0] == ascii_lower('c'));
        assert(lowered(vst3::FORMAT@)[0] == ascii_lower('v'));
    }
}

/// The extension of a path's file name as text, if it has one.
pub open spec fn extension_text(path: Seq<u8>) -> Option<Seq<char>> {
    match file_name_of(path) {
        Some(name) => match name_extension(name) {
            Some(bytes) => as_text(bytes),
            None => None,
        },
        None => None,
    }
}

/// Nothing but the extension makes a candidate, and the case of its ASCII letters does not
/// matter.
pub proof fn law_only_the_extension_counts(a: Seq<u8>, b: Seq<u8>)
    requires
        match (extension_text(a), extension_text(b)) {
            (Some(x), Some(y)) => lowered(x) == lowered(y),
            (None, None) => true,
            _ => false,
        },
    ensures
        clap::is_candidate(a) == clap::is_candidate(b),
        vst3::is_candidate(a) == vst3::is_candidate(b),
{
}

proof fn lemma_same_tail(head: Seq<char>, a: Seq<char>, b: Seq<char>)
    requires
        head + a == head + b,
    ensures
        a == b,
{
    let n = head.len() as int;
    assert((head + a).skip(n) =~= a);
    assert((head + b).skip(n) =~= b);
}

/// Two plugins of one binary have the same processor id only if they have the same plugin id, and
/// a CLAP plugin never has the processor id of a VST3 plugin.
pub proof fn law_processor_ids_tell_plugins_apart(
    path: Seq<u8>,
    other: Seq<u8>,
    a: Seq<char>,
    b: Seq<char>,
)
    ensures
        clap::processor_id(path, a) == clap::processor_id(path, b) ==> a == b,
        vst3::processor_id(path, a) == vst3::processor_id(path, b) ==> a == b,
        clap::processor_id(path, a) != vst3::processor_id(other, b),
{
    if clap::processor_id(path, a) == clap::processor_id(path, b) {
        lemma_same_tail(clap::FORMAT@ + ":"@ + path_text(path) + "#"@, a, b);
    }
    if vst3::processor_id(path, a) == vst3::processor_id(path, b) {
        lemma_same_tail("vst3:"@ + path_text(path) + "#"@, a, b);
    }
    reveal_strlit("clap");
    reveal_strlit("vst3:");
    assert(clap::processor_id(path, a)[0] == 'c');
    assert(vst3::processor_id(other, b)[0] == 'v');
}

/// A path is a CLAP candidate if its file name has something before its last full stop and `clap`
/// behind it, in any mix of cases, and a VST3 candidate if it has `vst3` there.
pub proof fn law_extension_makes_the_candidate(path: Seq<u8>, stem: Seq<u8>, written: Seq<char>)
    requires
        stem.len() > 0,
        forall|i: int|
            0 <= i < encode_utf8(written).len() ==> #[trigger] encode_utf8(written)[i] != 46u8,
        file_name_of(path) == Some(stem + seq![46u8] + encode_utf8(written)),
    ensures
        clap::is_candidate(path) <==> lowered(written) == "clap"@,
        vst3::is_candidate(path) <==> lowered(written) == "vst3"@,
{
    reveal_strlit("clap");
    reveal_strlit("vst3");
    law_extension_in_any_case(stem, written, "clap"@);
    law_extension_in_any_case(stem, written, "vst3"@);
    assert(lowered("clap"@) =~= "clap"@);
    assert(lowered("vst3"@) =~= "vst3"@);
}

/// A path without a file name is no candidate, and neither is one whose file name has no full stop
/// but at its beginning.
pub proof fn law_plain_name_is_no_candidate(path: Seq<u8>)
    requires
        file_name_of(path) matches Some(name) ==> forall|i: int|
            0 < i < name.len() ==> #[trigger] name[i] != 46u8,
    ensures
        !clap::is_candidate(path),
        !vst3::is_candidate(path),
{
    if let Some(name) = file_name_of(path) {
        law_plain_name_has_no_extension(name);
    }
}

/// A path whose file name has something behind its last full stop that is no UTF-8 is no
/// candidate.
pub proof fn law_odd_extension_is_no_candidate(path: Seq<u8>, stem: Seq<u8>, extension: Seq<u8>)
    requires
        forall|i: int| 0 <= i < extension.len() ==> #[trigger] extension[i] != 46u8,
        stem.len() > 0,
        file_name_of(path) == Some(stem + seq![46u8] + extension),
        !valid_utf8(extension),
    ensures
        !clap::is_candidate(path),
        !vst3::is_candidate(path),
{
    law_name_is_stem_and_extension(stem, extension);
}

} // verus!
