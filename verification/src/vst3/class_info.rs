//! Class information as a VST3 factory hands it out.

use std::path::Path;
use vstd::prelude::*;
use vstd::string::*;
use vstd::utf8::{
    encode_utf8, encode_utf8_decode_utf8, encode_utf8_valid_utf8, is_ascii_chars,
    is_ascii_chars_encode_utf8, is_continuation_byte, valid_utf8,
};

use super::{processor_id, stable_processor_id, vst3_plugins, Vst3Plugin, Vst3PluginMetadata};
use crate::paths::path_bytes;
use crate::registry::Role;
use crate::text::{
    ascii_lower, contains, contains_text, digit, digit_char, encode_utf16, is_white_space,
    law_blank_text_is_trimmed_away, law_only_white_space_is_trimmed, lemma_contained, lossy_text,
    lowered, lowered_chars, occurs_at, optional_text, replaced_text, same_text, trim, trimmed,
    utf16_text, utf8_lossy,
};

verus! {

/// Category of the classes that process audio.
pub const AUDIO_MODULE_CLASS: &'static str = "Audio Module Class";

/// The role that a subcategory string stands for.
pub open spec fn role_of(category: Option<Seq<char>>) -> Role {
    let lower = match category {
        Some(text) => lowered(text),
        None => seq![],
    };
    if contains_text(lower, "instrument"@) || contains_text(lower, "synth"@) || contains_text(
        lower,
        "sampler"@,
    ) || contains_text(lower, "drum"@) {
        Role::Instrument
    } else {
        Role::Effect
    }
}

/// Infers the mixer role from the subcategory string.
pub fn role_from_subcategories(category: Option<&str>) -> (role: Role)
    ensures
        role == role_of(
            match category {
                Some(text) => Some(text@),
                None => None,
            },
        ),
{
    let lower = match category {
        Some(text) => lowered_chars(text),
        None => Vec::new(),
    };
    if contains(&lower, "instrument") || contains(&lower, "synth") || contains(&lower, "sampler")
        || contains(&lower, "drum") {
        Role::Instrument
    } else {
        Role::Effect
    }
}

/// A text, unless it is blank.
pub open spec fn non_blank(text: Seq<char>) -> Option<Seq<char>> {
    if trimmed(text).len() > 0 {
        Some(text)
    } else {
        None
    }
}

/// Returns the text, unless it is blank.
pub fn non_empty_string(value: String) -> (text: Option<String>)
    ensures
        optional_text(text) == non_blank(value@),
{
    if trim(value.as_str()).as_str().is_empty() {
        None
    } else {
        Some(value)
    }
}

/// The bytes before the first zero.
pub open spec fn before_nul(bytes: Seq<u8>) -> Seq<u8>
    decreases bytes.len(),
{
    if bytes.len() == 0 || bytes.first() == 0 {
        seq![]
    } else {
        seq![bytes.first()] + before_nul(bytes.drop_first())
    }
}

/// The text of a fixed-size character array.
pub open spec fn array_text(bytes: Seq<u8>) -> Seq<char> {
    trimmed(lossy_text(before_nul(bytes)))
}

proof fn lemma_before_nul(bytes: Seq<u8>, n: int)
    requires
        0 <= n <= bytes.len(),
        forall|i: int| 0 <= i < n ==> bytes[i] != 0,
        n < bytes.len() ==> bytes[n] == 0,
    ensures
        before_nul(bytes) == bytes.take(n),
    decreases n,
{
    if n > 0 {
        lemma_before_nul(bytes.drop_first(), n - 1);
        assert(seq![bytes.first()] + bytes.drop_first().take(n - 1) =~= bytes.take(n));
    } else {
        assert(bytes.take(0) =~= seq![]);
    }
}

/// Reads the text of a fixed-size character array: up to the first NUL, without surrounding
/// white space.
pub fn c_char_array_to_string(bytes: &[u8]) -> (text: String)
    ensures
        text@ == array_text(bytes@),
{
    let mut len: usize = 0;
    while len < bytes.len() && bytes[len] != 0
        invariant
            len <= bytes@.len(),
            forall|i: int| 0 <= i < len ==> bytes@[i] != 0,
        ensures
            len <= bytes@.len(),
            forall|i: int| 0 <= i < len ==> bytes@[i] != 0,
            len < bytes@.len() ==> bytes@[len as int] == 0,
        decreases bytes@.len() - len,
    {
        len = len + 1;
    }
    proof {
        lemma_before_nul(bytes@, len as int);
    }
    let used = vstd::slice::slice_subrange(bytes, 0, len);
    assert(used@ == bytes@.take(len as int));
    trim(utf8_lossy(used).as_str())
}

/// A character buffer after a text is copied into it: as many code units as fit, and a zero
/// behind them or, in a full buffer, in place of the last.
pub open spec fn copied(units: Seq<u16>, buffer: Seq<u16>) -> Seq<u16> {
    Seq::new(
        buffer.len(),
        |i: int|
            if i < units.len() {
                if i == buffer.len() - 1 {
                    0
                } else {
                    units[i]
                }
            } else if i == units.len() {
                0
            } else {
                buffer[i]
            },
    )
}

/// Copies a text into a character buffer, terminated by zero.
pub fn copy_tchar_string(src: &str, dst: &mut [u16])
    ensures
        final(dst)@ == copied(utf16_text(src@), old(dst)@),
{
    let units = encode_utf16(src);
    let ghost before = dst@;
    let mut len: usize = 0;
    while len < units.len() && len < dst.len()
        invariant
            len <= units@.len(),
            len <= dst@.len(),
            dst@.len() == before.len(),
            forall|i: int| 0 <= i < len ==> dst@[i] == units@[i],
            forall|i: int| len <= i < before.len() ==> dst@[i] == before[i],
        decreases units@.len() - len,
    {
        dst[len] = units[len];
        len = len + 1;
    }
    if len < dst.len() {
        dst[len] = 0;
    } else if dst.len() > 0 {
        let last: usize = dst.len() - 1;
        dst[last] = 0;
    }
    assert(dst@ =~= copied(units@, before));
}

/// A class id as the host and the factory exchange it.
pub type Tuid = [u8; 16];

/// Bytes in lowercase hex, two digits for each.
pub open spec fn hex_text(bytes: Seq<u8>) -> Seq<char>
    decreases bytes.len(),
{
    if bytes.len() == 0 {
        seq![]
    } else {
        hex_text(bytes.drop_last()).push(digit_char((bytes.last() / 16) as nat)).push(
            digit_char((bytes.last() % 16) as nat),
        )
    }
}

/// Writes a class id in lowercase hex.
pub fn tuid_to_hex(tuid: &Tuid) -> (hex: String)
    ensures
        hex@ == hex_text(tuid@),
{
    let mut hex = String::new();
    for i in 0..16usize
        invariant
            tuid@.len() == 16,
            hex@ == hex_text(tuid@.take(i as int)),
    {
        hex.push(digit(tuid[i] / 16));
        hex.push(digit(tuid[i] % 16));
        assert(tuid@.take(i + 1).drop_last() =~= tuid@.take(i as int));
    }
    assert(tuid@.take(16) =~= tuid@);
    hex
}

/// The value of a hex digit.
pub open spec fn hex_value(byte: u8) -> Option<u8> {
    if 48 <= byte <= 57 {
        Some((byte - 48) as u8)
    } else if 65 <= byte <= 70 {
        Some((byte - 55) as u8)
    } else if 97 <= byte <= 102 {
        Some((byte - 87) as u8)
    } else {
        None
    }
}

/// The value of two characters as a number in base sixteen: two digits, or a plus sign and one
/// digit.
pub open spec fn pair_value(first: u8, second: u8) -> Option<u8> {
    match hex_value(second) {
        None => None,
        Some(low) => if first == 43 {
            Some(low)
        } else {
            match hex_value(first) {
                None => None,
                Some(high) => Some((high * 16 + low) as u8),
            }
        },
    }
}

/// The bytes of a class id that the first `n` pairs of characters stand for.
pub open spec fn pair_values(bytes: Seq<u8>, n: nat) -> Option<Seq<u8>>
    decreases n,
{
    if n == 0 {
        Some(seq![])
    } else {
        match pair_values(bytes, (n - 1) as nat) {
            None => None,
            Some(values) => match pair_value(bytes[2 * n - 2], bytes[2 * n - 1]) {
                None => None,
                Some(value) => Some(values.push(value)),
            },
        }
    }
}

/// The class id that a text stands for.
pub open spec fn tuid_of(hex: Seq<char>) -> Option<Seq<u8>> {
    let bytes = encode_utf8(hex);
    if bytes.len() == 32 {
        pair_values(bytes, 16)
    } else {
        None
    }
}

/// Whether a text can be read two bytes at a time: no character straddles the end of the first
/// pair that is not a number.
pub open spec fn splits_in_pairs(hex: Seq<char>) -> bool {
    let bytes = encode_utf8(hex);
    bytes.len() == 32 ==> forall|n: nat|
        n < 15 && #[trigger] pair_values(bytes, n) is Some ==> !is_continuation_byte(
            bytes[2 * n as int + 2],
        )
}

/// Returns the value of a hex digit.
fn hex_digit(byte: u8) -> (value: Option<u8>)
    ensures
        value == hex_value(byte),
{
    if 48 <= byte && byte <= 57 {
        Some(byte - 48)
    } else if 65 <= byte && byte <= 70 {
        Some(byte - 55)
    } else if 97 <= byte && byte <= 102 {
        Some(byte - 87)
    } else {
        None
    }
}

/// Returns the value of two characters as a number in base sixteen.
fn hex_pair(first: u8, second: u8) -> (value: Option<u8>)
    ensures
        value == pair_value(first, second),
{
    match hex_digit(second) {
        None => None,
        Some(low) => {
            if first == 43 {
                Some(low)
            } else {
                match hex_digit(first) {
                    None => None,
                    Some(high) => Some(high * 16 + low),
                }
            }
        },
    }
}

proof fn lemma_pair_values_stop(bytes: Seq<u8>, n: nat, m: nat)
    requires
        n <= m,
        pair_values(bytes, n) is None,
    ensures
        pair_values(bytes, m) is None,
    decreases m,
{
    if n < m {
        lemma_pair_values_stop(bytes, n, (m - 1) as nat);
    }
}

/// Decides [`splits_in_pairs`].
pub fn hex_splits_in_pairs(hex: &str) -> (r: bool)
    ensures
        r == splits_in_pairs(hex@),
{
    let bytes = hex.as_bytes();
    if bytes.len() != 32 {
        return true;
    }
    for n in 0..15usize
        invariant
            bytes@ == encode_utf8(hex@),
            bytes@.len() == 32,
            pair_values(bytes@, n as nat) is Some,
            forall|m: nat|
                m < n && #[trigger] pair_values(bytes@, m) is Some ==> !is_continuation_byte(
                    bytes@[2 * m as int + 2],
                ),
    {
        let next = bytes[2 * n + 2];
        if 0x80 <= next && next <= 0xbf {
            assert(is_continuation_byte(next));
            assert(pair_values(bytes@, n as nat) is Some);
            return false;
        }
        if hex_pair(bytes[2 * n], bytes[2 * n + 1]).is_none() {
            proof {
                assert(pair_values(bytes@, (n + 1) as nat) is None);
                assert forall|m: nat| m < 15 && #[trigger]
                    pair_values(bytes@, m) is Some implies !is_continuation_byte(
                    bytes@[2 * m as int + 2],
                ) by {
                    if m > n {
                        lemma_pair_values_stop(bytes@, (n + 1) as nat, m);
                    }
                }
            }
            return true;
        }
    }
    true
}

/// Reads a class id from its hex notation.
pub fn hex_to_tuid(hex: &str) -> (tuid: Option<Tuid>)
    requires
        splits_in_pairs(hex@),
    ensures
        tuid is Some <==> tuid_of(hex@) is Some,
        tuid matches Some(t) ==> tuid_of(hex@) == Some(t@),
{
    let bytes = hex.as_bytes();
    if bytes.len() != 32 {
        return None;
    }
    let mut out: Tuid = [0;16];
    for i in 0..16usize
        invariant
            bytes@ == encode_utf8(hex@),
            bytes@.len() == 32,
            pair_values(bytes@, i as nat) == Some(out@.take(i as int)),
    {
        match hex_pair(bytes[2 * i], bytes[2 * i + 1]) {
            Some(byte) => {
                let ghost before = out@;
                out[i] = byte;
                assert(out@.take(i + 1) =~= before.take(i as int).push(byte));
            },
            None => {
                proof {
                    lemma_pair_values_stop(bytes@, (i + 1) as nat, 16);
                }
                return None;
            },
        }
    }
    assert(out@.take(16) =~= out@);
    Some(out)
}

/// Whether a text is 32 hex digits of either case.
pub open spec fn is_hex(hex: Seq<char>) -> bool {
    &&& hex.len() == 32
    &&& forall|i: int|
        0 <= i < 32 ==> '0' <= #[trigger] hex[i] <= '9' || 'a' <= hex[i] <= 'f' || 'A' <= hex[i]
            <= 'F'
}

/// Whether a text is 32 lowercase hex digits.
pub open spec fn is_lowercase_hex(hex: Seq<char>) -> bool {
    &&& hex.len() == 32
    &&& forall|i: int| 0 <= i < 32 ==> '0' <= #[trigger] hex[i] <= '9' || 'a' <= hex[i] <= 'f'
}

proof fn lemma_hex_text(bytes: Seq<u8>)
    ensures
        hex_text(bytes).len() == 2 * bytes.len(),
        forall|i: int|
            0 <= i < bytes.len() ==> #[trigger] hex_text(bytes)[2 * i] == digit_char(
                (bytes[i] / 16) as nat,
            ),
        forall|i: int|
            0 <= i < bytes.len() ==> #[trigger] hex_text(bytes)[2 * i + 1] == digit_char(
                (bytes[i] % 16) as nat,
            ),
    decreases bytes.len(),
{
    if bytes.len() > 0 {
        lemma_hex_text(bytes.drop_last());
    }
}

proof fn lemma_hex_is_lowercase(bytes: Seq<u8>)
    requires
        bytes.len() == 16,
    ensures
        is_lowercase_hex(hex_text(bytes)),
{
    lemma_hex_text(bytes);
    let hex = hex_text(bytes);
    assert forall|i: int| 0 <= i < 32 implies '0' <= #[trigger] hex[i] <= '9' || 'a' <= hex[i]
        <= 'f' by {
        if i % 2 == 0 {
            assert(hex[2 * (i / 2)] == hex[i]);
        } else {
            assert(hex[2 * (i / 2) + 1] == hex[i]);
        }
    }
}

proof fn lemma_hex_bytes(hex: Seq<char>)
    requires
        is_hex(hex),
    ensures
        encode_utf8(hex).len() == 32,
        forall|i: int| 0 <= i < 32 ==> #[trigger] encode_utf8(hex)[i] == hex[i] as u8,
        forall|i: int| 0 <= i < 32 ==> #[trigger] encode_utf8(hex)[i] < 0x80,
        splits_in_pairs(hex),
{
    assert(is_ascii_chars(hex));
    is_ascii_chars_encode_utf8(hex);
}

proof fn lemma_pairs_of_hex(tuid: Seq<u8>, n: nat)
    requires
        tuid.len() == 16,
        n <= 16,
    ensures
        pair_values(encode_utf8(hex_text(tuid)), n) == Some(tuid.take(n as int)),
    decreases n,
{
    let hex = hex_text(tuid);
    let bytes = encode_utf8(hex);
    lemma_hex_text(tuid);
    lemma_hex_is_lowercase(tuid);
    lemma_hex_bytes(hex);
    if n > 0 {
        lemma_pairs_of_hex(tuid, (n - 1) as nat);
        let i = n - 1;
        assert(hex[2 * i] == digit_char((tuid[i] / 16) as nat));
        assert(hex[2 * i + 1] == digit_char((tuid[i] % 16) as nat));
        assert(pair_value(bytes[2 * n - 2], bytes[2 * n - 1]) == Some(tuid[i]));
        assert(tuid.take(n as int) =~= tuid.take(i).push(tuid[i]));
    } else {
        assert(tuid.take(0) =~= seq![]);
    }
}

/// A class id is read back from its hex notation as it was.
pub proof fn law_tuid_survives_hex(tuid: Seq<u8>)
    requires
        tuid.len() == 16,
    ensures
        splits_in_pairs(hex_text(tuid)),
        tuid_of(hex_text(tuid)) == Some(tuid),
{
    lemma_hex_is_lowercase(tuid);
    lemma_hex_bytes(hex_text(tuid));
    lemma_pairs_of_hex(tuid, 16);
    assert(tuid.take(16) =~= tuid);
}

proof fn lemma_hex_of_pairs(hex: Seq<char>, n: nat)
    requires
        is_hex(hex),
        n <= 16,
    ensures
        pair_values(encode_utf8(hex), n) is Some,
        pair_values(encode_utf8(hex), n)->0.len() == n,
        hex_text(pair_values(encode_utf8(hex), n)->0) == lowered(hex.take(2 * n as int)),
    decreases n,
{
    let bytes = encode_utf8(hex);
    lemma_hex_bytes(hex);
    if n > 0 {
        lemma_hex_of_pairs(hex, (n - 1) as nat);
        let before = pair_values(bytes, (n - 1) as nat)->0;
        assert(bytes[2 * n - 2] == hex[2 * n - 2] as u8);
        assert(bytes[2 * n - 1] == hex[2 * n - 1] as u8);
        let value = pair_value(bytes[2 * n - 2], bytes[2 * n - 1])->0;
        assert(before.push(value).drop_last() =~= before);
        assert(digit_char((value / 16) as nat) == ascii_lower(hex[2 * n - 2]));
        assert(digit_char((value % 16) as nat) == ascii_lower(hex[2 * n - 1]));
        assert(lowered(hex.take(2 * n as int)) =~= lowered(hex.take(2 * n - 2)).push(
            ascii_lower(hex[2 * n - 2]),
        ).push(ascii_lower(hex[2 * n - 1])));
    } else {
        assert(lowered(hex.take(0)) =~= seq![]);
    }
}

/// A class id in 32 hex digits of either case is read, and is written in the same digits again, in
/// lowercase; one in lowercase is written exactly as it was.
pub proof fn law_hex_survives_tuid(hex: Seq<char>)
    requires
        is_hex(hex),
    ensures
        splits_in_pairs(hex),
        tuid_of(hex) matches Some(tuid) && hex_text(tuid) == lowered(hex),
        is_lowercase_hex(hex) ==> lowered(hex) == hex,
{
    lemma_hex_bytes(hex);
    lemma_hex_of_pairs(hex, 16);
    assert(hex.take(32) =~= hex);
    if is_lowercase_hex(hex) {
        assert(lowered(hex) =~= hex);
    }
}

/// A buffer that a text was copied into keeps its size and is terminated by zero.
pub proof fn law_copied_text_is_terminated(text: Seq<char>, buffer: Seq<u16>)
    requires
        buffer.len() > 0,
    ensures
        copied(utf16_text(text), buffer).len() == buffer.len(),
        copied(utf16_text(text), buffer).contains(0),
{
    let units = utf16_text(text);
    let after = copied(units, buffer);
    if units.len() < buffer.len() {
        assert(after[units.len() as int] == 0);
    } else {
        assert(after[buffer.len() - 1] == 0);
    }
}

/// What `IPluginFactory2` says about a class. Each string is a character array with its NUL.
pub struct ClassInfo2 {
    /// Class id.
    pub cid: Tuid,
    /// Class category.
    pub category: Vec<u8>,
    /// Class name.
    pub name: Vec<u8>,
    /// Subcategories, separated by bars.
    pub sub_categories: Vec<u8>,
    /// Vendor.
    pub vendor: Vec<u8>,
    /// Version.
    pub version: Vec<u8>,
}

/// What `IPluginFactory` says about a class. Each string is a character array with its NUL.
pub struct ClassInfo {
    /// Class id.
    pub cid: Tuid,
    /// Class category.
    pub category: Vec<u8>,
    /// Class name.
    pub name: Vec<u8>,
}

/// What a factory says about one class, by either interface.
pub struct ClassFacts {
    /// By `IPluginFactory2`, where the factory has it and answers.
    pub info2: Option<ClassInfo2>,
    /// By `IPluginFactory`, where it answers.
    pub info: Option<ClassInfo>,
}

/// The plugin that an `IPluginFactory2` class is.
pub open spec fn plugin_of2(info: ClassInfo2, path: Seq<u8>, library_path: Seq<u8>) -> Vst3Plugin {
    let class_id = hex_text(info.cid@);
    let category = non_blank(array_text(info.sub_categories@));
    Vst3Plugin {
        processor_id: processor_id(path, class_id),
        class_id,
        name: array_text(info.name@),
        vendor: non_blank(array_text(info.vendor@)),
        version: non_blank(array_text(info.version@)),
        category,
        role: role_of(category),
        path,
        library_path,
    }
}

/// The plugin that an `IPluginFactory` class is.
pub open spec fn plugin_of(info: ClassInfo, path: Seq<u8>, library_path: Seq<u8>) -> Vst3Plugin {
    let class_id = hex_text(info.cid@);
    Vst3Plugin {
        processor_id: processor_id(path, class_id),
        class_id,
        name: array_text(info.name@),
        vendor: None,
        version: None,
        category: None,
        role: Role::Effect,
        path,
        library_path,
    }
}

/// The plugin that a class is: an audio processor by one interface or the other.
pub open spec fn class_plugin(class: ClassFacts, path: Seq<u8>, library_path: Seq<u8>) -> Option<
    Vst3Plugin,
> {
    if class.info2 is Some && array_text(class.info2->0.category@) == AUDIO_MODULE_CLASS@ {
        Some(plugin_of2(class.info2->0, path, library_path))
    } else if class.info is Some && array_text(class.info->0.category@) == AUDIO_MODULE_CLASS@ {
        Some(plugin_of(class.info->0, path, library_path))
    } else {
        None
    }
}

/// Makes the metadata of an `IPluginFactory2` class.
pub fn metadata_from_class_info2(info: &ClassInfo2, path: &Path, library_path: &Path) -> (metadata:
    Vst3PluginMetadata)
    ensures
        metadata@ == plugin_of2(*info, path_bytes(path), path_bytes(library_path)),
{
    let class_id = tuid_to_hex(&info.cid);
    let category = non_empty_string(c_char_array_to_string(info.sub_categories.as_slice()));
    let role = match &category {
        Some(text) => role_from_subcategories(Some(text.as_str())),
        None => role_from_subcategories(None),
    };
    Vst3PluginMetadata {
        processor_id: stable_processor_id(path, class_id.as_str()),
        class_id,
        name: c_char_array_to_string(info.name.as_slice()),
        vendor: non_empty_string(c_char_array_to_string(info.vendor.as_slice())),
        version: non_empty_string(c_char_array_to_string(info.version.as_slice())),
        category,
        role,
        path: path.to_path_buf(),
        library_path: library_path.to_path_buf(),
    }
}

/// Makes the metadata of an `IPluginFactory` class.
pub fn metadata_from_class_info(info: &ClassInfo, path: &Path, library_path: &Path) -> (metadata:
    Vst3PluginMetadata)
    ensures
        metadata@ == plugin_of(*info, path_bytes(path), path_bytes(library_path)),
{
    let class_id = tuid_to_hex(&info.cid);
    Vst3PluginMetadata {
        processor_id: stable_processor_id(path, class_id.as_str()),
        class_id,
        name: c_char_array_to_string(info.name.as_slice()),
        vendor: None,
        version: None,
        category: None,
        role: Role::Effect,
        path: path.to_path_buf(),
        library_path: library_path.to_path_buf(),
    }
}

/// Whether a category marks an audio processor.
fn is_audio_module(category: &Vec<u8>) -> (r: bool)
    ensures
        r == (array_text(category@) == AUDIO_MODULE_CLASS@),
{
    let text = c_char_array_to_string(category.as_slice());
    same_text(text.as_str(), AUDIO_MODULE_CLASS)
}

/// Returns whether what `IPluginFactory2` says about a class already makes it an audio processor,
/// so that `IPluginFactory` need not be asked.
pub fn is_settled_by_info2(info2: &Option<ClassInfo2>) -> (settled: bool)
    ensures
        settled == (info2 matches Some(info) && array_text(info.category@)
            == AUDIO_MODULE_CLASS@),
{
    match info2 {
        Some(info) => is_audio_module(&info.category),
        None => false,
    }
}

/// Where `IPluginFactory2` settles a class, what `IPluginFactory` says about it does not matter.
pub proof fn law_settled_class_needs_no_more(
    class: ClassFacts,
    info: Option<ClassInfo>,
    path: Seq<u8>,
    library_path: Seq<u8>,
)
    requires
        class.info2 matches Some(info2) && array_text(info2.category@) == AUDIO_MODULE_CLASS@,
    ensures
        class_plugin(class, path, library_path) == class_plugin(
            ClassFacts { info, ..class },
            path,
            library_path,
        ),
{
}

/// Makes the metadata of a class, if it is an audio processor.
pub fn vst3_class_metadata(class: &ClassFacts, path: &Path, library_path: &Path) -> (metadata:
    Option<Vst3PluginMetadata>)
    ensures
        match class_plugin(*class, path_bytes(path), path_bytes(library_path)) {
            Some(plugin) => metadata matches Some(m) && m@ == plugin,
            None => metadata is None,
        },
{
    if let Some(info) = &class.info2 {
        if is_audio_module(&info.category) {
            return Some(metadata_from_class_info2(info, path, library_path));
        }
    }
    if let Some(info) = &class.info {
        if is_audio_module(&info.category) {
            return Some(metadata_from_class_info(info, path, library_path));
        }
    }
    None
}

/// The plugins among the classes of a factory, in order.
pub open spec fn class_plugins(
    classes: Seq<ClassFacts>,
    path: Seq<u8>,
    library_path: Seq<u8>,
) -> Seq<Vst3Plugin>
    decreases classes.len(),
{
    if classes.len() == 0 {
        seq![]
    } else {
        let found = class_plugins(classes.drop_last(), path, library_path);
        match class_plugin(classes.last(), path, library_path) {
            Some(plugin) => found.push(plugin),
            None => found,
        }
    }
}

/// Makes the metadata of the audio processors among the classes of a factory.
pub fn vst3_factory_plugins(classes: &Vec<ClassFacts>, path: &Path, library_path: &Path) -> (plugins:
    Vec<Vst3PluginMetadata>)
    ensures
        vst3_plugins(plugins@) == class_plugins(
            classes@,
            path_bytes(path),
            path_bytes(library_path),
        ),
{
    let mut plugins: Vec<Vst3PluginMetadata> = Vec::new();
    assert(vst3_plugins(plugins@) =~= seq![]);
    for i in 0..classes.len()
        invariant
            vst3_plugins(plugins@) == class_plugins(
                classes@.take(i as int),
                path_bytes(path),
                path_bytes(library_path),
            ),
    {
        assert(classes@.take(i + 1).drop_last() =~= classes@.take(i as int));
        if let Some(metadata) = vst3_class_metadata(&classes[i], path, library_path) {
            let ghost before = plugins@;
            plugins.push(metadata);
            assert(vst3_plugins(plugins@) =~= vst3_plugins(before).push(metadata@));
        }
    }
    assert(classes@.take(classes@.len() as int) =~= classes@);
    plugins
}

proof fn lemma_lowered_parts(a: Seq<char>, b: Seq<char>, c: Seq<char>)
    ensures
        lowered(a + b + c) == lowered(a) + lowered(b) + lowered(c),
{
    assert(lowered(a + b + c) =~= lowered(a) + lowered(b) + lowered(c));
}

/// A class is an instrument if its subcategories hold one of the words "instrument", "synth",
/// "sampler" and "drum", wherever and in whatever mix of cases.
pub proof fn law_word_makes_an_instrument(before: Seq<char>, word: Seq<char>, behind: Seq<char>)
    requires
        lowered(word) == "instrument"@ || lowered(word) == "synth"@ || lowered(word) == "sampler"@
            || lowered(word) == "drum"@,
    ensures
        role_of(Some(before + word + behind)) == Role::Instrument,
{
    lemma_lowered_parts(before, word, behind);
    lemma_contained(lowered(before), lowered(word), lowered(behind));
}

/// A class whose subcategories hold none of the four words is an effect, and so is one without
/// subcategories.
pub proof fn law_effect_has_no_instrument_word(text: Seq<char>)
    ensures
        role_of(Some(text)) == Role::Instrument ==> exists|
            before: Seq<char>,
            word: Seq<char>,
            behind: Seq<char>,
        |
            text == #[trigger] (before + word + behind) && (lowered(word) == "instrument"@
                || lowered(word) == "synth"@ || lowered(word) == "sampler"@ || lowered(word)
                == "drum"@),
        role_of(None) == Role::Effect,
{
    reveal_strlit("instrument");
    reveal_strlit("synth");
    reveal_strlit("sampler");
    reveal_strlit("drum");
    if role_of(Some(text)) == Role::Instrument {
        let lower = lowered(text);
        let word = if contains_text(lower, "instrument"@) {
            "instrument"@
        } else if contains_text(lower, "synth"@) {
            "synth"@
        } else if contains_text(lower, "sampler"@) {
            "sampler"@
        } else {
            "drum"@
        };
        let at = choose|at: int| occurs_at(lower, word, at);
        let before = text.take(at);
        let written = text.subrange(at, at + word.len());
        let behind = text.skip(at + word.len());
        assert(text =~= before + written + behind);
        assert(lowered(written) =~= lower.subrange(at, at + word.len()));
    }
}

/// The value of a small hex digit.
pub open spec fn digit_value(c: char) -> int {
    if c <= '9' {
        c as u32 - '0' as u32
    } else {
        c as u32 - 'a' as u32 + 10
    }
}

/// A class id is written byte after byte, each as two small hex digits, the upper half first.
pub proof fn law_hex_is_the_class_id(tuid: Seq<u8>, i: int)
    requires
        0 <= i < tuid.len(),
    ensures
        hex_text(tuid).len() == 2 * tuid.len(),
        16 * digit_value(hex_text(tuid)[2 * i]) + digit_value(hex_text(tuid)[2 * i + 1]) == tuid[i],
        0 <= digit_value(hex_text(tuid)[2 * i]) < 16,
        0 <= digit_value(hex_text(tuid)[2 * i + 1]) < 16,
{
    lemma_hex_text(tuid);
}

/// A text of another length than that of 32 bytes is no class id, and neither is one with a byte
/// that is no hex digit, unless it is a plus sign before one.
pub proof fn law_odd_text_is_no_class_id(hex: Seq<char>, i: int)
    requires
        encode_utf8(hex).len() != 32 || 0 <= i < 32 && {
            let byte = encode_utf8(hex)[i];
            !(48 <= byte <= 57 || 65 <= byte <= 70 || 97 <= byte <= 102) && !(i % 2 == 0 && byte
                == 43)
        },
    ensures
        tuid_of(hex) is None,
{
    let bytes = encode_utf8(hex);
    if bytes.len() == 32 {
        let n = (i / 2 + 1) as nat;
        assert(pair_values(bytes, n) is None) by {
            assert(2 * n - 2 == i || 2 * n - 1 == i);
        }
        lemma_pair_values_stop(bytes, n, 16);
    }
}

/// A text is copied into a buffer from its beginning: as much of it as leaves room for the zero
/// behind it, then that zero, and what lies behind the zero stays.
pub proof fn law_text_is_copied_from_the_start(text: Seq<char>, buffer: Seq<u16>, i: int)
    requires
        0 <= i < buffer.len(),
    ensures
        ({
            let units = utf16_text(text);
            let after = copied(units, buffer);
            let end = if units.len() < buffer.len() {
                units.len() as int
            } else {
                buffer.len() - 1
            };
            &&& i < end ==> after[i] == units[i]
            &&& i == end ==> after[i] == 0
            &&& i > end ==> after[i] == buffer[i]
        }),
{
}

/// Whether a character array holds a text, terminated by zero or filled by it.
pub open spec fn holds_text(array: Seq<u8>, text: Seq<char>) -> bool {
    let used = encode_utf8(text);
    &&& used.len() <= array.len()
    &&& forall|i: int| 0 <= i < used.len() ==> array[i] == #[trigger] used[i] && used[i] != 0
    &&& used.len() < array.len() ==> array[used.len() as int] == 0
}

/// What a character array holds is read out of it: a text without white space at its ends as it
/// stands, and a blank one as nothing.
pub proof fn law_array_is_read_as_its_text(array: Seq<u8>, text: Seq<char>)
    requires
        holds_text(array, text),
    ensures
        array_text(array) == trimmed(text),
        text.len() > 0 && !is_white_space(text.first()) && !is_white_space(text.last())
            ==> array_text(array) == text && non_blank(array_text(array)) == Some(text),
        (forall|i: int| 0 <= i < text.len() ==> is_white_space(#[trigger] text[i])) ==> array_text(
            array,
        ).len() == 0 && non_blank(array_text(array)) is None,
{
    let used = encode_utf8(text);
    assert forall|i: int| 0 <= i < used.len() implies array[i] != 0 by {
        assert(array[i] == used[i]);
    }
    lemma_before_nul(array, used.len() as int);
    assert(array.take(used.len() as int) =~= used);
    encode_utf8_valid_utf8(text);
    encode_utf8_decode_utf8(text);
    law_blank_text_is_trimmed_away(text);
    law_blank_text_is_trimmed_away(array_text(array));
}

/// A text is passed on as it is unless it is blank.
pub proof fn law_only_blank_text_is_dropped(text: Seq<char>)
    ensures
        non_blank(text) is None <==> forall|i: int|
            0 <= i < text.len() ==> is_white_space(#[trigger] text[i]),
        non_blank(text) matches Some(same) ==> same == text,
{
    law_blank_text_is_trimmed_away(text);
}

/// Whether a text begins and ends with something else than white space.
pub open spec fn is_plain(text: Seq<char>) -> bool {
    text.len() > 0 && !is_white_space(text.first()) && !is_white_space(text.last())
}

/// What is told of a text that a class gives: the text without the white space around it, or
/// nothing if it is blank.
pub open spec fn told(text: Seq<char>) -> Option<Seq<char>> {
    if trimmed(text).len() == 0 {
        None
    } else {
        Some(trimmed(text))
    }
}

proof fn lemma_array_is_told(array: Seq<u8>, text: Seq<char>)
    requires
        holds_text(array, text),
    ensures
        array_text(array) == trimmed(text),
        non_blank(array_text(array)) == told(text),
{
    law_array_is_read_as_its_text(array, text);
    law_only_white_space_is_trimmed(text);
    law_blank_text_is_trimmed_away(trimmed(text));
}

/// An audio processor class of `IPluginFactory2` is a plugin with the class's own id, in hex, and
/// its own name, vendor, version and subcategories, without the white space around them, at the
/// paths that were probed, under the id that these make; its role is that of its subcategories.
/// What the class leaves blank is left out.
pub proof fn law_class_is_described_in_full(
    class: ClassFacts,
    info: ClassInfo2,
    name: Seq<char>,
    vendor: Seq<char>,
    version: Seq<char>,
    category: Seq<char>,
    path: Seq<u8>,
    library_path: Seq<u8>,
)
    requires
        class.info2 == Some(info),
        holds_text(info.category@, "Audio Module Class"@),
        holds_text(info.name@, name),
        holds_text(info.vendor@, vendor),
        holds_text(info.version@, version),
        holds_text(info.sub_categories@, category),
    ensures
        class_plugin(class, path, library_path) matches Some(plugin) && {
            &&& tuid_of(plugin.class_id) == Some(info.cid@)
            &&& plugin.class_id == hex_text(info.cid@)
            &&& plugin.name == trimmed(name)
            &&& plugin.vendor == told(vendor)
            &&& plugin.version == told(version)
            &&& plugin.category == told(category)
            &&& plugin.role == role_of(told(category))
            &&& plugin.path == path
            &&& plugin.library_path == library_path
            &&& plugin.processor_id == processor_id(path, plugin.class_id)
        },
{
    reveal_strlit("Audio Module Class");
    law_array_is_read_as_its_text(info.category@, "Audio Module Class"@);
    lemma_array_is_told(info.name@, name);
    lemma_array_is_told(info.vendor@, vendor);
    lemma_array_is_told(info.version@, version);
    lemma_array_is_told(info.sub_categories@, category);
    law_tuid_survives_hex(info.cid@);
}

/// A text without white space at its ends is told as it is, and a blank one is not told.
pub proof fn law_plain_text_is_told(text: Seq<char>)
    ensures
        is_plain(text) ==> told(text) == Some(text) && trimmed(text) == text,
        (forall|i: int| 0 <= i < text.len() ==> is_white_space(#[trigger] text[i])) ==> told(
            text,
        ) is None && trimmed(text).len() == 0,
{
    law_blank_text_is_trimmed_away(text);
}

/// An audio processor class that `IPluginFactory2` does not describe as one, but `IPluginFactory`
/// does, is an effect with the class's own id, in hex, and its own name, at the paths that were
/// probed, and nothing else is known of it.
pub proof fn law_older_class_is_described(
    class: ClassFacts,
    info: ClassInfo,
    category2: Seq<char>,
    name: Seq<char>,
    path: Seq<u8>,
    library_path: Seq<u8>,
)
    requires
        class.info2 matches Some(info2) ==> holds_text(info2.category@, category2) && trimmed(
            category2,
        ) != "Audio Module Class"@,
        class.info == Some(info),
        holds_text(info.category@, "Audio Module Class"@),
        holds_text(info.name@, name),
    ensures
        class_plugin(class, path, library_path) matches Some(plugin) && {
            &&& tuid_of(plugin.class_id) == Some(info.cid@)
            &&& plugin.class_id == hex_text(info.cid@)
            &&& plugin.name == trimmed(name)
            &&& plugin.vendor is None
            &&& plugin.version is None
            &&& plugin.category is None
            &&& plugin.role == Role::Effect
            &&& plugin.path == path
            &&& plugin.library_path == library_path
            &&& plugin.processor_id == processor_id(path, plugin.class_id)
        },
{
    reveal_strlit("Audio Module Class");
    law_array_is_read_as_its_text(info.category@, "Audio Module Class"@);
    lemma_array_is_told(info.name@, name);
    law_tuid_survives_hex(info.cid@);
    if let Some(info2) = class.info2 {
        law_array_is_read_as_its_text(info2.category@, category2);
    }
}

/// A class of another category, by each interface that describes it, is no plugin.
pub proof fn law_other_classes_are_no_plugins(
    class: ClassFacts,
    category2: Seq<char>,
    category: Seq<char>,
    path: Seq<u8>,
    library_path: Seq<u8>,
)
    requires
        class.info2 matches Some(info) ==> holds_text(info.category@, category2) && trimmed(
            category2,
        ) != "Audio Module Class"@,
        class.info matches Some(info) ==> holds_text(info.category@, category) && trimmed(category)
            != "Audio Module Class"@,
    ensures
        class_plugin(class, path, library_path) is None,
{
    if let Some(info) = class.info2 {
        law_array_is_read_as_its_text(info.category@, category2);
    }
    if let Some(info) = class.info {
        law_array_is_read_as_its_text(info.category@, category);
    }
}

/// The plugins of a factory are those of its classes, each once, in the order of the classes: the
/// plugins of two runs of classes are those of the first and then those of the second, and one
/// class gives the plugin that it is, or none.
pub proof fn law_every_class_is_listed(
    a: Seq<ClassFacts>,
    b: Seq<ClassFacts>,
    class: ClassFacts,
    path: Seq<u8>,
    library_path: Seq<u8>,
)
    ensures
        class_plugins(a + b, path, library_path) == class_plugins(a, path, library_path)
            + class_plugins(b, path, library_path),
        class_plugin(class, path, library_path) matches Some(plugin) ==> class_plugins(
            seq![class],
            path,
            library_path,
        ) == seq![plugin],
        class_plugin(class, path, library_path) is None ==> class_plugins(
            seq![class],
            path,
            library_path,
        ).len() == 0,
    decreases b.len(),
{
    reveal_with_fuel(class_plugins, 2);
    assert(seq![class].drop_last() =~= Seq::<ClassFacts>::empty());
    if class_plugin(class, path, library_path) is Some {
        assert(class_plugins(seq![class], path, library_path) =~= seq![
            class_plugin(class, path, library_path)->0,
        ]);
    }
    if b.len() == 0 {
        assert(a + b =~= a);
        assert(class_plugins(a, path, library_path) + class_plugins(b, path, library_path)
            =~= class_plugins(a, path, library_path));
    } else {
        law_every_class_is_listed(a, b.drop_last(), class, path, library_path);
        assert((a + b).drop_last() =~= a + b.drop_last());
        assert(class_plugins(a + b, path, library_path) =~= class_plugins(a, path, library_path)
            + class_plugins(b, path, library_path));
    }
}

proof fn lemma_same_pairs(a: Seq<u8>, b: Seq<u8>, n: nat)
    requires
        n <= 16,
        a.len() == 32,
        b.len() == 32,
        forall|k: int|
            0 <= k < 16 ==> pair_value(a[2 * k], #[trigger] a[2 * k + 1]) == pair_value(
                b[2 * k],
                b[2 * k + 1],
            ),
    ensures
        pair_values(a, n) == pair_values(b, n),
    decreases n,
{
    if n > 0 {
        lemma_same_pairs(a, b, (n - 1) as nat);
        let k = n - 1;
        assert(pair_value(a[2 * k], a[2 * k + 1]) == pair_value(b[2 * k], b[2 * k + 1]));
    }
}

/// A plus sign in the place of an upper digit is read like a zero there.
pub proof fn law_plus_sign_is_read_as_zero(hex: Seq<char>, at: int)
    requires
        is_hex(hex),
        0 <= at < 16,
    ensures
        splits_in_pairs(hex.update(2 * at, '+')),
        tuid_of(hex.update(2 * at, '+')) == tuid_of(hex.update(2 * at, '0')),
{
    let plus = hex.update(2 * at, '+');
    let zero = hex.update(2 * at, '0');
    assert(is_ascii_chars(plus));
    assert(is_ascii_chars(zero));
    is_ascii_chars_encode_utf8(plus);
    is_ascii_chars_encode_utf8(zero);
    let a = encode_utf8(plus);
    let b = encode_utf8(zero);
    assert forall|k: int| 0 <= k < 16 implies pair_value(a[2 * k], #[trigger] a[2 * k + 1])
        == pair_value(b[2 * k], b[2 * k + 1]) by {
        assert(plus[2 * k] as u8 == a[2 * k]);
        assert(zero[2 * k] as u8 == b[2 * k]);
        assert(plus[2 * k + 1] as u8 == a[2 * k + 1]);
        assert(zero[2 * k + 1] as u8 == b[2 * k + 1]);
        if k != at {
            assert(plus[2 * k] == zero[2 * k]);
        }
        assert(plus[2 * k + 1] == zero[2 * k + 1]);
    }
    lemma_same_pairs(a, b, 16);
    law_ascii_text_splits_in_pairs(plus);
}

/// A text of ASCII characters can always be read two at a time, and so can one of any other length
/// than 32 bytes.
pub proof fn law_ascii_text_splits_in_pairs(hex: Seq<char>)
    requires
        encode_utf8(hex).len() != 32 || forall|i: int|
            0 <= i < hex.len() ==> '\u{0}' <= #[trigger] hex[i] <= '\u{7f}',
    ensures
        splits_in_pairs(hex),
{
    if encode_utf8(hex).len() == 32 {
        assert(is_ascii_chars(hex));
        is_ascii_chars_encode_utf8(hex);
        let bytes = encode_utf8(hex);
        assert forall|n: nat|
            n < 15 && #[trigger] pair_values(bytes, n) is Some implies !is_continuation_byte(
            bytes[2 * n as int + 2],
        ) by {
            let i = 2 * n as int + 2;
            assert(hex[i] as u8 == bytes[i]);
            assert(hex[i] <= '\u{7f}');
        }
    }
}

/// A character array whose text is no UTF-8 is still read up to its first zero, with replacement
/// characters in the text, and without the white space around it.
pub proof fn law_odd_array_is_read_with_replacements(array: Seq<u8>, n: int)
    requires
        0 <= n <= array.len(),
        forall|i: int| 0 <= i < n ==> array[i] != 0,
        n < array.len() ==> array[n] == 0,
        !valid_utf8(array.take(n)),
    ensures
        array_text(array) == trimmed(replaced_text(array.take(n))),
{
    lemma_before_nul(array, n);
}

} // verus!
