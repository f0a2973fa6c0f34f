//! File system paths as the adapters and the scanner see them.
//!
//! A path is known by the bytes that it holds. What the operating system's path rules make of
//! those bytes (the last component, two spellings of one path, the sort order) is asked of the
//! standard library and carries a name here. The names speak of the path rules of the system that
//! the crate is built for.

use std::path::{Path, PathBuf};
use vstd::prelude::*;
use vstd::set_lib::{lemma_int_range, lemma_subset_equality, set_int_range};
use vstd::utf8::{
    decode_utf8, encode_utf8, encode_utf8_decode_utf8, encode_utf8_valid_utf8, valid_utf8,
};

use crate::text::{eq_ignore_ascii_case, lowered, utf8_strict};

verus! {

/// A borrowed path.
#[verifier::external_type_specification]
#[verifier::external_body]
pub struct ExPath(Path);

/// An owned path.
#[verifier::external_type_specification]
#[verifier::external_body]
pub struct ExPathBuf(PathBuf);

/// The encoded bytes that a borrowed path holds.
pub uninterp spec fn path_bytes(path: &Path) -> Seq<u8>;

/// The encoded bytes that an owned path holds.
pub uninterp spec fn buffer_bytes(path: PathBuf) -> Seq<u8>;

/// What `Path::file_name` returns: the final component of a path, if it is a name.
pub uninterp spec fn file_name_of(path: Seq<u8>) -> Option<Seq<u8>>;

/// What `Path::display` prints for a path whose bytes are not UTF-8.
pub uninterp spec fn lossy_display(path: Seq<u8>) -> Seq<char>;

/// What `Path::join` makes of a path and one more part.
pub uninterp spec fn joined(path: Seq<u8>, part: Seq<char>) -> Seq<u8>;

/// The class of paths that `==` on paths does not tell apart from this one.
pub uninterp spec fn path_class(path: Seq<u8>) -> Seq<u8>;

/// Whether `<` on paths puts the first path before the second.
pub uninterp spec fn path_precedes(a: Seq<u8>, b: Seq<u8>) -> bool;

/// What `Path::parent` returns: the path without its final component, if there is one to take off.
pub uninterp spec fn parent_of(path: Seq<u8>) -> Option<Seq<u8>>;

/// What `Path::with_file_name` makes of a path with these bytes and a name.
pub uninterp spec fn renamed(path: Seq<u8>, name: Seq<char>) -> Seq<u8>;

/// `PathBuf::as_path` borrows the path that the buffer holds.
pub assume_specification[ PathBuf::as_path ](path: &PathBuf) -> (borrowed: &Path)
    ensures
        path_bytes(borrowed) == buffer_bytes(*path),
;

/// `Path::to_path_buf` copies the path into a buffer of its own.
pub assume_specification[ Path::to_path_buf ](path: &Path) -> (owned: PathBuf)
    ensures
        buffer_bytes(owned) == path_bytes(path),
;

/// Calls `PathBuf::from` on a text: the path holds the UTF-8 bytes of that text.
#[verifier::external_body]
pub(crate) fn path_from_text(text: String) -> (path: PathBuf)
    ensures
        buffer_bytes(path) == encode_utf8(text@),
{
    PathBuf::from(text)
}

/// Calls `Path::file_name` and hands out the encoded bytes of the name.
#[verifier::external_body]
fn file_name(path: &Path) -> (name: Option<Vec<u8>>)
    ensures
        name is Some <==> file_name_of(path_bytes(path)) is Some,
        name matches Some(n) ==> file_name_of(path_bytes(path)) == Some(n@),
{
    path.file_name().map(|name| name.as_encoded_bytes().to_vec())
}

/// The text that a path is shown as: its bytes as UTF-8 where they are that.
pub open spec fn path_text(path: Seq<u8>) -> Seq<char> {
    if valid_utf8(path) {
        decode_utf8(path)
    } else {
        lossy_display(path)
    }
}

/// Calls `Path::display`: a path whose bytes are UTF-8 is shown as that text, any other path as
/// the text that [`lossy_display`] names.
#[verifier::external_body]
pub(crate) fn display(path: &Path) -> (text: String)
    ensures
        text@ == path_text(path_bytes(path)),
        !valid_utf8(path_bytes(path)) ==> text@ == lossy_display(path_bytes(path)),
{
    path.display().to_string()
}

/// Calls `Path::join` with a text.
#[verifier::external_body]
pub(crate) fn join(path: &Path, part: &str) -> (longer: PathBuf)
    ensures
        buffer_bytes(longer) == joined(path_bytes(path), part@),
{
    path.join(part)
}

/// Calls `Path::with_file_name` with a text.
#[verifier::external_body]
pub(crate) fn with_file_name(path: &Path, name: &str) -> (sibling: PathBuf)
    ensures
        buffer_bytes(sibling) == renamed(path_bytes(path), name@),
{
    path.with_file_name(name)
}

/// Calls `Path::parent`.
#[verifier::external_body]
pub(crate) fn parent(path: &Path) -> (shorter: Option<PathBuf>)
    ensures
        shorter is Some <==> parent_of(path_bytes(path)) is Some,
        shorter matches Some(p) ==> parent_of(path_bytes(path)) == Some(buffer_bytes(p)),
{
    path.parent().map(Path::to_path_buf)
}

/// Calls `==` on two paths, which is an equivalence: it holds exactly within one class.
#[verifier::external_body]
pub(crate) fn same_path(a: &Path, b: &Path) -> (same: bool)
    ensures
        same == (path_class(path_bytes(a)) == path_class(path_bytes(b))),
{
    a == b
}

/// Calls `sort` on a slice of paths, which is stable and ascending. The order of paths is total
/// and agrees with `==`: of two paths of different classes, the one that stands first precedes.
#[verifier::external_body]
pub(crate) fn sort_paths(paths: &mut Vec<PathBuf>)
    ensures
        stably_sorted(all_bytes(old(paths)@), all_bytes(final(paths)@)),
        forall|i: int, j: int|
            0 <= i < j < final(paths)@.len() ==> !path_precedes(
                buffer_bytes(#[trigger] final(paths)@[j]),
                buffer_bytes(#[trigger] final(paths)@[i]),
            ),
{
    paths.sort();
}

/// What listing a directory came to.
pub enum DirListing {
    /// The path is not a directory.
    NotADirectory,
    /// The directory could not be opened.
    Unreadable(String),
    /// The directory's entries as they were read, each a path or a read error.
    Entries(Vec<Result<PathBuf, String>>),
}

/// The contents of a [`DirListing`].
pub enum Listing {
    NotADirectory,
    Unreadable(Seq<char>),
    Entries(Seq<Result<Seq<u8>, Seq<char>>>),
}

impl View for DirListing {
    type V = Listing;

    open spec fn view(&self) -> Listing {
        match self {
            DirListing::NotADirectory => Listing::NotADirectory,
            DirListing::Unreadable(error) => Listing::Unreadable(error@),
            DirListing::Entries(entries) => Listing::Entries(all_entries(entries@)),
        }
    }
}

/// One read directory entry.
pub open spec fn entry_view(entry: Result<PathBuf, String>) -> Result<Seq<u8>, Seq<char>> {
    match entry {
        Ok(path) => Ok(buffer_bytes(path)),
        Err(error) => Err(error@),
    }
}

/// The contents of each read entry.
pub open spec fn all_entries(entries: Seq<Result<PathBuf, String>>) -> Seq<
    Result<Seq<u8>, Seq<char>>,
> {
    entries.map_values(|entry: Result<PathBuf, String>| entry_view(entry))
}

/// A list of paths, or the error that kept it from being made.
pub open spec fn paths_view(paths: Result<Vec<PathBuf>, String>) -> Result<
    Seq<Seq<u8>>,
    Seq<char>,
> {
    match paths {
        Ok(list) => Ok(all_bytes(list@)),
        Err(error) => Err(error@),
    }
}

/// What a search for candidates wants done next.
pub enum SearchAction {
    /// List this directory.
    List(PathBuf),
    /// Nothing more: these are the candidates, in path order, or the error that ended the search.
    Finish(Result<Vec<PathBuf>, String>),
    /// No listing was asked for.
    Wait,
}

/// The contents of a [`SearchAction`].
pub enum SearchRequest {
    List(Seq<u8>),
    Finish(Result<Seq<Seq<u8>>, Seq<char>>),
    Wait,
}

impl View for SearchAction {
    type V = SearchRequest;

    open spec fn view(&self) -> SearchRequest {
        match self {
            SearchAction::List(path) => SearchRequest::List(buffer_bytes(*path)),
            SearchAction::Finish(found) => SearchRequest::Finish(paths_view(*found)),
            SearchAction::Wait => SearchRequest::Wait,
        }
    }
}

/// Whether a search came to what was found, in path order, or to the same error.
pub open spec fn sorted_outcome(
    found: Result<Seq<Seq<u8>>, Seq<char>>,
    outcome: Result<Seq<Seq<u8>>, Seq<char>>,
) -> bool {
    match found {
        Ok(paths) => outcome matches Ok(sorted) && stably_sorted(paths, sorted),
        Err(error) => outcome == Err::<Seq<Seq<u8>>, Seq<char>>(error),
    }
}

/// The bytes of each path of a list.
pub open spec fn all_bytes(paths: Seq<PathBuf>) -> Seq<Seq<u8>> {
    paths.map_values(|path: PathBuf| buffer_bytes(path))
}

/// Whether `order` lists every position below `len` once.
pub open spec fn is_arrangement(order: Seq<int>, len: nat) -> bool {
    &&& order.len() == len
    &&& order.no_duplicates()
    &&& forall|i: int| 0 <= i < len ==> 0 <= #[trigger] order[i] < len
}

/// Whether taking `before` in the given order yields `after`: each path precedes every later one
/// that is not equal to it, and equal paths stand in the order they came in.
pub open spec fn sorts_by(before: Seq<Seq<u8>>, after: Seq<Seq<u8>>, order: Seq<int>) -> bool {
    &&& is_arrangement(order, before.len())
    &&& after.len() == before.len()
    &&& forall|i: int| 0 <= i < after.len() ==> #[trigger] after[i] == before[order[i]]
    &&& forall|i: int, j: int|
        #![trigger after[i], after[j]]
        0 <= i < j < after.len() ==> !path_precedes(after[j], after[i]) && if path_class(after[i])
            == path_class(after[j]) {
            order[i] < order[j]
        } else {
            path_precedes(after[i], after[j])
        }
}

/// Whether `after` is `before` in ascending order, equal paths in the order they came in.
pub open spec fn stably_sorted(before: Seq<Seq<u8>>, after: Seq<Seq<u8>>) -> bool {
    exists|order: Seq<int>| sorts_by(before, after, order)
}

/// Paths of which no two are equal are sorted into strictly ascending order.
pub proof fn law_distinct_paths_ascend(before: Seq<Seq<u8>>, after: Seq<Seq<u8>>)
    requires
        stably_sorted(before, after),
        forall|i: int, j: int|
            0 <= i < j < before.len() ==> path_class(#[trigger] before[i]) != path_class(
                #[trigger] before[j],
            ),
    ensures
        after.len() == before.len(),
        forall|i: int, j: int|
            0 <= i < j < after.len() ==> path_precedes(#[trigger] after[i], #[trigger] after[j]),
{
    let order = choose|order: Seq<int>| sorts_by(before, after, order);
    assert forall|i: int, j: int| 0 <= i < j < after.len() implies path_precedes(
        #[trigger] after[i],
        #[trigger] after[j],
    ) by {
        assert(order[i] != order[j]);
        assert(after[i] == before[order[i]]);
        assert(after[j] == before[order[j]]);
        if order[i] < order[j] {
            assert(path_class(before[order[i]]) != path_class(before[order[j]]));
        } else {
            assert(path_class(before[order[j]]) != path_class(before[order[i]]));
        }
    }
}

/// The position of the last `.` in a file name, or -1.
pub open spec fn last_dot(name: Seq<u8>) -> int
    decreases name.len(),
{
    if name.len() == 0 {
        -1
    } else if name.last() == 46u8 {
        name.len() - 1
    } else {
        last_dot(name.drop_last())
    }
}

/// The extension of a file name: what follows the last `.`, unless that `.` is missing or is the
/// first byte.
pub open spec fn name_extension(name: Seq<u8>) -> Option<Seq<u8>> {
    if last_dot(name) > 0 {
        Some(name.skip(last_dot(name) + 1))
    } else {
        None
    }
}

/// The stem of a file name: what precedes the `.` of its extension, or all of it.
pub open spec fn name_stem(name: Seq<u8>) -> Seq<u8> {
    if last_dot(name) > 0 {
        name.take(last_dot(name))
    } else {
        name
    }
}

/// Bytes read as UTF-8 text.
pub open spec fn as_text(bytes: Seq<u8>) -> Option<Seq<char>> {
    if valid_utf8(bytes) {
        Some(decode_utf8(bytes))
    } else {
        None
    }
}

/// Whether a file name carries the extension, ASCII letters compared without their case.
pub open spec fn name_has_extension(name: Option<Seq<u8>>, extension: Seq<char>) -> bool {
    &&& name matches Some(n)
    &&& name_extension(n) matches Some(bytes)
    &&& as_text(bytes) matches Some(text)
    &&& lowered(text) == lowered(extension)
}

/// The stem of a file name as text, empty where there is none.
pub open spec fn stem_text(name: Option<Seq<u8>>) -> Seq<char> {
    match name {
        Some(n) => match as_text(name_stem(n)) {
            Some(text) => text,
            None => seq![],
        },
        None => seq![],
    }
}

/// The view of an optional byte vector.
pub open spec fn name_view(name: Option<Vec<u8>>) -> Option<Seq<u8>> {
    match name {
        Some(n) => Some(n@),
        None => None,
    }
}

proof fn lemma_last_dot(name: Seq<u8>)
    ensures
        -1 <= last_dot(name) < name.len(),
    decreases name.len(),
{
    if name.len() > 0 && name.last() != 46u8 {
        lemma_last_dot(name.drop_last());
    }
}

/// Finds the last `.` of a file name; the name's length stands for "none".
fn find_last_dot(name: &Vec<u8>) -> (at: usize)
    ensures
        last_dot(name@) == -1 ==> at == name@.len(),
        last_dot(name@) >= 0 ==> at == last_dot(name@),
{
    let mut end: usize = name.len();
    assert(name@.take(end as int) == name@);
    while end > 0
        invariant
            end <= name@.len(),
            last_dot(name@.take(end as int)) == last_dot(name@),
        decreases end,
    {
        if name[end - 1] == 46u8 {
            return end - 1;
        }
        assert(name@.take(end as int).drop_last() == name@.take(end - 1));
        end = end - 1;
    }
    name.len()
}

/// Decides whether a file name carries the extension, ASCII letters compared without their case.
pub fn file_name_has_extension(name: &Option<Vec<u8>>, extension: &str) -> (r: bool)
    ensures
        r == name_has_extension(name_view(*name), extension@),
{
    match name {
        Some(n) => {
            let at = find_last_dot(n);
            proof {
                lemma_last_dot(n@);
            }
            if at == 0 || at == n.len() {
                return false;
            }
            let bytes = vstd::slice::slice_subrange(n.as_slice(), at + 1, n.len());
            assert(bytes@ == n@.skip(at + 1));
            match utf8_strict(bytes) {
                Some(text) => eq_ignore_ascii_case(text.as_str(), extension),
                None => false,
            }
        },
        None => false,
    }
}

/// Returns the stem of a file name as text, empty where there is none.
pub fn file_name_stem(name: &Option<Vec<u8>>) -> (stem: String)
    ensures
        stem@ == stem_text(name_view(*name)),
{
    match name {
        Some(n) => {
            let at = find_last_dot(n);
            proof {
                lemma_last_dot(n@);
            }
            let end: usize = if at == 0 {
                n.len()
            } else {
                at
            };
            let bytes = vstd::slice::slice_subrange(n.as_slice(), 0, end);
            assert(bytes@ == name_stem(n@));
            match utf8_strict(bytes) {
                Some(text) => text,
                None => String::new(),
            }
        },
        None => String::new(),
    }
}

/// Decides whether the last component of a path carries the extension.
pub(crate) fn has_extension(path: &Path, extension: &str) -> (r: bool)
    ensures
        r == name_has_extension(file_name_of(path_bytes(path)), extension@),
{
    let name = file_name(path);
    assert(name_view(name) == file_name_of(path_bytes(path)));
    file_name_has_extension(&name, extension)
}

/// Returns the stem of the last component of a path as text, empty where there is none.
pub fn file_stem(path: &Path) -> (stem: String)
    ensures
        stem@ == stem_text(file_name_of(path_bytes(path))),
{
    let name = file_name(path);
    assert(name_view(name) == file_name_of(path_bytes(path)));
    file_name_stem(&name)
}

/// Sorting paths neither loses one nor adds one.
pub proof fn law_sorted_paths_are_the_same(before: Seq<Seq<u8>>, after: Seq<Seq<u8>>)
    requires
        stably_sorted(before, after),
    ensures
        after.len() == before.len(),
        forall|path: Seq<u8>| #[trigger] after.contains(path) <==> before.contains(path),
{
    let order = choose|order: Seq<int>| sorts_by(before, after, order);
    let n = before.len() as int;
    lemma_int_range(0, n);
    order.unique_seq_to_set();
    assert(order.to_set().subset_of(set_int_range(0, n)));
    lemma_subset_equality(order.to_set(), set_int_range(0, n));
    assert forall|path: Seq<u8>| #[trigger] after.contains(path) <==> before.contains(path) by {
        if after.contains(path) {
            let i = choose|i: int| 0 <= i < after.len() && after[i] == path;
            assert(before[order[i]] == path);
        }
        if before.contains(path) {
            let k = choose|k: int| 0 <= k < before.len() && before[k] == path;
            assert(set_int_range(0, n).contains(k));
            assert(order.to_set().contains(k));
            let i = choose|i: int| 0 <= i < order.len() && order[i] == k;
            assert(after[i] == before[order[i]]);
            assert(after.contains(path));
        }
    }
}

proof fn lemma_no_dot(name: Seq<u8>)
    requires
        forall|i: int| 0 <= i < name.len() ==> #[trigger] name[i] != 46u8,
    ensures
        last_dot(name) == -1,
    decreases name.len(),
{
    if name.len() > 0 {
        assert(name[name.len() - 1] != 46u8);
        lemma_no_dot(name.drop_last());
    }
}

proof fn lemma_dot_at(stem: Seq<u8>, extension: Seq<u8>)
    requires
        forall|i: int| 0 <= i < extension.len() ==> #[trigger] extension[i] != 46u8,
    ensures
        last_dot(stem + seq![46u8] + extension) == stem.len(),
    decreases extension.len(),
{
    let name = stem + seq![46u8] + extension;
    if extension.len() == 0 {
        assert(name.last() == 46u8);
    } else {
        assert(name.last() == extension[extension.len() - 1]);
        assert(name.drop_last() =~= stem + seq![46u8] + extension.drop_last());
        lemma_dot_at(stem, extension.drop_last());
    }
}

/// A file name that is a stem, a full stop and something without one has that as its extension.
pub proof fn law_name_is_stem_and_extension(stem: Seq<u8>, extension: Seq<u8>)
    requires
        stem.len() > 0,
        forall|i: int| 0 <= i < extension.len() ==> #[trigger] extension[i] != 46u8,
    ensures
        name_extension(stem + seq![46u8] + extension) == Some(extension),
        name_stem(stem + seq![46u8] + extension) == stem,
{
    let name = stem + seq![46u8] + extension;
    lemma_dot_at(stem, extension);
    assert(name.skip(stem.len() + 1int) =~= extension);
    assert(name.take(stem.len() as int) =~= stem);
}

/// A file name without a full stop, or with none but its first character, has no extension and is
/// its own stem.
pub proof fn law_plain_name_has_no_extension(name: Seq<u8>)
    requires
        forall|i: int| 0 < i < name.len() ==> #[trigger] name[i] != 46u8,
    ensures
        name_extension(name) is None,
        name_stem(name) == name,
{
    if name.len() > 0 && name[0] == 46u8 {
        let rest = name.skip(1);
        assert(name =~= Seq::<u8>::empty() + seq![46u8] + rest);
        assert forall|i: int| 0 <= i < rest.len() implies #[trigger] rest[i] != 46u8 by {
            assert(rest[i] == name[i + 1]);
        }
        lemma_dot_at(Seq::empty(), rest);
    } else {
        lemma_no_dot(name);
    }
}

/// A path that is the UTF-8 of a text is shown as that text.
pub proof fn law_path_is_shown_as_it_is(text: Seq<char>)
    ensures
        path_text(encode_utf8(text)) == text,
{
    encode_utf8_valid_utf8(text);
    encode_utf8_decode_utf8(text);
}

/// A file name with a stem carries an extension exactly when what follows its last full stop is
/// that extension in any mix of cases.
pub proof fn law_extension_in_any_case(stem: Seq<u8>, written: Seq<char>, extension: Seq<char>)
    requires
        stem.len() > 0,
        forall|i: int|
            0 <= i < encode_utf8(written).len() ==> #[trigger] encode_utf8(written)[i] != 46u8,
    ensures
        name_has_extension(Some(stem + seq![46u8] + encode_utf8(written)), extension) <==> lowered(
            written,
        ) == lowered(extension),
        stem_text(Some(stem + seq![46u8] + encode_utf8(written))) == match as_text(stem) {
            Some(text) => text,
            None => Seq::empty(),
        },
{
    law_name_is_stem_and_extension(stem, encode_utf8(written));
    encode_utf8_valid_utf8(written);
    encode_utf8_decode_utf8(written);
}

/// A search that found paths comes to these, as many and the same, each after all that precede it;
/// one that failed comes to its error.
pub proof fn law_outcome_is_in_path_order(
    found: Result<Seq<Seq<u8>>, Seq<char>>,
    outcome: Result<Seq<Seq<u8>>, Seq<char>>,
)
    requires
        sorted_outcome(found, outcome),
    ensures
        found matches Err(error) ==> outcome == Err::<Seq<Seq<u8>>, Seq<char>>(error),
        found matches Ok(paths) ==> (outcome matches Ok(sorted) && {
            &&& sorted.len() == paths.len()
            &&& forall|path: Seq<u8>| #[trigger] sorted.contains(path) <==> paths.contains(path)
            &&& forall|i: int, j: int|
                0 <= i < j < sorted.len() ==> !path_precedes(
                    #[trigger] sorted[j],
                    #[trigger] sorted[i],
                )
        }),
{
    if let Ok(paths) = found {
        let sorted = outcome->Ok_0;
        law_sorted_paths_are_the_same(paths, sorted);
        let order = choose|order: Seq<int>| sorts_by(paths, sorted, order);
        assert(sorts_by(paths, sorted, order));
    }
}

} // verus!
