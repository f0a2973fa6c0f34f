//! A map keyed by paths.

use std::path::{Path, PathBuf};
use vstd::prelude::*;

use crate::paths::{buffer_bytes, path_bytes, path_class, same_path};

verus! {

/// What a [`PathMap`] holds for one path: the spelling that the path was first stored under, and
/// the value.
#[verifier::ext_equal]
pub struct PathEntry<V> {
    pub path: Seq<u8>,
    pub value: V,
}

/// A map from paths to values, in which two spellings of one path are one key.
#[derive(Debug)]
pub struct PathMap<V> {
    entries: Vec<(PathBuf, V)>,
}

/// The key that a stored entry answers to.
spec fn key_at<V>(entries: Seq<(PathBuf, V)>, i: int) -> Seq<u8> {
    path_class(buffer_bytes(entries[i].0))
}

/// Whether no key occurs twice.
spec fn keys_distinct<V>(entries: Seq<(PathBuf, V)>) -> bool {
    forall|i: int, j: int|
        0 <= i < j < entries.len() ==> #[trigger] key_at(entries, i) != #[trigger] key_at(
            entries,
            j,
        )
}

/// The entries as a map.
spec fn as_map<V>(entries: Seq<(PathBuf, V)>) -> Map<Seq<u8>, PathEntry<V>>
    decreases entries.len(),
{
    if entries.len() == 0 {
        Map::empty()
    } else {
        as_map(entries.drop_last()).insert(
            key_at(entries, entries.len() - 1),
            PathEntry { path: buffer_bytes(entries.last().0), value: entries.last().1 },
        )
    }
}

proof fn lemma_as_map<V>(entries: Seq<(PathBuf, V)>)
    requires
        keys_distinct(entries),
    ensures
        forall|i: int|
            0 <= i < entries.len() ==> as_map(entries).contains_pair(
                #[trigger] key_at(entries, i),
                PathEntry { path: buffer_bytes(entries[i].0), value: entries[i].1 },
            ),
        forall|key: Seq<u8>| #[trigger]
            as_map(entries).contains_key(key) ==> exists|i: int|
                0 <= i < entries.len() && #[trigger] key_at(entries, i) == key,
    decreases entries.len(),
{
    if entries.len() > 0 {
        let shorter = entries.drop_last();
        let last = entries.len() - 1;
        assert forall|i: int, j: int| 0 <= i < j < shorter.len() implies #[trigger] key_at(
            shorter,
            i,
        ) != #[trigger] key_at(shorter, j) by {
            assert(key_at(shorter, i) == key_at(entries, i));
            assert(key_at(shorter, j) == key_at(entries, j));
        }
        lemma_as_map(shorter);
        assert forall|i: int| 0 <= i < entries.len() implies as_map(entries).contains_pair(
            #[trigger] key_at(entries, i),
            PathEntry { path: buffer_bytes(entries[i].0), value: entries[i].1 },
        ) by {
            if i < last {
                assert(key_at(shorter, i) == key_at(entries, i));
                assert(key_at(entries, i) != key_at(entries, last));
            }
        }
        assert forall|key: Seq<u8>| #[trigger] as_map(entries).contains_key(key) implies exists|
            i: int,
        |
            0 <= i < entries.len() && #[trigger] key_at(entries, i) == key by {
            if key == key_at(entries, last) {
            } else {
                assert(as_map(shorter).contains_key(key));
                let i = choose|i: int|
                    0 <= i < shorter.len() && #[trigger] key_at(shorter, i) == key;
                assert(key_at(entries, i) == key);
            }
        }
    }
}

impl<V> View for PathMap<V> {
    type V = Map<Seq<u8>, PathEntry<V>>;

    closed spec fn view(&self) -> Map<Seq<u8>, PathEntry<V>> {
        as_map(self.entries@)
    }
}

impl<V> PathMap<V> {
    #[verifier::type_invariant]
    spec fn distinct(self) -> bool {
        keys_distinct(self.entries@)
    }

    /// Makes an empty map.
    pub fn new() -> (map: Self)
        ensures
            map@ == Map::<Seq<u8>, PathEntry<V>>::empty(),
    {
        PathMap { entries: Vec::new() }
    }

    /// Finds the position of a path; the number of entries stands for "none".
    fn position(&self, path: &Path) -> (at: usize)
        ensures
            at <= self.entries@.len(),
            at < self.entries@.len() ==> key_at(self.entries@, at as int) == path_class(
                path_bytes(path),
            ),
            at == self.entries@.len() ==> forall|i: int|
                0 <= i < self.entries@.len() ==> #[trigger] key_at(self.entries@, i) != path_class(
                    path_bytes(path),
                ),
    {
        for i in 0..self.entries.len()
            invariant
                forall|j: int|
                    0 <= j < i ==> #[trigger] key_at(self.entries@, j) != path_class(
                        path_bytes(path),
                    ),
        {
            if same_path(self.entries[i].0.as_path(), path) {
                return i;
            }
        }
        self.entries.len()
    }

    /// Looks a path up.
    pub fn get(&self, path: &Path) -> (value: Option<&V>)
        ensures
            value is Some <==> self@.contains_key(path_class(path_bytes(path))),
            value matches Some(v) ==> *v == self@[path_class(path_bytes(path))].value,
    {
        proof {
            use_type_invariant(self);
            lemma_as_map(self.entries@);
        }
        let at = self.position(path);
        if at < self.entries.len() {
            Some(&self.entries[at].1)
        } else {
            None
        }
    }

    /// Stores a value for a path in place of the one that was there. The spelling that a path
    /// was first stored under stays.
    pub fn insert(&mut self, path: PathBuf, value: V)
        ensures
            final(self)@ == with_entry(old(self)@, PathEntry { path: buffer_bytes(path), value }),
    {
        proof {
            use_type_invariant(&*self);
            lemma_as_map(self.entries@);
        }
        let ghost before = self.entries@;
        let at = self.position(path.as_path());
        let mut entries: Vec<(PathBuf, V)> = Vec::new();
        std::mem::swap(&mut entries, &mut self.entries);
        if at < entries.len() {
            let spelling = entries[at].0.as_path().to_path_buf();
            entries.set(at, (spelling, value));
            proof {
                let after = entries@;
                assert forall|i: int| 0 <= i < after.len() implies #[trigger] key_at(after, i)
                    == key_at(before, i) by {}
                assert(keys_distinct(after));
                lemma_as_map(after);
                let new = PathEntry { path: buffer_bytes(before[at as int].0), value };
                let key = key_at(before, at as int);
                let expected = as_map(before).insert(key, new);
                assert(as_map(after) =~= expected) by {
                    assert forall|k: Seq<u8>| #[trigger]
                        as_map(after).dom().contains(k) == expected.dom().contains(k) && (as_map(
                            after,
                        ).dom().contains(k) ==> as_map(after)[k] == expected[k]) by {
                        if as_map(after).contains_key(k) {
                            let i = choose|i: int|
                                0 <= i < after.len() && #[trigger] key_at(after, i) == k;
                            assert(key_at(before, i) == k);
                            if i != at as int {
                                if i < at {
                                    assert(key_at(before, i) != key_at(before, at as int));
                                } else {
                                    assert(key_at(before, at as int) != key_at(before, i));
                                }
                                assert(after[i] == before[i]);
                            }
                        }
                        if as_map(before).contains_key(k) {
                            let i = choose|i: int|
                                0 <= i < before.len() && #[trigger] key_at(before, i) == k;
                            assert(key_at(after, i) == k);
                        }
                        assert(key_at(after, at as int) == key);
                    }
                }
            }
        } else {
            entries.push((path, value));
            proof {
                let after = entries@;
                assert(after.drop_last() =~= before);
                assert forall|i: int, j: int| 0 <= i < j < after.len() implies #[trigger] key_at(
                    after,
                    i,
                ) != #[trigger] key_at(after, j) by {
                    assert(key_at(after, i) == key_at(before, i));
                    if j < before.len() {
                        assert(key_at(after, j) == key_at(before, j));
                    }
                }
            }
        }
        self.entries = entries;
    }

    /// The number of paths. The map's order holds every one of them once.
    pub fn len(&self) -> (len: usize)
        ensures
            len == self@.len(),
            self.keys().len() == self@.len(),
            self.keys().no_duplicates(),
            forall|key: Seq<u8>| #[trigger] self@.contains_key(key) <==> self.keys().contains(key),
    {
        proof {
            use_type_invariant(self);
            lemma_as_map_len(self.entries@);
            lemma_keys(self.entries@, self.keys());
        }
        self.entries.len()
    }

    /// The keys in the map's own order.
    pub closed spec fn keys(&self) -> Seq<Seq<u8>> {
        Seq::new(self.entries@.len(), |i: int| key_at(self.entries@, i))
    }

    /// One stored path, in the spelling it was first stored under, and its value; the paths are
    /// numbered in the map's own order.
    pub fn entry_at(&self, i: usize) -> (entry: (&Path, &V))
        requires
            i < self@.len(),
        ensures
            path_class(path_bytes(entry.0)) == self.keys()[i as int],
            self@.contains_pair(
                path_class(path_bytes(entry.0)),
                PathEntry { path: path_bytes(entry.0), value: *entry.1 },
            ),
    {
        proof {
            use_type_invariant(self);
            lemma_as_map(self.entries@);
            lemma_as_map_len(self.entries@);
            assert(key_at(self.entries@, i as int) == path_class(
                buffer_bytes(self.entries@[i as int].0),
            ));
        }
        (self.entries[i].0.as_path(), &self.entries[i].1)
    }
}

proof fn lemma_keys<V>(entries: Seq<(PathBuf, V)>, keys: Seq<Seq<u8>>)
    requires
        keys_distinct(entries),
        keys == Seq::new(entries.len(), |i: int| key_at(entries, i)),
    ensures
        keys.no_duplicates(),
        forall|key: Seq<u8>| #[trigger] as_map(entries).contains_key(key) <==> keys.contains(key),
{
    lemma_as_map(entries);
    assert forall|key: Seq<u8>| #[trigger] as_map(entries).contains_key(key) implies keys.contains(
        key,
    ) by {
        let i = choose|i: int| 0 <= i < entries.len() && #[trigger] key_at(entries, i) == key;
        assert(keys[i] == key);
    }
    assert forall|key: Seq<u8>| keys.contains(key) implies #[trigger] as_map(entries).contains_key(
        key,
    ) by {
        let i = choose|i: int| 0 <= i < keys.len() && keys[i] == key;
        assert(key_at(entries, i) == key);
    }
    assert forall|i: int, j: int|
        0 <= i < keys.len() && 0 <= j < keys.len() && i != j implies keys[i] != keys[j] by {
        if i < j {
            assert(key_at(entries, i) != key_at(entries, j));
        } else {
            assert(key_at(entries, j) != key_at(entries, i));
        }
    }
}

proof fn lemma_as_map_len<V>(entries: Seq<(PathBuf, V)>)
    requires
        keys_distinct(entries),
    ensures
        as_map(entries).dom().finite(),
        as_map(entries).len() == entries.len(),
    decreases entries.len(),
{
    if entries.len() > 0 {
        let shorter = entries.drop_last();
        let last = entries.len() - 1;
        assert forall|i: int, j: int| 0 <= i < j < shorter.len() implies #[trigger] key_at(
            shorter,
            i,
        ) != #[trigger] key_at(shorter, j) by {
            assert(key_at(shorter, i) == key_at(entries, i));
            assert(key_at(shorter, j) == key_at(entries, j));
        }
        lemma_as_map(shorter);
        lemma_as_map_len(shorter);
        if as_map(shorter).contains_key(key_at(entries, last)) {
            let i = choose|i: int|
                0 <= i < shorter.len() && #[trigger] key_at(shorter, i) == key_at(entries, last);
            assert(key_at(entries, i) == key_at(entries, last));
        }
    }
}

/// An entry with the contents of its value.
pub open spec fn entry_view<V: View>(entry: PathEntry<V>) -> PathEntry<V::V> {
    PathEntry { path: entry.path, value: entry.value@ }
}

/// A map with the contents of its values.
pub open spec fn contents<V: View>(map: Map<Seq<u8>, PathEntry<V>>) -> Map<
    Seq<u8>,
    PathEntry<V::V>,
> {
    map.map_values(|entry: PathEntry<V>| entry_view(entry))
}

/// The contents of listed values.
pub open spec fn all_stored<V: View>(entries: Seq<(PathBuf, V)>) -> Seq<PathEntry<V::V>> {
    entries.map_values(
        |entry: (PathBuf, V)| PathEntry { path: buffer_bytes(entry.0), value: entry.1@ },
    )
}

/// Whether a list holds every entry of a map once, and nothing else.
pub open spec fn lists<C>(list: Seq<PathEntry<C>>, map: Map<Seq<u8>, PathEntry<C>>) -> bool {
    &&& forall|i: int|
        0 <= i < list.len() ==> map.contains_pair(path_class((#[trigger] list[i]).path), list[i])
    &&& forall|i: int, j: int|
        0 <= i < j < list.len() ==> path_class((#[trigger] list[i]).path) != path_class(
            (#[trigger] list[j]).path,
        )
    &&& forall|key: Seq<u8>| #[trigger]
        map.contains_key(key) ==> exists|i: int|
            0 <= i < list.len() && path_class((#[trigger] list[i]).path) == key
}

/// A map after one more entry was put in.
pub open spec fn with_entry<C>(map: Map<Seq<u8>, PathEntry<C>>, entry: PathEntry<C>) -> Map<
    Seq<u8>,
    PathEntry<C>,
> {
    let key = path_class(entry.path);
    map.insert(
        key,
        PathEntry {
            path: if map.contains_key(key) {
                map[key].path
            } else {
                entry.path
            },
            value: entry.value,
        },
    )
}

/// The map that a list makes, one entry after the other.
pub open spec fn rebuilt<C>(list: Seq<PathEntry<C>>) -> Map<Seq<u8>, PathEntry<C>>
    decreases list.len(),
{
    if list.len() == 0 {
        Map::empty()
    } else {
        with_entry(rebuilt(list.drop_last()), list.last())
    }
}

proof fn lemma_rebuilt_at<C>(list: Seq<PathEntry<C>>, key: Seq<u8>)
    requires
        forall|i: int, j: int|
            0 <= i < j < list.len() ==> path_class((#[trigger] list[i]).path) != path_class(
                (#[trigger] list[j]).path,
            ),
    ensures
        rebuilt(list).contains_key(key) ==> exists|i: int|
            0 <= i < list.len() && path_class((#[trigger] list[i]).path) == key
                && rebuilt(list)[key] == list[i],
        forall|i: int|
            0 <= i < list.len() && path_class((#[trigger] list[i]).path) == key ==> rebuilt(
                list,
            ).contains_key(key),
    decreases list.len(),
{
    if list.len() > 0 {
        let shorter = list.drop_last();
        let last = list.len() - 1;
        assert forall|i: int, j: int| 0 <= i < j < shorter.len() implies path_class(
            (#[trigger] shorter[i]).path,
        ) != path_class((#[trigger] shorter[j]).path) by {
            assert(path_class(list[i].path) != path_class(list[j].path));
        }
        lemma_rebuilt_at(shorter, key);
        if rebuilt(shorter).contains_key(key) {
            let i = choose|i: int|
                0 <= i < shorter.len() && path_class((#[trigger] shorter[i]).path) == key
                    && rebuilt(shorter)[key] == shorter[i];
            assert(list[i] == shorter[i]);
            assert(path_class(list[i].path) != path_class(list[last].path));
        }
        if path_class(list[last].path) == key {
            assert(rebuilt(list)[key] == list[last]);
        }
        assert forall|i: int|
            0 <= i < list.len() && path_class((#[trigger] list[i]).path) == key implies rebuilt(
            list,
        ).contains_key(key) by {
            if i < last {
                assert(shorter[i] == list[i]);
            }
        }
    }
}

/// A map that is written out entry by entry, in any order, and read back is the same map.
pub proof fn law_listed_map_is_rebuilt<C>(
    list: Seq<PathEntry<C>>,
    map: Map<Seq<u8>, PathEntry<C>>,
)
    requires
        lists(list, map),
    ensures
        rebuilt(list) == map,
{
    assert forall|key: Seq<u8>| #[trigger]
        rebuilt(list).dom().contains(key) == map.dom().contains(key) && (rebuilt(
            list,
        ).dom().contains(key) ==> rebuilt(list)[key] == map[key]) by {
        lemma_rebuilt_at(list, key);
        if rebuilt(list).contains_key(key) {
            let i = choose|i: int|
                0 <= i < list.len() && path_class((#[trigger] list[i]).path) == key && rebuilt(
                    list,
                )[key] == list[i];
            assert(map.contains_pair(path_class(list[i].path), list[i]));
        }
        if map.contains_key(key) {
            let i = choose|i: int|
                0 <= i < list.len() && path_class((#[trigger] list[i]).path) == key;
            assert(path_class(list[i].path) == key);
        }
    }
    assert(rebuilt(list) =~= map);
}

/// Putting a value in puts its contents in.
pub(crate) proof fn lemma_contents_insert<V: View>(
    map: Map<Seq<u8>, PathEntry<V>>,
    path: Seq<u8>,
    value: V,
)
    ensures
        contents(with_entry(map, PathEntry { path, value })) == with_entry(
            contents(map),
            PathEntry { path, value: value@ },
        ),
{
    assert(contents(with_entry(map, PathEntry { path, value })) =~= with_entry(
        contents(map),
        PathEntry { path, value: value@ },
    ));
}

/// A value that can be copied with its contents.
pub trait Stored: View + Sized {
    /// Returns a copy.
    fn copied(&self) -> (copy: Self)
        ensures
            copy@ == self@,
    ;
}

impl<V: Stored> PathMap<V> {
    /// Returns the stored values, each under the path that it was first stored under.
    pub fn to_entries(&self) -> (entries: Vec<(PathBuf, V)>)
        ensures
            lists(all_stored(entries@), contents(self@)),
    {
        let mut entries: Vec<(PathBuf, V)> = Vec::new();
        let n = self.len();
        let ghost keys = self.keys();
        for i in 0..n
            invariant
                n == self@.len(),
                keys == self.keys(),
                keys.len() == n,
                entries@.len() == i,
                forall|j: int|
                    0 <= j < i ==> path_class(buffer_bytes((#[trigger] entries@[j]).0)) == keys[j],
                forall|j: int|
                    0 <= j < i ==> contents(self@).contains_pair(
                        keys[j],
                        PathEntry {
                            path: buffer_bytes((#[trigger] entries@[j]).0),
                            value: entries@[j].1@,
                        },
                    ),
        {
            let (path, value) = self.entry_at(i);
            entries.push((path.to_path_buf(), value.copied()));
        }
        proof {
            let list = all_stored(entries@);
            assert forall|i: int| 0 <= i < list.len() implies path_class(
                (#[trigger] list[i]).path,
            ) == keys[i] && contents(self@).contains_pair(path_class(list[i].path), list[i]) by {
                assert(list[i].path == buffer_bytes(entries@[i].0));
            }
            assert forall|key: Seq<u8>| #[trigger]
                contents(self@).contains_key(key) implies exists|i: int|
                0 <= i < list.len() && path_class((#[trigger] list[i]).path) == key by {
                assert(self@.contains_key(key));
                let i = choose|i: int| 0 <= i < keys.len() && keys[i] == key;
                assert(path_class(list[i].path) == key);
            }
        }
        entries
    }

    /// Makes a map of listed values.
    pub fn from_entries(entries: Vec<(PathBuf, V)>) -> (map: Self)
        ensures
            contents(map@) == rebuilt(all_stored(entries@)),
    {
        let ghost list = all_stored(entries@);
        let mut map: PathMap<V> = PathMap::new();
        assert(contents(map@) =~= rebuilt(list.take(0)));
        for i in 0..entries.len()
            invariant
                list == all_stored(entries@),
                contents(map@) == rebuilt(list.take(i as int)),
        {
            assert(list.take(i + 1).drop_last() =~= list.take(i as int));
            let ghost before = map@;
            let path = entries[i].0.as_path().to_path_buf();
            let value = entries[i].1.copied();
            proof {
                lemma_contents_insert(before, buffer_bytes(path), value);
            }
            map.insert(path, value);
            assert(list.take(i + 1).last() == list[i as int]);
        }
        assert(list.take(list.len() as int) =~= list);
        map
    }
}

/// A value that is put in is found under every spelling of its path, and the path keeps the
/// spelling that it was first stored under; every other path keeps what it has.
pub proof fn law_stored_value_is_found<C>(
    map: Map<Seq<u8>, PathEntry<C>>,
    path: Seq<u8>,
    value: C,
    other: Seq<u8>,
)
    ensures
        ({
            let after = with_entry(map, PathEntry { path, value });
            let key = path_class(other);
            &&& key == path_class(path) ==> {
                &&& after.contains_key(key)
                &&& after[key].value == value
                &&& map.contains_key(key) ==> after[key].path == map[key].path
                &&& !map.contains_key(key) ==> after[key].path == path
            }
            &&& key != path_class(path) ==> {
                &&& after.contains_key(key) == map.contains_key(key)
                &&& after[key] == map[key]
            }
        }),
{
}

/// Of several listed values for one path the last one counts, and a map made from a list has the
/// listed paths and no others.
pub proof fn law_last_listed_value_counts<C>(list: Seq<PathEntry<C>>, at: int, other: Seq<u8>)
    requires
        0 <= at < list.len(),
        forall|i: int|
            at < i < list.len() ==> path_class((#[trigger] list[i]).path) != path_class(
                list[at].path,
            ),
        forall|i: int|
            0 <= i < list.len() ==> path_class((#[trigger] list[i]).path) != path_class(other),
    ensures
        rebuilt(list).contains_key(path_class(list[at].path)),
        rebuilt(list)[path_class(list[at].path)].value == list[at].value,
        !rebuilt(list).contains_key(path_class(other)),
    decreases list.len(),
{
    let shorter = list.drop_last();
    let last = list.len() - 1;
    assert(path_class(list[last].path) != path_class(other));
    assert forall|i: int| 0 <= i < shorter.len() implies path_class((#[trigger] shorter[i]).path)
        != path_class(other) by {
        assert(path_class(list[i].path) != path_class(other));
    }
    if at < last {
        assert(path_class(list[last].path) != path_class(list[at].path));
        assert forall|i: int| at < i < shorter.len() implies path_class(
            (#[trigger] shorter[i]).path,
        ) != path_class(shorter[at].path) by {
            assert(path_class(list[i].path) != path_class(list[at].path));
        }
        law_last_listed_value_counts(shorter, at, other);
    } else {
        lemma_unlisted(shorter, other);
    }
}

proof fn lemma_unlisted<C>(list: Seq<PathEntry<C>>, other: Seq<u8>)
    requires
        forall|i: int|
            0 <= i < list.len() ==> path_class((#[trigger] list[i]).path) != path_class(other),
    ensures
        !rebuilt(list).contains_key(path_class(other)),
    decreases list.len(),
{
    if list.len() > 0 {
        let shorter = list.drop_last();
        assert(path_class(list[list.len() - 1].path) != path_class(other));
        assert forall|i: int| 0 <= i < shorter.len() implies path_class(
            (#[trigger] shorter[i]).path,
        ) != path_class(other) by {
            assert(path_class(list[i].path) != path_class(other));
        }
        lemma_unlisted(shorter, other);
    }
}

/// A map shows, for each of its paths, the spelling that it is stored under and its value's
/// contents.
pub proof fn law_map_is_seen_in_full<V: View>(map: Map<Seq<u8>, PathEntry<V>>, key: Seq<u8>)
    ensures
        contents(map).contains_key(key) == map.contains_key(key),
        map.contains_key(key) ==> contents(map)[key].path == map[key].path && contents(
            map,
        )[key].value == map[key].value@,
{
}

} // verus!
