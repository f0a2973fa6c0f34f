//! Metadata of the registered plugins, by processor id.

use vstd::prelude::*;
use vstd::string::*;

use super::class_info::{
    holds_text, is_plain, law_array_is_read_as_its_text, law_word_makes_an_instrument, plugin_of2,
    ClassInfo2,
};
use super::runtime::{RuntimeFailure, Vst3RuntimeError};
use super::{
    entry_of, registry_entry_for_plugin, vst3_plugins, Vst3Plugin, Vst3PluginMetadata,
};
use crate::registry::{Backend, Entry, EntryView, Role};
use crate::text::{lowered, same_text};

verus! {

/// Metadata of the registered plugins.
#[derive(Debug)]
pub struct MetadataStore {
    plugins: Vec<Vst3PluginMetadata>,
}

/// Whether no processor id occurs twice.
spec fn ids_distinct(plugins: Seq<Vst3Plugin>) -> bool {
    forall|i: int, j: int|
        0 <= i < j < plugins.len() ==> (#[trigger] plugins[i]).processor_id != (
        #[trigger] plugins[j]).processor_id
}

/// A store after plugins were registered one after the other: each takes the place of an earlier
/// one with its id.
pub open spec fn registered(
    store: Map<Seq<char>, Vst3Plugin>,
    plugins: Seq<Vst3Plugin>,
) -> Map<Seq<char>, Vst3Plugin>
    decreases plugins.len(),
{
    if plugins.len() == 0 {
        store
    } else {
        registered(store, plugins.drop_last()).insert(
            plugins.last().processor_id,
            plugins.last(),
        )
    }
}

/// The last plugin of a list that has an id.
pub open spec fn last_with_id(plugins: Seq<Vst3Plugin>, id: Seq<char>) -> Option<Vst3Plugin>
    decreases plugins.len(),
{
    if plugins.len() == 0 {
        None
    } else if plugins.last().processor_id == id {
        Some(plugins.last())
    } else {
        last_with_id(plugins.drop_last(), id)
    }
}

/// Under every id, a store has the last plugin that was registered with it, and what it had
/// before where none was.
pub proof fn law_registered_plugins_are_found(
    store: Map<Seq<char>, Vst3Plugin>,
    plugins: Seq<Vst3Plugin>,
    id: Seq<char>,
)
    ensures
        match last_with_id(plugins, id) {
            Some(plugin) => registered(store, plugins).contains_pair(id, plugin),
            None => {
                &&& registered(store, plugins).contains_key(id) == store.contains_key(id)
                &&& registered(store, plugins)[id] == store[id]
            },
        },
    decreases plugins.len(),
{
    if plugins.len() > 0 {
        law_registered_plugins_are_found(store, plugins.drop_last(), id);
    }
}

proof fn lemma_last_with_id(plugins: Seq<Vst3Plugin>, id: Seq<char>)
    ensures
        match last_with_id(plugins, id) {
            Some(plugin) => exists|i: int|
                0 <= i < plugins.len() && #[trigger] plugins[i] == plugin && plugin.processor_id
                    == id,
            None => forall|i: int|
                0 <= i < plugins.len() ==> (#[trigger] plugins[i]).processor_id != id,
        },
    decreases plugins.len(),
{
    if plugins.len() > 0 {
        let shorter = plugins.drop_last();
        lemma_last_with_id(shorter, id);
        if plugins.last().processor_id == id {
            assert(plugins[plugins.len() - 1] == plugins.last());
        } else {
            match last_with_id(shorter, id) {
                Some(plugin) => {
                    let i = choose|i: int|
                        0 <= i < shorter.len() && #[trigger] shorter[i] == plugin;
                    assert(plugins[i] == plugin);
                },
                None => {
                    assert forall|i: int| 0 <= i < plugins.len() implies (
                    #[trigger] plugins[i]).processor_id != id by {
                        if i < shorter.len() {
                            assert(shorter[i].processor_id != id);
                        }
                    }
                },
            }
        }
    }
}

proof fn lemma_distinct_at(plugins: Seq<Vst3Plugin>, at: int)
    requires
        ids_distinct(plugins),
        0 <= at < plugins.len(),
    ensures
        last_with_id(plugins, plugins[at].processor_id) == Some(plugins[at]),
{
    let id = plugins[at].processor_id;
    lemma_last_with_id(plugins, id);
    let plugin = last_with_id(plugins, id)->0;
    let i = choose|i: int| 0 <= i < plugins.len() && #[trigger] plugins[i] == plugin;
    if i < at {
        assert(plugins[i].processor_id != plugins[at].processor_id);
    } else if at < i {
        assert(plugins[at].processor_id != plugins[i].processor_id);
    }
}

impl View for MetadataStore {
    type V = Map<Seq<char>, Vst3Plugin>;

    closed spec fn view(&self) -> Map<Seq<char>, Vst3Plugin> {
        registered(Map::empty(), vst3_plugins(self.plugins@))
    }
}

impl MetadataStore {
    #[verifier::type_invariant]
    spec fn distinct(self) -> bool {
        ids_distinct(vst3_plugins(self.plugins@))
    }

    /// Makes an empty store.
    pub fn new() -> (store: Self)
        ensures
            store@ == Map::<Seq<char>, Vst3Plugin>::empty(),
    {
        MetadataStore { plugins: Vec::new() }
    }

    /// Finds the position of an id; the number of plugins stands for "none".
    fn position(&self, id: &str) -> (at: usize)
        ensures
            at <= self.plugins@.len(),
            at < self.plugins@.len() ==> self.plugins@[at as int]@.processor_id == id@,
            at == self.plugins@.len() ==> forall|i: int|
                0 <= i < self.plugins@.len() ==> (#[trigger] self.plugins@[i])@.processor_id
                    != id@,
    {
        for i in 0..self.plugins.len()
            invariant
                forall|j: int|
                    0 <= j < i ==> (#[trigger] self.plugins@[j])@.processor_id != id@,
        {
            if same_text(self.plugins[i].processor_id.as_str(), id) {
                return i;
            }
        }
        self.plugins.len()
    }

    /// Looks the metadata of a plugin up.
    pub fn plugin_metadata(&self, id: &str) -> (metadata: Result<
        Vst3PluginMetadata,
        Vst3RuntimeError,
    >)
        ensures
            match metadata {
                Ok(m) => self@.contains_pair(id@, m@),
                Err(error) => !self@.contains_key(id@) && error@
                    == RuntimeFailure::MissingMetadata(id@),
            },
    {
        let ghost all = vst3_plugins(self.plugins@);
        proof {
            use_type_invariant(self);
            law_registered_plugins_are_found(Map::empty(), all, id@);
            lemma_last_with_id(all, id@);
        }
        let at = self.position(id);
        if at < self.plugins.len() {
            proof {
                lemma_distinct_at(all, at as int);
            }
            Ok(self.plugins[at].clone())
        } else {
            assert forall|i: int| 0 <= i < all.len() implies (#[trigger] all[i]).processor_id
                != id@ by {
                assert(self.plugins@[i]@.processor_id != id@);
            }
            Err(Vst3RuntimeError::MissingMetadata(id.to_owned()))
        }
    }

    /// Stores the metadata of a plugin in place of what was there under its id.
    pub fn insert(&mut self, plugin: Vst3PluginMetadata)
        ensures
            final(self)@ == old(self)@.insert(plugin@.processor_id, plugin@),
    {
        proof {
            use_type_invariant(&*self);
        }
        let ghost before = vst3_plugins(self.plugins@);
        let at = self.position(plugin.processor_id.as_str());
        let mut plugins: Vec<Vst3PluginMetadata> = Vec::new();
        std::mem::swap(&mut plugins, &mut self.plugins);
        if at < plugins.len() {
            plugins.set(at, plugin);
            proof {
                let after = vst3_plugins(plugins@);
                let id = plugin@.processor_id;
                assert(after =~= before.update(at as int, plugin@));
                assert(before[at as int].processor_id == id);
                assert(ids_distinct(after)) by {
                    assert forall|i: int, j: int| 0 <= i < j < after.len() implies (
                    #[trigger] after[i]).processor_id != (#[trigger] after[j]).processor_id by {
                        assert(before[i].processor_id != before[j].processor_id);
                    }
                }
                lemma_replaced(before, after, at as int);
            }
        } else {
            plugins.push(plugin);
            proof {
                let after = vst3_plugins(plugins@);
                assert(after =~= before.push(plugin@));
                assert(after.drop_last() =~= before);
                assert forall|i: int, j: int| 0 <= i < j < after.len() implies (
                #[trigger] after[i]).processor_id != (#[trigger] after[j]).processor_id by {
                    assert(after[i] == before[i]);
                    if j < before.len() {
                        assert(after[j] == before[j]);
                    } else {
                        assert(old(self).plugins@[i]@.processor_id != plugin@.processor_id);
                    }
                }
            }
        }
        self.plugins = plugins;
    }
}

proof fn lemma_replaced(before: Seq<Vst3Plugin>, after: Seq<Vst3Plugin>, at: int)
    requires
        0 <= at < before.len(),
        ids_distinct(before),
        ids_distinct(after),
        after == before.update(at, after[at]),
        after[at].processor_id == before[at].processor_id,
    ensures
        registered(Map::empty(), after) == registered(Map::empty(), before).insert(
            after[at].processor_id,
            after[at],
        ),
{
    let none = Map::<Seq<char>, Vst3Plugin>::empty();
    let expected = registered(none, before).insert(after[at].processor_id, after[at]);
    let actual = registered(none, after);
    assert forall|id: Seq<char>| #[trigger]
        actual.dom().contains(id) == expected.dom().contains(id) && (actual.dom().contains(id)
            ==> actual[id] == expected[id]) by {
        law_registered_plugins_are_found(none, before, id);
        law_registered_plugins_are_found(none, after, id);
        lemma_last_with_id(before, id);
        lemma_last_with_id(after, id);
        if id == after[at].processor_id {
            lemma_distinct_at(after, at);
        } else if last_with_id(before, id) is Some {
            let plugin = last_with_id(before, id)->0;
            let i = choose|i: int| 0 <= i < before.len() && #[trigger] before[i] == plugin;
            assert(after[i] == before[i]);
            lemma_distinct_at(after, i);
        } else if last_with_id(after, id) is Some {
            let plugin = last_with_id(after, id)->0;
            let i = choose|i: int| 0 <= i < after.len() && #[trigger] after[i] == plugin;
            assert(after[i] == before[i]);
        }
    }
    assert(actual =~= expected);
}

/// The registry entries of some plugins.
pub open spec fn entries_of(plugins: Seq<Vst3Plugin>) -> Seq<EntryView> {
    plugins.map_values(|plugin: Vst3Plugin| entry_of(plugin))
}

/// The contents of each entry of a list.
pub open spec fn entry_views(entries: Seq<Entry>) -> Seq<EntryView> {
    entries.map_values(|entry: Entry| entry@)
}

/// Registers validated VST3 plugins: stores their metadata, and returns the entries for the
/// shared audio registry, in order.
pub fn register_plugins(store: &mut MetadataStore, plugins: Vec<Vst3PluginMetadata>) -> (entries:
    Vec<Entry>)
    ensures
        final(store)@ == registered(old(store)@, vst3_plugins(plugins@)),
        entry_views(entries@) == entries_of(vst3_plugins(plugins@)),
{
    let ghost all = vst3_plugins(plugins@);
    let mut entries: Vec<Entry> = Vec::new();
    for i in 0..plugins.len()
        invariant
            all == vst3_plugins(plugins@),
            store@ == registered(old(store)@, all.take(i as int)),
            entries@.len() == i,
            forall|j: int| 0 <= j < i ==> (#[trigger] entries@[j])@ == entry_of(all[j]),
    {
        assert(all.take(i + 1).drop_last() =~= all.take(i as int));
        assert(all.take(i + 1).last() == plugins@[i as int]@);
        store.insert(plugins[i].clone());
        entries.push(registry_entry_for_plugin(plugins[i].clone()));
    }
    assert(all.take(all.len() as int) =~= all);
    assert(entry_views(entries@) =~= entries_of(all));
    entries
}

/// What a mixer slot holds.
#[derive(Debug, PartialEq, Eq)]
pub enum SlotKind {
    /// A plugin.
    Plugin {
        /// Its processor id.
        plugin_id: String,
    },
    /// Anything else.
    Other,
}

/// Finds the metadata and the registered descriptor of the plugin in a slot, if it holds one;
/// `descriptor` is what the audio registry has under the plugin's id.
pub fn metadata_and_descriptor<D>(
    store: &MetadataStore,
    slot: &SlotKind,
    descriptor: Option<D>,
) -> (found: Result<Option<(Vst3PluginMetadata, D)>, String>)
    ensures
        match *slot {
            SlotKind::Other => found == Ok::<Option<(Vst3PluginMetadata, D)>, String>(None),
            SlotKind::Plugin { plugin_id } => match found {
                Ok(Some((metadata, d))) => store@.contains_pair(plugin_id@, metadata@)
                    && descriptor == Some(d),
                Ok(None) => false,
                Err(text) => {
                    &&& !store@.contains_key(plugin_id@) || descriptor is None
                    &&& text@ == RuntimeFailure::MissingMetadata(plugin_id@).text()
                },
            },
        },
{
    match slot {
        SlotKind::Other => Ok(None),
        SlotKind::Plugin { plugin_id } => match store.plugin_metadata(plugin_id.as_str()) {
            Err(error) => Err(error.message()),
            Ok(metadata) => match descriptor {
                Some(descriptor) => Ok(Some((metadata, descriptor))),
                None => {
                    let mut text = "VST3 plugin `".to_owned();
                    text.append(plugin_id.as_str());
                    text.append("` is not registered");
                    Err(text)
                },
            },
        },
    }
}

/// A plugin that was registered is found under its id as it was, unless a later one has that id;
/// under an id that none of the registered plugins has, the store has what it had.
pub proof fn law_registered_plugin_is_kept(
    store: Map<Seq<char>, Vst3Plugin>,
    plugins: Seq<Vst3Plugin>,
    at: int,
    other: Seq<char>,
)
    requires
        0 <= at < plugins.len(),
        forall|i: int| at < i < plugins.len() ==> (#[trigger] plugins[i]).processor_id
            != plugins[at].processor_id,
        forall|i: int| 0 <= i < plugins.len() ==> (#[trigger] plugins[i]).processor_id != other,
    ensures
        registered(store, plugins).contains_key(plugins[at].processor_id),
        registered(store, plugins)[plugins[at].processor_id] == plugins[at],
        registered(store, plugins).contains_key(other) == store.contains_key(other),
        registered(store, plugins)[other] == store[other],
    decreases plugins.len(),
{
    let earlier = plugins.drop_last();
    assert(plugins[plugins.len() - 1] == plugins.last());
    assert forall|i: int| 0 <= i < earlier.len() implies (#[trigger] earlier[i]).processor_id
        != other by {
        assert(plugins[i].processor_id != other);
    }
    if at < earlier.len() {
        assert forall|i: int| at < i < earlier.len() implies (#[trigger] earlier[i]).processor_id
            != earlier[at].processor_id by {
            assert(plugins[i].processor_id != plugins[at].processor_id);
        }
        law_registered_plugin_is_kept(store, earlier, at, other);
    } else {
        lemma_last_with_id(earlier, other);
        law_registered_plugins_are_found(store, earlier, other);
    }
}

/// Each plugin that is registered gets one entry, in the order of the plugins, under its own id
/// and name and in its own role.
pub proof fn law_each_plugin_gets_its_entry(plugins: Seq<Vst3Plugin>, i: int)
    requires
        0 <= i < plugins.len(),
    ensures
        entries_of(plugins).len() == plugins.len(),
        entries_of(plugins)[i].id == plugins[i].processor_id,
        entries_of(plugins)[i].name == plugins[i].name,
        entries_of(plugins)[i].descriptor_name == plugins[i].name,
        entries_of(plugins)[i].vendor == plugins[i].vendor,
        entries_of(plugins)[i].role == plugins[i].role,
        entries_of(plugins)[i].backend == Backend::Vst3,
{
}

/// An audio processor class whose subcategories hold one of the words "instrument", "synth",
/// "sampler" and "drum", in any mix of cases, is registered as an instrument.
pub proof fn law_instrument_is_registered_as_one(
    info: ClassInfo2,
    before: Seq<char>,
    word: Seq<char>,
    behind: Seq<char>,
    path: Seq<u8>,
    library_path: Seq<u8>,
)
    requires
        holds_text(info.sub_categories@, before + word + behind),
        is_plain(before + word + behind),
        lowered(word) == "instrument"@ || lowered(word) == "synth"@ || lowered(word) == "sampler"@
            || lowered(word) == "drum"@,
    ensures
        entry_of(plugin_of2(info, path, library_path)).role == Role::Instrument,
{
    law_array_is_read_as_its_text(info.sub_categories@, before + word + behind);
    law_word_makes_an_instrument(before, word, behind);
}

} // verus!
