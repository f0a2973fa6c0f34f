//! What the audio host's processor registry is told about a plugin.

use vstd::prelude::*;

verus! {

/// Mixer role of a processor.
#[derive(Debug, Clone, Copy, PartialEq, Eq, Structural)]
pub enum Role {
    /// Turns notes into sound.
    Instrument,
    /// Turns sound into sound.
    Effect,
}

/// Plugin backend of a registry entry.
#[derive(Debug, Clone, Copy, PartialEq, Eq, Structural)]
pub enum Backend {
    /// CLAP plugin.
    Clap,
    /// VST3 plugin.
    Vst3,
}

/// Size of an editor window in pixels.
#[derive(Debug, Clone, Copy, PartialEq, Eq, Structural)]
pub struct EditorSize {
    /// Width in pixels.
    pub width: u32,
    /// Height in pixels.
    pub height: u32,
}

/// How an editor window is opened.
#[derive(Debug, Clone, Copy, PartialEq, Eq, Structural)]
pub struct EditorDescriptor {
    /// Size before the editor has asked for one.
    pub default_size: EditorSize,
    /// Smallest size, if there is one.
    pub min_size: Option<EditorSize>,
    /// Whether the window can be resized.
    pub resizable: bool,
}

/// One processor as the registry lists it.
#[derive(Debug, PartialEq, Eq)]
pub struct Entry {
    /// Stable processor id.
    pub id: String,
    /// Display name.
    pub name: String,
    /// Backend that runs the processor.
    pub backend: Backend,
    /// Mixer role.
    pub role: Role,
    /// Vendor, where the backend passes one on.
    pub vendor: Option<String>,
    /// Name in the processor's descriptor.
    pub descriptor_name: String,
    /// Editor in the processor's descriptor.
    pub editor: Option<EditorDescriptor>,
}

/// The contents of an [`Entry`].
#[verifier::ext_equal]
pub struct EntryView {
    pub id: Seq<char>,
    pub name: Seq<char>,
    pub backend: Backend,
    pub role: Role,
    pub vendor: Option<Seq<char>>,
    pub descriptor_name: Seq<char>,
    pub editor: Option<EditorDescriptor>,
}

impl View for Entry {
    type V = EntryView;

    open spec fn view(&self) -> EntryView {
        EntryView {
            id: self.id@,
            name: self.name@,
            backend: self.backend,
            role: self.role,
            vendor: crate::text::optional_text(self.vendor),
            descriptor_name: self.descriptor_name@,
            editor: self.editor,
        }
    }
}

/// The contents of an entry are its own, item for item.
pub proof fn law_entry_is_seen_in_full(entry: Entry)
    ensures
        entry@.id == entry.id@,
        entry@.name == entry.name@,
        entry@.backend == entry.backend,
        entry@.role == entry.role,
        entry@.descriptor_name == entry.descriptor_name@,
        entry@.editor == entry.editor,
        entry@.vendor is Some <==> entry.vendor is Some,
        entry.vendor matches Some(vendor) ==> entry@.vendor == Some(vendor@),
{
}

} // verus!
