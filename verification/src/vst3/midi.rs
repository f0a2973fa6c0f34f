//! MIDI events on their way to a plugin, and the notes that they leave sounding.

use vstd::prelude::*;

verus! {

/// MIDI event that a host sends to an instrument.
#[derive(Debug, Clone, Copy, PartialEq, Eq, Structural)]
pub enum MidiEvent {
    /// A key goes down; with velocity zero, up.
    NoteOn {
        /// MIDI channel.
        channel: u8,
        /// Key number.
        note: u8,
        /// Key velocity.
        velocity: u8,
    },
    /// A key goes up.
    NoteOff {
        /// MIDI channel.
        channel: u8,
        /// Key number.
        note: u8,
        /// Release velocity.
        velocity: u8,
    },
    /// All keys of a channel go up.
    AllNotesOff {
        /// MIDI channel.
        channel: u8,
    },
    /// A channel falls silent.
    AllSoundOff {
        /// MIDI channel.
        channel: u8,
    },
    /// Pressure on one key.
    PolyPressure {
        /// MIDI channel.
        channel: u8,
        /// Key number.
        note: u8,
        /// Pressure.
        pressure: u8,
    },
    /// Any other event, which plugins do not get.
    Other,
}

/// Kind of a note event.
#[derive(Debug, Clone, Copy, PartialEq, Eq, Structural)]
pub enum NoteEventKind {
    /// `NoteOnEvent`.
    NoteOn,
    /// `NoteOffEvent`.
    NoteOff,
    /// `PolyPressureEvent`.
    PolyPressure,
}

/// VST3 event on the first event bus, played live at the start of a block. Tuning and musical
/// position are zero.
#[derive(Debug, Clone, Copy, PartialEq, Eq, Structural)]
pub struct NoteEvent {
    /// What happens to the note.
    pub kind: NoteEventKind,
    /// Channel, from 0 to 15.
    pub channel: i16,
    /// Key number.
    pub pitch: i16,
    /// Velocity or pressure, in 127ths.
    pub level: u8,
    /// Id of the note, which is never given.
    pub note_id: i32,
}

/// The event of some kind on a note.
pub open spec fn note_event(kind: NoteEventKind, channel: u8, note: u8, level: u8) -> NoteEvent {
    NoteEvent {
        kind,
        channel: (channel % 16) as i16,
        pitch: note as i16,
        level,
        note_id: -1i32,
    }
}

/// Returns the channel that a channel byte selects.
fn channel_number(channel: u8) -> (number: u8)
    ensures
        number == channel % 16,
{
    assert(channel & 0x0f == channel % 16) by (bit_vector);
    channel & 0x0f
}

/// Builds the event for a key that goes down.
pub fn vst3_note_on_event(channel: u8, note: u8, velocity: u8) -> (event: NoteEvent)
    ensures
        event == note_event(NoteEventKind::NoteOn, channel, note, velocity),
        event.kind is NoteOn,
        event.channel == channel % 16,
        event.pitch == note,
        event.level == velocity,
{
    NoteEvent {
        kind: NoteEventKind::NoteOn,
        channel: channel_number(channel) as i16,
        pitch: note as i16,
        level: velocity,
        note_id: -1,
    }
}

/// Builds the event for a key that goes up.
pub fn vst3_note_off_event(channel: u8, note: u8, velocity: u8) -> (event: NoteEvent)
    ensures
        event == note_event(NoteEventKind::NoteOff, channel, note, velocity),
        event.kind is NoteOff,
        event.channel == channel % 16,
        event.pitch == note,
        event.level == velocity,
{
    NoteEvent {
        kind: NoteEventKind::NoteOff,
        channel: channel_number(channel) as i16,
        pitch: note as i16,
        level: velocity,
        note_id: -1,
    }
}

/// Builds the event for pressure on a key.
pub fn vst3_poly_pressure_event(channel: u8, note: u8, pressure: u8) -> (event: NoteEvent)
    ensures
        event == note_event(NoteEventKind::PolyPressure, channel, note, pressure),
        event.kind is PolyPressure,
        event.channel == channel % 16,
        event.pitch == note,
        event.level == pressure,
{
    NoteEvent {
        kind: NoteEventKind::PolyPressure,
        channel: channel_number(channel) as i16,
        pitch: note as i16,
        level: pressure,
        note_id: -1,
    }
}

/// Events that wait for the next block, and the notes that are down.
pub struct Vst3MidiEventQueue {
    pending: Vec<NoteEvent>,
    /// Whether each note is down, 128 to a channel.
    active_notes: [bool; 2048],
}

/// The contents of a [`Vst3MidiEventQueue`].
#[verifier::ext_equal]
pub struct Queue {
    pub pending: Seq<NoteEvent>,
    /// Whether a note, given by channel and key, is down.
    pub active: Map<(int, int), bool>,
}

/// Whether a channel and a key name a note.
pub open spec fn is_note(note: (int, int)) -> bool {
    0 <= note.0 < 16 && 0 <= note.1 < 128
}

/// No note down.
pub open spec fn no_notes() -> Map<(int, int), bool> {
    Map::new(|note: (int, int)| is_note(note), |note: (int, int)| false)
}

/// Whether a map says of every note, and of nothing else, whether it is down.
pub open spec fn is_keyboard(active: Map<(int, int), bool>) -> bool {
    forall|note: (int, int)| #[trigger] active.contains_key(note) <==> is_note(note)
}

impl View for Vst3MidiEventQueue {
    type V = Queue;

    closed spec fn view(&self) -> Queue {
        Queue {
            pending: self.pending@,
            active: Map::new(
                |note: (int, int)| is_note(note),
                |note: (int, int)| self.active_notes@[note.0 * 128 + note.1],
            ),
        }
    }
}

/// The releases of those of the first `n` keys of a channel that are down.
pub open spec fn releases(active: Map<(int, int), bool>, channel: u8, n: nat) -> Seq<NoteEvent>
    decreases n,
{
    if n == 0 {
        seq![]
    } else {
        let earlier = releases(active, channel, (n - 1) as nat);
        if active[((channel % 16) as int, n - 1)] {
            earlier.push(note_event(NoteEventKind::NoteOff, channel, (n - 1) as u8, 0))
        } else {
            earlier
        }
    }
}

impl Queue {
    /// The queue after the keys of a channel that are down are released.
    pub open spec fn released(self, channel: u8) -> Queue {
        Queue {
            pending: self.pending + releases(self.active, channel, 128),
            active: Map::new(
                |note: (int, int)| is_note(note),
                |note: (int, int)| note.0 != channel % 16 && self.active[note],
            ),
        }
    }

    /// The queue after the keys of the first `n` channels that are down are released.
    pub open spec fn released_up_to(self, n: nat) -> Queue
        decreases n,
    {
        if n == 0 {
            self
        } else {
            self.released_up_to((n - 1) as nat).released((n - 1) as u8)
        }
    }

    /// The queue after its events were taken out.
    pub open spec fn taken(self) -> Queue {
        Queue { pending: seq![], ..self }
    }

    /// The queue after an event.
    pub open spec fn pushed(self, event: MidiEvent) -> Queue {
        match event {
            MidiEvent::NoteOn { channel, note, velocity } => if velocity > 0 {
                Queue {
                    pending: self.pending.push(
                        note_event(NoteEventKind::NoteOn, channel, note, velocity),
                    ),
                    active: self.active.insert(((channel % 16) as int, note as int), true),
                }
            } else {
                Queue {
                    pending: self.pending.push(
                        note_event(NoteEventKind::NoteOff, channel, note, 0),
                    ),
                    active: self.active.insert(((channel % 16) as int, note as int), false),
                }
            },
            MidiEvent::NoteOff { channel, note, velocity } => Queue {
                pending: self.pending.push(
                    note_event(NoteEventKind::NoteOff, channel, note, velocity),
                ),
                active: self.active.insert(((channel % 16) as int, note as int), false),
            },
            MidiEvent::AllNotesOff { channel } => self.released(channel),
            MidiEvent::AllSoundOff { channel } => self.released(channel),
            MidiEvent::PolyPressure { channel, note, pressure } => Queue {
                pending: self.pending.push(
                    note_event(NoteEventKind::PolyPressure, channel, note, pressure),
                ),
                ..self
            },
            MidiEvent::Other => self,
        }
    }
}

impl MidiEvent {
    /// Whether a key that goes down or up is one of the 128 keys.
    pub open spec fn is_playable(self) -> bool {
        match self {
            MidiEvent::NoteOn { note, .. } => note < 128,
            MidiEvent::NoteOff { note, .. } => note < 128,
            _ => true,
        }
    }

    /// Returns whether a key that goes down or up is one of the 128 keys.
    pub fn playable(&self) -> (r: bool)
        ensures
            r == self.is_playable(),
    {
        match self {
            MidiEvent::NoteOn { note, .. } => *note < 128,
            MidiEvent::NoteOff { note, .. } => *note < 128,
            _ => true,
        }
    }
}

impl Vst3MidiEventQueue {
    /// Creates a queue with nothing in it.
    pub fn new() -> (queue: Self)
        ensures
            queue@ == (Queue { pending: seq![], active: no_notes() }),
    {
        let queue = Vst3MidiEventQueue { pending: Vec::new(), active_notes: [false; 2048] };
        assert(queue@.active =~= no_notes());
        assert(queue@.pending =~= seq![]);
        queue
    }

    /// Remembers whether a note is down.
    fn set_note(&mut self, channel: u8, note: u8, down: bool)
        requires
            note < 128,
        ensures
            final(self)@ == (Queue {
                active: old(self)@.active.insert(((channel % 16) as int, note as int), down),
                ..old(self)@
            }),
    {
        let ghost before = self@;
        let at = channel_number(channel) as usize * 128 + note as usize;
        self.active_notes[at] = down;
        assert(self@.active =~= before.active.insert(
            ((channel % 16) as int, note as int),
            down,
        ));
    }

    /// Queues an event for the plugin.
    pub fn push(&mut self, event: MidiEvent)
        requires
            event.is_playable(),
        ensures
            final(self)@ == old(self)@.pushed(event),
            event matches MidiEvent::NoteOn { velocity, .. } ==> final(self)@.pending.last().level
                == velocity,
            event matches MidiEvent::NoteOff { velocity, .. } ==> final(self)@.pending.last().level
                == velocity,
            event matches MidiEvent::PolyPressure { pressure, .. }
                ==> final(self)@.pending.last().level == pressure,
    {
        match event {
            MidiEvent::NoteOn { channel, note, velocity } => {
                if velocity > 0 {
                    self.set_note(channel, note, true);
                    self.pending.push(vst3_note_on_event(channel, note, velocity));
                } else {
                    self.set_note(channel, note, false);
                    self.pending.push(vst3_note_off_event(channel, note, 0));
                }
            },
            MidiEvent::NoteOff { channel, note, velocity } => {
                self.set_note(channel, note, false);
                self.pending.push(vst3_note_off_event(channel, note, velocity));
            },
            MidiEvent::AllNotesOff { channel } => {
                self.push_active_note_offs(channel);
            },
            MidiEvent::AllSoundOff { channel } => {
                self.push_active_note_offs(channel);
            },
            MidiEvent::PolyPressure { channel, note, pressure } => {
                self.pending.push(vst3_poly_pressure_event(channel, note, pressure));
            },
            MidiEvent::Other => {},
        }
    }

    /// Queues a release of each key of a channel that is down.
    pub fn push_active_note_offs(&mut self, channel: u8)
        ensures
            final(self)@ == old(self)@.released(channel),
    {
        let ghost before = self@;
        let number = channel_number(channel);
        let mut note: u8 = 0;
        while note < 128
            invariant
                note <= 128,
                number == channel % 16,
                before == old(self)@,
                self@.pending == before.pending + releases(before.active, channel, note as nat),
                forall|n: (int, int)|
                    is_note(n) ==> #[trigger] self@.active[n] == (before.active[n] && !(n.0
                        == number && n.1 < note)),
            decreases 128 - note,
        {
            let at = number as usize * 128 + note as usize;
            let ghost here = (number as int, note as int);
            assert(is_note(here));
            assert(self@.active[here] == self.active_notes@[at as int]);
            let ghost sent = releases(before.active, channel, note as nat);
            assert(releases(before.active, channel, (note + 1) as nat) == if before.active[here] {
                sent.push(note_event(NoteEventKind::NoteOff, channel, note, 0))
            } else {
                sent
            });
            if self.active_notes[at] {
                self.pending.push(vst3_note_off_event(number, note, 0));
                assert(self@.pending =~= before.pending + sent.push(
                    note_event(NoteEventKind::NoteOff, channel, note, 0),
                ));
                self.set_note(number, note, false);
            }
            note = note + 1;
        }
        assert(self@ =~= before.released(channel));
    }

    /// Queues a release of each key that is down.
    pub fn push_panic(&mut self)
        ensures
            final(self)@ == old(self)@.released_up_to(16),
            forall|note: (int, int)| is_note(note) ==> !#[trigger] final(self)@.active[note],
    {
        proof {
            lemma_released_up_to(self@, 16);
        }
        let mut channel: u8 = 0;
        while channel < 16
            invariant
                channel <= 16,
                self@ == old(self)@.released_up_to(channel as nat),
            decreases 16 - channel,
        {
            self.push_active_note_offs(channel);
            channel = channel + 1;
        }
    }

    /// Takes the queued events out.
    pub fn take(&mut self) -> (events: Vec<NoteEvent>)
        ensures
            events@ == old(self)@.pending,
            final(self)@ == (Queue { pending: seq![], ..old(self)@ }),
            final(self)@ == old(self)@.taken(),
    {
        let mut events: Vec<NoteEvent> = Vec::new();
        core::mem::swap(&mut events, &mut self.pending);
        assert(self@.pending =~= seq![]);
        events
    }
}

/// How many events a list has, as the plugin is told.
pub open spec fn count_told(events: Seq<NoteEvent>) -> i32 {
    events.len() as i32
}

/// The event of a list that a plugin asks for, if there is one.
pub open spec fn event_told(events: Seq<NoteEvent>, index: i32) -> Option<NoteEvent> {
    if 0 <= index < events.len() {
        Some(events[index as int])
    } else {
        None
    }
}

/// Returns how many events a list has, as the plugin is told.
pub fn event_count(events: &Vec<NoteEvent>) -> (count: i32)
    ensures
        count == events@.len() as i32,
        count == count_told(events@),
{
    #[verifier::truncate]
    (events.len() as i32)
}

/// Returns the event of a list that a plugin asks for, if there is one.
pub fn event_at(events: &Vec<NoteEvent>, index: i32) -> (event: Option<NoteEvent>)
    ensures
        event == if 0 <= index < events@.len() {
            Some(events@[index as int])
        } else {
            None
        },
        event == event_told(events@, index),
{
    if index >= 0 && (index as usize) < events.len() {
        Some(events[index as usize])
    } else {
        None
    }
}

/// Which notes are down after a plugin got some events.
pub open spec fn sounding(active: Map<(int, int), bool>, events: Seq<NoteEvent>) -> Map<
    (int, int),
    bool,
>
    decreases events.len(),
{
    if events.len() == 0 {
        active
    } else {
        let before = sounding(active, events.drop_last());
        let event = events.last();
        match event.kind {
            NoteEventKind::NoteOn => before.insert(
                (event.channel as int, event.pitch as int),
                true,
            ),
            NoteEventKind::NoteOff => before.insert(
                (event.channel as int, event.pitch as int),
                false,
            ),
            NoteEventKind::PolyPressure => before,
        }
    }
}

/// Whether a queue is an earlier one with further events, and knows which notes those leave down.
pub open spec fn follows(before: Queue, after: Queue) -> bool {
    &&& before.pending.len() <= after.pending.len()
    &&& after.pending.take(before.pending.len() as int) == before.pending
    &&& after.active == sounding(before.active, after.pending.skip(before.pending.len() as int))
    &&& is_keyboard(after.active)
}

proof fn lemma_sounding_on(active: Map<(int, int), bool>, a: Seq<NoteEvent>, b: Seq<NoteEvent>)
    ensures
        sounding(active, a + b) == sounding(sounding(active, a), b),
    decreases b.len(),
{
    if b.len() == 0 {
        assert(a + b =~= a);
    } else {
        lemma_sounding_on(active, a, b.drop_last());
        assert((a + b).drop_last() =~= a + b.drop_last());
    }
}

proof fn lemma_follows(before: Queue, events: Seq<NoteEvent>, after: Queue)
    requires
        after.pending == before.pending + events,
        after.active == sounding(before.active, events),
        is_keyboard(after.active),
    ensures
        follows(before, after),
{
    let n = before.pending.len() as int;
    assert(after.pending.take(n) =~= before.pending);
    assert(after.pending.skip(n) =~= events);
}

proof fn lemma_follows_on(a: Queue, b: Queue, c: Queue)
    requires
        follows(a, b),
        follows(b, c),
    ensures
        follows(a, c),
{
    let first = b.pending.skip(a.pending.len() as int);
    let second = c.pending.skip(b.pending.len() as int);
    lemma_sounding_on(a.active, first, second);
    assert(b.pending =~= a.pending + first) by {
        assert(b.pending =~= b.pending.take(a.pending.len() as int) + first);
    }
    assert(c.pending =~= a.pending + (first + second)) by {
        assert(c.pending =~= c.pending.take(b.pending.len() as int) + second);
    }
    lemma_follows(a, first + second, c);
}

proof fn lemma_releases(active: Map<(int, int), bool>, channel: u8, n: nat)
    requires
        n <= 128,
        is_keyboard(active),
    ensures
        sounding(active, releases(active, channel, n)) =~= Map::new(
            |note: (int, int)| is_note(note),
            |note: (int, int)|
                active[note] && !(note.0 == (channel % 16) as int && note.1 < n),
        ),
    decreases n,
{
    if n > 0 {
        let earlier = releases(active, channel, (n - 1) as nat);
        let here = ((channel % 16) as int, n - 1);
        lemma_releases(active, channel, (n - 1) as nat);
        if active[here] {
            let event = note_event(NoteEventKind::NoteOff, channel, (n - 1) as u8, 0);
            assert(earlier.push(event).drop_last() =~= earlier);
            assert((event.channel as int, event.pitch as int) == here);
        }
    }
}

proof fn lemma_released_follows(queue: Queue, channel: u8)
    requires
        is_keyboard(queue.active),
    ensures
        follows(queue, queue.released(channel)),
{
    lemma_releases(queue.active, channel, 128);
    let after = queue.released(channel);
    assert(after.active =~= sounding(queue.active, releases(queue.active, channel, 128)));
    lemma_follows(queue, releases(queue.active, channel, 128), after);
}

/// The notes that a queue holds to be down are always those that its events leave down: what an
/// event adds to the queue takes a plugin from the one to the other.
pub proof fn law_notes_follow_events(queue: Queue, event: MidiEvent)
    requires
        is_keyboard(queue.active),
        event.is_playable(),
    ensures
        follows(queue, queue.pushed(event)),
{
    let after = queue.pushed(event);
    match event {
        MidiEvent::AllNotesOff { channel } => {
            lemma_released_follows(queue, channel);
        },
        MidiEvent::AllSoundOff { channel } => {
            lemma_released_follows(queue, channel);
        },
        MidiEvent::Other => {
            assert(queue.pending =~= queue.pending + Seq::<NoteEvent>::empty());
            lemma_follows(queue, seq![], after);
        },
        _ => {
            let added = seq![after.pending.last()];
            assert(added.drop_last() =~= Seq::<NoteEvent>::empty());
            assert(after.pending =~= queue.pending + added);
            reveal_with_fuel(sounding, 2);
            assert(after.active =~= sounding(queue.active, added));
            lemma_follows(queue, added, after);
        },
    }
}

proof fn lemma_released_up_to(queue: Queue, n: nat)
    requires
        n <= 16,
        is_keyboard(queue.active),
    ensures
        follows(queue, queue.released_up_to(n)),
        forall|note: (int, int)|
            is_note(note) ==> #[trigger] queue.released_up_to(n).active[note] == (
            queue.active[note] && note.0 >= n),
    decreases n,
{
    if n == 0 {
        assert(queue.pending =~= queue.pending + Seq::<NoteEvent>::empty());
        lemma_follows(queue, seq![], queue);
    } else {
        lemma_released_up_to(queue, (n - 1) as nat);
        let before = queue.released_up_to((n - 1) as nat);
        lemma_released_follows(before, (n - 1) as u8);
        lemma_follows_on(queue, before, before.released((n - 1) as u8));
    }
}

/// A panic leaves no note down: afterwards the queue holds none to be down, and the events that
/// it added release all that were.
pub proof fn law_panic_leaves_no_note(queue: Queue)
    requires
        is_keyboard(queue.active),
    ensures
        queue.released_up_to(16).active == no_notes(),
        follows(queue, queue.released_up_to(16)),
{
    lemma_released_up_to(queue, 16);
    assert(queue.released_up_to(16).active =~= no_notes());
}

/// Releasing the keys of one channel leaves none of them down, and those of the other channels
/// as they were; what it adds are releases on that channel alone.
pub proof fn law_release_stays_on_its_channel(queue: Queue, channel: u8)
    requires
        is_keyboard(queue.active),
    ensures
        forall|note: (int, int)|
            is_note(note) ==> #[trigger] queue.released(channel).active[note] == (if note.0
                == channel % 16 {
                false
            } else {
                queue.active[note]
            }),
        forall|i: int|
            queue.pending.len() <= i < queue.released(channel).pending.len() ==> {
                let event = #[trigger] queue.released(channel).pending[i];
                &&& event.kind is NoteOff
                &&& event.channel == channel % 16
                &&& queue.active[(event.channel as int, event.pitch as int)]
            },
{
    lemma_releases_are_releases(queue.active, channel, 128);
}

proof fn lemma_releases_are_releases(active: Map<(int, int), bool>, channel: u8, n: nat)
    requires
        n <= 128,
    ensures
        forall|i: int|
            0 <= i < releases(active, channel, n).len() ==> {
                let event = #[trigger] releases(active, channel, n)[i];
                &&& event.kind is NoteOff
                &&& event.channel == channel % 16
                &&& active[(event.channel as int, event.pitch as int)]
            },
    decreases n,
{
    if n > 0 {
        lemma_releases_are_releases(active, channel, (n - 1) as nat);
    }
}

/// A key that goes down adds one event to the queue, behind those that wait: a note-on with the
/// key's own channel, number and velocity, whatever these are. The louder a key is struck, the
/// louder it plays.
pub proof fn law_struck_key_plays_as_struck(queue: Queue, channel: u8, note: u8, velocity: u8)
    requires
        velocity > 0,
    ensures
        ({
            let after = queue.pushed(MidiEvent::NoteOn { channel, note, velocity });
            let added = after.pending.last();
            &&& after.pending.len() == queue.pending.len() + 1
            &&& after.pending.drop_last() == queue.pending
            &&& added.kind is NoteOn
            &&& added.level == velocity
            &&& added.pitch == note
            &&& added.channel == channel % 16
            &&& added.note_id == -1
            &&& after.active[((channel % 16) as int, note as int)]
        }),
        forall|louder: u8|
            velocity < louder ==> queue.pushed(
                MidiEvent::NoteOn { channel, note, velocity },
            ).pending.last().level < (#[trigger] queue.pushed(
                MidiEvent::NoteOn { channel, note, velocity: louder },
            )).pending.last().level,
{
    let after = queue.pushed(MidiEvent::NoteOn { channel, note, velocity });
    assert(after.pending.drop_last() =~= queue.pending);
}

/// A key that goes up adds one event to the queue, behind those that wait: a note-off with the
/// key's own channel, number and release velocity. A key that goes down with velocity zero goes up
/// with that velocity.
pub proof fn law_released_key_ends_as_released(queue: Queue, channel: u8, note: u8, velocity: u8)
    ensures
        ({
            let after = queue.pushed(MidiEvent::NoteOff { channel, note, velocity });
            let added = after.pending.last();
            &&& after.pending.len() == queue.pending.len() + 1
            &&& after.pending.drop_last() == queue.pending
            &&& added.kind is NoteOff
            &&& added.level == velocity
            &&& added.pitch == note
            &&& added.channel == channel % 16
            &&& added.note_id == -1
            &&& !after.active[((channel % 16) as int, note as int)]
        }),
        queue.pushed(MidiEvent::NoteOn { channel, note, velocity: 0 }) == queue.pushed(
            MidiEvent::NoteOff { channel, note, velocity: 0 },
        ),
{
    let after = queue.pushed(MidiEvent::NoteOff { channel, note, velocity });
    assert(after.pending.drop_last() =~= queue.pending);
}

/// Pressure on a key adds one event to the queue, behind those that wait, with the key's own
/// channel and number and that pressure; no key goes down or up by it.
pub proof fn law_pressure_is_passed_on(queue: Queue, channel: u8, note: u8, pressure: u8)
    ensures
        ({
            let after = queue.pushed(MidiEvent::PolyPressure { channel, note, pressure });
            let added = after.pending.last();
            &&& after.pending.len() == queue.pending.len() + 1
            &&& after.pending.drop_last() == queue.pending
            &&& added.kind is PolyPressure
            &&& added.level == pressure
            &&& added.pitch == note
            &&& added.channel == channel % 16
            &&& added.note_id == -1
            &&& after.active == queue.active
        }),
{
    let after = queue.pushed(MidiEvent::PolyPressure { channel, note, pressure });
    assert(after.pending.drop_last() =~= queue.pending);
}

/// A key that goes down or up changes nothing about any other key, and an event of no other kind
/// changes anything at all.
pub proof fn law_one_key_leaves_others(
    queue: Queue,
    channel: u8,
    note: u8,
    velocity: u8,
    other: (int, int),
)
    requires
        is_note(other),
        other != ((channel % 16) as int, note as int),
    ensures
        queue.pushed(MidiEvent::NoteOn { channel, note, velocity }).active[other]
            == queue.active[other],
        queue.pushed(MidiEvent::NoteOff { channel, note, velocity }).active[other]
            == queue.active[other],
        queue.pushed(MidiEvent::Other) == queue,
{
}

/// How often a note is released by some events.
pub open spec fn times_released(events: Seq<NoteEvent>, note: (int, int)) -> nat
    decreases events.len(),
{
    if events.len() == 0 {
        0
    } else {
        let event = events.last();
        times_released(events.drop_last(), note) + if event.kind is NoteOff && (
            event.channel as int,
            event.pitch as int,
        ) == note {
            1nat
        } else {
            0
        }
    }
}

proof fn lemma_times_released(active: Map<(int, int), bool>, channel: u8, n: nat, note: (int, int))
    requires
        n <= 128,
        is_note(note),
    ensures
        times_released(releases(active, channel, n), note) == if note.0 == channel % 16 && note.1
            < n && active[note] {
            1nat
        } else {
            0
        },
        forall|i: int|
            0 <= i < releases(active, channel, n).len() ==> (#[trigger] releases(
                active,
                channel,
                n,
            )[i]).level == 0 && releases(active, channel, n)[i].note_id == -1,
    decreases n,
{
    if n > 0 {
        let earlier = releases(active, channel, (n - 1) as nat);
        lemma_times_released(active, channel, (n - 1) as nat, note);
        let all = releases(active, channel, n);
        if active[((channel % 16) as int, n - 1)] {
            assert(all.drop_last() =~= earlier);
            assert(all.last().pitch as int == n - 1);
        }
    }
}

/// When all keys of a channel go up, or the channel falls silent, what is added to the queue,
/// behind the events that wait, releases each key of the channel that is down exactly once, and no
/// other key, always with velocity zero.
pub proof fn law_each_key_is_released_once(queue: Queue, channel: u8, note: (int, int))
    requires
        is_note(note),
    ensures
        ({
            let after = queue.pushed(MidiEvent::AllNotesOff { channel });
            let added = after.pending.skip(queue.pending.len() as int);
            &&& after.pending == queue.pending + added
            &&& times_released(added, note) == if note.0 == channel % 16 && queue.active[note] {
                1nat
            } else {
                0
            }
            &&& forall|i: int|
                0 <= i < added.len() ==> (#[trigger] added[i]).level == 0 && added[i].note_id == -1
            &&& after.active[note] <==> note.0 != channel % 16 && queue.active[note]
        }),
        queue.pushed(MidiEvent::AllSoundOff { channel }) == queue.pushed(
            MidiEvent::AllNotesOff { channel },
        ),
{
    let after = queue.pushed(MidiEvent::AllNotesOff { channel });
    let released = releases(queue.active, channel, 128);
    assert(after.pending =~= queue.pending + released);
    assert(after.pending.skip(queue.pending.len() as int) =~= released);
    lemma_times_released(queue.active, channel, 128, note);
}

proof fn lemma_times_add_up(a: Seq<NoteEvent>, b: Seq<NoteEvent>, note: (int, int))
    ensures
        times_released(a + b, note) == times_released(a, note) + times_released(b, note),
    decreases b.len(),
{
    if b.len() == 0 {
        assert(a + b =~= a);
    } else {
        lemma_times_add_up(a, b.drop_last(), note);
        assert((a + b).drop_last() =~= a + b.drop_last());
    }
}

proof fn lemma_panic_up_to(queue: Queue, n: nat, note: (int, int))
    requires
        n <= 16,
        is_note(note),
        is_keyboard(queue.active),
    ensures
        ({
            let after = queue.released_up_to(n);
            let added = after.pending.skip(queue.pending.len() as int);
            &&& after.pending == queue.pending + added
            &&& times_released(added, note) == if note.0 < n && queue.active[note] {
                1nat
            } else {
                0
            }
        }),
    decreases n,
{
    let after = queue.released_up_to(n);
    let len = queue.pending.len() as int;
    let added = after.pending.skip(len);
    if n == 0 {
        assert(added =~= Seq::<NoteEvent>::empty());
        assert(queue.pending + added =~= queue.pending);
    } else {
        let before = queue.released_up_to((n - 1) as nat);
        let earlier = before.pending.skip(len);
        let released = releases(before.active, (n - 1) as u8, 128);
        lemma_panic_up_to(queue, (n - 1) as nat, note);
        lemma_released_up_to(queue, (n - 1) as nat);
        lemma_times_released(before.active, (n - 1) as u8, 128, note);
        assert(after.pending =~= queue.pending + (earlier + released));
        assert(added =~= earlier + released);
        lemma_times_add_up(earlier, released, note);
    }
}

proof fn lemma_releases_ascend(active: Map<(int, int), bool>, channel: u8, n: nat)
    requires
        n <= 128,
    ensures
        forall|i: int|
            0 <= i < releases(active, channel, n).len() ==> 0 <= (#[trigger] releases(
                active,
                channel,
                n,
            )[i]).pitch < n,
        forall|i: int, j: int|
            0 <= i < j < releases(active, channel, n).len() ==> (#[trigger] releases(
                active,
                channel,
                n,
            )[i]).pitch < (#[trigger] releases(active, channel, n)[j]).pitch,
    decreases n,
{
    if n > 0 {
        lemma_releases_ascend(active, channel, (n - 1) as nat);
    }
}

/// The keys of a channel are released from the lowest to the highest.
pub proof fn law_keys_are_released_upwards(queue: Queue, channel: u8, i: int, j: int)
    requires
        queue.pending.len() <= i < j < queue.released(channel).pending.len(),
    ensures
        queue.released(channel).pending[i].pitch < queue.released(channel).pending[j].pitch,
{
    lemma_releases_ascend(queue.active, channel, 128);
    let n = queue.pending.len() as int;
    let added = releases(queue.active, channel, 128);
    assert(queue.released(channel).pending[i] == added[i - n]);
    assert(queue.released(channel).pending[j] == added[j - n]);
}

/// A panic releases each key that is down exactly once, and no other key.
pub proof fn law_panic_releases_each_key_once(queue: Queue, note: (int, int))
    requires
        is_note(note),
        is_keyboard(queue.active),
    ensures
        ({
            let after = queue.released_up_to(16);
            let added = after.pending.skip(queue.pending.len() as int);
            &&& after.pending == queue.pending + added
            &&& times_released(added, note) == if queue.active[note] {
                1nat
            } else {
                0
            }
        }),
{
    lemma_panic_up_to(queue, 16, note);
}

/// A built event is of its kind, on the channel that the lower four bits of the channel byte give,
/// and has the key and the level that it was built with.
pub proof fn law_note_event_is_what_was_played(
    kind: NoteEventKind,
    channel: u8,
    note: u8,
    level: u8,
)
    ensures
        ({
            let event = note_event(kind, channel, note, level);
            &&& event.kind == kind
            &&& 0 <= event.channel < 16
            &&& event.channel == channel & 0x0f
            &&& event.pitch == note
            &&& event.level == level
            &&& event.note_id == -1
        }),
{
    assert(channel & 0x0f == channel % 16) by (bit_vector);
}

/// Whether a key is one of the keyboard's decides what may be queued, for a key that goes down and
/// for one that goes up.
pub proof fn law_keyboard_keys_are_playable(channel: u8, note: u8, velocity: u8)
    ensures
        (MidiEvent::NoteOn { channel, note, velocity }).is_playable() <==> note <= 127,
        (MidiEvent::NoteOff { channel, note, velocity }).is_playable() <==> note <= 127,
        (MidiEvent::PolyPressure { channel, note, pressure: velocity }).is_playable(),
        (MidiEvent::AllNotesOff { channel }).is_playable(),
        (MidiEvent::AllSoundOff { channel }).is_playable(),
        (MidiEvent::Other).is_playable(),
{
}

/// A queue whose events were taken out has none left and knows as before which notes are down; no
/// note of a fresh queue is down.
pub proof fn law_taking_events_keeps_notes(queue: Queue, note: (int, int))
    requires
        is_note(note),
    ensures
        queue.taken().pending.len() == 0,
        queue.taken().active == queue.active,
        is_keyboard(no_notes()),
        !no_notes()[note],
{
}

/// A plugin that asks for each index below the count gets the queued events one by one, in order,
/// and for any other index nothing.
pub proof fn law_events_are_handed_out_in_order(events: Seq<NoteEvent>, index: i32)
    requires
        events.len() <= i32::MAX,
    ensures
        count_told(events) == events.len(),
        0 <= index < count_told(events) ==> event_told(events, index) == Some(events[index as int]),
        index < 0 || index >= count_told(events) ==> event_told(events, index) is None,
{
}

} // verus!
