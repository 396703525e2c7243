//! The playing state of the board: which hexagon each finger or the mouse holds down, and the
//! MIDI messages that pressing, moving and releasing send.
use vstd::prelude::*;
use std::collections::HashMap;
use vstd::std_specs::iter::IteratorSpec;
use crate::keyboard::{HexAddr, Keyboard};

verus! {

broadcast use vstd::std_specs::hash::group_hash_axioms;

/// MIDI status byte that starts a note.
pub const NOTE_ON_MSG: u8 = 0x90;

/// MIDI status byte that ends a note.
pub const NOTE_OFF_MSG: u8 = 0x80;

/// The pointer id under which mouse presses are tracked (fingers use their own ids).
pub const MOUSE_OID: i64 = -1;

/// A three-byte MIDI channel message.
#[derive(Clone, Copy, Debug, PartialEq, Eq, Structural)]
pub struct MidiMessage {
    pub status: u8,
    pub note: u8,
    pub velocity: u8,
}

/// The message with the given status byte for the key `key`, if there is a key.
pub open spec fn note_message(key: Option<(Seq<char>, u8)>, status: u8, velocity: u8) -> Seq<MidiMessage> {
    match key {
        Some(k) => seq![MidiMessage { status: status, note: k.1, velocity: velocity }],
        None => seq![],
    }
}

/// The messages sent when a pointer goes down on `addr`.
pub open spec fn press_messages<K: Keyboard>(keyboard: K, velocity: u8, addr: HexAddr) -> Seq<MidiMessage> {
    note_message(keyboard.key_at(addr), NOTE_ON_MSG, velocity)
}

/// The messages sent when pointer `oid` is lifted while `presses` are held.
pub open spec fn release_messages<K: Keyboard>(
    keyboard: K,
    velocity: u8,
    presses: Map<i64, HexAddr>,
    oid: i64,
) -> Seq<MidiMessage> {
    if presses.contains_key(oid) {
        note_message(keyboard.key_at(presses[oid]), NOTE_OFF_MSG, velocity)
    } else {
        seq![]
    }
}

/// The messages sent when pointer `oid` moves onto `addr` while `presses` are held: a pointer
/// not yet held starts the new note; one that changes hexagon starts the new note and then ends
/// the old one; one that stays in its hexagon sends nothing.
pub open spec fn move_messages<K: Keyboard>(
    keyboard: K,
    velocity: u8,
    presses: Map<i64, HexAddr>,
    oid: i64,
    addr: HexAddr,
) -> Seq<MidiMessage> {
    if !presses.contains_key(oid) {
        press_messages(keyboard, velocity, addr)
    } else if presses[oid] != addr {
        press_messages(keyboard, velocity, addr) + note_message(
            keyboard.key_at(presses[oid]),
            NOTE_OFF_MSG,
            velocity,
        )
    } else {
        seq![]
    }
}

/// `keys` lists each key of `presses` once.
pub open spec fn enumerates_keys(keys: Seq<i64>, presses: Map<i64, HexAddr>) -> bool {
    &&& keys.no_duplicates()
    &&& forall|k: i64| keys.contains(k) <==> presses.contains_key(k)
}

/// Which hexagon each pointer (finger, or the mouse) holds down.
pub struct KeyboardState {
    active_presses_map: HashMap<i64, HexAddr>,
    velocity: u8,
}

impl View for KeyboardState {
    type V = Map<i64, HexAddr>;

    closed spec fn view(&self) -> Map<i64, HexAddr> {
        self.active_presses_map@
    }
}

impl KeyboardState {
    /// The velocity that notes are played with.
    pub closed spec fn velocity(&self) -> u8 {
        self.velocity
    }

    /// A state with nothing held down, playing notes with `velocity`.
    pub fn new(velocity: u8) -> (state: Self)
        ensures
            state@ == Map::<i64, HexAddr>::empty(),
            state.velocity() == velocity,
    {
        KeyboardState { active_presses_map: HashMap::new(), velocity }
    }

    /// The note-on message for the key at `addr`, if the layout has a key there.
    pub fn start_note<K: Keyboard>(&self, addr: HexAddr, keyboard: &K) -> (msg: Option<MidiMessage>)
        requires
            keyboard.in_range(addr),
        ensures
            opt_seq(msg) == note_message(keyboard.key_at(addr), NOTE_ON_MSG, self.velocity()),
    {
        let key = keyboard.get_key_info(addr);
        if let Some(x) = key {
            Some(MidiMessage { status: NOTE_ON_MSG, note: x.note, velocity: self.velocity })
        } else {
            None
        }
    }

    /// The note-off message for the key at `addr`, if the layout has a key there.
    pub fn end_note<K: Keyboard>(&self, addr: HexAddr, keyboard: &K) -> (msg: Option<MidiMessage>)
        requires
            keyboard.in_range(addr),
        ensures
            opt_seq(msg) == note_message(keyboard.key_at(addr), NOTE_OFF_MSG, self.velocity()),
    {
        let key = keyboard.get_key_info(addr);
        if let Some(x) = key {
            Some(MidiMessage { status: NOTE_OFF_MSG, note: x.note, velocity: self.velocity })
        } else {
            None
        }
    }

    /// Pointer `oid` goes down on `addr`: it now holds `addr`, and the key's note starts.
    pub fn on_press<K: Keyboard>(&mut self, oid: i64, addr: HexAddr, keyboard: &K) -> (msgs: Vec<MidiMessage>)
        requires
            keyboard.in_range(addr),
        ensures
            final(self)@ == old(self)@.insert(oid, addr),
            final(self)@ == apply_event(old(self)@, (PointerEvent::Press { oid, addr })),
            final(self).velocity() == old(self).velocity(),
            msgs@ == press_messages(*keyboard, old(self).velocity(), addr),
    {
        self.active_presses_map.insert(oid, addr);
        let mut msgs = Vec::new();
        if let Some(m) = self.start_note(addr, keyboard) {
            msgs.push(m);
        }
        msgs
    }

    /// Pointer `oid` is lifted: it holds nothing any more, and the note of the hexagon it held,
    /// if any, ends.
    pub fn on_release<K: Keyboard>(&mut self, oid: i64, keyboard: &K) -> (msgs: Vec<MidiMessage>)
        requires
            old(self)@.contains_key(oid) ==> keyboard.in_range(old(self)@[oid]),
        ensures
            final(self)@ == old(self)@.remove(oid),
            final(self)@ == apply_event(old(self)@, (PointerEvent::Release { oid })),
            final(self).velocity() == old(self).velocity(),
            msgs@ == release_messages(*keyboard, old(self).velocity(), old(self)@, oid),
    {
        let mut msgs = Vec::new();
        match self.active_presses_map.remove(&oid) {
            Some(addr) => {
                if let Some(m) = self.end_note(addr, keyboard) {
                    msgs.push(m);
                }
            },
            None => (),
        }
        msgs
    }

    /// Pointer `oid` moves onto `addr`: it now holds `addr`; see `move_messages` for the notes
    /// started and ended.
    pub fn on_move<K: Keyboard>(&mut self, oid: i64, addr: HexAddr, keyboard: &K) -> (msgs: Vec<MidiMessage>)
        requires
            keyboard.in_range(addr),
            old(self)@.contains_key(oid) ==> keyboard.in_range(old(self)@[oid]),
        ensures
            final(self)@ == old(self)@.insert(oid, addr),
            final(self)@ == apply_event(old(self)@, (PointerEvent::Move { oid, addr })),
            final(self).velocity() == old(self).velocity(),
            msgs@ == move_messages(*keyboard, old(self).velocity(), old(self)@, oid, addr),
    {
        let mut msgs = Vec::new();
        match self.active_presses_map.get(&oid) {
            None => {
                if let Some(m) = self.start_note(addr, keyboard) {
                    msgs.push(m);
                }
            },
            Some(old_addr) => {
                let old_addr = *old_addr;
                if addr != old_addr {
                    if let Some(m) = self.start_note(addr, keyboard) {
                        msgs.push(m);
                    }
                    if let Some(m) = self.end_note(old_addr, keyboard) {
                        msgs.push(m);
                    }
                }
            },
        };
        self.active_presses_map.insert(oid, addr);
        msgs
    }

    /// The hexagons held down, one entry per pointer, in the map's own order.
    pub fn get_pressed(&self) -> (pressed: Vec<HexAddr>)
        ensures
            exists|keys: Seq<i64>|
                enumerates_keys(keys, self@) && pressed@ == keys.map_values(|k: i64| self@[k]),
    {
        let ghost entries = self.active_presses_map.iter().remaining();
        let mut vec = Vec::new();
        for entry in it: self.active_presses_map.iter()
            invariant
                it.seq() == entries,
                vec@.len() == it.index(),
                forall|i: int| 0 <= i < it.index() ==> vec@[i] == *(#[trigger] it.seq()[i]).1,
        {
            let (_, value) = entry;
            vec.push(*value);
        }
        proof {
            let keys = entries.map_values(|p: (&i64, &HexAddr)| *p.0);
            lemma_entries_enumerate_keys(self@, entries);
            assert(vec@ =~= keys.map_values(|k: i64| self@[k]));
        }
        vec
    }
}

/// The entries that iterating a map yields list each key once, with its value.
proof fn lemma_entries_enumerate_keys(m: Map<i64, HexAddr>, entries: Seq<(&i64, &HexAddr)>)
    requires
        entries.len() == m.dom().len(),
        forall|i: int|
            0 <= i < entries.len() ==> m.contains_key(*entries[i].0) && m[*entries[i].0]
                == *entries[i].1,
        forall|k: i64| m.contains_key(k) ==> entries.contains((&k, &m[k])),
        entries.no_duplicates(),
    ensures
        enumerates_keys(entries.map_values(|p: (&i64, &HexAddr)| *p.0), m),
        forall|i: int|
            0 <= i < entries.len() ==> *entries[i].1 == m[entries.map_values(
                |p: (&i64, &HexAddr)| *p.0,
            )[i]],
{
    let keys = entries.map_values(|p: (&i64, &HexAddr)| *p.0);
    assert forall|i: int, j: int| 0 <= i < keys.len() && 0 <= j < keys.len() && i != j implies keys[i]
        != keys[j] by {
        if keys[i] == keys[j] {
            assert(entries[i] == entries[j]);
        }
    }
    assert forall|k: i64| keys.contains(k) <==> m.contains_key(k) by {
        if m.contains_key(k) {
            let i = choose|i: int| 0 <= i < entries.len() && entries[i] == (&k, &m[k]);
            assert(keys[i] == k);
        }
        if keys.contains(k) {
            let i = choose|i: int| 0 <= i < keys.len() && keys[i] == k;
            assert(m.contains_key(*entries[i].0));
        }
    }
}

/// A message as a sequence of zero or one messages.
pub open spec fn opt_seq(msg: Option<MidiMessage>) -> Seq<MidiMessage> {
    match msg {
        Some(m) => seq![m],
        None => seq![],
    }
}

/// Chooses the MIDI output port to open among `port_count` ports: the last one, or none when
/// there is none.
pub fn choose_output_port(port_count: u32) -> (port: Option<u32>)
    ensures
        port == (if port_count == 0 {
            None::<u32>
        } else {
            Some((port_count - 1) as u32)
        }),
{
    match port_count {
        0 => None,
        _ => Some(port_count - 1),
    }
}

/// The note-off message that ends the note a note-on message started.
pub open spec fn matching_off(m: MidiMessage) -> MidiMessage {
    MidiMessage { status: NOTE_OFF_MSG, note: m.note, velocity: m.velocity }
}

/// Pressing a pointer that holds nothing and lifting it again leaves the held hexagons as they
/// were, and the release ends exactly the notes that the press started.
pub proof fn lemma_press_then_release<K: Keyboard>(
    keyboard: K,
    velocity: u8,
    presses: Map<i64, HexAddr>,
    oid: i64,
    addr: HexAddr,
)
    requires
        !presses.contains_key(oid),
    ensures
        presses.insert(oid, addr).remove(oid) == presses,
        release_messages(keyboard, velocity, presses.insert(oid, addr), oid)
            == press_messages(keyboard, velocity, addr).map_values(|m: MidiMessage| matching_off(m)),
{
    assert(presses.insert(oid, addr).remove(oid) =~= presses);
    assert(release_messages(keyboard, velocity, presses.insert(oid, addr), oid)
        =~= press_messages(keyboard, velocity, addr).map_values(|m: MidiMessage| matching_off(m)));
}

/// Moving a pointer within the hexagon it holds sends nothing and changes nothing.
pub proof fn lemma_move_within_hexagon_is_silent<K: Keyboard>(
    keyboard: K,
    velocity: u8,
    presses: Map<i64, HexAddr>,
    oid: i64,
)
    requires
        presses.contains_key(oid),
    ensures
        move_messages(keyboard, velocity, presses, oid, presses[oid]) == Seq::<MidiMessage>::empty(),
        presses.insert(oid, presses[oid]) == presses,
{
    assert(presses.insert(oid, presses[oid]) =~= presses);
}

/// Moving a pointer to another hexagon has the effect of a release followed by a press, except
/// that the new note is started before the old one is ended; moving a pointer that holds
/// nothing is a press.
pub proof fn lemma_move_is_release_and_press<K: Keyboard>(
    keyboard: K,
    velocity: u8,
    presses: Map<i64, HexAddr>,
    oid: i64,
    addr: HexAddr,
)
    ensures
        presses.insert(oid, addr) == presses.remove(oid).insert(oid, addr),
        !(presses.contains_key(oid) && presses[oid] == addr) ==> move_messages(
            keyboard,
            velocity,
            presses,
            oid,
            addr,
        ) == press_messages(keyboard, velocity, addr) + release_messages(
            keyboard,
            velocity,
            presses,
            oid,
        ),
{
    assert(presses.insert(oid, addr) =~= presses.remove(oid).insert(oid, addr));
    if !presses.contains_key(oid) {
        assert(press_messages(keyboard, velocity, addr) + Seq::<MidiMessage>::empty()
            =~= press_messages(keyboard, velocity, addr));
    }
}

/// One event from a pointer (a finger or the mouse), as the board receives it.
pub enum PointerEvent {
    Press { oid: i64, addr: HexAddr },
    Move { oid: i64, addr: HexAddr },
    Release { oid: i64 },
}

/// The pointer an event comes from.
pub open spec fn event_oid(e: PointerEvent) -> i64 {
    match e {
        PointerEvent::Press { oid, .. } => oid,
        PointerEvent::Move { oid, .. } => oid,
        PointerEvent::Release { oid } => oid,
    }
}

/// The held hexagons after one event, as `on_press`, `on_move` and `on_release` update them.
pub open spec fn apply_event(presses: Map<i64, HexAddr>, e: PointerEvent) -> Map<i64, HexAddr> {
    match e {
        PointerEvent::Press { oid, addr } => presses.insert(oid, addr),
        PointerEvent::Move { oid, addr } => presses.insert(oid, addr),
        PointerEvent::Release { oid } => presses.remove(oid),
    }
}

/// The held hexagons after a sequence of events, starting from nothing held.
pub open spec fn after_events(events: Seq<PointerEvent>) -> Map<i64, HexAddr>
    decreases events.len(),
{
    if events.len() == 0 {
        Map::empty()
    } else {
        apply_event(after_events(events.drop_last()), events.last())
    }
}

/// The hexagon that pointer `oid` holds according to its most recent event: the address of a
/// press or move, nothing after a release or when it has no event.
pub open spec fn latest_hold(events: Seq<PointerEvent>, oid: i64) -> Option<HexAddr>
    decreases events.len(),
{
    if events.len() == 0 {
        None
    } else if event_oid(events.last()) == oid {
        match events.last() {
            PointerEvent::Press { addr, .. } => Some(addr),
            PointerEvent::Move { addr, .. } => Some(addr),
            PointerEvent::Release { .. } => None,
        }
    } else {
        latest_hold(events.drop_last(), oid)
    }
}

/// After any sequence of presses, moves and releases from an empty state, the held pointers are
/// exactly those whose most recent event is a press or a move, each holding that event's
/// hexagon.
pub proof fn lemma_held_is_latest_hold(events: Seq<PointerEvent>)
    ensures
        forall|oid: i64|
            #![trigger after_events(events).contains_key(oid)]
            #![trigger latest_hold(events, oid)]
            (after_events(events).contains_key(oid) <==> latest_hold(events, oid) is Some)
                && (after_events(events).contains_key(oid) ==> after_events(events)[oid]
                == latest_hold(events, oid).unwrap()),
    decreases events.len(),
{
    if events.len() > 0 {
        let prev = events.drop_last();
        lemma_held_is_latest_hold(prev);
        assert forall|oid: i64|
            #![trigger after_events(events).contains_key(oid)]
            #![trigger latest_hold(events, oid)]
            (after_events(events).contains_key(oid) <==> latest_hold(events, oid) is Some) && (
            after_events(events).contains_key(oid) ==> after_events(events)[oid] == latest_hold(
                events,
                oid,
            ).unwrap()) by {
            assert(after_events(events) == apply_event(after_events(prev), events.last()));
            if event_oid(events.last()) != oid {
                assert(latest_hold(events, oid) == latest_hold(prev, oid));
                assert(after_events(prev).contains_key(oid) ==> after_events(prev)[oid]
                    == latest_hold(prev, oid).unwrap());
            }
        }
    } else {
        assert forall|oid: i64|
            #![trigger after_events(events).contains_key(oid)]
            #![trigger latest_hold(events, oid)]
            !after_events(events).contains_key(oid) && latest_hold(events, oid) is None by {}
    }
}

} // verus!
