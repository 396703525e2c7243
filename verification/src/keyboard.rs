//! Key layouts: which label and MIDI note each hexagon of the board plays.
use vstd::prelude::*;
use crate::arith::{trunc_div, trunc_rem, is_i16, fits_i16, lemma_i16_as_u8};

verus! {

/// The address of a hexagon on the board: `x` counts columns, `y` counts half rows.
#[derive(Debug, PartialEq, Eq, Structural, Copy, Clone, Hash)]
pub struct HexAddr {
    pub x: i16,
    pub y: i16,
}

/// What a key shows and plays.
pub struct HexKey {
    pub label: String,
    pub note: u8,
}

/// A key seen as plain values: its label's characters and its MIDI note.
pub open spec fn key_view(key: Option<HexKey>) -> Option<(Seq<char>, u8)> {
    match key {
        Some(k) => Some((k.label@, k.note)),
        None => None,
    }
}

/// A Keyboard is responsible for labeling its keys and knowing what to do when a given key is
/// pressed. Keyboards map a hexagon address to a key.
pub trait Keyboard {
    /// The layout's arithmetic stays in range at `addr`.
    spec fn in_range(&self, addr: HexAddr) -> bool;

    /// The key at `addr`, as plain values, or `None` where the layout has no key.
    spec fn key_at(&self, addr: HexAddr) -> Option<(Seq<char>, u8)>;

    /// The key at `addr`: what it shows and which note it plays.
    fn get_key_info(&self, addr: HexAddr) -> (key: Option<HexKey>)
        requires
            self.in_range(addr),
        ensures
            key_view(key) == self.key_at(addr),
    ;

    /// Tells whether `get_key_info` can be called at `addr`.
    fn key_in_range(&self, addr: HexAddr) -> (ok: bool)
        ensures
            ok == self.in_range(addr),
    ;
}

/// Names of the twelve pitch classes, starting at C.
pub open spec fn pitch_names() -> Seq<Seq<char>> {
    seq!["C"@, "C#"@, "D"@, "Eb"@, "E"@, "F"@, "F#"@, "G"@, "G#"@, "A"@, "Bb"@, "B"@]
}

// ---------------------------------------------------------------------------------------------
// Jammer layout
// ---------------------------------------------------------------------------------------------

/// Labels of the even (lower) rows of a six-column key set.
pub open spec fn jammer_bottom_labels() -> Seq<Seq<char>> {
    seq!["Bb"@, "C"@, "D"@, "E"@, "F#"@, "G#"@]
}

/// Note offsets of the even (lower) rows of a six-column key set.
pub open spec fn jammer_bottom_steps() -> Seq<int> {
    seq![0, 2, 4, 6, 8, 10]
}

/// Labels of the odd (upper) rows of a six-column key set.
pub open spec fn jammer_top_labels() -> Seq<Seq<char>> {
    seq!["F"@, "G"@, "A"@, "B"@, "C#"@, "Eb"@]
}

/// Note offsets of the odd (upper) rows of a six-column key set.
pub open spec fn jammer_top_steps() -> Seq<int> {
    seq![7, 9, 11, 13, 15, 17]
}

/// Column of `addr` within its six-column key set.
pub open spec fn jammer_column(addr: HexAddr) -> int {
    trunc_rem(addr.x as int, 6)
}

/// Which six-column key set `addr` lies in.
pub open spec fn jammer_keyset(addr: HexAddr) -> int {
    trunc_div(addr.x as int, 6)
}

/// The value whose low byte is subtracted from 144 to give the octave base note.
pub open spec fn jammer_octave_offset(addr: HexAddr) -> int {
    12 + trunc_div(addr.y as int, 2) * 12 + 10 - jammer_keyset(addr) * 12
}

/// The base note of the octave that `addr` lies in.
pub open spec fn jammer_octave(addr: HexAddr) -> int {
    144 - jammer_octave_offset(addr) % 256
}

/// The MIDI note of the jammer key at `addr`.
pub open spec fn jammer_note(addr: HexAddr) -> int {
    if addr.y % 2 == 0 {
        jammer_octave(addr) + jammer_bottom_steps()[jammer_column(addr)] + 12
    } else {
        jammer_octave(addr) + jammer_top_steps()[jammer_column(addr)]
    }
}

/// The label of the jammer key at `addr`.
pub open spec fn jammer_label(addr: HexAddr) -> Seq<char> {
    if addr.y % 2 == 0 {
        jammer_bottom_labels()[jammer_column(addr)]
    } else {
        jammer_top_labels()[jammer_column(addr)]
    }
}

/// The jammer layout computes a key at `addr` with no machine arithmetic out of range.
pub open spec fn jammer_in_range(addr: HexAddr) -> bool {
    let half = trunc_div(addr.y as int, 2) * 12;
    &&& jammer_column(addr) >= 0
    &&& is_i16(half)
    &&& is_i16(12 + half)
    &&& is_i16(12 + half + 10)
    &&& is_i16(jammer_keyset(addr) * 12)
    &&& is_i16(jammer_octave_offset(addr))
    &&& jammer_octave_offset(addr) % 256 <= 144
    &&& jammer_note(addr) <= 255
}

/// A layout of six-column key sets: whole-tone rows alternate with whole-tone rows a fifth
/// higher, and each key set lies an octave above the one to its left.
pub struct JammerKeyboard {}

impl Keyboard for JammerKeyboard {
    open spec fn in_range(&self, addr: HexAddr) -> bool {
        jammer_in_range(addr)
    }

    open spec fn key_at(&self, addr: HexAddr) -> Option<(Seq<char>, u8)> {
        Some((jammer_label(addr), jammer_note(addr) as u8))
    }

    fn get_key_info(&self, addr: HexAddr) -> (key: Option<HexKey>) {
        let bottom_row = ["Bb", "C", "D", "E", "F#", "G#"];
        let bottom_row_num: [u8; 6] = [0, 2, 4, 6, 8, 10];
        let top_row = ["F", "G", "A", "B", "C#", "Eb"];
        let top_row_num: [u8; 6] = [7, 9, 11, 12 + 1, 12 + 3, 12 + 5];
        assert(addr.x / 6 == trunc_div(addr.x as int, 6));
        let x = (addr.x % 6) as usize;
        let keyset = addr.x / 6;
        let offset: i16 = 12 + addr.y / 2 * 12 + 10 - keyset * 12;
        proof {
            lemma_i16_as_u8(offset);
        }
        let octave = 144 - offset as u8;
        let (note, note_num) = match addr.y % 2 == 0 {
            true => (bottom_row[x].to_string(), octave + bottom_row_num[x] + 12),
            false => (top_row[x].to_string(), octave + top_row_num[x]),
        };
        Some(HexKey { label: note, note: note_num })
    }

    fn key_in_range(&self, addr: HexAddr) -> (ok: bool) {
        let bottom_row_num: [u8; 6] = [0, 2, 4, 6, 8, 10];
        let top_row_num: [u8; 6] = [7, 9, 11, 12 + 1, 12 + 3, 12 + 5];
        let column = addr.x % 6;
        if column < 0 {
            return false;
        }
        let keyset = (addr.x / 6) as i64;
        let half = (addr.y / 2) as i64 * 12;
        let offset = 12 + half + 10 - keyset * 12;
        if !(fits_i16(half) && fits_i16(12 + half) && fits_i16(12 + half + 10) && fits_i16(
            keyset * 12,
        ) && fits_i16(offset)) {
            return false;
        }
        let offset = offset as i16;
        proof {
            lemma_i16_as_u8(offset);
        }
        let low = offset as u8;
        if low > 144 {
            return false;
        }
        let octave = (144 - low) as u32;
        let note = if addr.y % 2 == 0 {
            octave + bottom_row_num[column as usize] as u32 + 12
        } else {
            octave + top_row_num[column as usize] as u32
        };
        note <= 255
    }
}

// ---------------------------------------------------------------------------------------------
// Harmonic table layout
// ---------------------------------------------------------------------------------------------

/// The note number of the harmonic-table key at `addr`, before it is checked and truncated.
pub open spec fn harmonic_note_number(addr: HexAddr) -> int {
    120 + addr.x - 3 * addr.y - trunc_div(addr.y as int, 2)
}

/// The harmonic layout computes the note number at `addr` with no machine arithmetic out of
/// range.
pub open spec fn harmonic_in_range(addr: HexAddr) -> bool {
    &&& is_i16(120 + addr.x)
    &&& is_i16(3 * addr.y)
    &&& is_i16(120 + addr.x - 3 * addr.y)
    &&& is_i16(harmonic_note_number(addr))
}

/// The harmonic-table key at `addr`: none below note number 0; otherwise the name of the note
/// number's pitch class and the note number's low byte.
pub open spec fn harmonic_key(addr: HexAddr) -> Option<(Seq<char>, u8)> {
    let n = harmonic_note_number(addr);
    if n < 0 {
        None
    } else {
        Some((pitch_names()[n % 12], (n % 256) as u8))
    }
}

/// The harmonic table: each column to the right is a semitone higher, and each half row
/// further down alternately drops by a minor and a major third, so that two half rows down is a
/// fifth lower.
pub struct HarmonicKeyboard {}

impl Keyboard for HarmonicKeyboard {
    open spec fn in_range(&self, addr: HexAddr) -> bool {
        harmonic_in_range(addr)
    }

    open spec fn key_at(&self, addr: HexAddr) -> Option<(Seq<char>, u8)> {
        harmonic_key(addr)
    }

    fn get_key_info(&self, addr: HexAddr) -> (key: Option<HexKey>) {
        let notes = ["C", "C#", "D", "Eb", "E", "F", "F#", "G", "G#", "A", "Bb", "B"];
        let note_num: i16 = 120 + addr.x - 3 * addr.y - addr.y / 2;
        if note_num < 0 {
            return None;
        }
        let note_label = note_num % 12;
        let note = notes[note_label as usize];
        proof {
            lemma_i16_as_u8(note_num);
        }
        Some(HexKey { label: note.to_string(), note: note_num as u8 })
    }

    fn key_in_range(&self, addr: HexAddr) -> (ok: bool) {
        let x = addr.x as i64;
        let y = addr.y as i64;
        fits_i16(120 + x) && fits_i16(3 * y) && fits_i16(120 + x - 3 * y) && fits_i16(
            120 + x - 3 * y - (addr.y / 2) as i64,
        )
    }
}

// ---------------------------------------------------------------------------------------------
// Laws of the layouts
// ---------------------------------------------------------------------------------------------

/// On the harmonic table, the key one column to the right plays the next semitone.
pub proof fn lemma_harmonic_step_right(addr: HexAddr)
    requires
        addr.x < i16::MAX,
        harmonic_key(addr) is Some,
    ensures
        ({
            let right = HexAddr { x: (addr.x + 1) as i16, y: addr.y };
            &&& harmonic_note_number(right) == harmonic_note_number(addr) + 1
            &&& harmonic_key(right) is Some
            &&& harmonic_key(right).unwrap().1 == (harmonic_key(addr).unwrap().1 + 1) % 256
        }),
{
    let n = harmonic_note_number(addr);
    vstd::arithmetic::div_mod::lemma_add_mod_noop(n, 1, 256);
}

/// On the harmonic table, the key two half rows further down the board plays a fifth (seven
/// semitones) lower. This fails only from half row -1 to half row 1, which share a
/// rounded-toward-zero half.
pub proof fn lemma_harmonic_two_rows_fifth_down(addr: HexAddr)
    requires
        addr.y <= i16::MAX - 2,
        addr.y != -1,
    ensures
        ({
            let next = HexAddr { x: addr.x, y: (addr.y + 2) as i16 };
            harmonic_note_number(next) == harmonic_note_number(addr) - 7
        }),
{
}

/// Where the note number fits in a byte, the harmonic key's label names the pitch class of the
/// MIDI note it plays.
pub proof fn lemma_harmonic_label_names_note(addr: HexAddr)
    requires
        0 <= harmonic_note_number(addr) <= 255,
    ensures
        harmonic_key(addr) is Some,
        harmonic_key(addr).unwrap().0 == pitch_names()[harmonic_key(addr).unwrap().1 as int % 12],
        harmonic_key(addr).unwrap().1 == harmonic_note_number(addr),
{
}

/// On the jammer layout, the key six columns to the right (the same column of the next key set)
/// has the same label and plays an octave higher.
pub proof fn lemma_jammer_next_keyset_octave_up(addr: HexAddr)
    requires
        addr.x <= i16::MAX - 6,
        jammer_in_range(addr),
        jammer_in_range(HexAddr { x: (addr.x + 6) as i16, y: addr.y }),
    ensures
        ({
            let next = HexAddr { x: (addr.x + 6) as i16, y: addr.y };
            &&& jammer_label(next) == jammer_label(addr)
            &&& jammer_note(next) == jammer_note(addr) + 12
        }),
{
    let next = HexAddr { x: (addr.x + 6) as i16, y: addr.y };
    let o = jammer_octave_offset(addr);
    assert(jammer_column(next) == jammer_column(addr));
    assert(jammer_keyset(next) == jammer_keyset(addr) + 1);
    assert(jammer_octave_offset(next) == o - 12);
    lemma_mod_shift_down(o);
    assert(jammer_octave(next) == jammer_octave(addr) + 12);
}

/// Lowering a value by 12 lowers its remainder modulo 256 by 12, unless it wraps past 144.
proof fn lemma_mod_shift_down(o: int)
    requires
        (o - 12) % 256 <= 144,
    ensures
        (o - 12) % 256 == o % 256 - 12,
{
    vstd::arithmetic::div_mod::lemma_add_mod_noop(o, -12, 256);
    assert((-12int) % 256 == 244);
}

/// On the jammer layout, the key two half rows further down the board has the same label and
/// plays an octave lower. This fails only from half row -1 to half row 1.
pub proof fn lemma_jammer_two_rows_octave_down(addr: HexAddr)
    requires
        addr.y <= i16::MAX - 2,
        addr.y != -1,
        jammer_in_range(addr),
    ensures
        ({
            let next = HexAddr { x: addr.x, y: (addr.y + 2) as i16 };
            &&& jammer_label(next) == jammer_label(addr)
            &&& jammer_note(next) == jammer_note(addr) - 12
        }),
{
    let next = HexAddr { x: addr.x, y: (addr.y + 2) as i16 };
    let o = jammer_octave_offset(addr);
    assert(trunc_div(next.y as int, 2) == trunc_div(addr.y as int, 2) + 1);
    assert(jammer_octave_offset(next) == o + 12);
    assert((o + 12) % 256 == o % 256 + 12);
    assert(next.y % 2 == addr.y % 2);
}

/// Where the octave offset lies in `0..256`, every jammer label names the pitch class four
/// semitones below the MIDI note that the key plays.
pub proof fn lemma_jammer_label_four_semitones_below(addr: HexAddr)
    requires
        jammer_in_range(addr),
        0 <= jammer_octave_offset(addr) < 256,
    ensures
        jammer_label(addr) == pitch_names()[(jammer_note(addr) + 8) % 12],
{
    let m = trunc_div(addr.y as int, 2) - jammer_keyset(addr);
    assert(jammer_octave_offset(addr) == 22 + 12 * m);
    assert(jammer_octave(addr) == 122 - 12 * m);
    let c = jammer_column(addr);
    assert(0 <= c < 6);
    if addr.y % 2 == 0 {
        assert((jammer_note(addr) + 8) % 12 == (142 + jammer_bottom_steps()[c]) % 12) by {
            assert(jammer_note(addr) + 8 == 142 + jammer_bottom_steps()[c] - 12 * m);
        }
    } else {
        assert((jammer_note(addr) + 8) % 12 == (130 + jammer_top_steps()[c]) % 12) by {
            assert(jammer_note(addr) + 8 == 130 + jammer_top_steps()[c] - 12 * m);
        }
    }
}

} // verus!
