//! Colouring keys by their place in the configured scale.
use vstd::prelude::*;
use crate::layout::Config;

verus! {

/// An RGBA colour.
#[derive(Clone, Copy, Debug, PartialEq, Eq, Structural)]
pub struct Color {
    pub r: u8,
    pub g: u8,
    pub b: u8,
    pub a: u8,
}

/// The colours the board is drawn with.
#[derive(Clone, Copy, Debug)]
pub struct ColorProfile {
    pub line_color: Color,
    pub root: Color,
    pub out_of_key: Color,
    pub in_key_and_penta: Color,
    pub in_key: Color,
    pub white: Color,
}

/// Colours of the twelve pitch classes, from C, in a major key on C.
pub open spec fn major_color_mask(colors: ColorProfile) -> Seq<Color> {
    seq![
        colors.root,
        colors.out_of_key,
        colors.in_key_and_penta,
        colors.out_of_key,
        colors.in_key_and_penta,
        colors.in_key,
        colors.out_of_key,
        colors.in_key_and_penta,
        colors.out_of_key,
        colors.in_key_and_penta,
        colors.out_of_key,
        colors.in_key,
    ]
}

/// Colours of the twelve pitch classes, from C, in a minor key on A.
pub open spec fn minor_color_mask(colors: ColorProfile) -> Seq<Color> {
    seq![
        colors.in_key_and_penta,
        colors.out_of_key,
        colors.in_key_and_penta,
        colors.out_of_key,
        colors.in_key_and_penta,
        colors.in_key,
        colors.out_of_key,
        colors.in_key_and_penta,
        colors.out_of_key,
        colors.root,
        colors.out_of_key,
        colors.in_key,
    ]
}

/// Where `note` lies in the scale: its distance in semitones above the root's pitch class,
/// reduced to an octave.
pub open spec fn scale_degree(root_note: u8, note: u8) -> int {
    (note as int - root_note as int) % 12
}

/// The colour of `note` under a profile, a mode and a root note (the root's pitch class, 0 for
/// C).
pub open spec fn note_color(colors: ColorProfile, is_major: bool, root_note: u8, note: u8) -> Color {
    let index = scale_degree(root_note, note);
    if is_major {
        major_color_mask(colors)[index]
    } else {
        minor_color_mask(colors)[index]
    }
}

/// The colour a key playing `note` is drawn with.
pub fn note_to_color(note: u8, config: &Config) -> (color: Color)
    ensures
        color == note_color(config.colors, config.is_major, config.root_note, note),
        color == color_mask(config.colors, config.is_major)[scale_degree(config.root_note, note)],
{
    let colors = &config.colors;
    let key = config.root_note;
    let major_color_mask = [
        colors.root,
        colors.out_of_key,
        colors.in_key_and_penta,
        colors.out_of_key,
        colors.in_key_and_penta,
        colors.in_key,
        colors.out_of_key,
        colors.in_key_and_penta,
        colors.out_of_key,
        colors.in_key_and_penta,
        colors.out_of_key,
        colors.in_key,
    ];
    let minor_color_mask = [
        colors.in_key_and_penta,
        colors.out_of_key,
        colors.in_key_and_penta,
        colors.out_of_key,
        colors.in_key_and_penta,
        colors.in_key,
        colors.out_of_key,
        colors.in_key_and_penta,
        colors.out_of_key,
        colors.root,
        colors.out_of_key,
        colors.in_key,
    ];
    let index = (note % 12 + 12 - key % 12) % 12;
    assert(index == scale_degree(key, note)) by {
        vstd::arithmetic::div_mod::lemma_fundamental_div_mod(note as int, 12);
        vstd::arithmetic::div_mod::lemma_fundamental_div_mod(key as int, 12);
        vstd::arithmetic::div_mod::lemma_fundamental_div_mod(note as int - key as int, 12);
        vstd::arithmetic::div_mod::lemma_fundamental_div_mod((note % 12 + 12 - key % 12) as int, 12);
    }
    if config.is_major {
        major_color_mask[index as usize]
    } else {
        minor_color_mask[index as usize]
    }
}

/// A key's colour repeats every octave: notes twelve semitones apart get the same colour.
pub proof fn lemma_color_repeats_each_octave(colors: ColorProfile, is_major: bool, root_note: u8, note: u8)
    requires
        note + 12 <= 255,
    ensures
        note_color(colors, is_major, root_note, (note + 12) as u8)
            == note_color(colors, is_major, root_note, note),
{
    vstd::arithmetic::div_mod::lemma_add_mod_noop(note as int - root_note as int, 12, 12);
}

/// The minor key colours the same pitch classes as its relative major, except that the root
/// colour moves from the major root to the sixth degree (C to A when the root note is C), and
/// the major root takes the colour that the sixth degree had.
pub proof fn lemma_minor_is_relative_major(colors: ColorProfile)
    ensures
        forall|i: int|
            0 <= i < 12 && i != 0 && i != 9 ==> #[trigger] minor_color_mask(colors)[i]
                == major_color_mask(colors)[i],
        minor_color_mask(colors)[9] == major_color_mask(colors)[0],
        minor_color_mask(colors)[0] == major_color_mask(colors)[9],
{
}

/// In a major key, the colour of a note follows its distance `d` in semitones above the root
/// (reduced to an octave): the root itself (d = 0) gets the root colour; the other notes of the
/// major pentatonic scale (d = 2, 4, 7, 9) are in key and pentatonic; the remaining notes of the
/// major scale (d = 5, 11) are in key; the five others are out of key.
pub proof fn lemma_major_scale_colors(colors: ColorProfile, root_note: u8, note: u8)
    ensures
        ({
            let d = (note as int - root_note as int) % 12;
            let c = note_color(colors, true, root_note, note);
            &&& d == 0 ==> c == colors.root
            &&& (d == 2 || d == 4 || d == 7 || d == 9) ==> c == colors.in_key_and_penta
            &&& (d == 5 || d == 11) ==> c == colors.in_key
            &&& (d == 1 || d == 3 || d == 6 || d == 8 || d == 10) ==> c == colors.out_of_key
        }),
{
}

/// In a minor key, counted from the root note of its relative major, the colour of a note
/// follows its distance `d` above that root: the minor root (d = 9) gets the root colour; the
/// other notes of the minor pentatonic scale (d = 0, 2, 4, 7) are in key and pentatonic; the
/// remaining notes of the natural minor scale (d = 5, 11) are in key; the five others are out
/// of key.
pub proof fn lemma_minor_scale_colors(colors: ColorProfile, root_note: u8, note: u8)
    ensures
        ({
            let d = (note as int - root_note as int) % 12;
            let c = note_color(colors, false, root_note, note);
            &&& d == 9 ==> c == colors.root
            &&& (d == 0 || d == 2 || d == 4 || d == 7) ==> c == colors.in_key_and_penta
            &&& (d == 5 || d == 11) ==> c == colors.in_key
            &&& (d == 1 || d == 3 || d == 6 || d == 8 || d == 10) ==> c == colors.out_of_key
        }),
{
}

/// The root colour differs from the other key colours.
pub open spec fn distinct_key_colors(colors: ColorProfile) -> bool {
    &&& colors.root != colors.out_of_key
    &&& colors.root != colors.in_key_and_penta
    &&& colors.root != colors.in_key
    &&& colors.out_of_key != colors.in_key_and_penta
    &&& colors.out_of_key != colors.in_key
    &&& colors.in_key_and_penta != colors.in_key
}

/// With distinct key colours, a note gets the root colour exactly when it has the root's pitch
/// class in a major key, and the pitch class nine semitones above the root in a minor key
/// (the relative minor's root).
pub proof fn lemma_root_color_marks_the_root(colors: ColorProfile, is_major: bool, root_note: u8, note: u8)
    requires
        distinct_key_colors(colors),
    ensures
        is_major ==> (note_color(colors, is_major, root_note, note) == colors.root <==> note % 12
            == root_note % 12),
        !is_major ==> (note_color(colors, is_major, root_note, note) == colors.root <==> note % 12
            == (root_note + 9) % 12),
{
    let d = scale_degree(root_note, note);
    vstd::arithmetic::div_mod::lemma_fundamental_div_mod(note as int, 12);
    vstd::arithmetic::div_mod::lemma_fundamental_div_mod(root_note as int, 12);
    vstd::arithmetic::div_mod::lemma_fundamental_div_mod(root_note as int + 9, 12);
    vstd::arithmetic::div_mod::lemma_fundamental_div_mod(note as int - root_note as int, 12);
    assert(0 <= d < 12);
}

/// How many entries of `s` are `c`.
pub open spec fn count_color(s: Seq<Color>, c: Color) -> nat
    decreases s.len(),
{
    if s.len() == 0 {
        0
    } else {
        count_color(s.drop_last(), c) + if s.last() == c {
            1nat
        } else {
            0nat
        }
    }
}

/// The colours of the twelve notes from `note` up.
pub open spec fn octave_colors(colors: ColorProfile, is_major: bool, root_note: u8, note: u8) -> Seq<Color> {
    Seq::new(12, |i: int| note_color(colors, is_major, root_note, (note + i) as u8))
}

/// Counting over a concatenation adds the counts.
proof fn lemma_count_color_add(a: Seq<Color>, b: Seq<Color>, c: Color)
    ensures
        count_color(a + b, c) == count_color(a, c) + count_color(b, c),
    decreases b.len(),
{
    if b.len() > 0 {
        assert((a + b).drop_last() =~= a + b.drop_last());
        lemma_count_color_add(a, b.drop_last(), c);
    } else {
        assert(a + b =~= a);
    }
}

/// The colour mask of a mode.
pub open spec fn color_mask(colors: ColorProfile, is_major: bool) -> Seq<Color> {
    if is_major {
        major_color_mask(colors)
    } else {
        minor_color_mask(colors)
    }
}

/// The twelve colours from any note up are the mode's mask rotated to start at that note's
/// scale degree.
proof fn lemma_octave_is_rotated_mask(colors: ColorProfile, is_major: bool, root_note: u8, note: u8)
    requires
        note <= 244,
    ensures
        ({
            let k = scale_degree(root_note, note);
            let mask = color_mask(colors, is_major);
            octave_colors(colors, is_major, root_note, note) == mask.subrange(k, 12) + mask.subrange(0, k)
        }),
{
    let k = scale_degree(root_note, note);
    let mask = color_mask(colors, is_major);
    let w = octave_colors(colors, is_major, root_note, note);
    assert forall|i: int| 0 <= i < 12 implies #[trigger] w[i] == (mask.subrange(k, 12) + mask.subrange(0, k))[i] by {
        vstd::arithmetic::div_mod::lemma_add_mod_noop(note as int - root_note as int, i, 12);
        assert(scale_degree(root_note, (note + i) as u8) == (k + i) % 12);
        if i < 12 - k {
            assert((k + i) % 12 == k + i);
        } else {
            assert((k + i) % 12 == k + i - 12);
        }
    }
    assert(w =~= mask.subrange(k, 12) + mask.subrange(0, k));
}

/// With distinct key colours, any twelve consecutive notes get the root colour once, the
/// in-key-and-pentatonic colour four times, the in-key colour twice and the out-of-key colour
/// five times, in either mode.
pub proof fn lemma_octave_color_counts(colors: ColorProfile, is_major: bool, root_note: u8, note: u8)
    requires
        note <= 244,
        distinct_key_colors(colors),
    ensures
        count_color(octave_colors(colors, is_major, root_note, note), colors.root) == 1,
        count_color(octave_colors(colors, is_major, root_note, note), colors.in_key_and_penta) == 4,
        count_color(octave_colors(colors, is_major, root_note, note), colors.in_key) == 2,
        count_color(octave_colors(colors, is_major, root_note, note), colors.out_of_key) == 5,
{
    let k = scale_degree(root_note, note);
    let mask = color_mask(colors, is_major);
    lemma_octave_is_rotated_mask(colors, is_major, root_note, note);
    assert(mask =~= mask.subrange(0, k) + mask.subrange(k, 12));
    lemma_count_color_add(mask.subrange(k, 12), mask.subrange(0, k), colors.root);
    lemma_count_color_add(mask.subrange(0, k), mask.subrange(k, 12), colors.root);
    lemma_count_color_add(mask.subrange(k, 12), mask.subrange(0, k), colors.in_key_and_penta);
    lemma_count_color_add(mask.subrange(0, k), mask.subrange(k, 12), colors.in_key_and_penta);
    lemma_count_color_add(mask.subrange(k, 12), mask.subrange(0, k), colors.in_key);
    lemma_count_color_add(mask.subrange(0, k), mask.subrange(k, 12), colors.in_key);
    lemma_count_color_add(mask.subrange(k, 12), mask.subrange(0, k), colors.out_of_key);
    lemma_count_color_add(mask.subrange(0, k), mask.subrange(k, 12), colors.out_of_key);
    lemma_mask_counts(colors, is_major);
}

/// The counts of each colour in a mode's mask, with distinct key colours.
proof fn lemma_mask_counts(colors: ColorProfile, is_major: bool)
    requires
        distinct_key_colors(colors),
    ensures
        count_color(color_mask(colors, is_major), colors.root) == 1,
        count_color(color_mask(colors, is_major), colors.in_key_and_penta) == 4,
        count_color(color_mask(colors, is_major), colors.in_key) == 2,
        count_color(color_mask(colors, is_major), colors.out_of_key) == 5,
{
    reveal_with_fuel(count_color, 13);
}

} // verus!
