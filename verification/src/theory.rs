//! Pitch and harmony resolution: scale interval patterns and the mapping
//! from scale degrees to semitone offsets.
//!
//! All pitch arithmetic in this crate is carried out in integer semitones
//! relative to A440; a pitch `s` semitones above the reference sounds at
//! `440 * 2^(s/12)` Hz. Only that final exponentiation is floating-point
//! work, and it is left to the embedding program.

use vstd::prelude::*;

verus! {

use crate::model::{
    accidental_offset,
    semitone_offset,
    Accidental,
    ABC,
    Harmony,
    Key,
    NotePitch,
    NotePitchEnum,
    Scale,
};

/// The ascending whole/half-step pattern of a scale, in semitones per step.
/// Each pattern has 7 entries and sums to 12 (one octave).
pub open spec fn spec_scale_ascending(scale: Scale) -> Seq<i8> {
    match scale {
        Scale::Major => seq![2i8, 2i8, 1i8, 2i8, 2i8, 2i8, 1i8],
        Scale::Minor => seq![2i8, 1i8, 2i8, 2i8, 1i8, 2i8, 2i8],
    }
}

pub fn scale_ascending(scale: Scale) -> (r: [i8; 7])
    ensures
        r@ == spec_scale_ascending(scale),
{
    let r: [i8; 7] = match scale {
        Scale::Major => [2, 2, 1, 2, 2, 2, 1],
        Scale::Minor => [2, 1, 2, 2, 1, 2, 2],
    };
    proof {
        assert(r@ =~= spec_scale_ascending(scale));
    }
    r
}

/// Semitone offset of a scale degree above the tonic: degree 1 is the tonic
/// itself, and each further degree adds the next entry of the scale's
/// interval pattern, cycling the pattern indefinitely.
pub open spec fn spec_scale_degree_to_semitones(scale: Scale, degree: int) -> int
    decreases degree,
{
    if degree <= 1 {
        0
    } else {
        spec_scale_degree_to_semitones(scale, degree - 1) + spec_scale_ascending(scale)[(degree
            - 2) % 7]
    }
}

/// Every interval pattern entry is 1 or 2, so the offset of degree `d >= 1`
/// lies between `d - 1` and `2 * (d - 1)` semitones.
pub proof fn lemma_semitone_bounds(scale: Scale, degree: int)
    requires
        degree >= 1,
    ensures
        degree - 1 <= spec_scale_degree_to_semitones(scale, degree) <= 2 * (degree - 1),
    decreases degree,
{
    if degree > 1 {
        lemma_semitone_bounds(scale, degree - 1);
        assert(1 <= spec_scale_ascending(scale)[(degree - 2) % 7] <= 2) by {
            assert(0 <= (degree - 2) % 7 < 7);
        }
    }
}

/// Maps a scale degree to its semitone offset above the tonic. Degree 0 does
/// not exist (degrees are 1-based), so callers must pass a positive degree.
pub fn scale_degree_to_semitones(scale: Scale, degree: u8) -> (r: i32)
    requires
        degree >= 1,
    ensures
        r == spec_scale_degree_to_semitones(scale, degree as int),
{
    let pattern = scale_ascending(scale);
    let mut acc: i32 = 0;
    let mut d: u8 = 1;
    while d < degree
        invariant
            1 <= d <= degree,
            acc == spec_scale_degree_to_semitones(scale, d as int),
            pattern@ == spec_scale_ascending(scale),
        decreases degree - d,
    {
        proof {
            lemma_semitone_bounds(scale, d as int);
            assert(0 <= ((d - 1) as int) % 7 < 7);
            assert((((d + 1) as int) - 2) % 7 == ((d - 1) as int) % 7);
        }
        let step = pattern[((d - 1) % 7) as usize];
        acc = acc + step as i32;
        d = d + 1;
    }
    acc
}

/// Semitone offset of a key's tonic from A440: the pitch-class offset
/// adjusted by the key's accidental.
pub open spec fn spec_tonic_semitones(key: Key) -> int {
    semitone_offset(key.abc) + accidental_offset(key.accidental)
}

fn abc_offset(abc: ABC) -> (r: i32)
    ensures
        r == semitone_offset(abc),
{
    match abc {
        ABC::A => 0,
        ABC::B => 2,
        ABC::C => 3,
        ABC::D => 5,
        ABC::E => 7,
        ABC::F => 8,
        ABC::G => 10,
    }
}

fn acc_offset(a: Accidental) -> (r: i32)
    ensures
        r == accidental_offset(a),
{
    match a {
        Accidental::Natural => 0,
        Accidental::Sharp => 1,
        Accidental::Flat => -1,
    }
}

/// Semitone offset of a key's tonic from A440.
pub fn tonic_semitones(key: Key) -> (r: i32)
    ensures
        r == spec_tonic_semitones(key),
        -1 <= r <= 11,
{
    abc_offset(key.abc) + acc_offset(key.accidental)
}

/// Semitone offset, from A440, of a note pitch resolved against a key and
/// scale: the tonic, plus the scale degree's offset, plus the pitch's own
/// accidental, plus 12 semitones per octave shifted.
pub open spec fn spec_pitch_semitones(key: Key, scale: Scale, p: NotePitch) -> int {
    spec_tonic_semitones(key) + spec_scale_degree_to_semitones(scale, p.degree() as int)
        + accidental_offset(p.accidental) + 12 * (p.octave as int)
}

pub fn pitch_semitones(key: Key, scale: Scale, p: NotePitch) -> (r: i32)
    requires
        p.degree() >= 1,
    ensures
        r == spec_pitch_semitones(key, scale, p),
        -1550 <= r <= 2100,
{
    proof {
        lemma_semitone_bounds(scale, p.degree() as int);
    }
    let NotePitchEnum::ScaleDegree(degree) = p.enum_;
    let base = tonic_semitones(key);
    let off = scale_degree_to_semitones(scale, degree);
    let acc = acc_offset(p.accidental);
    base + off + acc + 12 * (p.octave as i32)
}

/// One downward voicing rotation per count: the highest pitch of the stack
/// moves to the bottom, an octave (12 semitones) lower.
pub open spec fn spec_rotate_down(s: Seq<int>, k: nat) -> Seq<int>
    decreases k,
{
    if k == 0 || s.len() == 0 {
        s
    } else {
        spec_rotate_down(seq![s.last() - 12] + s.drop_last(), (k - 1) as nat)
    }
}

pub proof fn lemma_rotate_down_len(s: Seq<int>, k: nat)
    ensures
        spec_rotate_down(s, k).len() == s.len(),
    decreases k,
{
    if k > 0 && s.len() > 0 {
        lemma_rotate_down_len(seq![s.last() - 12] + s.drop_last(), (k - 1) as nat);
    }
}

/// The pitches of a chord, in semitones from A440. The root sits on the
/// harmony's scale degree of the ambient key and scale; the third, fifth and
/// optional seventh are stacked above it using the harmony's own quality;
/// then each unit of negative voicing shift rotates the stack downward.
pub open spec fn spec_chord_semitones(key: Key, scale: Scale, h: Harmony) -> Seq<int> {
    let base = spec_tonic_semitones(key) + spec_scale_degree_to_semitones(scale, h.degree as int);
    let third = base + spec_scale_degree_to_semitones(h.scale, 3);
    let fifth = base + spec_scale_degree_to_semitones(h.scale, 5);
    let seventh = base + spec_scale_degree_to_semitones(h.scale, 7);
    let stack = if h.add_7 {
        seq![base, third, fifth, seventh]
    } else {
        seq![base, third, fifth]
    };
    let turns = if h.shift < 0 {
        (-(h.shift as int)) as nat
    } else {
        0
    };
    spec_rotate_down(stack, turns)
}

/// Builds a chord's pitch stack.
pub fn chord_semitones(key: Key, scale: Scale, h: Harmony) -> (r: Vec<i32>)
    requires
        h.degree >= 1,
    ensures
        r@.map_values(|x: i32| x as int) == spec_chord_semitones(key, scale, h),
        r@.len() == if h.add_7 {
            4int
        } else {
            3int
        },
{
    proof {
        lemma_semitone_bounds(scale, h.degree as int);
        lemma_semitone_bounds(h.scale, 3);
        lemma_semitone_bounds(h.scale, 5);
        lemma_semitone_bounds(h.scale, 7);
    }
    let base = tonic_semitones(key) + scale_degree_to_semitones(scale, h.degree);
    let third = base + scale_degree_to_semitones(h.scale, 3);
    let fifth = base + scale_degree_to_semitones(h.scale, 5);
    let mut stack: Vec<i32> = Vec::new();
    stack.push(base);
    stack.push(third);
    stack.push(fifth);
    if h.add_7 {
        let seventh = base + scale_degree_to_semitones(h.scale, 7);
        stack.push(seventh);
    }
    let ghost stack0 = stack@.map_values(|x: i32| x as int);
    proof {
        if h.add_7 {
            assert(stack0 =~= seq![base as int, third as int, fifth as int, (base as int
                + spec_scale_degree_to_semitones(h.scale, 7))]);
        } else {
            assert(stack0 =~= seq![base as int, third as int, fifth as int]);
        }
    }
    let turns: i32 = if h.shift < 0 {
        -(h.shift as i32)
    } else {
        0
    };
    let mut j: i32 = 0;
    while j < turns
        invariant
            0 <= j <= turns <= 128,
            stack@.len() == stack0.len() == if h.add_7 {
                4int
            } else {
                3int
            },
            stack@.map_values(|x: i32| x as int) == spec_rotate_down(stack0, j as nat),
            forall|i: int|
                0 <= i < stack@.len() ==> -550 - 12 * j <= #[trigger] stack@[i] <= 550,
        decreases turns - j,
    {
        proof {
            lemma_rotate_down_len(stack0, j as nat);
        }
        let ghost pre = stack@;
        let last = stack.pop().unwrap();
        stack.insert(0, last - 12);
        proof {
            let f = |x: i32| x as int;
            let rot_j = spec_rotate_down(stack0, j as nat);
            assert(pre.map_values(f) == rot_j);
            assert(stack@ =~= seq![(last - 12) as i32] + pre.drop_last());
            lemma_rotate_down_step(stack0, j as nat);
            assert(rot_j.last() == pre.map_values(f).last());
            assert(stack@.map_values(f) =~= seq![rot_j.last() - 12] + rot_j.drop_last());
            assert(stack@.map_values(f) == spec_rotate_down(stack0, (j + 1) as nat));
        }
        j = j + 1;
    }
    proof {
        if !(h.shift < 0) {
            assert(stack@.map_values(|x: i32| x as int) == spec_chord_semitones(key, scale, h));
        }
        lemma_rotate_down_len(stack0, (if h.shift < 0 {
            (-(h.shift as int)) as nat
        } else {
            0nat
        }));
    }
    stack
}

/// Rotating `k + 1` times is rotating `k` times, then once more.
proof fn lemma_rotate_down_step(s: Seq<int>, k: nat)
    requires
        s.len() > 0,
    ensures
        spec_rotate_down(s, k + 1) == seq![spec_rotate_down(s, k).last() - 12]
            + spec_rotate_down(s, k).drop_last(),
    decreases k,
{
    lemma_rotate_down_len(s, k);
    let s1 = seq![s.last() - 12] + s.drop_last();
    assert(s1.len() == s.len());
    assert(spec_rotate_down(s, k + 1) == spec_rotate_down(s1, k));
    if k > 0 {
        lemma_rotate_down_step(s1, (k - 1) as nat);
        assert(spec_rotate_down(s, k) == spec_rotate_down(s1, (k - 1) as nat));
    } else {
        assert(spec_rotate_down(s1, 0) == s1);
        assert(spec_rotate_down(s, 0) == s);
    }
}

/// Octave periodicity: seven degrees up is one octave (12 semitones) up,
/// whatever the scale and wherever in the scale the walk starts.
pub proof fn lemma_octave_periodicity(scale: Scale, degree: int)
    requires
        degree >= 1,
    ensures
        spec_scale_degree_to_semitones(scale, degree + 7) == spec_scale_degree_to_semitones(
            scale,
            degree,
        ) + 12,
    decreases degree,
{
    if degree == 1 {
        let pat = spec_scale_ascending(scale);
        assert(spec_scale_degree_to_semitones(scale, 1) == 0);
        assert(spec_scale_degree_to_semitones(scale, 2) == pat[0]);
        assert(spec_scale_degree_to_semitones(scale, 3) == spec_scale_degree_to_semitones(scale, 2)
            + pat[1]);
        assert(spec_scale_degree_to_semitones(scale, 4) == spec_scale_degree_to_semitones(scale, 3)
            + pat[2]);
        assert(spec_scale_degree_to_semitones(scale, 5) == spec_scale_degree_to_semitones(scale, 4)
            + pat[3]);
        assert(spec_scale_degree_to_semitones(scale, 6) == spec_scale_degree_to_semitones(scale, 5)
            + pat[4]);
        assert(spec_scale_degree_to_semitones(scale, 7) == spec_scale_degree_to_semitones(scale, 6)
            + pat[5]);
        assert(spec_scale_degree_to_semitones(scale, 8) == spec_scale_degree_to_semitones(scale, 7)
            + pat[6]);
        match scale {
            Scale::Major => {
                assert(pat[0] + pat[1] + pat[2] + pat[3] + pat[4] + pat[5] + pat[6] == 12);
            },
            Scale::Minor => {
                assert(pat[0] + pat[1] + pat[2] + pat[3] + pat[4] + pat[5] + pat[6] == 12);
            },
        }
    } else {
        lemma_octave_periodicity(scale, degree - 1);
        assert(((degree + 7) - 2) % 7 == (degree - 2) % 7) by {
            vstd::arithmetic::div_mod::lemma_mod_add_multiples_vanish(degree - 2, 7);
        }
    }
}

} // verus!
