//! Built-in example pieces, written out as instruction lists.

use vstd::prelude::*;

verus! {

use crate::model::{
    Accidental,
    ABC,
    Duration,
    Harmony,
    Instruction,
    Key,
    Note,
    NotePitch,
    NotePitchEnum,
    Scale,
};

/// A note instruction without ties: duration fraction, scale degree, octave
/// shift and accidental.
pub open spec fn sp_note_instr(
    num: u8,
    den: u8,
    degree: u8,
    octave: i8,
    acc: Accidental,
) -> Instruction {
    Instruction::PlayNote(
        Note {
            duration: Duration { numerator: num, denominator: den },
            pitch: NotePitch { enum_: NotePitchEnum::ScaleDegree(degree), octave, accidental: acc },
            ties_to_next: false,
            ties_to_prev: false,
        },
    )
}

/// A note instruction with tie flags.
pub open spec fn sp_tied_note_instr(
    num: u8,
    den: u8,
    degree: u8,
    octave: i8,
    acc: Accidental,
    ties_to_prev: bool,
    ties_to_next: bool,
) -> Instruction {
    Instruction::PlayNote(
        Note {
            duration: Duration { numerator: num, denominator: den },
            pitch: NotePitch { enum_: NotePitchEnum::ScaleDegree(degree), octave, accidental: acc },
            ties_to_next,
            ties_to_prev,
        },
    )
}

/// A harmony marker instruction with no voicing shift.
pub open spec fn sp_harmony_instr(scale: Scale, degree: u8, add_7: bool) -> Instruction {
    Instruction::SetHarmony(Harmony { scale, degree, add_7, shift: 0 })
}

fn note_instr(num: u8, den: u8, degree: u8, octave: i8, acc: Accidental) -> (r: Instruction)
    ensures
        r == sp_note_instr(num, den, degree, octave, acc),
{
    Instruction::PlayNote(
        Note {
            duration: Duration { numerator: num, denominator: den },
            pitch: NotePitch { enum_: NotePitchEnum::ScaleDegree(degree), octave, accidental: acc },
            ties_to_next: false,
            ties_to_prev: false,
        },
    )
}

fn tied_note_instr(
    num: u8,
    den: u8,
    degree: u8,
    octave: i8,
    acc: Accidental,
    ties_to_prev: bool,
    ties_to_next: bool,
) -> (r: Instruction)
    ensures
        r == sp_tied_note_instr(num, den, degree, octave, acc, ties_to_prev, ties_to_next),
{
    Instruction::PlayNote(
        Note {
            duration: Duration { numerator: num, denominator: den },
            pitch: NotePitch { enum_: NotePitchEnum::ScaleDegree(degree), octave, accidental: acc },
            ties_to_next,
            ties_to_prev,
        },
    )
}

fn harmony_instr(scale: Scale, degree: u8, add_7: bool) -> (r: Instruction)
    ensures
        r == sp_harmony_instr(scale, degree, add_7),
{
    Instruction::SetHarmony(Harmony { scale, degree, add_7, shift: 0 })
}

/// The piece `fairy`: 90 beats per minute in G minor, thirty-two
/// quarter notes.
pub open spec fn spec_fairy() -> Seq<Instruction> {
    seq![
        Instruction::SetBPM(90),
        Instruction::SetKey(Key { abc: ABC::G, accidental: Accidental::Natural }),
        Instruction::SetScale(Scale::Minor),
        sp_note_instr(1, 1, 2, 0, Accidental::Natural),
        sp_note_instr(1, 1, 1, 0, Accidental::Natural),
        sp_note_instr(1, 1, 1, -1i8, Accidental::Sharp),
        sp_note_instr(1, 1, 1, 0, Accidental::Natural),
        sp_note_instr(1, 1, 1, 0, Accidental::Natural),
        sp_note_instr(1, 1, 1, -1i8, Accidental::Natural),
        sp_note_instr(1, 1, 2, -1i8, Accidental::Natural),
        sp_note_instr(1, 1, 1, -1i8, Accidental::Natural),
        sp_note_instr(1, 1, 1, -1i8, Accidental::Natural),
        sp_note_instr(1, 1, 2, -1i8, Accidental::Natural),
        sp_note_instr(1, 1, 3, -1i8, Accidental::Sharp),
        sp_note_instr(1, 1, 2, -1i8, Accidental::Natural),
        sp_note_instr(1, 1, 2, -1i8, Accidental::Natural),
        sp_note_instr(1, 1, 3, -1i8, Accidental::Natural),
        sp_note_instr(1, 1, 4, -1i8, Accidental::Sharp),
        sp_note_instr(1, 1, 3, -1i8, Accidental::Natural),
        sp_note_instr(1, 1, 2, 0, Accidental::Natural),
        sp_note_instr(1, 1, 1, 0, Accidental::Natural),
        sp_note_instr(1, 1, 1, -1i8, Accidental::Sharp),
        sp_note_instr(1, 1, 1, 0, Accidental::Natural),
        sp_note_instr(1, 1, 3, 0, Accidental::Natural),
        sp_note_instr(1, 1, 2, 0, Accidental::Natural),
        sp_note_instr(1, 1, 1, 0, Accidental::Sharp),
        sp_note_instr(1, 1, 2, 0, Accidental::Natural),
        sp_note_instr(1, 1, 4, 0, Accidental::Natural),
        sp_note_instr(1, 1, 3, 0, Accidental::Natural),
        sp_note_instr(1, 1, 2, 0, Accidental::Natural),
        sp_note_instr(1, 1, 3, 0, Accidental::Natural),
        sp_note_instr(1, 1, 2, 0, Accidental::Natural),
        sp_note_instr(1, 1, 1, 0, Accidental::Natural),
        sp_note_instr(1, 1, 1, -1i8, Accidental::Natural),
        sp_note_instr(1, 1, 2, -1i8, Accidental::Natural),
    ]
}

pub fn fairy() -> (r: Vec<Instruction>)
    ensures
        r@ == spec_fairy(),
{
    let mut v: Vec<Instruction> = Vec::new();
    v.push(Instruction::SetBPM(90));
    v.push(Instruction::SetKey(Key { abc: ABC::G, accidental: Accidental::Natural }));
    v.push(Instruction::SetScale(Scale::Minor));
    v.push(note_instr(1, 1, 2, 0, Accidental::Natural));
    v.push(note_instr(1, 1, 1, 0, Accidental::Natural));
    v.push(note_instr(1, 1, 1, -1i8, Accidental::Sharp));
    v.push(note_instr(1, 1, 1, 0, Accidental::Natural));
    v.push(note_instr(1, 1, 1, 0, Accidental::Natural));
    v.push(note_instr(1, 1, 1, -1i8, Accidental::Natural));
    v.push(note_instr(1, 1, 2, -1i8, Accidental::Natural));
    v.push(note_instr(1, 1, 1, -1i8, Accidental::Natural));
    v.push(note_instr(1, 1, 1, -1i8, Accidental::Natural));
    v.push(note_instr(1, 1, 2, -1i8, Accidental::Natural));
    v.push(note_instr(1, 1, 3, -1i8, Accidental::Sharp));
    v.push(note_instr(1, 1, 2, -1i8, Accidental::Natural));
    v.push(note_instr(1, 1, 2, -1i8, Accidental::Natural));
    v.push(note_instr(1, 1, 3, -1i8, Accidental::Natural));
    v.push(note_instr(1, 1, 4, -1i8, Accidental::Sharp));
    v.push(note_instr(1, 1, 3, -1i8, Accidental::Natural));
    v.push(note_instr(1, 1, 2, 0, Accidental::Natural));
    v.push(note_instr(1, 1, 1, 0, Accidental::Natural));
    v.push(note_instr(1, 1, 1, -1i8, Accidental::Sharp));
    v.push(note_instr(1, 1, 1, 0, Accidental::Natural));
    v.push(note_instr(1, 1, 3, 0, Accidental::Natural));
    v.push(note_instr(1, 1, 2, 0, Accidental::Natural));
    v.push(note_instr(1, 1, 1, 0, Accidental::Sharp));
    v.push(note_instr(1, 1, 2, 0, Accidental::Natural));
    v.push(note_instr(1, 1, 4, 0, Accidental::Natural));
    v.push(note_instr(1, 1, 3, 0, Accidental::Natural));
    v.push(note_instr(1, 1, 2, 0, Accidental::Natural));
    v.push(note_instr(1, 1, 3, 0, Accidental::Natural));
    v.push(note_instr(1, 1, 2, 0, Accidental::Natural));
    v.push(note_instr(1, 1, 1, 0, Accidental::Natural));
    v.push(note_instr(1, 1, 1, -1i8, Accidental::Natural));
    v.push(note_instr(1, 1, 2, -1i8, Accidental::Natural));
    proof {
        assert(v@ =~= spec_fairy());
    }
    v
}

/// The piece `kalm`: 70 beats per minute in E minor, with harmony markers
/// and dotted, halved and tied notes.
pub open spec fn spec_kalm() -> Seq<Instruction> {
    seq![
        Instruction::SetBPM(70),
        Instruction::SetKey(Key { abc: ABC::E, accidental: Accidental::Natural }),
        Instruction::SetScale(Scale::Minor),
        sp_harmony_instr(Scale::Major, 3, false),
        sp_note_instr(1, 2, 4, 0, Accidental::Natural),
        sp_note_instr(1, 2, 3, 0, Accidental::Natural),
        sp_note_instr(1, 2, 2, 0, Accidental::Natural),
        sp_note_instr(1, 2, 3, 0, Accidental::Natural),
        sp_note_instr(1, 1, 4, 0, Accidental::Natural),
        sp_note_instr(1, 2, 5, -1i8, Accidental::Natural),
        sp_note_instr(1, 2, 7, -1i8, Accidental::Natural),
        sp_harmony_instr(Scale::Minor, 1, false),
        sp_note_instr(1, 2, 2, 0, Accidental::Natural),
        sp_note_instr(1, 2, 1, 0, Accidental::Natural),
        sp_note_instr(6, 2, 1, 0, Accidental::Natural),
        sp_harmony_instr(Scale::Minor, 4, false),
        sp_note_instr(1, 2, 1, 0, Accidental::Natural),
        sp_note_instr(1, 2, 5, 0, Accidental::Natural),
        sp_note_instr(1, 2, 4, 0, Accidental::Natural),
        sp_note_instr(1, 2, 3, 0, Accidental::Natural),
        sp_harmony_instr(Scale::Major, 7, false),
        sp_note_instr(3, 2, 4, 0, Accidental::Natural),
        sp_note_instr(1, 4, 5, 0, Accidental::Natural),
        sp_note_instr(1, 4, 6, 0, Accidental::Sharp),
        sp_harmony_instr(Scale::Minor, 5, false),
        sp_note_instr(1, 2, 7, 0, Accidental::Natural),
        sp_note_instr(1, 2, 5, 0, Accidental::Natural),
        sp_note_instr(6, 2, 5, 0, Accidental::Natural),
        sp_harmony_instr(Scale::Major, 6, false),
        sp_note_instr(1, 2, 5, 0, Accidental::Natural),
        sp_note_instr(1, 2, 6, 0, Accidental::Natural),
        sp_note_instr(1, 2, 5, 0, Accidental::Natural),
        sp_note_instr(1, 2, 4, 0, Accidental::Natural),
        sp_harmony_instr(Scale::Minor, 6, true),
        sp_note_instr(3, 2, 3, 0, Accidental::Natural),
        sp_note_instr(1, 2, 4, 0, Accidental::Natural),
        sp_harmony_instr(Scale::Major, 3, false),
        sp_note_instr(1, 2, 5, 0, Accidental::Natural),
        sp_note_instr(1, 2, 5, -1i8, Accidental::Natural),
        sp_note_instr(1, 2, 6, -1i8, Accidental::Natural),
        sp_note_instr(1, 2, 7, -1i8, Accidental::Natural),
        sp_harmony_instr(Scale::Minor, 1, false),
        sp_note_instr(1, 2, 2, 0, Accidental::Natural),
        sp_note_instr(1, 2, 1, 0, Accidental::Natural),
        sp_tied_note_instr(1, 1, 1, 0, Accidental::Natural, false, true),
        sp_harmony_instr(Scale::Minor, 4, false),
        sp_tied_note_instr(1, 2, 1, 0, Accidental::Natural, true, false),
        sp_note_instr(1, 2, 1, 0, Accidental::Natural),
        sp_note_instr(1, 2, 2, 0, Accidental::Natural),
        sp_note_instr(1, 2, 3, 0, Accidental::Natural),
        sp_note_instr(6, 2, 4, 0, Accidental::Natural),
        sp_harmony_instr(Scale::Minor, 1, false),
        sp_note_instr(1, 2, 3, 0, Accidental::Natural),
        sp_note_instr(1, 2, 4, 0, Accidental::Natural),
        sp_note_instr(1, 2, 5, 0, Accidental::Natural),
        sp_harmony_instr(Scale::Major, 7, true),
        sp_note_instr(6, 2, 6, 0, Accidental::Natural),
    ]
}

#[verifier::rlimit(100)]
pub fn kalm() -> (r: Vec<Instruction>)
    ensures
        r@ == spec_kalm(),
{
    let mut v: Vec<Instruction> = Vec::new();
    v.push(Instruction::SetBPM(70));
    v.push(Instruction::SetKey(Key { abc: ABC::E, accidental: Accidental::Natural }));
    v.push(Instruction::SetScale(Scale::Minor));
    v.push(harmony_instr(Scale::Major, 3, false));
    v.push(note_instr(1, 2, 4, 0, Accidental::Natural));
    v.push(note_instr(1, 2, 3, 0, Accidental::Natural));
    v.push(note_instr(1, 2, 2, 0, Accidental::Natural));
    v.push(note_instr(1, 2, 3, 0, Accidental::Natural));
    v.push(note_instr(1, 1, 4, 0, Accidental::Natural));
    v.push(note_instr(1, 2, 5, -1i8, Accidental::Natural));
    v.push(note_instr(1, 2, 7, -1i8, Accidental::Natural));
    v.push(harmony_instr(Scale::Minor, 1, false));
    v.push(note_instr(1, 2, 2, 0, Accidental::Natural));
    v.push(note_instr(1, 2, 1, 0, Accidental::Natural));
    v.push(note_instr(6, 2, 1, 0, Accidental::Natural));
    v.push(harmony_instr(Scale::Minor, 4, false));
    v.push(note_instr(1, 2, 1, 0, Accidental::Natural));
    v.push(note_instr(1, 2, 5, 0, Accidental::Natural));
    v.push(note_instr(1, 2, 4, 0, Accidental::Natural));
    v.push(note_instr(1, 2, 3, 0, Accidental::Natural));
    v.push(harmony_instr(Scale::Major, 7, false));
    v.push(note_instr(3, 2, 4, 0, Accidental::Natural));
    v.push(note_instr(1, 4, 5, 0, Accidental::Natural));
    v.push(note_instr(1, 4, 6, 0, Accidental::Sharp));
    v.push(harmony_instr(Scale::Minor, 5, false));
    v.push(note_instr(1, 2, 7, 0, Accidental::Natural));
    v.push(note_instr(1, 2, 5, 0, Accidental::Natural));
    v.push(note_instr(6, 2, 5, 0, Accidental::Natural));
    v.push(harmony_instr(Scale::Major, 6, false));
    v.push(note_instr(1, 2, 5, 0, Accidental::Natural));
    v.push(note_instr(1, 2, 6, 0, Accidental::Natural));
    v.push(note_instr(1, 2, 5, 0, Accidental::Natural));
    v.push(note_instr(1, 2, 4, 0, Accidental::Natural));
    v.push(harmony_instr(Scale::Minor, 6, true));
    v.push(note_instr(3, 2, 3, 0, Accidental::Natural));
    v.push(note_instr(1, 2, 4, 0, Accidental::Natural));
    v.push(harmony_instr(Scale::Major, 3, false));
    v.push(note_instr(1, 2, 5, 0, Accidental::Natural));
    v.push(note_instr(1, 2, 5, -1i8, Accidental::Natural));
    v.push(note_instr(1, 2, 6, -1i8, Accidental::Natural));
    v.push(note_instr(1, 2, 7, -1i8, Accidental::Natural));
    v.push(harmony_instr(Scale::Minor, 1, false));
    v.push(note_instr(1, 2, 2, 0, Accidental::Natural));
    v.push(note_instr(1, 2, 1, 0, Accidental::Natural));
    v.push(tied_note_instr(1, 1, 1, 0, Accidental::Natural, false, true));
    v.push(harmony_instr(Scale::Minor, 4, false));
    v.push(tied_note_instr(1, 2, 1, 0, Accidental::Natural, true, false));
    v.push(note_instr(1, 2, 1, 0, Accidental::Natural));
    v.push(note_instr(1, 2, 2, 0, Accidental::Natural));
    v.push(note_instr(1, 2, 3, 0, Accidental::Natural));
    v.push(note_instr(6, 2, 4, 0, Accidental::Natural));
    v.push(harmony_instr(Scale::Minor, 1, false));
    v.push(note_instr(1, 2, 3, 0, Accidental::Natural));
    v.push(note_instr(1, 2, 4, 0, Accidental::Natural));
    v.push(note_instr(1, 2, 5, 0, Accidental::Natural));
    v.push(harmony_instr(Scale::Major, 7, true));
    v.push(note_instr(6, 2, 6, 0, Accidental::Natural));
    proof {
        assert(v@ =~= spec_kalm());
    }
    v
}

} // verus!
