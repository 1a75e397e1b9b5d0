//! The instruction vocabulary: pitch classes, accidentals, keys, scales,
//! durations, notes, harmonies and the instructions built from them.
//! Pure data with construction rules; all behaviour lives elsewhere.

use vstd::prelude::*;

verus! {

use vstd::string::StringSliceAdditionalSpecFns;

/// The seven pitch-class letters. Their semitone offsets from A are given by
/// [`semitone_offset`].
#[derive(Clone, Copy, PartialEq, Eq, Structural, Debug)]
pub enum ABC {
    A,
    B,
    C,
    D,
    E,
    F,
    G,
}

/// Semitone offset of a pitch-class letter from A (A=0, B=2, C=3, D=5, E=7,
/// F=8, G=10).
pub open spec fn semitone_offset(abc: ABC) -> int {
    match abc {
        ABC::A => 0,
        ABC::B => 2,
        ABC::C => 3,
        ABC::D => 5,
        ABC::E => 7,
        ABC::F => 8,
        ABC::G => 10,
    }
}

/// A semitone adjustment applied to a pitch class or scale degree.
#[derive(Clone, Copy, PartialEq, Eq, Structural, Debug)]
pub enum Accidental {
    Natural,
    Sharp,
    Flat,
}

/// Semitone adjustment of an accidental (Natural=0, Sharp=+1, Flat=-1).
pub open spec fn accidental_offset(a: Accidental) -> int {
    match a {
        Accidental::Natural => 0,
        Accidental::Sharp => 1,
        Accidental::Flat => -1,
    }
}

/// The tonic against which all scale degrees are measured.
#[derive(Clone, Copy, PartialEq, Eq, Structural, Debug)]
pub struct Key {
    pub abc: ABC,
    pub accidental: Accidental,
}

/// The two scale qualities, each with a 7-step ascending interval pattern.
#[derive(Clone, Copy, PartialEq, Eq, Structural, Debug)]
pub enum Scale {
    Major,
    Minor,
}

/// A note length as a fraction of one quarter-note beat.
#[derive(Clone, Copy, PartialEq, Eq, Structural, Debug)]
pub struct Duration {
    pub numerator: u8,
    pub denominator: u8,
}

impl Duration {
    pub fn new(numerator: u8, denominator: u8) -> (r: Self)
        ensures
            r.numerator == numerator,
            r.denominator == denominator,
    {
        Self { numerator, denominator }
    }
}

/// What a note's pitch is relative to: currently always a scale degree of the
/// ambient key and scale (1-based; degree 0 is invalid).
#[derive(Clone, Copy, PartialEq, Eq, Structural, Debug)]
pub enum NotePitchEnum {
    ScaleDegree(u8),
}

/// A pitch given as a scale degree, an octave shift and an accidental.
#[derive(Clone, Copy, PartialEq, Eq, Structural, Debug)]
pub struct NotePitch {
    pub enum_: NotePitchEnum,
    pub octave: i8,
    pub accidental: Accidental,
}

impl NotePitch {
    /// The scale degree this pitch names.
    pub open spec fn degree(self) -> u8 {
        match self.enum_ {
            NotePitchEnum::ScaleDegree(d) => d,
        }
    }
}

/// A melody note: duration, pitch and advisory tie flags. The tie flags are
/// recorded but the renderer still re-triggers an envelope per note.
#[derive(Clone, Copy, PartialEq, Eq, Structural, Debug)]
pub struct Note {
    pub duration: Duration,
    pub pitch: NotePitch,
    pub ties_to_next: bool,
    pub ties_to_prev: bool,
}

/// A chord marker: quality, root scale degree (1..7), optional seventh, and
/// an octave voicing shift (negative values lower the top of the stack).
#[derive(Clone, Copy, PartialEq, Eq, Structural, Debug)]
pub struct Harmony {
    pub scale: Scale,
    pub degree: u8,
    pub add_7: bool,
    pub shift: i8,
}

/// ASCII lower-casing of one byte; other bytes are unchanged.
pub open spec fn ascii_lower(b: u8) -> u8 {
    if ('A' as u8) <= b && b <= ('Z' as u8) {
        (b + 32) as u8
    } else {
        b
    }
}

/// The degree named by a Roman-numeral token, compared case-insensitively:
/// i..vii name degrees 1..7. Any other byte sequence names none.
pub open spec fn roman_degree(s: Seq<u8>) -> Option<u8> {
    if s.len() == 1 && ascii_lower(s[0]) == ('i' as u8) {
        Some(1u8)
    } else if s.len() == 2 && ascii_lower(s[0]) == ('i' as u8) && ascii_lower(s[1]) == ('i' as u8) {
        Some(2u8)
    } else if s.len() == 3 && ascii_lower(s[0]) == ('i' as u8) && ascii_lower(s[1]) == ('i' as u8)
        && ascii_lower(s[2]) == ('i' as u8) {
        Some(3u8)
    } else if s.len() == 2 && ascii_lower(s[0]) == ('i' as u8) && ascii_lower(s[1]) == ('v' as u8) {
        Some(4u8)
    } else if s.len() == 1 && ascii_lower(s[0]) == ('v' as u8) {
        Some(5u8)
    } else if s.len() == 2 && ascii_lower(s[0]) == ('v' as u8) && ascii_lower(s[1]) == ('i' as u8) {
        Some(6u8)
    } else if s.len() == 3 && ascii_lower(s[0]) == ('v' as u8) && ascii_lower(s[1]) == ('i' as u8)
        && ascii_lower(s[2]) == ('i' as u8) {
        Some(7u8)
    } else {
        None
    }
}

/// The harmony denoted by a textual Roman-numeral token: an optional trailing
/// `7` sets the seventh flag, the numeral (case-insensitive) gives the degree,
/// and an upper-case first letter selects the Major quality. The voicing
/// shift of a bare token is 0. Tokens of any other shape denote no harmony.
pub open spec fn spec_harmony_token(s: Seq<u8>) -> Option<Harmony> {
    let add_7 = s.len() > 0 && s[s.len() - 1] == ('7' as u8);
    let core = if add_7 {
        s.drop_last()
    } else {
        s
    };
    if core.len() == 0 {
        None
    } else {
        match roman_degree(core) {
            None => None,
            Some(degree) => Some(
                Harmony {
                    scale: if ('A' as u8) <= core[0] && core[0] <= ('Z' as u8) {
                        Scale::Major
                    } else {
                        Scale::Minor
                    },
                    degree,
                    add_7,
                    shift: 0,
                },
            ),
        }
    }
}

impl Harmony {
    /// Builds the harmony a Roman-numeral token denotes. The token must be a
    /// valid numeral (`i`..`vii`, any case, optionally followed by `7`).
    pub fn parse(s: &str) -> (r: Self)
        requires
            spec_harmony_token(s.spec_bytes()) is Some,
        ensures
            Some(r) == spec_harmony_token(s.spec_bytes()),
    {
        let b = s.as_bytes();
        let n = b.len();
        let add_7 = n > 0 && b[n - 1] == ('7' as u8);
        let clen = if add_7 {
            n - 1
        } else {
            n
        };
        proof {
            let core = if add_7 {
                s.spec_bytes().drop_last()
            } else {
                s.spec_bytes()
            };
            assert(core.len() == clen);
            assert(roman_degree(core) is Some);
            assert(forall|k: int| 0 <= k < clen ==> core[k] == b@[k]);
        }
        let c0 = lower_byte(b[0]);
        let degree: u8 = if clen == 1 {
            if c0 == ('i' as u8) {
                1
            } else {
                5
            }
        } else if clen == 2 {
            let c1 = lower_byte(b[1]);
            if c0 == ('i' as u8) && c1 == ('i' as u8) {
                2
            } else if c0 == ('i' as u8) && c1 == ('v' as u8) {
                4
            } else {
                6
            }
        } else {
            let c1 = lower_byte(b[1]);
            if c0 == ('i' as u8) && c1 == ('i' as u8) {
                3
            } else {
                7
            }
        };
        let scale = if b[0] >= ('A' as u8) && b[0] <= ('Z' as u8) {
            Scale::Major
        } else {
            Scale::Minor
        };
        Harmony { scale, degree, add_7, shift: 0 }
    }
}

/// ASCII lower-casing of one byte.
fn lower_byte(b: u8) -> (r: u8)
    ensures
        r == ascii_lower(b),
{
    if b >= ('A' as u8) && b <= ('Z' as u8) {
        b + 32
    } else {
        b
    }
}

/// One step of a piece.
#[derive(Clone, Copy, PartialEq, Eq, Structural, Debug)]
pub enum Instruction {
    SetBPM(u16),
    SetKey(Key),
    SetScale(Scale),
    PlayNote(Note),
    SkipToNote,
    SetHarmony(Harmony),
}

/// An instruction together with the byte offsets of its source text
/// (`l` inclusive, `r` exclusive).
#[derive(Clone, Copy, PartialEq, Eq, Structural, Debug)]
pub struct SpannedInstruction {
    pub instruction: Instruction,
    pub l: usize,
    pub r: usize,
}

} // verus!
