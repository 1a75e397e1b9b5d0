//! The notation grammar: turns source text into an ordered sequence of
//! spanned instructions, or fails with the byte offset where parsing could
//! not continue.
//!
//! The grammar is a committed-choice (PEG-style) recursive descent over
//! bytes. Instructions are separated by commas or whitespace; an optional
//! whitespace tail is allowed, but a trailing comma is an error, and an
//! empty text is an empty piece. Anything else aborts the parse with no
//! partial result.
//!
//! The `sp_*` spec functions are the grammar's definition; each executable
//! rule is proved to return exactly what its spec rule says, so `song`'s
//! result is pinned down completely, error offset included.

use vstd::prelude::*;

verus! {

use vstd::string::StringSliceAdditionalSpecFns;
use crate::model::{
    Accidental,
    ABC,
    Duration,
    Harmony,
    Instruction,
    Key,
    Note,
    NotePitch,
    NotePitchEnum,
    Scale,
    SpannedInstruction,
};

/// A syntax error: the byte offset at which no instruction, separator or
/// end of input could be read.
#[derive(Clone, Copy, PartialEq, Eq, Structural, Debug)]
pub struct ParseError {
    pub offset: usize,
}

/// True when byte `p` of `s` exists and holds `c`.
pub open spec fn at(s: Seq<u8>, p: int, c: u8) -> bool {
    0 <= p < s.len() && s[p] == c
}

/// Space and horizontal tab separate tokens without ending a line.
pub open spec fn is_space(b: u8) -> bool {
    b == (' ' as u8) || b == ('\t' as u8)
}

/// End of the (possibly empty) whitespace run starting at `p`: spaces, tabs,
/// line feeds, and carriage returns immediately followed by a line feed.
pub open spec fn sp_ws(s: Seq<u8>, p: int) -> int
    decreases s.len() - p,
{
    if 0 <= p && p < s.len() && (is_space(s[p]) || s[p] == ('\n' as u8)) {
        sp_ws(s, p + 1)
    } else if 0 <= p && p + 1 < s.len() && s[p] == ('\r' as u8) && s[p + 1] == ('\n' as u8) {
        sp_ws(s, p + 2)
    } else {
        p
    }
}

proof fn lemma_ws_bounds(s: Seq<u8>, p: int)
    requires
        0 <= p <= s.len(),
    ensures
        p <= sp_ws(s, p) <= s.len(),
    decreases s.len() - p,
{
    if p < s.len() && (is_space(s[p]) || s[p] == ('\n' as u8)) {
        lemma_ws_bounds(s, p + 1);
    } else if p + 1 < s.len() && s[p] == ('\r' as u8) && s[p + 1] == ('\n' as u8) {
        lemma_ws_bounds(s, p + 2);
    }
}

/// One instruction separator: optional whitespace around a comma, or plain
/// whitespace of at least one byte.
pub open spec fn sp_sep(s: Seq<u8>, p: int) -> Option<int> {
    let q = sp_ws(s, p);
    if at(s, q, (',' as u8)) {
        Some(sp_ws(s, q + 1))
    } else if q > p {
        Some(q)
    } else {
        None
    }
}

/// End of the run of byte `c` starting at `p`.
pub open spec fn sp_byte_run(s: Seq<u8>, p: int, c: u8) -> int
    decreases s.len() - p,
{
    if at(s, p, c) {
        sp_byte_run(s, p + 1, c)
    } else {
        p
    }
}

proof fn lemma_byte_run_bounds(s: Seq<u8>, p: int, c: u8)
    requires
        0 <= p <= s.len(),
    ensures
        p <= sp_byte_run(s, p, c) <= s.len(),
    decreases s.len() - p,
{
    if at(s, p, c) {
        lemma_byte_run_bounds(s, p + 1, c);
    }
}

pub open spec fn is_digit(b: u8) -> bool {
    ('0' as u8) <= b && b <= ('9' as u8)
}

pub open spec fn is_nonzero_digit(b: u8) -> bool {
    ('1' as u8) <= b && b <= ('9' as u8)
}

/// End of the maximal digit run starting at `p`.
pub open spec fn sp_digits_end(s: Seq<u8>, p: int) -> int
    decreases s.len() - p,
{
    if 0 <= p && p < s.len() && is_digit(s[p]) {
        sp_digits_end(s, p + 1)
    } else {
        p
    }
}

/// End of the maximal run of non-zero digits starting at `p`.
pub open spec fn sp_nonzero_end(s: Seq<u8>, p: int) -> int
    decreases s.len() - p,
{
    if 0 <= p && p < s.len() && is_nonzero_digit(s[p]) {
        sp_nonzero_end(s, p + 1)
    } else {
        p
    }
}

proof fn lemma_digits_end_bounds(s: Seq<u8>, p: int)
    requires
        0 <= p <= s.len(),
    ensures
        p <= sp_digits_end(s, p) <= s.len(),
        p <= sp_nonzero_end(s, p) <= s.len(),
    decreases s.len() - p,
{
    if p < s.len() && is_digit(s[p]) {
        lemma_digits_end_bounds(s, p + 1);
    }
    if p < s.len() && is_nonzero_digit(s[p]) {
        assert(is_digit(s[p]));
    }
}

/// Value of the decimal digits `s[p..q)`.
pub open spec fn digits_val(s: Seq<u8>, p: int, q: int) -> int
    decreases q - p,
{
    if q <= p {
        0
    } else {
        digits_val(s, p, q - 1) * 10 + (s[q - 1] - ('0' as u8))
    }
}

/// An unsigned integer literal: either a single `0`, or a maximal digit run
/// led by a non-zero digit whose value fits the 128-bit range the grammar
/// reads numbers into. Returns the end position and the value.
pub open spec fn sp_uint(s: Seq<u8>, p: int) -> Option<(int, int)> {
    if at(s, p, ('0' as u8)) {
        Some((p + 1, 0))
    } else {
        let e1 = sp_nonzero_end(s, p);
        if e1 == p {
            None
        } else {
            let e = sp_digits_end(s, e1);
            let v = digits_val(s, p, e);
            if v <= u128::MAX {
                Some((e, v))
            } else {
                None
            }
        }
    }
}

/// The literal word `bpm` at `p`.
pub open spec fn kw_bpm(s: Seq<u8>, p: int) -> bool {
    at(s, p, ('b' as u8)) && at(s, p + 1, ('p' as u8)) && at(s, p + 2, ('m' as u8))
}

/// The literal word `key` at `p`.
pub open spec fn kw_key(s: Seq<u8>, p: int) -> bool {
    at(s, p, ('k' as u8)) && at(s, p + 1, ('e' as u8)) && at(s, p + 2, ('y' as u8))
}

/// The literal word `scale` at `p`.
pub open spec fn kw_scale(s: Seq<u8>, p: int) -> bool {
    at(s, p, ('s' as u8)) && at(s, p + 1, ('c' as u8)) && at(s, p + 2, ('a' as u8)) && at(
        s,
        p + 3,
        ('l' as u8),
    ) && at(s, p + 4, ('e' as u8))
}

/// The literal word `major` at `p`.
pub open spec fn kw_major(s: Seq<u8>, p: int) -> bool {
    at(s, p, ('m' as u8)) && at(s, p + 1, ('a' as u8)) && at(s, p + 2, ('j' as u8)) && at(
        s,
        p + 3,
        ('o' as u8),
    ) && at(s, p + 4, ('r' as u8))
}

/// The literal word `minor` at `p`.
pub open spec fn kw_minor(s: Seq<u8>, p: int) -> bool {
    at(s, p, ('m' as u8)) && at(s, p + 1, ('i' as u8)) && at(s, p + 2, ('n' as u8)) && at(
        s,
        p + 3,
        ('o' as u8),
    ) && at(s, p + 4, ('r' as u8))
}

/// `bpm <uint>`. The value is taken modulo 2^16, as the grammar narrows the
/// parsed number to the instruction's 16-bit field.
pub open spec fn sp_set_bpm(s: Seq<u8>, p: int) -> Option<(int, Instruction)> {
    if kw_bpm(s, p) {
        let q = sp_ws(s, p + 3);
        if q == p + 3 {
            None
        } else {
            match sp_uint(s, q) {
                None => None,
                Some((e, v)) => Some((e, Instruction::SetBPM((v % 0x10000) as u16))),
            }
        }
    } else {
        None
    }
}

/// A pitch-class letter `A`..`G`.
pub open spec fn sp_abc(s: Seq<u8>, p: int) -> Option<ABC> {
    if at(s, p, ('A' as u8)) {
        Some(ABC::A)
    } else if at(s, p, ('B' as u8)) {
        Some(ABC::B)
    } else if at(s, p, ('C' as u8)) {
        Some(ABC::C)
    } else if at(s, p, ('D' as u8)) {
        Some(ABC::D)
    } else if at(s, p, ('E' as u8)) {
        Some(ABC::E)
    } else if at(s, p, ('F' as u8)) {
        Some(ABC::F)
    } else if at(s, p, ('G' as u8)) {
        Some(ABC::G)
    } else {
        None
    }
}

/// `key <A-G>`; key declarations always carry the natural accidental.
pub open spec fn sp_set_key(s: Seq<u8>, p: int) -> Option<(int, Instruction)> {
    if kw_key(s, p) {
        let q = sp_ws(s, p + 3);
        if q == p + 3 {
            None
        } else {
            match sp_abc(s, q) {
                None => None,
                Some(abc) => Some(
                    (q + 1, Instruction::SetKey(Key { abc, accidental: Accidental::Natural })),
                ),
            }
        }
    } else {
        None
    }
}

/// `scale major|minor`.
pub open spec fn sp_set_scale(s: Seq<u8>, p: int) -> Option<(int, Instruction)> {
    if kw_scale(s, p) {
        let q = sp_ws(s, p + 5);
        if q == p + 5 {
            None
        } else if kw_major(s, q) {
            Some((q + 5, Instruction::SetScale(Scale::Major)))
        } else if kw_minor(s, q) {
            Some((q + 5, Instruction::SetScale(Scale::Minor)))
        } else {
            None
        }
    } else {
        None
    }
}

/// A Roman-numeral chord base: the numeral's degree and quality (upper case
/// is Major, lower case Minor). Alternatives are tried longest-first within
/// each case, lower case first, as the grammar orders them.
pub open spec fn sp_chord_base(s: Seq<u8>, p: int) -> Option<(int, (u8, Scale))> {
    if at(s, p, ('i' as u8)) && at(s, p + 1, ('i' as u8)) && at(s, p + 2, ('i' as u8)) {
        Some((p + 3, (3u8, Scale::Minor)))
    } else if at(s, p, ('i' as u8)) && at(s, p + 1, ('i' as u8)) {
        Some((p + 2, (2u8, Scale::Minor)))
    } else if at(s, p, ('i' as u8)) && at(s, p + 1, ('v' as u8)) {
        Some((p + 2, (4u8, Scale::Minor)))
    } else if at(s, p, ('i' as u8)) {
        Some((p + 1, (1u8, Scale::Minor)))
    } else if at(s, p, ('v' as u8)) && at(s, p + 1, ('i' as u8)) && at(s, p + 2, ('i' as u8)) {
        Some((p + 3, (7u8, Scale::Minor)))
    } else if at(s, p, ('v' as u8)) && at(s, p + 1, ('i' as u8)) {
        Some((p + 2, (6u8, Scale::Minor)))
    } else if at(s, p, ('v' as u8)) {
        Some((p + 1, (5u8, Scale::Minor)))
    } else if at(s, p, ('I' as u8)) && at(s, p + 1, ('I' as u8)) && at(s, p + 2, ('I' as u8)) {
        Some((p + 3, (3u8, Scale::Major)))
    } else if at(s, p, ('I' as u8)) && at(s, p + 1, ('I' as u8)) {
        Some((p + 2, (2u8, Scale::Major)))
    } else if at(s, p, ('I' as u8)) && at(s, p + 1, ('V' as u8)) {
        Some((p + 2, (4u8, Scale::Major)))
    } else if at(s, p, ('I' as u8)) {
        Some((p + 1, (1u8, Scale::Major)))
    } else if at(s, p, ('V' as u8)) && at(s, p + 1, ('I' as u8)) && at(s, p + 2, ('I' as u8)) {
        Some((p + 3, (7u8, Scale::Major)))
    } else if at(s, p, ('V' as u8)) && at(s, p + 1, ('I' as u8)) {
        Some((p + 2, (6u8, Scale::Major)))
    } else if at(s, p, ('V' as u8)) {
        Some((p + 1, (5u8, Scale::Major)))
    } else {
        None
    }
}

/// `"<"* roman ["7"] ":"`. Each leading `<` lowers the chord voicing one
/// octave, so the shift is the negative of the count; runs longer than the
/// 8-bit shift field can hold are rejected.
pub open spec fn sp_set_harmony(s: Seq<u8>, p: int) -> Option<(int, Instruction)> {
    let lt_end = sp_byte_run(s, p, ('<' as u8));
    let down = lt_end - p;
    match sp_chord_base(s, lt_end) {
        None => None,
        Some((p1, (degree, scale))) => {
            let (p2, add_7) = if at(s, p1, ('7' as u8)) {
                (p1 + 1, true)
            } else {
                (p1, false)
            };
            if at(s, p2, (':' as u8)) && down <= 127 {
                Some(
                    (
                        p2 + 1,
                        Instruction::SetHarmony(
                            Harmony { scale, degree, add_7, shift: (-down) as i8 },
                        ),
                    ),
                )
            } else {
                None
            }
        },
    }
}

/// A leading octave-shift run: `-`s lower and `+`s raise, one octave each.
/// Runs longer than the 8-bit octave field can hold are rejected.
pub open spec fn sp_octave(s: Seq<u8>, p: int) -> Option<(int, int)> {
    let m_end = sp_byte_run(s, p, ('-' as u8));
    if m_end > p {
        if m_end - p <= 127 {
            Some((m_end, -(m_end - p)))
        } else {
            None
        }
    } else {
        let pl_end = sp_byte_run(s, p, ('+' as u8));
        if pl_end - p <= 127 {
            Some((pl_end, pl_end - p))
        } else {
            None
        }
    }
}

/// An accidental suffix: `#` is sharp, `b` is flat, absence is natural.
pub open spec fn sp_accidental(s: Seq<u8>, p: int) -> (int, Accidental) {
    if at(s, p, ('#' as u8)) {
        (p + 1, Accidental::Sharp)
    } else if at(s, p, ('b' as u8)) {
        (p + 1, Accidental::Flat)
    } else {
        (p, Accidental::Natural)
    }
}

/// An optional tie marker `_`.
pub open spec fn sp_tie(s: Seq<u8>, p: int) -> (int, bool) {
    if at(s, p, ('_' as u8)) {
        (p + 1, true)
    } else {
        (p, false)
    }
}

/// An optional dotted-note marker `.`.
pub open spec fn sp_dot(s: Seq<u8>, p: int) -> (int, bool) {
    if at(s, p, ('.' as u8)) {
        (p + 1, true)
    } else {
        (p, false)
    }
}

/// The body of a note token after any leading tie: octave-shift run, then
/// the leading `~` run, then the scale degree and accidental. Returns the
/// end position, the length of the `~` run, and the pitch.
pub open spec fn sp_note_body(s: Seq<u8>, p: int) -> Option<(int, int, NotePitch)> {
    match sp_octave(s, p) {
        None => None,
        Some((p_oct, oct)) => {
            let h_end = sp_byte_run(s, p_oct, ('~' as u8));
            match sp_uint(s, h_end) {
                None => None,
                Some((p2, v)) => {
                    let (p3, accidental) = sp_accidental(s, p2);
                    Some(
                        (
                            p3,
                            h_end - p_oct,
                            NotePitch {
                                enum_: NotePitchEnum::ScaleDegree((v % 256) as u8),
                                octave: oct as i8,
                                accidental,
                            },
                        ),
                    )
                },
            }
        },
    }
}

/// A note token: leading tie, octave-shift run, leading `~` run (each
/// halves the duration), scale degree, accidental, trailing `~` run (each
/// doubles), optional dot (one and a half), trailing tie. The degree is
/// taken modulo 2^8, as the grammar narrows the parsed number to the
/// pitch's 8-bit field; durations that overflow the 8-bit fraction fields
/// are rejected.
pub open spec fn sp_note(s: Seq<u8>, p: int) -> Option<(int, Note)> {
    let (p1, ties_to_prev) = sp_tie(s, p);
    match sp_note_body(s, p1) {
        None => None,
        Some((p2, num_half, pitch)) => {
            let t_end = sp_byte_run(s, p2, ('~' as u8));
            let num_twice = t_end - p2;
            let (p3, dotted) = sp_dot(s, t_end);
            let (p4, ties_to_next) = sp_tie(s, p3);
            let numer0: int = if num_twice == 0 {
                1
            } else {
                num_twice * 2
            };
            let denom0: int = if num_half == 0 {
                1
            } else {
                num_half * 2
            };
            let numer: int = if dotted {
                numer0 * 3
            } else {
                numer0
            };
            let denom: int = if dotted {
                denom0 * 2
            } else {
                denom0
            };
            if numer <= 255 && denom <= 255 {
                Some(
                    (
                        p4,
                        Note {
                            duration: Duration {
                                numerator: numer as u8,
                                denominator: denom as u8,
                            },
                            pitch,
                            ties_to_next,
                            ties_to_prev,
                        },
                    ),
                )
            } else {
                None
            }
        },
    }
}

/// One instruction, trying the alternatives in the grammar's order:
/// `bpm`, `key`, `scale`, harmony marker, note, skip marker.
pub open spec fn sp_instruction(s: Seq<u8>, p: int) -> Option<(int, Instruction)> {
    match sp_set_bpm(s, p) {
        Some(r) => Some(r),
        None => match sp_set_key(s, p) {
            Some(r) => Some(r),
            None => match sp_set_scale(s, p) {
                Some(r) => Some(r),
                None => match sp_set_harmony(s, p) {
                    Some(r) => Some(r),
                    None => match sp_note(s, p) {
                        Some((q, note)) => Some((q, Instruction::PlayNote(note))),
                        None => if at(s, p, ('>' as u8)) {
                            Some((p + 1, Instruction::SkipToNote))
                        } else {
                            None
                        },
                    },
                },
            },
        },
    }
}

/// The instructions following one that ended at `p`: while a separator and a
/// further instruction can be read, both are consumed; a separator not
/// followed by an instruction is left unconsumed. Returns the end of the
/// last instruction and the spanned instructions read.
pub open spec fn sp_items_tail(s: Seq<u8>, p: int) -> (int, Seq<SpannedInstruction>)
    decreases s.len() - p,
{
    match sp_sep(s, p) {
        None => (p, Seq::empty()),
        Some(p2) => match sp_instruction(s, p2) {
            None => (p, Seq::empty()),
            Some((q, instruction)) => {
                if p < p2 && p2 < q && q <= s.len() {
                    let spanned = SpannedInstruction {
                        instruction,
                        l: p2 as usize,
                        r: q as usize,
                    };
                    let (e, rest) = sp_items_tail(s, q);
                    (e, seq![spanned] + rest)
                } else {
                    (p, Seq::empty())
                }
            },
        },
    }
}

/// All instructions from `p`: none if no instruction starts at `p`, else the
/// first one and whatever [`sp_items_tail`] reads after it.
pub open spec fn sp_items(s: Seq<u8>, p: int) -> (int, Seq<SpannedInstruction>) {
    match sp_instruction(s, p) {
        None => (p, Seq::empty()),
        Some((q, instruction)) => {
            let spanned = SpannedInstruction { instruction, l: p as usize, r: q as usize };
            let (e, rest) = sp_items_tail(s, q);
            (e, seq![spanned] + rest)
        },
    }
}

/// A whole piece: the instruction list, optional trailing whitespace, end of
/// input. `None` when any input remains unconsumed.
pub open spec fn sp_song(s: Seq<u8>) -> Option<Seq<SpannedInstruction>> {
    let (e, items) = sp_items(s, 0);
    if sp_ws(s, e) == s.len() {
        Some(items)
    } else {
        None
    }
}

/// The offset reported when [`sp_song`] fails: the first byte past the
/// instruction list and any trailing whitespace.
pub open spec fn sp_err_offset(s: Seq<u8>) -> int {
    sp_ws(s, sp_items(s, 0).0)
}

/// A successfully parsed integer ends past where it started, within bounds.
proof fn lemma_uint_advances(s: Seq<u8>, p: int)
    requires
        0 <= p <= s.len(),
    ensures
        match sp_uint(s, p) {
            Some(r) => p < r.0 <= s.len(),
            None => true,
        },
{
    lemma_digits_end_bounds(s, p);
    if !at(s, p, ('0' as u8)) {
        let e1 = sp_nonzero_end(s, p);
        lemma_digits_end_bounds(s, e1);
    }
}

/// A successfully parsed instruction ends past where it started, within
/// bounds, so every span it yields lies inside the input.
proof fn lemma_instruction_advances(s: Seq<u8>, p: int)
    requires
        0 <= p <= s.len(),
    ensures
        match sp_instruction(s, p) {
            Some(r) => p < r.0 <= s.len(),
            None => true,
        },
{
    if kw_bpm(s, p) {
        lemma_ws_bounds(s, p + 3);
        lemma_uint_advances(s, sp_ws(s, p + 3));
    }
    if kw_key(s, p) {
        lemma_ws_bounds(s, p + 3);
    }
    if kw_scale(s, p) {
        lemma_ws_bounds(s, p + 5);
    }
    if sp_set_bpm(s, p) is None && sp_set_key(s, p) is None && sp_set_scale(s, p) is None {
        // harmony marker
        lemma_byte_run_bounds(s, p, ('<' as u8));
        // note token
        let (p1, _) = sp_tie(s, p);
        lemma_byte_run_bounds(s, p1, ('-' as u8));
        lemma_byte_run_bounds(s, p1, ('+' as u8));
        match sp_octave(s, p1) {
            Some((po, _)) => {
                lemma_byte_run_bounds(s, po, ('~' as u8));
                let h_end = sp_byte_run(s, po, ('~' as u8));
                lemma_uint_advances(s, h_end);
                match sp_uint(s, h_end) {
                    Some((p2, _)) => {
                        let (p2b, _) = sp_accidental(s, p2);
                        lemma_byte_run_bounds(s, p2b, ('~' as u8));
                    },
                    None => {
                    },
                }
            },
            None => {
            },
        }
    }
}

/// Every span that a parse yields lies inside the input, left end first.
pub proof fn lemma_song_spans(s: Seq<u8>)
    requires
        s.len() <= usize::MAX,
    ensures
        match sp_song(s) {
            Some(items) => forall|k: int|
                0 <= k < items.len() ==> (#[trigger] items[k]).l <= items[k].r <= s.len(),
            None => true,
        },
{
    if sp_song(s) is Some {
        match sp_instruction(s, 0) {
            None => {
            },
            Some((q, _)) => {
                lemma_instruction_advances(s, 0);
                lemma_tail_spans(s, q);
                let items = sp_song(s).unwrap();
                let rest = sp_items_tail(s, q).1;
                assert(items == seq![items[0]] + rest);
                assert(forall|k: int| 1 <= k < items.len() ==> items[k] == rest[k - 1]);
            },
        }
    }
}

proof fn lemma_tail_spans(s: Seq<u8>, p: int)
    requires
        0 <= p <= s.len(),
        s.len() <= usize::MAX,
    ensures
        forall|k: int|
            0 <= k < sp_items_tail(s, p).1.len() ==> (#[trigger] sp_items_tail(s, p).1[k]).l
                <= sp_items_tail(s, p).1[k].r <= s.len(),
    decreases s.len() - p,
{
    match sp_sep(s, p) {
        None => {
        },
        Some(p2) => {
            match sp_instruction(s, p2) {
                None => {
                },
                Some((q, instruction)) => {
                    if p < p2 && p2 < q && q <= s.len() {
                        lemma_tail_spans(s, q);
                        let spanned = SpannedInstruction {
                            instruction,
                            l: p2 as usize,
                            r: q as usize,
                        };
                        let rest = sp_items_tail(s, q).1;
                        assert(sp_items_tail(s, p).1 == seq![spanned] + rest);
                        assert(forall|k: int|
                            1 <= k < sp_items_tail(s, p).1.len() ==> sp_items_tail(s, p).1[k]
                                == rest[k - 1]);
                    }
                },
            }
        },
    }
}

fn ws_end(s: &[u8], p: usize) -> (r: usize)
    requires
        p <= s@.len(),
    ensures
        r as int == sp_ws(s@, p as int),
        p <= r <= s@.len(),
{
    let n = s.len();
    let mut q = p;
    loop
        invariant
            p <= q <= n,
            n == s@.len(),
            sp_ws(s@, p as int) == sp_ws(s@, q as int),
        ensures
            p <= q <= n,
            sp_ws(s@, p as int) == q as int,
        decreases n - q,
    {
        if q < n && (s[q] == (' ' as u8) || s[q] == ('\t' as u8) || s[q] == ('\n' as u8)) {
            q = q + 1;
        } else if n - q > 1 && s[q] == ('\r' as u8) && s[q + 1] == ('\n' as u8) {
            q = q + 2;
        } else {
            break ;
        }
    }
    q
}

fn byte_run_end(s: &[u8], p: usize, c: u8) -> (r: usize)
    requires
        p <= s@.len(),
    ensures
        r as int == sp_byte_run(s@, p as int, c),
        p <= r <= s@.len(),
{
    let n = s.len();
    let mut q = p;
    while q < n && s[q] == c
        invariant
            p <= q <= n,
            n == s@.len(),
            sp_byte_run(s@, p as int, c) == sp_byte_run(s@, q as int, c),
        decreases n - q,
    {
        q = q + 1;
    }
    q
}

fn sep_end(s: &[u8], p: usize) -> (r: Option<usize>)
    requires
        p <= s@.len(),
    ensures
        match r {
            Some(q) => sp_sep(s@, p as int) == Some(q as int) && p < q <= s@.len(),
            None => sp_sep(s@, p as int) is None,
        },
{
    let n = s.len();
    let q = ws_end(s, p);
    if q < n && s[q] == (',' as u8) {
        Some(ws_end(s, q + 1))
    } else if q > p {
        Some(q)
    } else {
        None
    }
}

/// Every byte of a maximal digit run is a digit; likewise for non-zero runs.
proof fn lemma_run_digits(s: Seq<u8>, p: int)
    requires
        0 <= p <= s.len(),
    ensures
        forall|k: int| p <= k < sp_digits_end(s, p) ==> is_digit(#[trigger] s[k]),
        forall|k: int| p <= k < sp_nonzero_end(s, p) ==> is_nonzero_digit(#[trigger] s[k]),
        p <= sp_digits_end(s, p) <= s.len(),
        p <= sp_nonzero_end(s, p) <= s.len(),
    decreases s.len() - p,
{
    if p < s.len() && is_digit(s[p]) {
        lemma_run_digits(s, p + 1);
    }
    if p < s.len() && is_nonzero_digit(s[p]) {
        assert(is_digit(s[p]));
    }
}

/// Digit values are non-negative.
proof fn lemma_digits_val_nonneg(s: Seq<u8>, p: int, a: int)
    requires
        forall|k: int| p <= k < a ==> is_digit(#[trigger] s[k]),
    ensures
        0 <= digits_val(s, p, a),
    decreases a - p,
{
    if p < a {
        lemma_digits_val_nonneg(s, p, a - 1);
    }
}

/// Value of the digits `s[p..a)` never exceeds the value of a longer run.
proof fn lemma_digits_val_grows(s: Seq<u8>, p: int, a: int, b: int)
    requires
        p <= a <= b,
        forall|k: int| p <= k < b ==> is_digit(#[trigger] s[k]),
    ensures
        0 <= digits_val(s, p, a) <= digits_val(s, p, b),
    decreases b - a,
{
    lemma_digits_val_nonneg(s, p, a);
    if a < b {
        lemma_digits_val_grows(s, p, a, b - 1);
        lemma_digits_val_nonneg(s, p, b - 1);
    }
}

fn parse_uint(s: &[u8], p: usize) -> (r: Option<(usize, u128)>)
    requires
        p <= s@.len(),
    ensures
        match r {
            Some((q, v)) => sp_uint(s@, p as int) == Some((q as int, v as int)) && p < q <= s@.len(),
            None => sp_uint(s@, p as int) is None,
        },
{
    let n = s.len();
    if p < n && s[p] == ('0' as u8) {
        return Some((p + 1, 0));
    }
    let e1 = {
        let mut q = p;
        while q < n && s[q] >= ('1' as u8) && s[q] <= ('9' as u8)
            invariant
                p <= q <= n,
                n == s@.len(),
                sp_nonzero_end(s@, p as int) == sp_nonzero_end(s@, q as int),
            decreases n - q,
        {
            q = q + 1;
        }
        q
    };
    if e1 == p {
        return None;
    }
    let e = {
        let mut q = e1;
        while q < n && s[q] >= ('0' as u8) && s[q] <= ('9' as u8)
            invariant
                e1 <= q <= n,
                n == s@.len(),
                sp_digits_end(s@, e1 as int) == sp_digits_end(s@, q as int),
            decreases n - q,
        {
            q = q + 1;
        }
        q
    };
    proof {
        lemma_run_digits(s@, p as int);
        lemma_run_digits(s@, e1 as int);
        assert(forall|k: int| p <= k < e ==> is_digit(#[trigger] s@[k])) by {
            assert(forall|k: int| p <= k < e1 ==> is_nonzero_digit(#[trigger] s@[k]));
            assert(forall|k: int|
                p <= k < e ==> is_nonzero_digit(s@[k]) || is_digit(#[trigger] s@[k]));
        }
    }
    let mut v: u128 = 0;
    let mut i = p;
    while i < e
        invariant
            p <= i <= e <= n,
            n == s@.len(),
            v as int == digits_val(s@, p as int, i as int),
            forall|k: int| p <= k < e ==> is_digit(s@[k]),
            e as int == sp_digits_end(s@, sp_nonzero_end(s@, p as int)),
            sp_nonzero_end(s@, p as int) == e1,
            e1 > p,
        decreases e - i,
    {
        let d = s[i] - ('0' as u8);
        let grown = match v.checked_mul(10) {
            Some(w) => w.checked_add(d as u128),
            None => None,
        };
        match grown {
            Some(w) => {
                v = w;
            },
            None => {
                proof {
                    lemma_digits_val_grows(s@, p as int, i + 1, e as int);
                    assert(digits_val(s@, p as int, i + 1) > u128::MAX);
                }
                return None;
            },
        }
        i = i + 1;
    }
    Some((e, v))
}

fn parse_set_bpm(s: &[u8], p: usize) -> (r: Option<(usize, Instruction)>)
    requires
        p <= s@.len(),
    ensures
        match r {
            Some((q, inst)) => sp_set_bpm(s@, p as int) == Some((q as int, inst)) && p < q
                <= s@.len(),
            None => sp_set_bpm(s@, p as int) is None,
        },
{
    let n = s.len();
    if n - p > 2 && s[p] == ('b' as u8) && s[p + 1] == ('p' as u8) && s[p + 2] == ('m' as u8) {
        let q = ws_end(s, p + 3);
        if q == p + 3 {
            return None;
        }
        match parse_uint(s, q) {
            None => None,
            Some((e, v)) => {
                let bpm = #[verifier::truncate] ((v % 0x10000) as u16);
                Some((e, Instruction::SetBPM(bpm)))
            },
        }
    } else {
        None
    }
}

fn parse_set_key(s: &[u8], p: usize) -> (r: Option<(usize, Instruction)>)
    requires
        p <= s@.len(),
    ensures
        match r {
            Some((q, inst)) => sp_set_key(s@, p as int) == Some((q as int, inst)) && p < q
                <= s@.len(),
            None => sp_set_key(s@, p as int) is None,
        },
{
    let n = s.len();
    if n - p > 2 && s[p] == ('k' as u8) && s[p + 1] == ('e' as u8) && s[p + 2] == ('y' as u8) {
        let q = ws_end(s, p + 3);
        if q == p + 3 {
            return None;
        }
        if q >= n {
            return None;
        }
        let abc = if s[q] == ('A' as u8) {
            ABC::A
        } else if s[q] == ('B' as u8) {
            ABC::B
        } else if s[q] == ('C' as u8) {
            ABC::C
        } else if s[q] == ('D' as u8) {
            ABC::D
        } else if s[q] == ('E' as u8) {
            ABC::E
        } else if s[q] == ('F' as u8) {
            ABC::F
        } else if s[q] == ('G' as u8) {
            ABC::G
        } else {
            return None;
        };
        Some((q + 1, Instruction::SetKey(Key { abc, accidental: Accidental::Natural })))
    } else {
        None
    }
}

fn parse_set_scale(s: &[u8], p: usize) -> (r: Option<(usize, Instruction)>)
    requires
        p <= s@.len(),
    ensures
        match r {
            Some((q, inst)) => sp_set_scale(s@, p as int) == Some((q as int, inst)) && p < q
                <= s@.len(),
            None => sp_set_scale(s@, p as int) is None,
        },
{
    let n = s.len();
    if n - p > 4 && s[p] == ('s' as u8) && s[p + 1] == ('c' as u8) && s[p + 2] == ('a' as u8) && s[p
        + 3] == ('l' as u8) && s[p + 4] == ('e' as u8) {
        let q = ws_end(s, p + 5);
        if q == p + 5 {
            return None;
        }
        if n - q > 4 && s[q] == ('m' as u8) && s[q + 1] == ('a' as u8) && s[q + 2] == ('j' as u8)
            && s[q + 3] == ('o' as u8) && s[q + 4] == ('r' as u8) {
            Some((q + 5, Instruction::SetScale(Scale::Major)))
        } else if n - q > 4 && s[q] == ('m' as u8) && s[q + 1] == ('i' as u8) && s[q + 2] == (
        'n' as u8) && s[q + 3] == ('o' as u8) && s[q + 4] == ('r' as u8) {
            Some((q + 5, Instruction::SetScale(Scale::Minor)))
        } else {
            None
        }
    } else {
        None
    }
}

fn parse_chord_base(s: &[u8], p: usize) -> (r: Option<(usize, (u8, Scale))>)
    requires
        p <= s@.len(),
    ensures
        match r {
            Some((q, base)) => sp_chord_base(s@, p as int) == Some((q as int, base)) && p < q
                <= s@.len(),
            None => sp_chord_base(s@, p as int) is None,
        },
{
    let n = s.len();
    let c0 = if p < n {
        s[p]
    } else {
        return None;
    };
    let c1 = if n - p > 1 {
        s[p + 1]
    } else {
        0
    };
    let c2 = if n - p > 2 {
        s[p + 2]
    } else {
        0
    };
    if c0 == ('i' as u8) && n - p > 2 && c1 == ('i' as u8) && c2 == ('i' as u8) {
        Some((p + 3, (3, Scale::Minor)))
    } else if c0 == ('i' as u8) && n - p > 1 && c1 == ('i' as u8) {
        Some((p + 2, (2, Scale::Minor)))
    } else if c0 == ('i' as u8) && n - p > 1 && c1 == ('v' as u8) {
        Some((p + 2, (4, Scale::Minor)))
    } else if c0 == ('i' as u8) {
        Some((p + 1, (1, Scale::Minor)))
    } else if c0 == ('v' as u8) && n - p > 2 && c1 == ('i' as u8) && c2 == ('i' as u8) {
        Some((p + 3, (7, Scale::Minor)))
    } else if c0 == ('v' as u8) && n - p > 1 && c1 == ('i' as u8) {
        Some((p + 2, (6, Scale::Minor)))
    } else if c0 == ('v' as u8) {
        Some((p + 1, (5, Scale::Minor)))
    } else if c0 == ('I' as u8) && n - p > 2 && c1 == ('I' as u8) && c2 == ('I' as u8) {
        Some((p + 3, (3, Scale::Major)))
    } else if c0 == ('I' as u8) && n - p > 1 && c1 == ('I' as u8) {
        Some((p + 2, (2, Scale::Major)))
    } else if c0 == ('I' as u8) && n - p > 1 && c1 == ('V' as u8) {
        Some((p + 2, (4, Scale::Major)))
    } else if c0 == ('I' as u8) {
        Some((p + 1, (1, Scale::Major)))
    } else if c0 == ('V' as u8) && n - p > 2 && c1 == ('I' as u8) && c2 == ('I' as u8) {
        Some((p + 3, (7, Scale::Major)))
    } else if c0 == ('V' as u8) && n - p > 1 && c1 == ('I' as u8) {
        Some((p + 2, (6, Scale::Major)))
    } else if c0 == ('V' as u8) {
        Some((p + 1, (5, Scale::Major)))
    } else {
        None
    }
}

fn parse_set_harmony(s: &[u8], p: usize) -> (r: Option<(usize, Instruction)>)
    requires
        p <= s@.len(),
    ensures
        match r {
            Some((q, inst)) => sp_set_harmony(s@, p as int) == Some((q as int, inst)) && p < q
                <= s@.len(),
            None => sp_set_harmony(s@, p as int) is None,
        },
{
    let n = s.len();
    let lt_end = byte_run_end(s, p, '<' as u8);
    let down = lt_end - p;
    match parse_chord_base(s, lt_end) {
        None => None,
        Some((p1, (degree, scale))) => {
            let (p2, add_7) = if p1 < n && s[p1] == ('7' as u8) {
                (p1 + 1, true)
            } else {
                (p1, false)
            };
            if p2 < n && s[p2] == (':' as u8) && down <= 127 {
                let shift: i8 = -(down as i8);
                Some((p2 + 1, Instruction::SetHarmony(Harmony { scale, degree, add_7, shift })))
            } else {
                None
            }
        },
    }
}

#[verifier::rlimit(60)]
fn parse_note(s: &[u8], p: usize) -> (r: Option<(usize, Note)>)
    requires
        p <= s@.len(),
    ensures
        match r {
            Some((q, note)) => sp_note(s@, p as int) == Some((q as int, note)) && p < q <= s@.len(),
            None => sp_note(s@, p as int) is None,
        },
{
    let n = s.len();
    let p1 = if p < n && s[p] == ('_' as u8) {
        p + 1
    } else {
        p
    };
    let ties_to_prev = p1 > p;

    // octave run, then the leading tilde run, then the degree and accidental
    let m_end = byte_run_end(s, p1, '-' as u8);
    let (oct_end, octave) = if m_end > p1 {
        if m_end - p1 <= 127 {
            (m_end, -((m_end - p1) as i8))
        } else {
            return None;
        }
    } else {
        let pl_end = byte_run_end(s, p1, '+' as u8);
        if pl_end - p1 <= 127 {
            (pl_end, (pl_end - p1) as i8)
        } else {
            return None;
        }
    };
    let h_end = byte_run_end(s, oct_end, '~' as u8);
    let num_half = h_end - oct_end;
    let (p2, degree) = match parse_uint(s, h_end) {
        None => {
            return None;
        },
        Some((q, v)) => (q, #[verifier::truncate] ((v % 256) as u8)),
    };
    let (p2b, accidental) = if p2 < n && s[p2] == ('#' as u8) {
        (p2 + 1, Accidental::Sharp)
    } else if p2 < n && s[p2] == ('b' as u8) {
        (p2 + 1, Accidental::Flat)
    } else {
        (p2, Accidental::Natural)
    };
    let pitch = NotePitch { enum_: NotePitchEnum::ScaleDegree(degree), octave, accidental };

    let t_end = byte_run_end(s, p2b, '~' as u8);
    let num_twice = t_end - p2b;
    let (p3, dotted) = if t_end < n && s[t_end] == ('.' as u8) {
        (t_end + 1, true)
    } else {
        (t_end, false)
    };
    let (p4, ties_to_next) = if p3 < n && s[p3] == ('_' as u8) {
        (p3 + 1, true)
    } else {
        (p3, false)
    };
    if num_half >= 128 || num_twice >= 128 {
        return None;
    }
    let numer0: usize = if num_twice == 0 {
        1
    } else {
        num_twice * 2
    };
    let denom0: usize = if num_half == 0 {
        1
    } else {
        num_half * 2
    };
    let numer: usize = if dotted {
        numer0 * 3
    } else {
        numer0
    };
    let denom: usize = if dotted {
        denom0 * 2
    } else {
        denom0
    };
    if numer <= 255 && denom <= 255 {
        Some(
            (
                p4,
                Note {
                    duration: Duration { numerator: numer as u8, denominator: denom as u8 },
                    pitch,
                    ties_to_next,
                    ties_to_prev,
                },
            ),
        )
    } else {
        None
    }
}

fn parse_instruction(s: &[u8], p: usize) -> (r: Option<(usize, Instruction)>)
    requires
        p <= s@.len(),
    ensures
        match r {
            Some((q, inst)) => sp_instruction(s@, p as int) == Some((q as int, inst)) && p < q
                <= s@.len(),
            None => sp_instruction(s@, p as int) is None,
        },
{
    if let Some(r) = parse_set_bpm(s, p) {
        return Some(r);
    }
    if let Some(r) = parse_set_key(s, p) {
        return Some(r);
    }
    if let Some(r) = parse_set_scale(s, p) {
        return Some(r);
    }
    if let Some(r) = parse_set_harmony(s, p) {
        return Some(r);
    }
    if let Some((q, note)) = parse_note(s, p) {
        return Some((q, Instruction::PlayNote(note)));
    }
    let n = s.len();
    if p < n && s[p] == ('>' as u8) {
        return Some((p + 1, Instruction::SkipToNote));
    }
    None
}

/// Parses a whole piece of notation into its spanned instructions, or fails
/// with the byte offset at which parsing could not continue. The result is
/// exactly what the grammar's specification [`sp_song`] assigns to the text.
pub fn song(s: &str) -> (r: Result<Vec<SpannedInstruction>, ParseError>)
    ensures
        match r {
            Ok(v) => sp_song(s.spec_bytes()) == Some(v@),
            Err(e) => sp_song(s.spec_bytes()) is None && e.offset as int == sp_err_offset(
                s.spec_bytes(),
            ),
        },
{
    let b = s.as_bytes();
    let n = b.len();
    let ghost bs = b@;
    let mut items: Vec<SpannedInstruction> = Vec::new();
    let mut endpos: usize = 0;
    match parse_instruction(b, 0) {
        None => {
            assert(sp_items(bs, 0) == (0int, Seq::<SpannedInstruction>::empty()));
        },
        Some((q0, inst0)) => {
            items.push(SpannedInstruction { instruction: inst0, l: 0, r: q0 });
            endpos = q0;
            loop
                invariant
                    endpos <= n,
                    n == bs.len(),
                    bs == b@,
                    sp_items(bs, 0).1 =~= items@ + sp_items_tail(bs, endpos as int).1,
                    sp_items(bs, 0).0 == sp_items_tail(bs, endpos as int).0,
                ensures
                    endpos <= n,
                    sp_items(bs, 0).1 =~= items@,
                    sp_items(bs, 0).0 == endpos as int,
                decreases n - endpos,
            {
                match sep_end(b, endpos) {
                    None => {
                        proof {
                            assert(sp_items_tail(bs, endpos as int) == (endpos as int,
                            Seq::<SpannedInstruction>::empty()));
                        }
                        break ;
                    },
                    Some(p2) => {
                        match parse_instruction(b, p2) {
                            None => {
                                proof {
                                    assert(sp_items_tail(bs, endpos as int) == (endpos as int,
                                    Seq::<SpannedInstruction>::empty()));
                                }
                                break ;
                            },
                            Some((q, inst)) => {
                                let spanned = SpannedInstruction { instruction: inst, l: p2, r: q };
                                proof {
                                    let (e, rest) = sp_items_tail(bs, q as int);
                                    assert(sp_items_tail(bs, endpos as int).1 == seq![spanned]
                                        + rest);
                                    assert(items@ + (seq![spanned] + rest) =~= (items@
                                        + seq![spanned]) + rest);
                                }
                                items.push(spanned);
                                endpos = q;
                            },
                        }
                    },
                }
            }
        },
    }
    let tail = ws_end(b, endpos);
    if tail == n {
        Ok(items)
    } else {
        Err(ParseError { offset: tail })
    }
}

} // verus!
