//! The playback interpreter: a sequential state machine that walks an
//! instruction list, mutates the musical context, and produces for each
//! played note the data a synthesizer needs. It also maintains the editor
//! highlighting state: every instruction lights up for exactly one step,
//! except harmony markers, which stay lit until the next one.

use vstd::prelude::*;

verus! {

use crate::model::{Accidental, ABC, Harmony, Instruction, Key, Note, Scale};
use crate::theory::{
    chord_semitones,
    pitch_semitones,
    spec_chord_semitones,
    spec_pitch_semitones,
};

/// What the synthesizer needs to render one note: how long it sounds and
/// the simultaneous pitches, each in semitones relative to A440.
pub struct NoteAudio {
    pub duration_ms: u64,
    pub semitones: Vec<i32>,
}

impl NoteAudio {
    /// The pitch stack as mathematical integers.
    pub open spec fn pitches(self) -> Seq<int> {
        self.semitones@.map_values(|x: i32| x as int)
    }

    /// Duration and pitch stack, as [`play_fold`] speaks of them.
    pub open spec fn event(self) -> (int, Seq<int>) {
        (self.duration_ms as int, self.pitches())
    }
}

/// The events of a sequence of note audios.
pub open spec fn events_of(v: Seq<NoteAudio>) -> Seq<(int, Seq<int>)> {
    v.map_values(|a: NoteAudio| a.event())
}

/// The musical context a note is resolved against.
#[derive(Clone, Copy, PartialEq, Eq, Structural, Debug)]
pub struct MusicCtx {
    pub bpm: u16,
    pub key: Key,
    pub scale: Scale,
    pub harmony: Option<Harmony>,
}

/// How one instruction changes the musical context: the three setters
/// replace their component, notes and skip markers change nothing.
pub open spec fn step_music(m: MusicCtx, i: Instruction) -> MusicCtx {
    match i {
        Instruction::SetBPM(bpm) => MusicCtx { bpm, ..m },
        Instruction::SetKey(key) => MusicCtx { key, ..m },
        Instruction::SetScale(scale) => MusicCtx { scale, ..m },
        Instruction::SetHarmony(h) => MusicCtx { harmony: Some(h), ..m },
        Instruction::PlayNote(_) => m,
        Instruction::SkipToNote => m,
    }
}

/// Milliseconds a note lasts: the quarter-note length `60000 / bpm`, scaled
/// by the duration fraction (integer division at each step).
pub open spec fn spec_duration_ms(bpm: u16, d: crate::model::Duration) -> int {
    (60000int / (bpm as int)) * (d.numerator as int) / (d.denominator as int)
}

/// The pitch stack of a played note: the active chord (if any) with the
/// melody pitch on top.
pub open spec fn spec_note_stack(m: MusicCtx, n: Note) -> Seq<int> {
    let chord = match m.harmony {
        Some(h) => spec_chord_semitones(m.key, m.scale, h),
        None => Seq::empty(),
    };
    chord + seq![spec_pitch_semitones(m.key, m.scale, n.pitch)]
}

/// The audio an instruction produces: only a played note sounds, and not
/// when the program counter is still before the skip-to target.
pub open spec fn audio_of(m: MusicCtx, pc: int, skip: Option<usize>, i: Instruction) -> Option<
    (int, Seq<int>),
> {
    match i {
        Instruction::PlayNote(n) => {
            let skipped = match skip {
                Some(t) => pc < t,
                None => false,
            };
            if skipped {
                None
            } else {
                Some((spec_duration_ms(m.bpm, n.duration), spec_note_stack(m, n)))
            }
        },
        _ => None,
    }
}

/// An instruction the interpreter can evaluate without failing: a positive
/// tempo, a positive scale degree, and a positive duration denominator.
pub open spec fn wf_instruction(i: Instruction) -> bool {
    match i {
        Instruction::SetBPM(bpm) => bpm >= 1,
        Instruction::PlayNote(n) => n.pitch.degree() >= 1 && n.duration.denominator >= 1,
        Instruction::SetHarmony(h) => h.degree >= 1,
        _ => true,
    }
}

pub open spec fn wf_instructions(s: Seq<Instruction>) -> bool {
    forall|k: int| 0 <= k < s.len() ==> wf_instruction(#[trigger] s[k])
}

/// How one step changes the highlight state `(lit set, pending-off,
/// harmony highlight)`: the pending-off index goes dark; then a harmony
/// marker replaces the old harmony highlight and stays lit with no pending
/// off, while every other instruction lights up for one step.
pub open spec fn hl_step(
    on: Set<usize>,
    off: Option<usize>,
    onh: Option<usize>,
    i: Instruction,
    pc: usize,
) -> (Set<usize>, Option<usize>, Option<usize>) {
    let cleared = match off {
        Some(j) => on.remove(j),
        None => on,
    };
    match i {
        Instruction::SetHarmony(_) => {
            let cleared2 = match onh {
                Some(j) => cleared.remove(j),
                None => cleared,
            };
            (cleared2.insert(pc), off, Some(pc))
        },
        _ => (cleared.insert(pc), Some(pc), onh),
    }
}

/// Index of the first skip-to marker at or after `i`.
pub open spec fn first_skip_from(s: Seq<Instruction>, i: int) -> Option<int>
    decreases s.len() - i,
{
    if i < 0 || i >= s.len() {
        None
    } else if (s[i] matches Instruction::SkipToNote) {
        Some(i)
    } else {
        first_skip_from(s, i + 1)
    }
}

/// Index of the first played note at or after `i`.
pub open spec fn first_play_from(s: Seq<Instruction>, i: int) -> Option<int>
    decreases s.len() - i,
{
    if i < 0 || i >= s.len() {
        None
    } else if (s[i] matches Instruction::PlayNote(_)) {
        Some(i)
    } else {
        first_play_from(s, i + 1)
    }
}

/// The skip-to target: the first played note strictly after the first
/// skip-to marker. Absence of either leaves every note audible.
pub open spec fn spec_skip_target(s: Seq<Instruction>) -> Option<int> {
    match first_skip_from(s, 0) {
        None => None,
        Some(i) => first_play_from(s, i + 1),
    }
}

/// Finds the skip-to target of an instruction list.
pub fn find_skip_to_index(instructions: &[Instruction]) -> (r: Option<usize>)
    ensures
        match r {
            Some(t) => spec_skip_target(instructions@) == Some(t as int),
            None => spec_skip_target(instructions@) is None,
        },
{
    let n = instructions.len();
    let mut i: usize = 0;
    loop
        invariant
            0 <= i <= n,
            n == instructions@.len(),
            first_skip_from(instructions@, 0) == first_skip_from(instructions@, i as int),
        ensures
            first_skip_from(instructions@, 0) == (if i < n {
                Some(i as int)
            } else {
                Option::<int>::None
            }),
            i <= n,
        decreases n - i,
    {
        if i >= n {
            break ;
        }
        if let Instruction::SkipToNote = instructions[i] {
            break ;
        }
        i = i + 1;
    }
    if i >= n {
        return None;
    }
    let mut j: usize = i + 1;
    loop
        invariant
            i + 1 <= j <= n,
            n == instructions@.len(),
            first_play_from(instructions@, i + 1) == first_play_from(instructions@, j as int),
        ensures
            first_play_from(instructions@, i + 1) == (if j < n {
                Some(j as int)
            } else {
                Option::<int>::None
            }),
            j <= n,
        decreases n - j,
    {
        if j >= n {
            break ;
        }
        if let Instruction::PlayNote(_) = instructions[j] {
            break ;
        }
        j = j + 1;
    }
    if j < n {
        Some(j)
    } else {
        None
    }
}

/// The playback interpreter's whole state. The fields are public so that an
/// embedding program can inspect the context and the highlight state; they
/// should be changed only through the methods below.
pub struct SongContext {
    pub bpm: u16,
    pub key: Key,
    pub scale: Scale,
    pub harmony: Option<Harmony>,
    pub skip_to_note_index: Option<usize>,
    pub pc: usize,
    pub instructions: Vec<Instruction>,
    pub on_harmony: Option<usize>,
    pub off_on_next_tick: Option<usize>,
    pub on_instructions: Vec<usize>,
}

impl SongContext {
    /// The musical context this state carries.
    pub open spec fn music(self) -> MusicCtx {
        MusicCtx { bpm: self.bpm, key: self.key, scale: self.scale, harmony: self.harmony }
    }

    /// The set of currently lit instruction indices.
    pub open spec fn on_set(self) -> Set<usize> {
        self.on_instructions@.to_set()
    }

    /// The interpreter's invariant: a positive tempo, well-formed
    /// instructions, a well-formed active harmony, and highlight indices
    /// that are distinct, already stepped past, and in range. The pending
    /// off index is never a harmony marker, and the harmony highlight
    /// always is one.
    pub open spec fn wf(self) -> bool {
        &&& self.bpm >= 1
        &&& wf_instructions(self.instructions@)
        &&& match self.harmony {
            Some(h) => h.degree >= 1,
            None => true,
        }
        &&& self.on_instructions@.no_duplicates()
        &&& forall|k: int|
            0 <= k < self.on_instructions@.len() ==> (#[trigger] self.on_instructions@[k] < self.pc
                && self.on_instructions@[k] < self.instructions@.len())
        &&& match self.off_on_next_tick {
            Some(j) => j < self.pc && j < self.instructions@.len() && !(self.instructions@[j as int]
                matches Instruction::SetHarmony(_)),
            None => true,
        }
        &&& match self.on_harmony {
            Some(j) => j < self.pc && j < self.instructions@.len() && (self.instructions@[j as int]
                matches Instruction::SetHarmony(_)),
            None => true,
        }
    }

    /// Builds an interpreter over an instruction list, with the default
    /// context: 120 beats per minute, C natural, the major scale, no active
    /// harmony, and the skip-to target computed from the list.
    pub fn default(instructions: Vec<Instruction>) -> (r: Self)
        ensures
            r.bpm == 120,
            r.key == (Key { abc: ABC::C, accidental: Accidental::Natural }),
            r.scale == Scale::Major,
            r.harmony is None,
            r.pc == 0,
            r.instructions == instructions,
            r.on_harmony is None,
            r.off_on_next_tick is None,
            r.on_set() =~= Set::<usize>::empty(),
            match r.skip_to_note_index {
                Some(t) => spec_skip_target(instructions@) == Some(t as int),
                None => spec_skip_target(instructions@) is None,
            },
            wf_instructions(instructions@) ==> r.wf(),
    {
        let skip_to_index = find_skip_to_index(instructions.as_slice());
        Self::new(
            instructions,
            120,
            Key { abc: ABC::C, accidental: Accidental::Natural },
            Scale::Major,
            skip_to_index,
        )
    }

    fn new(
        instructions: Vec<Instruction>,
        bpm: u16,
        key: Key,
        scale: Scale,
        skip_to_index: Option<usize>,
    ) -> (r: Self)
        ensures
            r == (SongContext {
                bpm,
                key,
                scale,
                harmony: None,
                skip_to_note_index: skip_to_index,
                pc: 0,
                instructions,
                on_harmony: None,
                off_on_next_tick: None,
                on_instructions: r.on_instructions,
            }),
            r.on_instructions@ == Seq::<usize>::empty(),
    {
        Self {
            bpm,
            key,
            scale,
            harmony: None,
            pc: 0,
            instructions,
            on_harmony: None,
            off_on_next_tick: None,
            on_instructions: Vec::new(),
            skip_to_note_index: skip_to_index,
        }
    }

    /// The instruction the next `iterate` call will evaluate.
    pub fn current_instruction(&self) -> (r: &Instruction)
        requires
            self.pc < self.instructions@.len(),
        ensures
            *r == self.instructions@[self.pc as int],
    {
        &self.instructions[self.pc]
    }

    /// Whether playback has reached the end of the instruction list.
    pub fn is_done(&self) -> (r: bool)
        ensures
            r == (self.pc >= self.instructions@.len()),
    {
        self.pc >= self.instructions.len()
    }

    /// Advances past the current instruction without evaluating it: no
    /// audio, no context change, no highlight change.
    pub fn skip(&mut self)
        requires
            old(self).pc < usize::MAX,
        ensures
            *final(self) == (SongContext { pc: (old(self).pc + 1) as usize, ..*old(self) }),
    {
        self.pc = self.pc + 1;
    }
}

/// Removing an element of a duplicate-free sequence removes exactly that
/// value from the sequence's set.
proof fn lemma_remove_at(s: Seq<usize>, i: int)
    requires
        0 <= i < s.len(),
        s.no_duplicates(),
    ensures
        s.remove(i).no_duplicates(),
        s.remove(i).to_set() =~= s.to_set().remove(s[i]),
        forall|e: usize| s.remove(i).contains(e) ==> s.contains(e),
{
    let t = s.remove(i);
    s.remove_ensures(i);
    assert forall|e: usize| t.contains(e) implies s.contains(e) by {
        let k = choose|k: int| 0 <= k < t.len() && t[k] == e;
        if k < i {
            assert(s[k] == e);
        } else {
            assert(s[k + 1] == e);
        }
    }
    assert forall|e: usize| t.contains(e) implies e != s[i] by {
        let k = choose|k: int| 0 <= k < t.len() && t[k] == e;
        if k < i {
            assert(s[k] == e);
        } else {
            assert(s[k + 1] == e);
        }
    }
    assert forall|e: usize| s.contains(e) && e != s[i] implies t.contains(e) by {
        let k = choose|k: int| 0 <= k < s.len() && s[k] == e;
        if k < i {
            assert(t[k] == e);
        } else {
            assert(k > i);
            assert(t[k - 1] == e);
        }
    }
    assert forall|a: int, b: int| 0 <= a < b < t.len() implies t[a] != t[b] by {
        if b < i {
        } else if a < i {
            assert(t[a] == s[a] && t[b] == s[b + 1]);
        } else {
            assert(t[a] == s[a + 1] && t[b] == s[b + 1]);
        }
    }
}

/// Appending a fresh element adds exactly that value to the sequence's set.
proof fn lemma_push_to_set(s: Seq<usize>, x: usize)
    ensures
        s.push(x).to_set() =~= s.to_set().insert(x),
        s.no_duplicates() && !s.contains(x) ==> s.push(x).no_duplicates(),
{
    assert forall|e: usize| s.push(x).contains(e) implies s.to_set().insert(x).contains(e) by {
        let k = choose|k: int| 0 <= k < s.push(x).len() && s.push(x)[k] == e;
        if k < s.len() {
            assert(s[k] == e);
        }
    }
    assert forall|e: usize| s.to_set().insert(x).contains(e) implies s.push(x).contains(e) by {
        if e == x {
            assert(s.push(x)[s.len() as int] == x);
        } else {
            let k = choose|k: int| 0 <= k < s.len() && s[k] == e;
            assert(s.push(x)[k] == e);
        }
    }
}

/// Removes a value from a duplicate-free vector, keeping the others in
/// order. Without the value the vector is unchanged.
fn remove_value(v: &mut Vec<usize>, x: usize)
    requires
        old(v)@.no_duplicates(),
    ensures
        final(v)@.no_duplicates(),
        final(v)@.to_set() == old(v)@.to_set().remove(x),
        forall|e: usize| final(v)@.contains(e) ==> old(v)@.contains(e),
{
    let ghost v0 = v@;
    let n = v.len();
    let mut i: usize = 0;
    while i < n
        invariant
            0 <= i <= n,
            n == v@.len(),
            v@ == v0,
            v0.no_duplicates(),
            v0 == old(v)@,
            forall|k: int| 0 <= k < i ==> v@[k] != x,
        decreases n - i,
    {
        if v[i] == x {
            proof {
                assert(v@.no_duplicates());
                lemma_remove_at(v@, i as int);
            }
            v.remove(i);
            return ;
        }
        i = i + 1;
    }
    proof {
        assert(!v@.contains(x));
        assert(v@.to_set() =~= v@.to_set().remove(x));
    }
}

/// Milliseconds one note lasts at a given tempo.
pub fn note_duration_ms(bpm: u16, d: crate::model::Duration) -> (r: u64)
    requires
        bpm >= 1,
        d.denominator >= 1,
    ensures
        r == spec_duration_ms(bpm, d),
        r <= 15_300_000,
{
    let quarter: u64 = 60000 / (bpm as u64);
    assert(quarter <= 60000);
    assert(quarter * (d.numerator as u64) <= 15_300_000) by (nonlinear_arith)
        requires
            quarter <= 60000,
            d.numerator <= 255,
    ;
    let scaled = quarter * (d.numerator as u64);
    assert(scaled / (d.denominator as u64) <= scaled) by (nonlinear_arith)
        requires
            d.denominator >= 1,
    ;
    scaled / (d.denominator as u64)
}

/// Samples a duration spans at [`crate::SAMPLE_RATE`], rounded to nearest.
pub fn num_samples(duration_ms: u64) -> (r: u64)
    requires
        duration_ms <= 15_300_000,
    ensures
        r == (crate::SAMPLE_RATE * duration_ms + 500) / 1000,
{
    (44100 * duration_ms + 500) / 1000
}

/// Everything one `iterate` call does, as a relation between the state
/// before, the state after, and the returned audio.
pub open spec fn iterate_rel(pre: SongContext, post: SongContext, r: Option<NoteAudio>) -> bool {
    let i = pre.instructions@[pre.pc as int];
    &&& post.pc == pre.pc + 1
    &&& post.instructions == pre.instructions
    &&& post.skip_to_note_index == pre.skip_to_note_index
    &&& post.music() == step_music(pre.music(), i)
    &&& (post.on_set(), post.off_on_next_tick, post.on_harmony) == hl_step(
        pre.on_set(),
        pre.off_on_next_tick,
        pre.on_harmony,
        i,
        pre.pc,
    )
    &&& match (r, audio_of(pre.music(), pre.pc as int, pre.skip_to_note_index, i)) {
        (Some(a), Some(m)) => a.duration_ms == m.0 && a.pitches() == m.1,
        (None, None) => true,
        _ => false,
    }
}

impl SongContext {
    /// Evaluates the current instruction and advances past it: the musical
    /// context absorbs setters, a played note at or past the skip-to target
    /// yields its audio, and the highlight state pulses the evaluated
    /// instruction (harmony markers instead stay lit until replaced).
    pub fn iterate(&mut self) -> (r: Option<NoteAudio>)
        requires
            old(self).wf(),
            old(self).pc < old(self).instructions@.len(),
        ensures
            final(self).wf(),
            iterate_rel(*old(self), *final(self), r),
    {
        let ghost pre = *self;
        let n = self.instructions.len();
        let inst = self.instructions[self.pc];
        if let Some(j) = self.off_on_next_tick {
            remove_value(&mut self.on_instructions, j);
        }
        let ghost cleared = self.on_instructions@.to_set();
        proof {
            assert(wf_instruction(pre.instructions@[pre.pc as int]));
            assert(forall|e: usize|
                self.on_instructions@.contains(e) ==> pre.on_instructions@.contains(e));
            assert forall|k: int|
                0 <= k < self.on_instructions@.len() implies (#[trigger] self.on_instructions@[k]
                < pre.pc && self.on_instructions@[k] < n) by {
                assert(self.on_instructions@.contains(self.on_instructions@[k]));
                let e = self.on_instructions@[k];
                let k0 = choose|k0: int|
                    0 <= k0 < pre.on_instructions@.len() && pre.on_instructions@[k0] == e;
                assert(pre.on_instructions@[k0] < pre.pc);
            }
        }
        let audio: Option<NoteAudio> = match inst {
            Instruction::SetBPM(bpm) => {
                self.bpm = bpm;
                None
            },
            Instruction::SetKey(key) => {
                self.key = key;
                None
            },
            Instruction::SetScale(scale) => {
                self.scale = scale;
                None
            },
            Instruction::SetHarmony(h) => {
                self.harmony = Some(h);
                None
            },
            Instruction::SkipToNote => None,
            Instruction::PlayNote(n) => {
                let skipped = match self.skip_to_note_index {
                    Some(t) => self.pc < t,
                    None => false,
                };
                if skipped {
                    None
                } else {
                    let duration_ms = note_duration_ms(self.bpm, n.duration);
                    let mut stack: Vec<i32> = match self.harmony {
                        Some(h) => chord_semitones(self.key, self.scale, h),
                        None => Vec::new(),
                    };
                    let melody = pitch_semitones(self.key, self.scale, n.pitch);
                    let ghost chord_part = stack@.map_values(|x: i32| x as int);
                    stack.push(melody);
                    proof {
                        assert(stack@.map_values(|x: i32| x as int) =~= chord_part + seq![
                            melody as int,
                        ]);
                        assert(chord_part + seq![melody as int] == spec_note_stack(
                            pre.music(),
                            n,
                        )) by {
                            if pre.harmony is None {
                                assert(chord_part =~= Seq::<int>::empty());
                                assert(chord_part + seq![melody as int] =~= seq![melody as int]);
                                assert(spec_note_stack(pre.music(), n) =~= seq![melody as int]);
                            }
                        }
                    }
                    Some(NoteAudio { duration_ms, semitones: stack })
                }
            },
        };
        match inst {
            Instruction::SetHarmony(_) => {
                if let Some(j) = self.on_harmony {
                    remove_value(&mut self.on_instructions, j);
                }
                proof {
                    assert forall|k: int|
                        0 <= k < self.on_instructions@.len() implies (
                        #[trigger] self.on_instructions@[k] < pre.pc
                            && self.on_instructions@[k] < n) by {
                        assert(self.on_instructions@.contains(self.on_instructions@[k]));
                        let e = self.on_instructions@[k];
                        let k0 = choose|k0: int|
                            0 <= k0 < pre.on_instructions@.len() && pre.on_instructions@[k0] == e;
                        assert(pre.on_instructions@[k0] < pre.pc);
                    }
                    assert(!self.on_instructions@.contains(self.pc));
                    lemma_push_to_set(self.on_instructions@, self.pc);
                }
                self.on_instructions.push(self.pc);
                self.on_harmony = Some(self.pc);
            },
            _ => {
                proof {
                    assert(!self.on_instructions@.contains(self.pc));
                    lemma_push_to_set(self.on_instructions@, self.pc);
                }
                self.on_instructions.push(self.pc);
                self.off_on_next_tick = Some(self.pc);
            },
        }
        self.pc = self.pc + 1;
        proof {
            let i0 = pre.instructions@[pre.pc as int];
            let h = hl_step(pre.on_set(), pre.off_on_next_tick, pre.on_harmony, i0, pre.pc);
            assert(self.on_set() =~= h.0);
            assert forall|k: int|
                0 <= k < self.on_instructions@.len() implies (#[trigger] self.on_instructions@[k]
                < self.pc && self.on_instructions@[k] < n) by {
                assert(self.on_instructions@.contains(self.on_instructions@[k]));
            }
        }
        audio
    }
}

/// The highlight state left after evaluating every instruction of `s` from
/// `pc` on, one [`hl_step`] each.
pub open spec fn hl_fold(
    on: Set<usize>,
    off: Option<usize>,
    onh: Option<usize>,
    s: Seq<Instruction>,
    pc: int,
) -> (Set<usize>, Option<usize>, Option<usize>)
    decreases s.len() - pc,
{
    if pc < 0 || pc >= s.len() {
        (on, off, onh)
    } else {
        let h = hl_step(on, off, onh, s[pc], pc as usize);
        hl_fold(h.0, h.1, h.2, s, pc + 1)
    }
}

/// The audio produced by evaluating every instruction of `s` from `pc` on
/// in music context `m`, and the final music context. Each element of the
/// audio sequence is a duration in milliseconds paired with a pitch stack.
pub open spec fn play_fold(m: MusicCtx, s: Seq<Instruction>, pc: int, skip: Option<usize>) -> (
    MusicCtx,
    Seq<(int, Seq<int>)>,
)
    decreases s.len() - pc,
{
    if pc < 0 || pc >= s.len() {
        (m, Seq::empty())
    } else {
        let audio = audio_of(m, pc, skip, s[pc]);
        let m2 = step_music(m, s[pc]);
        let folded = play_fold(m2, s, pc + 1, skip);
        let out = match audio {
            Some(a) => seq![a] + folded.1,
            None => folded.1,
        };
        (folded.0, out)
    }
}

impl SongContext {
    /// Evaluates every remaining instruction in order and collects the
    /// audio of the notes that sound. Equivalent to calling [`Self::iterate`]
    /// until [`Self::is_done`].
    pub fn play(&mut self) -> (r: Vec<NoteAudio>)
        requires
            old(self).wf(),
        ensures
            final(self).wf(),
            final(self).instructions == old(self).instructions,
            final(self).skip_to_note_index == old(self).skip_to_note_index,
            final(self).pc as int == if old(self).pc as int >= old(self).instructions@.len() {
                old(self).pc as int
            } else {
                old(self).instructions@.len() as int
            },
            final(self).music() == play_fold(
                old(self).music(),
                old(self).instructions@,
                old(self).pc as int,
                old(self).skip_to_note_index,
            ).0,
            events_of(r@) == play_fold(
                old(self).music(),
                old(self).instructions@,
                old(self).pc as int,
                old(self).skip_to_note_index,
            ).1,
            (final(self).on_set(), final(self).off_on_next_tick, final(self).on_harmony)
                == hl_fold(
                old(self).on_set(),
                old(self).off_on_next_tick,
                old(self).on_harmony,
                old(self).instructions@,
                old(self).pc as int,
            ),
    {
        let ghost m0 = old(self).music();
        let ghost s = old(self).instructions@;
        let ghost pc0 = old(self).pc as int;
        let ghost skip = old(self).skip_to_note_index;
        let ghost hl0 = (old(self).on_set(), old(self).off_on_next_tick, old(self).on_harmony);
        let mut out: Vec<NoteAudio> = Vec::new();
        proof {
            assert(events_of(out@) =~= Seq::<(int, Seq<int>)>::empty());
        }
        while !(self.pc >= self.instructions.len())
            invariant
                self.wf(),
                self.instructions == old(self).instructions,
                self.skip_to_note_index == old(self).skip_to_note_index,
                s == self.instructions@,
                skip == self.skip_to_note_index,
                pc0 >= s.len() ==> self.pc as int == pc0,
                pc0 < s.len() ==> pc0 <= self.pc as int <= s.len(),
                play_fold(m0, s, pc0, skip).0 == play_fold(
                    self.music(),
                    s,
                    self.pc as int,
                    skip,
                ).0,
                play_fold(m0, s, pc0, skip).1 == events_of(out@) + play_fold(
                    self.music(),
                    s,
                    self.pc as int,
                    skip,
                ).1,
                hl_fold(hl0.0, hl0.1, hl0.2, s, pc0) == hl_fold(
                    self.on_set(),
                    self.off_on_next_tick,
                    self.on_harmony,
                    s,
                    self.pc as int,
                ),
            decreases s.len() - self.pc,
        {
            let ghost pre = *self;
            let audio = self.iterate();
            proof {
                let i0 = s[pre.pc as int];
                assert(play_fold(pre.music(), s, pre.pc as int, skip).0 == play_fold(
                    self.music(),
                    s,
                    self.pc as int,
                    skip,
                ).0);
                let rest = play_fold(self.music(), s, self.pc as int, skip).1;
                match audio_of(pre.music(), pre.pc as int, skip, i0) {
                    Some(a) => {
                        assert(play_fold(pre.music(), s, pre.pc as int, skip).1 == seq![a] + rest);
                    },
                    None => {
                        assert(play_fold(pre.music(), s, pre.pc as int, skip).1 == rest);
                    },
                }
                assert(hl_fold(
                    pre.on_set(),
                    pre.off_on_next_tick,
                    pre.on_harmony,
                    s,
                    pre.pc as int,
                ) == hl_fold(self.on_set(), self.off_on_next_tick, self.on_harmony, s, self.pc as int));
            }
            match audio {
                Some(a) => {
                    let ghost out_pre = out@;
                    let ghost ga = a;
                    proof {
                        match audio_of(pre.music(), pre.pc as int, skip, s[pre.pc as int]) {
                            Some(av) => {
                                assert(ga.duration_ms as int == av.0);
                                assert(ga.pitches() == av.1);
                                assert(ga.event() == (av.0, av.1));
                                assert((av.0, av.1) =~= av);
                            },
                            None => {
                                assert(false);
                            },
                        }
                    }
                    out.push(a);
                    proof {
                        let rest = play_fold(self.music(), s, self.pc as int, skip).1;
                        assert(events_of(out@) =~= events_of(out_pre).push(ga.event()));
                        assert(events_of(out_pre).push(ga.event()) + rest =~= events_of(out_pre)
                            + (seq![ga.event()] + rest));
                    }
                },
                None => {
                },
            }
        }
        out
    }
}

/// A silent instruction (tempo, key or scale change) never produces audio:
/// evaluating it through `iterate` returns no samples, whatever the context,
/// position and skip target, and the program counter still advances by one
/// (that advance is part of `iterate`'s contract).
pub proof fn lemma_silent_instructions_no_audio(
    m: MusicCtx,
    pc: int,
    skip: Option<usize>,
    i: Instruction,
)
    requires
        i matches Instruction::SetBPM(_) || i matches Instruction::SetKey(_) || i
            matches Instruction::SetScale(_),
    ensures
        audio_of(m, pc, skip, i) is None,
{
}

/// A played note strictly before the skip-to target renders no samples,
/// while the musical context is updated exactly as it would otherwise be
/// (a note changes nothing of it).
pub proof fn lemma_skip_target_silences(m: MusicCtx, pc: int, t: usize, i: Instruction)
    requires
        i matches Instruction::PlayNote(_),
        pc < t,
    ensures
        audio_of(m, pc, Some(t), i) is None,
        step_music(m, i) == m,
{
}

/// A harmony marker's highlight persists: any following instruction that is
/// not itself a harmony marker keeps the lit harmony index lit and leaves
/// the harmony highlight in place. (The interpreter's invariant guarantees
/// the pending-off index never points at a harmony marker.)
pub proof fn lemma_harmony_highlight_persists(pre: SongContext, h: usize)
    requires
        pre.wf(),
        pre.pc < pre.instructions@.len(),
        !(pre.instructions@[pre.pc as int] matches Instruction::SetHarmony(_)),
        pre.on_harmony == Some(h),
    ensures
        ({
            let r = hl_step(
                pre.on_set(),
                pre.off_on_next_tick,
                pre.on_harmony,
                pre.instructions@[pre.pc as int],
                pre.pc,
            );
            r.2 == Some(h) && (pre.on_set().contains(h) ==> r.0.contains(h))
        }),
{
    match pre.off_on_next_tick {
        Some(j) => {
            assert(j != h);
        },
        None => {
        },
    }
}

} // verus!
