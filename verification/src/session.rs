//! An interactive playback session over a piece of notation text: parse the
//! text, validate it, then step through it note by note, honouring an
//! optional source-range selection and reporting which spans to highlight.

use vstd::prelude::*;

verus! {

use vstd::string::StringSliceAdditionalSpecFns;
use crate::grammar::{sp_err_offset, sp_song};
use crate::model::{Instruction, SpannedInstruction};
use crate::playback::{
    audio_of,
    iterate_rel,
    step_music,
    wf_instruction,
    wf_instructions,
    spec_skip_target,
    MusicCtx,
    NoteAudio,
    SongContext,
};
use crate::spans::{parse, syntax_matches, Syntax};

/// Why a piece cannot be played: its text does not parse (the offset of the
/// unparseable token), or an instruction carries a value the interpreter
/// rejects, such as scale degree 0 or a tempo of 0 (the instruction's index).
#[derive(Clone, Copy, PartialEq, Eq, Structural, Debug)]
pub enum SongError {
    Syntax { offset: usize },
    Semantic { index: usize },
}

/// The instructions of a spanned instruction sequence.
pub open spec fn instructions_of(s: Seq<SpannedInstruction>) -> Seq<Instruction> {
    s.map_values(|si: SpannedInstruction| si.instruction)
}

/// Index of the first instruction at or after `i` that the interpreter
/// would reject.
pub open spec fn first_ill_formed(s: Seq<Instruction>, i: int) -> Option<int>
    decreases s.len() - i,
{
    if i < 0 || i >= s.len() {
        None
    } else if !wf_instruction(s[i]) {
        Some(i)
    } else {
        first_ill_formed(s, i + 1)
    }
}

fn check_wf(instructions: &Vec<Instruction>) -> (r: Option<usize>)
    ensures
        match r {
            Some(i) => first_ill_formed(instructions@, 0) == Some(i as int),
            None => first_ill_formed(instructions@, 0) is None && wf_instructions(instructions@),
        },
{
    let n = instructions.len();
    let mut i: usize = 0;
    loop
        invariant
            0 <= i <= n,
            n == instructions@.len(),
            first_ill_formed(instructions@, 0) == first_ill_formed(instructions@, i as int),
            forall|k: int| 0 <= k < i ==> wf_instruction(#[trigger] instructions@[k]),
        ensures
            i <= n,
            forall|k: int| 0 <= k < i ==> wf_instruction(#[trigger] instructions@[k]),
            first_ill_formed(instructions@, 0) == (if i < n {
                Some(i as int)
            } else {
                Option::<int>::None
            }),
        decreases n - i,
    {
        if i >= n {
            break ;
        }
        let inst = &instructions[i];
        let ok = match inst {
            Instruction::SetBPM(bpm) => *bpm >= 1,
            Instruction::PlayNote(n) => {
                let d = match n.pitch.enum_ {
                    crate::model::NotePitchEnum::ScaleDegree(d) => d,
                };
                d >= 1 && n.duration.denominator >= 1
            },
            Instruction::SetHarmony(h) => h.degree >= 1,
            _ => true,
        };
        if !ok {
            break ;
        }
        i = i + 1;
    }
    if i < n {
        Some(i)
    } else {
        None
    }
}

/// One step's outcome: the audio of the note that sounded, if one did, and
/// the span metadata of every currently highlighted instruction.
pub struct PlaybackResult {
    pub audio: Option<NoteAudio>,
    pub on_syntaxes: Vec<Syntax>,
}

/// Whether the session's selection tells it to pass a note silently: the
/// instruction is a note and neither end of its span lies in the selection.
pub open spec fn selection_skips(
    selection: Option<(usize, usize)>,
    si: SpannedInstruction,
) -> bool {
    &&& si.instruction matches Instruction::PlayNote(_)
    &&& match selection {
        Some((a, b)) => !(a <= si.l <= b) && !(a <= si.r <= b),
        None => false,
    }
}

/// An interactive playback session: an interpreter, the spanned piece it
/// plays, the span metadata, and an optional source-range selection outside
/// which notes are passed silently.
pub struct SongIterator {
    pub ctx: SongContext,
    pub song: Vec<SpannedInstruction>,
    pub syntaxes: Vec<Syntax>,
    pub selection: Option<(usize, usize)>,
}

impl SongIterator {
    /// The session's invariant: a sound interpreter whose instructions are
    /// the piece's, with span metadata for each.
    pub open spec fn wf(self) -> bool {
        &&& self.ctx.wf()
        &&& self.ctx.instructions@ == instructions_of(self.song@)
        &&& self.syntaxes@.len() == self.song@.len()
    }

    /// Parses a piece and prepares to play it. A selection `(l, r)` is given
    /// in 1-based byte positions and kept 0-based. Fails on a syntax error,
    /// and on an instruction the interpreter would reject.
    pub fn from_song_text(song_text: &str, l: Option<usize>, r: Option<usize>) -> (res: Result<
        SongIterator,
        SongError,
    >)
        requires
            match (l, r) {
                (Some(a), Some(b)) => a >= 1 && b >= 1,
                _ => true,
            },
        ensures
            match res {
                Ok(it) => {
                    &&& it.wf()
                    &&& sp_song(song_text.spec_bytes()) == Some(it.song@)
                    &&& wf_instructions(it.ctx.instructions@)
                    &&& it.ctx.pc == 0
                    &&& it.ctx.music() == (MusicCtx {
                        bpm: 120,
                        key: crate::model::Key {
                            abc: crate::model::ABC::C,
                            accidental: crate::model::Accidental::Natural,
                        },
                        scale: crate::model::Scale::Major,
                        harmony: None,
                    })
                    &&& it.ctx.on_set() == Set::<usize>::empty()
                    &&& it.ctx.off_on_next_tick is None
                    &&& it.ctx.on_harmony is None
                    &&& match it.ctx.skip_to_note_index {
                        Some(t) => spec_skip_target(it.ctx.instructions@) == Some(t as int),
                        None => spec_skip_target(it.ctx.instructions@) is None,
                    }
                    &&& forall|k: int|
                        0 <= k < it.syntaxes@.len() ==> syntax_matches(
                            song_text.spec_bytes(),
                            it.song@[k],
                            #[trigger] it.syntaxes@[k],
                        )
                    &&& it.selection == match (l, r) {
                        (Some(a), Some(b)) => Some((((a - 1) as usize), ((b - 1) as usize))),
                        _ => None::<(usize, usize)>,
                    }
                },
                Err(SongError::Syntax { offset }) => sp_song(song_text.spec_bytes()) is None
                    && offset as int == sp_err_offset(song_text.spec_bytes()),
                Err(SongError::Semantic { index }) => match sp_song(song_text.spec_bytes()) {
                    Some(items) => first_ill_formed(instructions_of(items), 0) == Some(
                        index as int,
                    ),
                    None => false,
                },
            },
    {
        let pr = match parse(song_text) {
            Ok(pr) => pr,
            Err(e) => {
                return Err(SongError::Syntax { offset: e.offset });
            },
        };
        let n = pr.spanned_instructions.len();
        let mut instructions: Vec<Instruction> = Vec::new();
        let mut k: usize = 0;
        while k < n
            invariant
                0 <= k <= n,
                n == pr.spanned_instructions@.len(),
                instructions@.len() == k,
                forall|j: int|
                    0 <= j < k ==> #[trigger] instructions@[j]
                        == pr.spanned_instructions@[j].instruction,
            decreases n - k,
        {
            instructions.push(pr.spanned_instructions[k].instruction);
            k = k + 1;
        }
        proof {
            assert(instructions@ =~= instructions_of(pr.spanned_instructions@));
        }
        if let Some(index) = check_wf(&instructions) {
            return Err(SongError::Semantic { index });
        }
        let ctx = SongContext::default(instructions);
        let selection = match (l, r) {
            (Some(a), Some(b)) => Some((a - 1, b - 1)),
            _ => None,
        };
        Ok(SongIterator { ctx, song: pr.spanned_instructions, syntaxes: pr.syntaxes, selection })
    }

    /// Whether the session has reached the end of the piece.
    pub fn is_done(&self) -> (r: bool)
        ensures
            r == (self.ctx.pc >= self.ctx.instructions@.len()),
    {
        self.ctx.is_done()
    }

    /// Plays or passes the current instruction: a note outside the selection
    /// is skipped silently, everything else is evaluated by the interpreter.
    /// Returns the audio produced and the span metadata of every currently
    /// highlighted instruction, in the interpreter's order.
    pub fn play_next(&mut self) -> (r: PlaybackResult)
        requires
            old(self).wf(),
            old(self).ctx.pc < old(self).ctx.instructions@.len(),
        ensures
            final(self).wf(),
            final(self).song == old(self).song,
            final(self).syntaxes == old(self).syntaxes,
            final(self).selection == old(self).selection,
            if selection_skips(old(self).selection, old(self).song@[old(self).ctx.pc as int]) {
                final(self).ctx == (SongContext {
                    pc: (old(self).ctx.pc + 1) as usize,
                    ..old(self).ctx
                }) && r.audio is None
            } else {
                iterate_rel(old(self).ctx, final(self).ctx, r.audio)
            },
            r.on_syntaxes@.len() == final(self).ctx.on_instructions@.len(),
            forall|k: int|
                0 <= k < r.on_syntaxes@.len() ==> syntax_like(
                    #[trigger] r.on_syntaxes@[k],
                    final(self).syntaxes@[final(self).ctx.on_instructions@[k] as int],
                ),
    {
        let pc = self.ctx.pc;
        let total = self.ctx.instructions.len();
        let is_note = match self.ctx.current_instruction() {
            Instruction::PlayNote(_) => true,
            _ => false,
        };
        let mut skip_it = false;
        if is_note {
            if let Some((a, b)) = self.selection {
                let si = &self.song[pc];
                let in_sel = (a <= si.l && si.l <= b) || (a <= si.r && si.r <= b);
                if !in_sel {
                    skip_it = true;
                }
            }
        }
        let audio = if skip_it {
            self.ctx.skip();
            proof {
                assert(self.ctx.wf());
            }
            None
        } else {
            self.ctx.iterate()
        };
        let count = self.ctx.on_instructions.len();
        let mut on_syntaxes: Vec<Syntax> = Vec::new();
        let mut k: usize = 0;
        while k < count
            invariant
                0 <= k <= count,
                count == self.ctx.on_instructions@.len(),
                self.wf(),
                on_syntaxes@.len() == k,
                forall|j: int|
                    0 <= j < k ==> syntax_like(
                        #[trigger] on_syntaxes@[j],
                        self.syntaxes@[self.ctx.on_instructions@[j] as int],
                    ),
            decreases count - k,
        {
            let idx = self.ctx.on_instructions[k];
            proof {
                assert(idx < self.ctx.instructions@.len());
            }
            on_syntaxes.push(self.syntaxes[idx].duplicate());
            k = k + 1;
        }
        PlaybackResult { audio, on_syntaxes }
    }
}

/// Two span records carrying the same metadata.
pub open spec fn syntax_like(a: Syntax, b: Syntax) -> bool {
    &&& a.line_no == b.line_no
    &&& a.col_no == b.col_no
    &&& a.len == b.len
    &&& a.node_type@ == b.node_type@
}

/// The musical context after evaluating `s[i..j)` from context `m`.
pub open spec fn music_fold(m: MusicCtx, s: Seq<Instruction>, i: int, j: int) -> MusicCtx
    decreases j - i,
{
    if i >= j {
        m
    } else {
        music_fold(step_music(m, s[i]), s, i + 1, j)
    }
}

/// Folding one more instruction is stepping the fold's result once.
proof fn lemma_music_fold_snoc(m: MusicCtx, s: Seq<Instruction>, i: int, j: int)
    requires
        i <= j,
    ensures
        music_fold(m, s, i, j + 1) == step_music(music_fold(m, s, i, j), s[j]),
    decreases j - i,
{
    if i < j {
        lemma_music_fold_snoc(step_music(m, s[i]), s, i + 1, j);
    } else {
        assert(music_fold(m, s, i, j) == m);
        assert(music_fold(m, s, i, j + 1) == music_fold(step_music(m, s[i]), s, i + 1, j + 1));
        assert(music_fold(step_music(m, s[i]), s, i + 1, j + 1) == step_music(m, s[i]));
    }
}

/// What `first_ill_formed` finding an index, or none, means pointwise.
proof fn lemma_first_ill_formed(s: Seq<Instruction>, i: int)
    requires
        0 <= i,
    ensures
        match first_ill_formed(s, i) {
            Some(j) => i <= j < s.len() && !wf_instruction(s[j]),
            None => forall|k: int| i <= k < s.len() ==> wf_instruction(#[trigger] s[k]),
        },
    decreases s.len() - i,
{
    if 0 <= i && i < s.len() && wf_instruction(s[i]) {
        lemma_first_ill_formed(s, i + 1);
    }
}

/// Index of the first played note at or after `i` whose span contains `pos`.
pub open spec fn first_note_containing(s: Seq<SpannedInstruction>, pos: usize, i: int) -> Option<
    int,
>
    decreases s.len() - i,
{
    if i < 0 || i >= s.len() {
        None
    } else if (s[i].instruction matches Instruction::PlayNote(_)) && s[i].l <= pos && pos
        <= s[i].r {
        Some(i)
    } else {
        first_note_containing(s, pos, i + 1)
    }
}

/// The context every playback starts from: 120 beats per minute, C natural,
/// the major scale, no harmony.
pub open spec fn default_music() -> MusicCtx {
    MusicCtx {
        bpm: 120,
        key: crate::model::Key {
            abc: crate::model::ABC::C,
            accidental: crate::model::Accidental::Natural,
        },
        scale: crate::model::Scale::Major,
        harmony: None,
    }
}

/// The audio of the note whose span contains `pos`: every earlier
/// instruction is evaluated silently (notes are passed over, which changes
/// nothing of the context), then the note itself is played. `None` when the
/// text does not parse, an instruction is rejected, no note's span contains
/// `pos`, or the note sits before the skip-to target.
pub open spec fn spec_playback_for_note_input(s: Seq<u8>, pos: usize) -> Option<(int, Seq<int>)> {
    match sp_song(s) {
        None => None,
        Some(items) => {
            let instrs = instructions_of(items);
            if !wf_instructions(instrs) {
                None
            } else {
                match first_note_containing(items, pos, 0) {
                    None => None,
                    Some(j) => {
                        let target = match spec_skip_target(instrs) {
                            Some(t) => Some(t as usize),
                            None => None::<usize>,
                        };
                        audio_of(music_fold(default_music(), instrs, 0, j), j, target, instrs[j])
                    },
                }
            }
        },
    }
}

/// Plays just the note whose span contains `pos`, with every preceding
/// context change applied: "click here to hear this note".
pub fn playback_for_note_input(song_file: &str, pos: usize) -> (r: Option<NoteAudio>)
    ensures
        match (r, spec_playback_for_note_input(song_file.spec_bytes(), pos)) {
            (Some(a), Some(m)) => a.duration_ms == m.0 && a.pitches() == m.1,
            (None, None) => true,
            _ => false,
        },
{
    let it = match SongIterator::from_song_text(song_file, None, None) {
        Ok(it) => it,
        Err(e) => {
            proof {
                if let SongError::Semantic { index } = e {
                    match sp_song(song_file.spec_bytes()) {
                        Some(items0) => {
                            lemma_first_ill_formed(instructions_of(items0), 0);
                        },
                        None => {
                        },
                    }
                }
            }
            return None;
        },
    };
    let mut ctx = it.ctx;
    let song = it.song;
    let ghost items = song@;
    let ghost instrs = instructions_of(items);
    let n = song.len();
    proof {
        assert(ctx.instructions@.len() == n);
    }
    while ctx.pc < n
        invariant
            ctx.wf(),
            ctx.pc <= n,
            n == song@.len(),
            song@ == items,
            sp_song(song_file.spec_bytes()) == Some(items),
            ctx.instructions@ == instrs,
            instrs == instructions_of(items),
            wf_instructions(instrs),
            ctx.music() == music_fold(default_music(), instrs, 0, ctx.pc as int),
            first_note_containing(items, pos, 0) == first_note_containing(
                items,
                pos,
                ctx.pc as int,
            ),
            match ctx.skip_to_note_index {
                Some(t) => spec_skip_target(instrs) == Some(t as int),
                None => spec_skip_target(instrs) is None,
            },
        decreases n - ctx.pc,
    {
        let pc = ctx.pc;
        let is_matching_note = {
            let si = &song[pc];
            let is_note = match si.instruction {
                Instruction::PlayNote(_) => true,
                _ => false,
            };
            is_note && si.l <= pos && pos <= si.r
        };
        proof {
            assert(items[pc as int].instruction == instrs[pc as int]);
        }
        if is_matching_note {
            let ghost pre = ctx;
            let audio = ctx.iterate();
            proof {
                assert(first_note_containing(items, pos, pc as int) == Some(pc as int));
                let spec_target = match spec_skip_target(instrs) {
                    Some(t) => Some(t as usize),
                    None => None::<usize>,
                };
                assert(pre.skip_to_note_index == spec_target);
                assert(spec_playback_for_note_input(song_file.spec_bytes(), pos) == audio_of(
                    pre.music(),
                    pc as int,
                    pre.skip_to_note_index,
                    instrs[pc as int],
                ));
            }
            return audio;
        }
        let ghost pre = ctx;
        let is_note = match &song[pc].instruction {
            Instruction::PlayNote(_) => true,
            _ => false,
        };
        if is_note {
            ctx.skip();
        } else {
            ctx.iterate();
        }
        proof {
            lemma_music_fold_snoc(default_music(), instrs, 0, pc as int);
            assert(step_music(pre.music(), instrs[pc as int]) == ctx.music() || (
            instrs[pc as int] matches Instruction::PlayNote(_) && ctx.music() == pre.music()));
            assert(ctx.music() == music_fold(default_music(), instrs, 0, ctx.pc as int));
            assert(first_note_containing(items, pos, pc as int) == first_note_containing(
                items,
                pos,
                pc + 1,
            ));
        }
    }
    None
}

} // verus!
