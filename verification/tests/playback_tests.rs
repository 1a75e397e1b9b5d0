use rejectsynth::model::{
    Accidental, Duration, Harmony, Instruction, Key, Note, NotePitch, NotePitchEnum, Scale, ABC,
};
use rejectsynth::playback::{find_skip_to_index, note_duration_ms, num_samples, SongContext};
use rejectsynth::songs::{fairy, kalm};

fn quarter_note(degree: u8) -> Instruction {
    Instruction::PlayNote(Note {
        duration: Duration { numerator: 1, denominator: 1 },
        pitch: NotePitch {
            enum_: NotePitchEnum::ScaleDegree(degree),
            octave: 0,
            accidental: Accidental::Natural,
        },
        ties_to_next: false,
        ties_to_prev: false,
    })
}

#[test]
fn durations_follow_the_tempo() {
    let quarter = Duration { numerator: 1, denominator: 1 };
    assert_eq!(note_duration_ms(120, quarter), 500);
    assert_eq!(note_duration_ms(60, quarter), 1000);
    let eighth = Duration { numerator: 1, denominator: 2 };
    assert_eq!(note_duration_ms(120, eighth), 250);
    let dotted = Duration { numerator: 3, denominator: 2 };
    assert_eq!(note_duration_ms(120, dotted), 750);
    // 70 beats per minute truncates to 857 ms per quarter
    assert_eq!(note_duration_ms(70, quarter), 857);
}

#[test]
fn sample_counts_round_to_nearest() {
    assert_eq!(num_samples(1000), 44100);
    assert_eq!(num_samples(500), 22050);
    assert_eq!(num_samples(1), 44);
    assert_eq!(num_samples(0), 0);
}

#[test]
fn silent_instructions_return_no_audio_and_advance() {
    let instructions = vec![
        Instruction::SetBPM(90),
        Instruction::SetKey(Key { abc: ABC::E, accidental: Accidental::Natural }),
        Instruction::SetScale(Scale::Minor),
    ];
    let mut ctx = SongContext::default(instructions);
    assert_eq!(ctx.pc, 0);
    assert!(ctx.iterate().is_none());
    assert_eq!(ctx.pc, 1);
    assert_eq!(ctx.bpm, 90);
    assert!(ctx.iterate().is_none());
    assert_eq!(ctx.pc, 2);
    assert!(matches!(ctx.key.abc, ABC::E));
    assert!(ctx.iterate().is_none());
    assert_eq!(ctx.pc, 3);
    assert!(matches!(ctx.scale, Scale::Minor));
    assert!(ctx.is_done());
}

#[test]
fn skip_advances_without_evaluating() {
    let mut ctx = SongContext::default(vec![Instruction::SetBPM(90)]);
    ctx.skip();
    assert_eq!(ctx.pc, 1);
    assert_eq!(ctx.bpm, 120);
    assert!(ctx.is_done());
}

#[test]
fn skip_to_target_is_first_note_after_first_marker() {
    let instructions = vec![
        Instruction::SetBPM(90),
        Instruction::SkipToNote,
        quarter_note(1),
        quarter_note(2),
    ];
    assert_eq!(find_skip_to_index(&instructions), Some(2));
    let no_marker = vec![quarter_note(1)];
    assert_eq!(find_skip_to_index(&no_marker), None);
    let marker_without_note = vec![quarter_note(1), Instruction::SkipToNote];
    assert_eq!(find_skip_to_index(&marker_without_note), None);
    let note_before_marker = vec![quarter_note(1), Instruction::SkipToNote, quarter_note(2)];
    assert_eq!(find_skip_to_index(&note_before_marker), Some(2));
}

#[test]
fn notes_before_the_skip_target_render_no_samples() {
    let instructions = vec![
        Instruction::SetBPM(90),
        quarter_note(1),
        Instruction::SkipToNote,
        quarter_note(2),
    ];
    let mut ctx = SongContext::default(instructions);
    assert_eq!(ctx.skip_to_note_index, Some(3));
    assert!(ctx.iterate().is_none()); // SetBPM applies silently
    assert_eq!(ctx.bpm, 90);
    assert!(ctx.iterate().is_none()); // the note before the target is silent
    assert!(ctx.iterate().is_none()); // the marker itself is silent
    let audio = ctx.iterate().expect("the target note sounds");
    // the earlier tempo change still took effect: 60000 / 90 = 666 ms
    assert_eq!(audio.duration_ms, 666);
    // C major degree 2 sits 5 semitones above A440
    assert_eq!(audio.semitones, vec![5]);
    assert!(ctx.is_done());
}

#[test]
fn notes_at_or_past_the_target_render_normally() {
    let instructions = vec![
        Instruction::SetBPM(90),
        Instruction::SkipToNote,
        quarter_note(1),
        quarter_note(2),
    ];
    let mut ctx = SongContext::default(instructions);
    assert_eq!(ctx.skip_to_note_index, Some(2));
    assert!(ctx.iterate().is_none());
    assert!(ctx.iterate().is_none());
    // the first note after the marker is the target itself, so it sounds
    assert!(ctx.iterate().is_some());
    assert!(ctx.iterate().is_some());
}

#[test]
fn played_note_carries_chord_and_melody() {
    let instructions = vec![
        Instruction::SetHarmony(Harmony { scale: Scale::Major, degree: 1, add_7: false, shift: 0 }),
        quarter_note(5),
    ];
    let mut ctx = SongContext::default(instructions);
    assert!(ctx.iterate().is_none());
    let audio = ctx.iterate().unwrap();
    // C major triad [3, 7, 10] under the melody's degree 5 (7 semitones up)
    assert_eq!(audio.semitones, vec![3, 7, 10, 10]);
    assert_eq!(audio.duration_ms, 500);
}

#[test]
fn highlight_pulses_for_one_step() {
    let instructions = vec![Instruction::SetBPM(90), quarter_note(1), quarter_note(2)];
    let mut ctx = SongContext::default(instructions);
    assert!(ctx.on_instructions.is_empty());
    ctx.iterate();
    assert_eq!(ctx.on_instructions, vec![0]);
    ctx.iterate();
    assert_eq!(ctx.on_instructions, vec![1]);
    ctx.iterate();
    assert_eq!(ctx.on_instructions, vec![2]);
}

#[test]
fn harmony_highlight_persists_until_replaced() {
    let instructions = vec![
        Instruction::SetHarmony(Harmony { scale: Scale::Minor, degree: 1, add_7: false, shift: 0 }),
        quarter_note(1),
        quarter_note(2),
        Instruction::SetHarmony(Harmony { scale: Scale::Minor, degree: 5, add_7: false, shift: 0 }),
    ];
    let mut ctx = SongContext::default(instructions);
    ctx.iterate();
    assert_eq!(ctx.on_instructions, vec![0]);
    ctx.iterate();
    // the harmony marker stays lit while its notes play
    assert_eq!(ctx.on_instructions, vec![0, 1]);
    ctx.iterate();
    assert_eq!(ctx.on_instructions, vec![0, 2]);
    ctx.iterate();
    // the next harmony marker replaces it
    assert_eq!(ctx.on_instructions, vec![3]);
}

#[test]
fn play_renders_each_note_once() {
    let mut ctx = SongContext::default(fairy());
    let audios = ctx.play();
    assert_eq!(audios.len(), 32);
    assert!(ctx.is_done());
    // fairy plays plain quarter notes at 90 beats per minute
    assert!(audios.iter().all(|a| a.duration_ms == 666));
    // no harmony is ever set, so each note is a single pitch
    assert!(audios.iter().all(|a| a.semitones.len() == 1));
    // the first note: G minor tonic (10) one whole step up (degree 2) = 12
    assert_eq!(audios[0].semitones, vec![12]);
}

#[test]
fn play_kalm_stacks_chords_under_the_melody() {
    let mut ctx = SongContext::default(kalm());
    let audios = ctx.play();
    assert_eq!(audios.len(), 42);
    // after the first harmony marker each note carries a triad plus melody
    assert_eq!(audios[0].semitones.len(), 4);
    // the seventh chords carry five pitches
    assert_eq!(audios[41].semitones.len(), 5);
}

#[test]
fn current_instruction_reads_the_next_step() {
    let ctx = SongContext::default(vec![Instruction::SetBPM(90)]);
    assert!(matches!(ctx.current_instruction(), Instruction::SetBPM(90)));
}
