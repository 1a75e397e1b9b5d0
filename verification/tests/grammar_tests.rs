use rejectsynth::grammar::song;
use rejectsynth::model::{Accidental, Harmony, Instruction, Scale, ABC};

#[test]
fn bpm_line_parses_to_one_instruction() {
    let v = song("bpm 70").unwrap();
    assert_eq!(v.len(), 1);
    assert!(matches!(v[0].instruction, Instruction::SetBPM(70)));
    assert_eq!(v[0].l, 0);
    assert_eq!(v[0].r, 6);
}

#[test]
fn key_line_parses_to_natural_key() {
    let v = song("key E").unwrap();
    assert_eq!(v.len(), 1);
    match v[0].instruction {
        Instruction::SetKey(k) => {
            assert!(matches!(k.abc, ABC::E));
            assert!(matches!(k.accidental, Accidental::Natural));
        },
        _ => panic!("expected a key instruction"),
    }
}

#[test]
fn scale_lines_parse() {
    let v = song("scale major").unwrap();
    assert!(matches!(v[0].instruction, Instruction::SetScale(Scale::Major)));
    let v = song("scale minor").unwrap();
    assert!(matches!(v[0].instruction, Instruction::SetScale(Scale::Minor)));
}

fn only_note(text: &str) -> rejectsynth::model::Note {
    let v = song(text).unwrap();
    assert_eq!(v.len(), 1);
    match v[0].instruction {
        Instruction::PlayNote(n) => n,
        _ => panic!("expected a note"),
    }
}

#[test]
fn leading_tilde_halves_duration() {
    let n = only_note("~4");
    assert_eq!(n.duration.numerator, 1);
    assert_eq!(n.duration.denominator, 2);
}

#[test]
fn trailing_tilde_doubles_duration() {
    let n = only_note("4~");
    assert_eq!(n.duration.numerator, 2);
    assert_eq!(n.duration.denominator, 1);
}

#[test]
fn dot_extends_duration_by_half() {
    let n = only_note("4.");
    assert_eq!(n.duration.numerator, 3);
    assert_eq!(n.duration.denominator, 2);
}

#[test]
fn double_tildes_on_both_sides() {
    let n = only_note("~~4~~");
    assert_eq!(n.duration.numerator, 4);
    assert_eq!(n.duration.denominator, 4);
}

#[test]
fn plain_note_is_a_quarter() {
    let n = only_note("4");
    assert_eq!(n.duration.numerator, 1);
    assert_eq!(n.duration.denominator, 1);
    match n.pitch.enum_ {
        rejectsynth::model::NotePitchEnum::ScaleDegree(d) => assert_eq!(d, 4),
    }
    assert_eq!(n.pitch.octave, 0);
    assert!(matches!(n.pitch.accidental, Accidental::Natural));
    assert!(!n.ties_to_next);
    assert!(!n.ties_to_prev);
}

#[test]
fn trailing_tilde_then_dot_combine() {
    let n = only_note("1~.");
    assert_eq!(n.duration.numerator, 6);
    assert_eq!(n.duration.denominator, 2);
}

#[test]
fn octave_shifts_and_accidentals() {
    let n = only_note("-5");
    assert_eq!(n.pitch.octave, -1);
    let n = only_note("--5");
    assert_eq!(n.pitch.octave, -2);
    let n = only_note("++5");
    assert_eq!(n.pitch.octave, 2);
    let n = only_note("5#");
    assert!(matches!(n.pitch.accidental, Accidental::Sharp));
    let n = only_note("5b");
    assert!(matches!(n.pitch.accidental, Accidental::Flat));
}

#[test]
fn octave_run_precedes_the_tilde_run() {
    let n = only_note("-~4");
    assert_eq!(n.pitch.octave, -1);
    assert_eq!(n.duration.numerator, 1);
    assert_eq!(n.duration.denominator, 2);
    // the reverse order is not a note token
    assert!(song("~-4").is_err());
}

#[test]
fn tie_markers_are_recorded() {
    let n = only_note("_~1");
    assert!(n.ties_to_prev);
    assert!(!n.ties_to_next);
    assert_eq!(n.duration.denominator, 2);
    let n = only_note("1_");
    assert!(n.ties_to_next);
    assert!(!n.ties_to_prev);
}

#[test]
fn full_note_token() {
    let n = only_note("_--~~4#~~._");
    assert!(n.ties_to_prev);
    assert!(n.ties_to_next);
    assert_eq!(n.pitch.octave, -2);
    assert!(matches!(n.pitch.accidental, Accidental::Sharp));
    // two leading tildes: denominator 4; two trailing: numerator 4; the dot
    // then makes it 12/8
    assert_eq!(n.duration.numerator, 12);
    assert_eq!(n.duration.denominator, 8);
}

fn only_harmony(text: &str) -> Harmony {
    let v = song(text).unwrap();
    assert_eq!(v.len(), 1);
    match v[0].instruction {
        Instruction::SetHarmony(h) => h,
        _ => panic!("expected a harmony marker"),
    }
}

#[test]
fn harmony_markers_parse() {
    let h = only_harmony("III:");
    assert!(matches!(h.scale, Scale::Major));
    assert_eq!(h.degree, 3);
    assert!(!h.add_7);
    assert_eq!(h.shift, 0);

    let h = only_harmony("vi7:");
    assert!(matches!(h.scale, Scale::Minor));
    assert_eq!(h.degree, 6);
    assert!(h.add_7);

    let h = only_harmony("<i:");
    assert_eq!(h.shift, -1);

    let h = only_harmony("<<V7:");
    assert_eq!(h.shift, -2);
    assert_eq!(h.degree, 5);
    assert!(h.add_7);
    assert!(matches!(h.scale, Scale::Major));
}

#[test]
fn skip_marker_parses() {
    let v = song(">").unwrap();
    assert!(matches!(v[0].instruction, Instruction::SkipToNote));
}

#[test]
fn separators_allow_commas_and_whitespace() {
    assert_eq!(song("4 , 5").unwrap().len(), 2);
    assert_eq!(song("4,5").unwrap().len(), 2);
    assert_eq!(song("4\n5").unwrap().len(), 2);
    assert_eq!(song("4\r\n5").unwrap().len(), 2);
    assert_eq!(song("4  \t 5").unwrap().len(), 2);
}

#[test]
fn empty_input_is_an_empty_song() {
    assert_eq!(song("").unwrap().len(), 0);
    assert_eq!(song("  \n ").unwrap().len(), 0);
}

#[test]
fn unparseable_input_reports_its_offset() {
    let e = song("xyz").unwrap_err();
    assert_eq!(e.offset, 0);
    let e = song("bpm 70 xyz").unwrap_err();
    assert_eq!(e.offset, 7);
    // a bare "bpm" without a number is no instruction
    assert!(song("bpm").is_err());
    // a trailing comma is not consumed
    assert!(song("4,").is_err());
    // a second leading zero cannot follow a parsed "0"
    assert!(song("00").is_err());
    // a lone carriage return is not whitespace
    assert!(song("4\r5").is_err());
}

#[test]
fn wide_numbers_are_narrowed() {
    let v = song("bpm 70000").unwrap();
    // 70000 modulo 2^16
    assert!(matches!(v[0].instruction, Instruction::SetBPM(4464)));
    let n = only_note("300");
    match n.pitch.enum_ {
        // 300 modulo 2^8
        rejectsynth::model::NotePitchEnum::ScaleDegree(d) => assert_eq!(d, 44),
    }
}

#[test]
fn spans_cover_instructions() {
    let v = song("bpm 70\nkey E").unwrap();
    assert_eq!(v.len(), 2);
    assert_eq!((v[0].l, v[0].r), (0, 6));
    assert_eq!((v[1].l, v[1].r), (7, 12));
}

#[test]
fn kalm_text_parses() {
    let text = "bpm 70\nkey E\nscale minor\n\nIII: ~4 ~3 ~2 ~3 , 4 -~5 -~7\ni: ~2 , ~1 , 1~.\n";
    let v = song(text).unwrap();
    assert_eq!(v.len(), 15);
}
