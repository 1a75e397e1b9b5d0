use rejectsynth::session::{playback_for_note_input, SongError, SongIterator};
use rejectsynth::spans::syntax;

#[test]
fn a_piece_plays_through_a_session() {
    let mut it = SongIterator::from_song_text("bpm 60\nkey C\n1 2 3", None, None).unwrap();
    let mut audios = vec![];
    while !it.is_done() {
        let r = it.play_next();
        if let Some(a) = r.audio {
            audios.push(a);
        }
    }
    assert_eq!(audios.len(), 3);
    assert!(audios.iter().all(|a| a.duration_ms == 1000));
    assert_eq!(audios[0].semitones, vec![3]);
    assert_eq!(audios[1].semitones, vec![5]);
    assert_eq!(audios[2].semitones, vec![7]);
}

#[test]
fn harmony_highlight_is_reported_while_its_notes_play() {
    let mut it = SongIterator::from_song_text("i: 1 1 v:", None, None).unwrap();
    let r = it.play_next();
    let names: Vec<String> = r.on_syntaxes.iter().map(|s| s.node_type()).collect();
    assert_eq!(names, vec!["SetHarmony".to_string()]);
    let r = it.play_next();
    let names: Vec<String> = r.on_syntaxes.iter().map(|s| s.node_type()).collect();
    assert_eq!(names, vec!["SetHarmony".to_string(), "PlayNote".to_string()]);
    let r = it.play_next();
    let names: Vec<String> = r.on_syntaxes.iter().map(|s| s.node_type()).collect();
    assert_eq!(names, vec!["SetHarmony".to_string(), "PlayNote".to_string()]);
    let r = it.play_next();
    let names: Vec<String> = r.on_syntaxes.iter().map(|s| s.node_type()).collect();
    assert_eq!(names, vec!["SetHarmony".to_string()]);
    assert!(it.is_done());
}

#[test]
fn selection_passes_outside_notes_silently() {
    // selection (1, 1) keeps only the first note, whose span starts at 0
    let mut it = SongIterator::from_song_text("1 2", Some(1), Some(1)).unwrap();
    let r = it.play_next();
    assert!(r.audio.is_some());
    let r = it.play_next();
    assert!(r.audio.is_none());
    assert!(it.is_done());
}

#[test]
fn syntax_errors_surface_with_their_offset() {
    match SongIterator::from_song_text("xyz", None, None) {
        Err(SongError::Syntax { offset }) => assert_eq!(offset, 0),
        _ => panic!("expected a syntax error"),
    }
    match SongIterator::from_song_text("bpm 70 ??", None, None) {
        Err(SongError::Syntax { offset }) => assert_eq!(offset, 7),
        _ => panic!("expected a syntax error"),
    }
}

#[test]
fn rejected_instructions_surface_with_their_index() {
    // a tempo of zero would make note lengths undefined
    match SongIterator::from_song_text("bpm 0", None, None) {
        Err(SongError::Semantic { index }) => assert_eq!(index, 0),
        _ => panic!("expected a semantic error"),
    }
    // scale degree zero does not exist
    match SongIterator::from_song_text("key C 0", None, None) {
        Err(SongError::Semantic { index }) => assert_eq!(index, 1),
        _ => panic!("expected a semantic error"),
    }
}

#[test]
fn note_input_plays_the_note_under_the_cursor() {
    let text = "bpm 60\n1 2 3";
    // offset 9 is the second note's digit
    let audio = playback_for_note_input(text, 9).unwrap();
    assert_eq!(audio.duration_ms, 1000);
    assert_eq!(audio.semitones, vec![5]);
    // an offset on no note yields nothing
    assert!(playback_for_note_input(text, 3).is_none());
    // unparseable text yields nothing
    assert!(playback_for_note_input("??", 0).is_none());
}

#[test]
fn note_input_respects_the_skip_target() {
    // the note before the skip-to target renders no samples even when chosen
    assert!(playback_for_note_input("1 > 2", 0).is_none());
    // the target itself sounds
    assert!(playback_for_note_input("1 > 2", 4).is_some());
}

#[test]
fn note_input_applies_preceding_context() {
    // the harmony and tempo before the chosen note take effect
    let text = "bpm 120 i: 1 2";
    let pos = text.len() - 1;
    let audio = playback_for_note_input(text, pos).unwrap();
    assert_eq!(audio.duration_ms, 500);
    // C minor triad [3, 6, 10] under melody degree 2 (5 semitones)
    assert_eq!(audio.semitones, vec![3, 6, 10, 5]);
}

#[test]
fn span_metadata_lists_lines_and_columns() {
    let v = syntax("bpm 70\nkey E").unwrap();
    assert_eq!(v.len(), 2);
    assert_eq!((v[0].line_no, v[0].col_no, v[0].len), (0, 0, 6));
    assert_eq!(v[0].node_type(), "SetBPM".to_string());
    assert_eq!((v[1].line_no, v[1].col_no, v[1].len), (1, 0, 5));
    assert_eq!(v[1].node_type(), "SetKey".to_string());

    let v = syntax("bpm 70 key E").unwrap();
    assert_eq!((v[1].line_no, v[1].col_no, v[1].len), (0, 7, 5));

    let v = syntax("1 > II7: ~3.").unwrap();
    let names: Vec<String> = v.iter().map(|s| s.node_type()).collect();
    assert_eq!(
        names,
        vec![
            "PlayNote".to_string(),
            "SkipToNote".to_string(),
            "SetHarmony".to_string(),
            "PlayNote".to_string()
        ]
    );
}

#[test]
fn set_node_type_replaces_the_name() {
    let mut v = syntax("1").unwrap();
    v[0].set_node_type("Custom");
    assert_eq!(v[0].node_type(), "Custom".to_string());
}
