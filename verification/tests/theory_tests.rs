use rejectsynth::model::{Accidental, Harmony, Key, NotePitch, NotePitchEnum, Scale, ABC};
use rejectsynth::theory::{
    chord_semitones, pitch_semitones, scale_ascending, scale_degree_to_semitones, tonic_semitones,
};

#[test]
fn scale_patterns() {
    assert_eq!(scale_ascending(Scale::Major), [2, 2, 1, 2, 2, 2, 1]);
    assert_eq!(scale_ascending(Scale::Minor), [2, 1, 2, 2, 1, 2, 2]);
    assert_eq!(scale_ascending(Scale::Major).iter().map(|&x| x as i32).sum::<i32>(), 12);
    assert_eq!(scale_ascending(Scale::Minor).iter().map(|&x| x as i32).sum::<i32>(), 12);
}

#[test]
fn degree_to_semitones_basics() {
    assert_eq!(scale_degree_to_semitones(Scale::Major, 1), 0);
    assert_eq!(scale_degree_to_semitones(Scale::Major, 8), 12);
    assert_eq!(scale_degree_to_semitones(Scale::Minor, 3), 3);
    assert_eq!(scale_degree_to_semitones(Scale::Major, 3), 4);
    assert_eq!(scale_degree_to_semitones(Scale::Major, 5), 7);
    assert_eq!(scale_degree_to_semitones(Scale::Minor, 5), 7);
    assert_eq!(scale_degree_to_semitones(Scale::Minor, 7), 10);
    assert_eq!(scale_degree_to_semitones(Scale::Major, 7), 11);
}

#[test]
fn octave_periodicity_examples() {
    for d in 1..=21u8 {
        assert_eq!(
            scale_degree_to_semitones(Scale::Major, d + 7),
            scale_degree_to_semitones(Scale::Major, d) + 12
        );
        assert_eq!(
            scale_degree_to_semitones(Scale::Minor, d + 7),
            scale_degree_to_semitones(Scale::Minor, d) + 12
        );
    }
    assert_eq!(scale_degree_to_semitones(Scale::Major, 15), 24);
}

#[test]
fn tonic_offsets() {
    let key = |abc, accidental| Key { abc, accidental };
    assert_eq!(tonic_semitones(key(ABC::A, Accidental::Natural)), 0);
    assert_eq!(tonic_semitones(key(ABC::B, Accidental::Natural)), 2);
    assert_eq!(tonic_semitones(key(ABC::C, Accidental::Natural)), 3);
    assert_eq!(tonic_semitones(key(ABC::D, Accidental::Natural)), 5);
    assert_eq!(tonic_semitones(key(ABC::E, Accidental::Natural)), 7);
    assert_eq!(tonic_semitones(key(ABC::F, Accidental::Natural)), 8);
    assert_eq!(tonic_semitones(key(ABC::G, Accidental::Natural)), 10);
    assert_eq!(tonic_semitones(key(ABC::A, Accidental::Sharp)), 1);
    assert_eq!(tonic_semitones(key(ABC::A, Accidental::Flat)), -1);
}

#[test]
fn pitch_resolution() {
    let key = Key { abc: ABC::C, accidental: Accidental::Natural };
    let p = |degree, octave, accidental| NotePitch {
        enum_: NotePitchEnum::ScaleDegree(degree),
        octave,
        accidental,
    };
    // tonic of C is 3 semitones above A440
    assert_eq!(pitch_semitones(key, Scale::Major, p(1, 0, Accidental::Natural)), 3);
    // degree 2 of the major scale is a whole step up
    assert_eq!(pitch_semitones(key, Scale::Major, p(2, 0, Accidental::Natural)), 5);
    // accidentals move one semitone
    assert_eq!(pitch_semitones(key, Scale::Major, p(2, 0, Accidental::Sharp)), 6);
    assert_eq!(pitch_semitones(key, Scale::Major, p(2, 0, Accidental::Flat)), 4);
    // octave shifts move twelve
    assert_eq!(pitch_semitones(key, Scale::Major, p(1, 1, Accidental::Natural)), 15);
    assert_eq!(pitch_semitones(key, Scale::Major, p(1, -2, Accidental::Natural)), -21);
}

#[test]
fn chord_stacks() {
    let key = Key { abc: ABC::C, accidental: Accidental::Natural };
    let h = |scale, degree, add_7, shift| Harmony { scale, degree, add_7, shift };
    // a major triad on the tonic: root, major third, perfect fifth
    assert_eq!(chord_semitones(key, Scale::Major, h(Scale::Major, 1, false, 0)), vec![3, 7, 10]);
    // a minor quality narrows the third
    assert_eq!(chord_semitones(key, Scale::Major, h(Scale::Minor, 1, false, 0)), vec![3, 6, 10]);
    // the seventh stacks on top
    assert_eq!(
        chord_semitones(key, Scale::Major, h(Scale::Major, 1, true, 0)),
        vec![3, 7, 10, 14]
    );
    // the root follows the ambient scale's degree
    assert_eq!(chord_semitones(key, Scale::Major, h(Scale::Major, 5, false, 0)), vec![10, 14, 17]);
    // each unit of negative shift drops the top pitch an octave to the bottom
    assert_eq!(chord_semitones(key, Scale::Major, h(Scale::Major, 1, false, -1)), vec![
        -2, 3, 7
    ]);
    assert_eq!(chord_semitones(key, Scale::Major, h(Scale::Major, 1, false, -2)), vec![
        -5, -2, 3
    ]);
}

#[test]
fn chord_root_uses_ambient_scale_and_quality_its_own() {
    // in a minor key, degree 3 sits 3 semitones up, but a Major-quality
    // marker still builds a major third above that root
    let key = Key { abc: ABC::E, accidental: Accidental::Natural };
    let h = Harmony { scale: Scale::Major, degree: 3, add_7: false, shift: 0 };
    // tonic E = 7; minor degree 3 = +3; root 10; major third +4; fifth +7
    assert_eq!(chord_semitones(key, Scale::Minor, h), vec![10, 14, 17]);
}
