use rejectsynth::model::{Accidental, Duration, Harmony, Scale};
use rejectsynth::songs::{fairy, kalm};
use rejectsynth::model::Instruction;

#[test]
fn duration_new_stores_the_fraction() {
    let d = Duration::new(3, 2);
    assert_eq!(d.numerator, 3);
    assert_eq!(d.denominator, 2);
}

#[test]
fn harmony_parse_reads_roman_numerals() {
    let h = Harmony::parse("III");
    assert!(matches!(h.scale, Scale::Major));
    assert_eq!(h.degree, 3);
    assert!(!h.add_7);
    assert_eq!(h.shift, 0);

    let h = Harmony::parse("vii7");
    assert!(matches!(h.scale, Scale::Minor));
    assert_eq!(h.degree, 7);
    assert!(h.add_7);

    // the quality follows the first letter's case, the degree is read
    // case-insensitively
    let h = Harmony::parse("Iv");
    assert!(matches!(h.scale, Scale::Major));
    assert_eq!(h.degree, 4);

    let h = Harmony::parse("i");
    assert!(matches!(h.scale, Scale::Minor));
    assert_eq!(h.degree, 1);

    let h = Harmony::parse("V7");
    assert!(matches!(h.scale, Scale::Major));
    assert_eq!(h.degree, 5);
    assert!(h.add_7);
}

#[test]
fn fairy_is_thirty_two_quarter_notes() {
    let v = fairy();
    assert_eq!(v.len(), 35);
    assert!(matches!(v[0], Instruction::SetBPM(90)));
    assert!(matches!(v[1], Instruction::SetKey(_)));
    assert!(matches!(v[2], Instruction::SetScale(Scale::Minor)));
    assert!(v[3..].iter().all(|i| matches!(i, Instruction::PlayNote(_))));
}

#[test]
fn kalm_mixes_harmonies_and_notes() {
    let v = kalm();
    assert_eq!(v.len(), 57);
    assert!(matches!(v[0], Instruction::SetBPM(70)));
    let harmonies = v.iter().filter(|i| matches!(i, Instruction::SetHarmony(_))).count();
    assert_eq!(harmonies, 12);
    let notes = v.iter().filter(|i| matches!(i, Instruction::PlayNote(_))).count();
    assert_eq!(notes, 42);
    match v[3] {
        Instruction::SetHarmony(h) => {
            assert!(matches!(h.scale, Scale::Major));
            assert_eq!(h.degree, 3);
            assert!(!h.add_7);
            assert_eq!(h.shift, 0);
        },
        _ => panic!("kalm opens with a harmony marker after its header"),
    }
    // the tied pair around the second `iv` harmony change
    match (&v[44], &v[46]) {
        (Instruction::PlayNote(a), Instruction::PlayNote(b)) => {
            assert!(a.ties_to_next);
            assert!(!a.ties_to_prev);
            assert!(b.ties_to_prev);
            assert!(!b.ties_to_next);
        },
        _ => panic!("expected the tied notes"),
    }
}
