use chopper::label::note_name;

#[test]
fn note_names_at_octave_zero() {
    assert_eq!(note_name(0), "C-+0");
    assert_eq!(note_name(1), "C#+0");
    assert_eq!(note_name(7), "G-+0");
    assert_eq!(note_name(11), "B-+0");
}

#[test]
fn note_names_across_octaves() {
    assert_eq!(note_name(12), "C-+1");
    assert_eq!(note_name(24), "C-+2");
    assert_eq!(note_name(-12), "C--1");
    assert_eq!(note_name(-13), "B--1");
    assert_eq!(note_name(-24), "C--2");
}

#[test]
fn small_negative_shift_keeps_octave_zero() {
    assert_eq!(note_name(-5), "G-+0");
    assert_eq!(note_name(-1), "B-+0");
}

#[test]
fn note_names_at_the_extremes() {
    assert_eq!(note_name(127), "G-+10");
    assert_eq!(note_name(-128), "E--10");
    assert_eq!(note_name(120), "C-+10");
}

#[test]
fn note_name_matches_format() {
    let names = ["C-", "C#", "D-", "D#", "E-", "F-", "F#", "G-", "G#", "A-", "A#", "B-"];
    for s in i8::MIN..=i8::MAX {
        let expected = format!("{}{:+}", names[s.rem_euclid(12) as usize], s / 12);
        assert_eq!(note_name(s), expected);
    }
}
