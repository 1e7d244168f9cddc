use improve::display::{DisplayOptions, Notation};
use improve::notes::Note;

#[test]
fn english_names() {
    let names = Notation::English.get_names();
    assert_eq!(
        names,
        [" C ", " C#", " D ", " D#", " E ", " F ", " F#", " G ", " G#", " A ", " A#", " B "]
    );
}

#[test]
fn romance_names() {
    let names = Notation::Romance.get_names();
    assert_eq!(
        names,
        ["Do ", "Do#", "Ré ", "Ré#", "Mi ", "Fa ", "Fa#", "Sol", "So#", "La ", "La#", "Si "]
    );
}

#[test]
fn every_name_is_three_columns_wide() {
    for notation in [Notation::English, Notation::Romance].iter() {
        for name in notation.get_names().iter() {
            assert_eq!(name.chars().count(), 3);
        }
    }
}

#[test]
fn a_note_is_named_by_its_place_in_the_octave() {
    assert_eq!(Notation::English.get_name(Note::A4), " A ");
    assert_eq!(Notation::English.get_name(Note::A1), " A ");
    assert_eq!(Notation::English.get_name(Note::CSharp3), " C#");
    assert_eq!(Notation::English.get_name(Note::E8), " E ");
    assert_eq!(Notation::Romance.get_name(Note::A4), "La ");
    assert_eq!(Notation::Romance.get_name(Note::D2), "Ré ");
    assert_eq!(Notation::Romance.get_name(Note::G7), "Sol");
    assert_eq!(Notation::Romance.get_name(Note::C1), "Do ");
}

#[test]
fn get_name_agrees_with_get_names() {
    for notation in [Notation::English, Notation::Romance].iter() {
        let names = notation.get_names();
        for note in Note::iter() {
            assert_eq!(notation.get_name(note), names[note.get_octave_index() as usize]);
        }
    }
}

#[test]
fn display_options_carry_their_fields() {
    let options = DisplayOptions { notation: Notation::Romance, clear_term: true, instrument: () };
    let copy = options;
    assert!(copy.clear_term);
    assert!(matches!(copy.notation, Notation::Romance));
    assert!(matches!(options.notation, Notation::Romance));
}
