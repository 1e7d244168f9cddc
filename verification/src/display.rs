use crate::notes::Note;
use vstd::prelude::*;

verus! {

/// The naming convention used to label pitches.
#[derive(Clone, Copy, Debug)]
pub enum Notation {
    English,
    Romance,
}

/// What the display is asked to do.
#[derive(Clone, Copy, Debug)]
pub struct DisplayOptions {
    pub notation: Notation,
    pub clear_term: bool,
    pub instrument: (),
}

impl Notation {
    /// The twelve labels of an octave, from C upwards, each three columns
    /// wide.
    pub open spec fn names(self) -> Seq<Seq<char>> {
        match self {
            Notation::English => seq![
                " C "@,
                " C#"@,
                " D "@,
                " D#"@,
                " E "@,
                " F "@,
                " F#"@,
                " G "@,
                " G#"@,
                " A "@,
                " A#"@,
                " B "@,
            ],
            Notation::Romance => seq![
                "Do "@,
                "Do#"@,
                "Ré "@,
                "Ré#"@,
                "Mi "@,
                "Fa "@,
                "Fa#"@,
                "Sol"@,
                "So#"@,
                "La "@,
                "La#"@,
                "Si "@,
            ],
        }
    }

    /// The label of `note`: the one of its place in the octave, whatever the
    /// octave.
    pub fn get_name(&self, note: Note) -> (name: &'static str)
        ensures
            name@ == self.names()[note.ordinal() % 12],
    {
        let index: usize = note.index() % 12;
        let names = self.get_names();
        names[index]
    }

    /// The twelve labels of an octave, from C upwards.
    pub fn get_names(&self) -> (names: [&'static str; 12])
        ensures
            names@.len() == 12,
            forall|i: int| 0 <= i < 12 ==> (#[trigger] names@[i])@ == self.names()[i],
    {
        match self {
            Notation::English => [
                " C ",
                " C#",
                " D ",
                " D#",
                " E ",
                " F ",
                " F#",
                " G ",
                " G#",
                " A ",
                " A#",
                " B ",
            ],
            Notation::Romance => [
                "Do ",
                "Do#",
                "Ré ",
                "Ré#",
                "Mi ",
                "Fa ",
                "Fa#",
                "Sol",
                "So#",
                "La ",
                "La#",
                "Si ",
            ],
        }
    }
}

} // verus!
