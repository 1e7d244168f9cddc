use vstd::prelude::*;

verus! {

/// Every pitch the analysis scores: semitone steps from C1 up to E8.
///
/// The variants are declared in ascending pitch, so a note's position in the
/// declaration is its semitone distance from `C1`.
#[derive(Copy, Clone, Debug, PartialEq, Eq, Structural)]
pub enum Note {
    C1, CSharp1, D1, DSharp1, E1, F1, FSharp1, G1, GSharp1, A1, ASharp1, B1,
    C2, CSharp2, D2, DSharp2, E2, F2, FSharp2, G2, GSharp2, A2, ASharp2, B2,
    C3, CSharp3, D3, DSharp3, E3, F3, FSharp3, G3, GSharp3, A3, ASharp3, B3,
    C4, CSharp4, D4, DSharp4, E4, F4, FSharp4, G4, GSharp4, A4, ASharp4, B4,
    C5, CSharp5, D5, DSharp5, E5, F5, FSharp5, G5, GSharp5, A5, ASharp5, B5,
    C6, CSharp6, D6, DSharp6, E6, F6, FSharp6, G6, GSharp6, A6, ASharp6, B6,
    C7, CSharp7, D7, DSharp7, E7, F7, FSharp7, G7, GSharp7, A7, ASharp7, B7,
    C8, CSharp8, D8, DSharp8, E8,
}

/// Number of pitches in [`Note`].
pub const NOTE_COUNT: usize = 89;

/// Number of semitones in an octave.
pub const OCTAVE: usize = 12;

/// The pitch that the tuning is anchored on (concert A).
pub const BASE_NOTE: Note = Note::A4;

/// Position of [`BASE_NOTE`] in the enumeration.
pub const BASE_INDEX: usize = 45;

impl Note {
    /// Position of the note in the enumeration, counted from `C1 = 0`.
    pub open spec fn ordinal(self) -> int {
        match self {
            Note::C1 => 0,
            Note::CSharp1 => 1,
            Note::D1 => 2,
            Note::DSharp1 => 3,
            Note::E1 => 4,
            Note::F1 => 5,
            Note::FSharp1 => 6,
            Note::G1 => 7,
            Note::GSharp1 => 8,
            Note::A1 => 9,
            Note::ASharp1 => 10,
            Note::B1 => 11,
            Note::C2 => 12,
            Note::CSharp2 => 13,
            Note::D2 => 14,
            Note::DSharp2 => 15,
            Note::E2 => 16,
            Note::F2 => 17,
            Note::FSharp2 => 18,
            Note::G2 => 19,
            Note::GSharp2 => 20,
            Note::A2 => 21,
            Note::ASharp2 => 22,
            Note::B2 => 23,
            Note::C3 => 24,
            Note::CSharp3 => 25,
            Note::D3 => 26,
            Note::DSharp3 => 27,
            Note::E3 => 28,
            Note::F3 => 29,
            Note::FSharp3 => 30,
            Note::G3 => 31,
            Note::GSharp3 => 32,
            Note::A3 => 33,
            Note::ASharp3 => 34,
            Note::B3 => 35,
            Note::C4 => 36,
            Note::CSharp4 => 37,
            Note::D4 => 38,
            Note::DSharp4 => 39,
            Note::E4 => 40,
            Note::F4 => 41,
            Note::FSharp4 => 42,
            Note::G4 => 43,
            Note::GSharp4 => 44,
            Note::A4 => 45,
            Note::ASharp4 => 46,
            Note::B4 => 47,
            Note::C5 => 48,
            Note::CSharp5 => 49,
            Note::D5 => 50,
            Note::DSharp5 => 51,
            Note::E5 => 52,
            Note::F5 => 53,
            Note::FSharp5 => 54,
            Note::G5 => 55,
            Note::GSharp5 => 56,
            Note::A5 => 57,
            Note::ASharp5 => 58,
            Note::B5 => 59,
            Note::C6 => 60,
            Note::CSharp6 => 61,
            Note::D6 => 62,
            Note::DSharp6 => 63,
            Note::E6 => 64,
            Note::F6 => 65,
            Note::FSharp6 => 66,
            Note::G6 => 67,
            Note::GSharp6 => 68,
            Note::A6 => 69,
            Note::ASharp6 => 70,
            Note::B6 => 71,
            Note::C7 => 72,
            Note::CSharp7 => 73,
            Note::D7 => 74,
            Note::DSharp7 => 75,
            Note::E7 => 76,
            Note::F7 => 77,
            Note::FSharp7 => 78,
            Note::G7 => 79,
            Note::GSharp7 => 80,
            Note::A7 => 81,
            Note::ASharp7 => 82,
            Note::B7 => 83,
            Note::C8 => 84,
            Note::CSharp8 => 85,
            Note::D8 => 86,
            Note::DSharp8 => 87,
            Note::E8 => 88,
        }
    }

    /// Position of the note in the enumeration, as a table index.
    pub fn index(&self) -> (i: usize)
        ensures
            i == self.ordinal(),
            i < NOTE_COUNT,
    {
        match self {
            Note::C1 => 0,
            Note::CSharp1 => 1,
            Note::D1 => 2,
            Note::DSharp1 => 3,
            Note::E1 => 4,
            Note::F1 => 5,
            Note::FSharp1 => 6,
            Note::G1 => 7,
            Note::GSharp1 => 8,
            Note::A1 => 9,
            Note::ASharp1 => 10,
            Note::B1 => 11,
            Note::C2 => 12,
            Note::CSharp2 => 13,
            Note::D2 => 14,
            Note::DSharp2 => 15,
            Note::E2 => 16,
            Note::F2 => 17,
            Note::FSharp2 => 18,
            Note::G2 => 19,
            Note::GSharp2 => 20,
            Note::A2 => 21,
            Note::ASharp2 => 22,
            Note::B2 => 23,
            Note::C3 => 24,
            Note::CSharp3 => 25,
            Note::D3 => 26,
            Note::DSharp3 => 27,
            Note::E3 => 28,
            Note::F3 => 29,
            Note::FSharp3 => 30,
            Note::G3 => 31,
            Note::GSharp3 => 32,
            Note::A3 => 33,
            Note::ASharp3 => 34,
            Note::B3 => 35,
            Note::C4 => 36,
            Note::CSharp4 => 37,
            Note::D4 => 38,
            Note::DSharp4 => 39,
            Note::E4 => 40,
            Note::F4 => 41,
            Note::FSharp4 => 42,
            Note::G4 => 43,
            Note::GSharp4 => 44,
            Note::A4 => 45,
            Note::ASharp4 => 46,
            Note::B4 => 47,
            Note::C5 => 48,
            Note::CSharp5 => 49,
            Note::D5 => 50,
            Note::DSharp5 => 51,
            Note::E5 => 52,
            Note::F5 => 53,
            Note::FSharp5 => 54,
            Note::G5 => 55,
            Note::GSharp5 => 56,
            Note::A5 => 57,
            Note::ASharp5 => 58,
            Note::B5 => 59,
            Note::C6 => 60,
            Note::CSharp6 => 61,
            Note::D6 => 62,
            Note::DSharp6 => 63,
            Note::E6 => 64,
            Note::F6 => 65,
            Note::FSharp6 => 66,
            Note::G6 => 67,
            Note::GSharp6 => 68,
            Note::A6 => 69,
            Note::ASharp6 => 70,
            Note::B6 => 71,
            Note::C7 => 72,
            Note::CSharp7 => 73,
            Note::D7 => 74,
            Note::DSharp7 => 75,
            Note::E7 => 76,
            Note::F7 => 77,
            Note::FSharp7 => 78,
            Note::G7 => 79,
            Note::GSharp7 => 80,
            Note::A7 => 81,
            Note::ASharp7 => 82,
            Note::B7 => 83,
            Note::C8 => 84,
            Note::CSharp8 => 85,
            Note::D8 => 86,
            Note::DSharp8 => 87,
            Note::E8 => 88,
        }
    }

    /// The note at position `i`, if the enumeration reaches that far.
    pub fn from_index(i: usize) -> (note: Option<Note>)
        ensures
            note is Some <==> i < NOTE_COUNT,
            note matches Some(n) ==> n.ordinal() == i,
    {
        match i {
            0 => Some(Note::C1),
            1 => Some(Note::CSharp1),
            2 => Some(Note::D1),
            3 => Some(Note::DSharp1),
            4 => Some(Note::E1),
            5 => Some(Note::F1),
            6 => Some(Note::FSharp1),
            7 => Some(Note::G1),
            8 => Some(Note::GSharp1),
            9 => Some(Note::A1),
            10 => Some(Note::ASharp1),
            11 => Some(Note::B1),
            12 => Some(Note::C2),
            13 => Some(Note::CSharp2),
            14 => Some(Note::D2),
            15 => Some(Note::DSharp2),
            16 => Some(Note::E2),
            17 => Some(Note::F2),
            18 => Some(Note::FSharp2),
            19 => Some(Note::G2),
            20 => Some(Note::GSharp2),
            21 => Some(Note::A2),
            22 => Some(Note::ASharp2),
            23 => Some(Note::B2),
            24 => Some(Note::C3),
            25 => Some(Note::CSharp3),
            26 => Some(Note::D3),
            27 => Some(Note::DSharp3),
            28 => Some(Note::E3),
            29 => Some(Note::F3),
            30 => Some(Note::FSharp3),
            31 => Some(Note::G3),
            32 => Some(Note::GSharp3),
            33 => Some(Note::A3),
            34 => Some(Note::ASharp3),
            35 => Some(Note::B3),
            36 => Some(Note::C4),
            37 => Some(Note::CSharp4),
            38 => Some(Note::D4),
            39 => Some(Note::DSharp4),
            40 => Some(Note::E4),
            41 => Some(Note::F4),
            42 => Some(Note::FSharp4),
            43 => Some(Note::G4),
            44 => Some(Note::GSharp4),
            45 => Some(Note::A4),
            46 => Some(Note::ASharp4),
            47 => Some(Note::B4),
            48 => Some(Note::C5),
            49 => Some(Note::CSharp5),
            50 => Some(Note::D5),
            51 => Some(Note::DSharp5),
            52 => Some(Note::E5),
            53 => Some(Note::F5),
            54 => Some(Note::FSharp5),
            55 => Some(Note::G5),
            56 => Some(Note::GSharp5),
            57 => Some(Note::A5),
            58 => Some(Note::ASharp5),
            59 => Some(Note::B5),
            60 => Some(Note::C6),
            61 => Some(Note::CSharp6),
            62 => Some(Note::D6),
            63 => Some(Note::DSharp6),
            64 => Some(Note::E6),
            65 => Some(Note::F6),
            66 => Some(Note::FSharp6),
            67 => Some(Note::G6),
            68 => Some(Note::GSharp6),
            69 => Some(Note::A6),
            70 => Some(Note::ASharp6),
            71 => Some(Note::B6),
            72 => Some(Note::C7),
            73 => Some(Note::CSharp7),
            74 => Some(Note::D7),
            75 => Some(Note::DSharp7),
            76 => Some(Note::E7),
            77 => Some(Note::F7),
            78 => Some(Note::FSharp7),
            79 => Some(Note::G7),
            80 => Some(Note::GSharp7),
            81 => Some(Note::A7),
            82 => Some(Note::ASharp7),
            83 => Some(Note::B7),
            84 => Some(Note::C8),
            85 => Some(Note::CSharp8),
            86 => Some(Note::D8),
            87 => Some(Note::DSharp8),
            88 => Some(Note::E8),
            _ => None,
        }
    }

    /// Every note, in ascending pitch.
    pub fn iter() -> (notes: Vec<Note>)
        ensures
            notes.len() == NOTE_COUNT,
            forall|i: int| 0 <= i < NOTE_COUNT ==> (#[trigger] notes[i]).ordinal() == i,
    {
        let first = Note::C1;
        first.iter_from()
    }

    /// This note and every note above it, in ascending pitch.
    pub fn iter_from(&self) -> (notes: Vec<Note>)
        ensures
            notes.len() == NOTE_COUNT - self.ordinal(),
            forall|i: int|
                0 <= i < notes.len() ==> (#[trigger] notes[i]).ordinal() == self.ordinal() + i,
    {
        let start: usize = self.index();
        let mut notes: Vec<Note> = Vec::new();
        let mut i: usize = start;
        while i < NOTE_COUNT
            invariant
                start <= i <= NOTE_COUNT,
                notes.len() == i - start,
                forall|k: int| 0 <= k < notes.len() ==> (#[trigger] notes[k]).ordinal() == start + k,
            decreases NOTE_COUNT - i,
        {
            match Note::from_index(i) {
                Some(note) => notes.push(note),
                None => {},
            }
            i += 1;
        }
        notes
    }

    /// Position of the note inside its octave: 0 for a C, 11 for a B.
    pub fn get_octave_index(&self) -> (position: u32)
        ensures
            position == self.ordinal() % 12,
            position < 12,
    {
        let position: usize = self.index() % OCTAVE;
        position as u32
    }

    /// Signed distance in semitones from [`BASE_NOTE`]; the pitch's frequency is
    /// the base frequency times two to the power of a twelfth of this distance.
    pub fn half_tones(&self) -> (distance: i32)
        ensures
            distance == self.ordinal() - BASE_NOTE.ordinal(),
    {
        let position: usize = self.index();
        position as i32 - BASE_INDEX as i32
    }
}

/// Two notes at the same position are the same note.
pub proof fn lemma_ordinal_injective(a: Note, b: Note)
    requires
        a.ordinal() == b.ordinal(),
    ensures
        a == b,
{
}

} // verus!
