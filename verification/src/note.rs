use vstd::prelude::*;

verus! {

/// One step of a pattern: which slice to play, transposed by `semis` semitones.
#[derive(Clone, Copy, Default, Debug, PartialEq, Eq, Structural)]
pub struct Note {
    pub slice: u8,
    pub semis: i8,
}

} // verus!
