use vstd::prelude::*;

verus! {

broadcast use vstd::string::to_string_from_display_ensures_for_str;

/// Marks the entity that is the mouse cursor.
#[derive(Clone, Copy, Debug, PartialEq, Eq, Structural)]
pub struct Cursor;

/// The race of a human pawn.
#[derive(Clone, Copy, Debug, PartialEq, Eq, Structural, Hash)]
pub enum Race {
    Euro,
    Afro,
    Asian,
    Indean,
}

/// The build of a human pawn.
#[derive(Clone, Copy, Debug, PartialEq, Eq, Structural, Hash)]
pub enum Complex {
    Skinny,
    Obese,
    Athletic,
}

/// The sex of a pawn.
#[derive(Clone, Copy, Debug, PartialEq, Eq, Structural, Hash)]
pub enum Sex {
    Male,
    Female,
}

/// The kind of a pawn, which selects its sprite.
#[derive(Clone, Copy, Debug, PartialEq, Eq, Structural, Hash)]
pub enum Spece {
    Wolf(Sex),
    Human(Sex, Race, Complex),
}

/// How a pawn of some race is drawn: the name of its skin set.
#[derive(Clone, Debug)]
pub struct RacialPawnProperties {
    pub skin_set: String,
}

/// A pawn placed on the map.
#[derive(Clone, Debug)]
pub struct Pawn {
    pub racial: RacialPawnProperties,
}

impl Pawn {
    /// A pawn drawn with the default skin set.
    pub fn new() -> (r: Pawn)
        ensures
            r.racial.skin_set@ == "default"@,
    {
        Pawn { racial: RacialPawnProperties { skin_set: "default".to_string() } }
    }
}

} // verus!
