//! Which sort of creature, and the names the game knows it by.
use vstd::prelude::*;

verus! {

/// Which sort of creature. Every creature of a species runs the same file.
#[derive(Clone, Copy, Debug, PartialEq, Eq, Structural)]
pub enum Species {
    Beetle,
    Rabbit,
}

impl Species {
    /// The slot a species has in every per-species table: 0 for the beetle, 1 for the rabbit.
    pub open spec fn spec_index(self) -> nat {
        match self {
            Species::Beetle => 0,
            Species::Rabbit => 1,
        }
    }

    /// The name a species is written with, in the log and in the save file.
    pub fn name(self) -> (r: &'static str)
        ensures
            r@ == (match self {
                Species::Beetle => "Beetle"@,
                Species::Rabbit => "Rabbit"@,
            }),
    {
        match self {
            Species::Beetle => "Beetle",
            Species::Rabbit => "Rabbit",
        }
    }

    /// The file every creature of the species runs: the editor's unit in this game.
    pub fn file(self) -> (r: &'static str)
        ensures
            r@ == (match self {
                Species::Beetle => "beetle.rb"@,
                Species::Rabbit => "rabbit.rb"@,
            }),
    {
        match self {
            Species::Beetle => "beetle.rb",
            Species::Rabbit => "rabbit.rb",
        }
    }

    pub fn index(self) -> (r: usize)
        ensures
            r == self.spec_index(),
            r < 2,
    {
        match self {
            Species::Beetle => 0,
            Species::Rabbit => 1,
        }
    }

    /// Both species, in the order of their slots.
    pub fn all() -> (r: [Species; 2])
        ensures
            r@ == seq![Species::Beetle, Species::Rabbit],
    {
        [Species::Beetle, Species::Rabbit]
    }
}

/// The slot says which species it is: no two species share one.
pub proof fn lemma_index_identifies(a: Species, b: Species)
    ensures
        a.spec_index() == b.spec_index() <==> a == b,
{
}

} // verus!
