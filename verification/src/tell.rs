//! `garden.tell`: the rules say something to one creature, or to all of them.
use vstd::prelude::*;

verus! {

/// Why a `garden.tell` was refused.
#[derive(Clone, Copy, Debug, PartialEq, Eq, Structural)]
pub enum TellRefusal {
    /// the first argument was neither a creature nor `:all`
    NoAddressee,
    /// the message has no name
    NoName,
}

/// **Who a message goes to.** `entity` is the creature the first argument named, if it named
/// one; `all` says the first argument was `:all`; `named` that the message has a name. A creature
/// wins over `:all`; a message with nobody to go to is refused for that before its name is
/// looked at. `Ok(None)` is every creature.
pub fn tell_target(entity: Option<u64>, all: bool, named: bool) -> (r: Result<Option<u64>, TellRefusal>)
    ensures
        entity is None && !all ==> r == Err::<Option<u64>, TellRefusal>(TellRefusal::NoAddressee),
        (entity is Some || all) && !named ==> r == Err::<Option<u64>, TellRefusal>(TellRefusal::NoName),
        (entity is Some || all) && named ==> r == Ok::<Option<u64>, TellRefusal>(entity),
{
    let to = match entity {
        Some(e) => Some(Some(e)),
        None => {
            if all {
                Some(None)
            } else {
                None
            }
        },
    };
    match to {
        None => Err(TellRefusal::NoAddressee),
        Some(to) => {
            if !named {
                Err(TellRefusal::NoName)
            } else {
                Ok(to)
            }
        },
    }
}

} // verus!
