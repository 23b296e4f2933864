//! The garden's own logic: who the creatures are, what the game keeps about them between frames,
//! and the decisions it takes about them. The drawing, the Ruby and the arithmetic of the field
//! are the program's; what is here is what can be said exactly.
use vstd::prelude::*;

pub mod births;
pub mod brains;
pub mod budgets;
pub mod checks;
pub mod contacts;
pub mod dice;
pub mod meter;
pub mod hud;
pub mod minds;
pub mod save;
pub mod scripts;
pub mod sky;
pub mod species;
pub mod tell;
pub mod watch;

verus! {

} // verus!
