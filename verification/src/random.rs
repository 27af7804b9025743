use crate::heading::{all_headings, Direction, HeadingSource};
use rand::rngs::{OsRng, StdRng};
use rand::seq::SliceRandom;
use rand::SeedableRng;
use vstd::prelude::*;

verus! {

/// `rand::rngs::StdRng`, a generator that a seed determines. Nothing of
/// its state is known here.
#[verifier::external_type_specification]
#[verifier::external_body]
pub struct ExStdRng(StdRng);

/// `StdRng::seed_from_u64`: a generator whose whole sequence follows from
/// `seed`. Nothing is claimed of it.
#[verifier::external_body]
fn seeded_generator(seed: u64) -> StdRng {
    StdRng::seed_from_u64(seed)
}

/// `StdRng::from_rng` with `OsRng`: a generator that the operating system
/// seeds, and nothing where the system yields no seed. Nothing is claimed of
/// the generator, nor of when the system yields a seed.
#[verifier::external_body]
fn system_generator() -> Option<StdRng> {
    StdRng::from_rng(OsRng).ok()
}

/// `SliceRandom::choose` with a `StdRng`: one of `choices`, and nothing only
/// where there is none to choose from. Which one is not claimed.
#[verifier::external_body]
fn choose_seeded(choices: &[Direction], generator: &mut StdRng) -> (chosen: Option<Direction>)
    ensures
        chosen is None <==> choices@.len() == 0,
        chosen matches Some(heading) ==> choices@.contains(heading),
{
    choices.choose(generator).copied()
}

/// The four headings to choose from.
fn headings() -> (choices: [Direction; 4])
    ensures
        choices@ == all_headings(),
{
    [Direction::Left, Direction::Right, Direction::Up, Direction::Down]
}

/// A source of headings that its seed determines. Two sources made from
/// the same seed choose the same headings in the same order; a source that
/// the operating system seeds agrees with no other.
#[derive(Debug)]
pub struct SeededHeadings {
    generator: StdRng,
}

impl SeededHeadings {
    /// The source that `seed` determines.
    pub fn new(seed: u64) -> SeededHeadings {
        SeededHeadings { generator: seeded_generator(seed) }
    }

    /// A source that the operating system seeds; `None` where the system
    /// yields no seed.
    pub fn from_system() -> Option<SeededHeadings> {
        match system_generator() {
            Some(generator) => Some(SeededHeadings { generator }),
            None => None,
        }
    }
}

impl HeadingSource for SeededHeadings {
    fn choose_heading(&mut self) -> Direction {
        let choices = headings();
        let chosen = choose_seeded(choices.as_slice(), &mut self.generator);
        chosen.unwrap()
    }
}

} // verus!
