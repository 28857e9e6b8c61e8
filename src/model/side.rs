use vstd::prelude::*;

verus! {

/// One of the two players.
#[derive(Clone, Copy, Debug, PartialEq, Eq, Structural, Hash, PartialOrd, Ord)]
pub enum Side {
    Up,
    Down,
}

impl Side {
    pub fn opposite(&self) -> (r: Side)
        ensures
            r != *self,
    {
        match self {
            Side::Up => Side::Down,
            Side::Down => Side::Up,
        }
    }
}

} // verus!
