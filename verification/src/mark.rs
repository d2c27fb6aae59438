use vstd::prelude::*;

verus! {

/// A player's token: one of the two symbols placed on the board.
#[derive(Copy, Clone, Debug, PartialEq, Eq, Structural)]
pub enum Mark {
    Nought,
    Cross,
}

impl Mark {
    /// The opposite player's mark.
    pub open spec fn spec_other(self) -> Mark {
        match self {
            Mark::Cross => Mark::Nought,
            Mark::Nought => Mark::Cross,
        }
    }

    /// Toggle to the other player's mark; a fresh value, nothing is mutated.
    #[verifier::when_used_as_spec(spec_other)]
    pub fn other(self) -> (r: Mark)
        ensures
            r == self.spec_other(),
    {
        match self {
            Mark::Cross => Mark::Nought,
            Mark::Nought => Mark::Cross,
        }
    }
}

impl Default for Mark {
    /// Noughts play first.
    fn default() -> (r: Self)
        ensures
            r == Mark::Nought,
    {
        Mark::Nought
    }
}

/// Flipping a mark twice gives back the mark itself, for both variants.
pub proof fn lemma_other_involution(m: Mark)
    ensures
        m.spec_other().spec_other() == m,
{
}

} // verus!
