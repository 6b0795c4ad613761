use vstd::prelude::*;

use crate::error::GameError;

verus! {

/// The closed set of resources a stash counts.
#[derive(Clone, Copy, Debug, PartialEq, Eq, Structural)]
pub enum Resource {
    Berries,
    Resin,
    Stones,
    Tokens,
    Wood,
}

/// A player's five resource counters.
#[derive(Clone, Copy, Debug, PartialEq, Eq, Structural)]
pub struct PlayerStash {
    pub berries: usize,
    pub resin: usize,
    pub stones: usize,
    pub tokens: usize,
    pub wood: usize,
}

impl PlayerStash {
    /// The counter of `res`.
    pub open spec fn balance(&self, res: Resource) -> nat {
        match res {
            Resource::Berries => self.berries as nat,
            Resource::Resin => self.resin as nat,
            Resource::Stones => self.stones as nat,
            Resource::Tokens => self.tokens as nat,
            Resource::Wood => self.wood as nat,
        }
    }

    /// Every counter but that of `res` is the same in `self` and `other`.
    pub open spec fn same_except(&self, other: &PlayerStash, res: Resource) -> bool {
        forall|q: Resource| q != res ==> #[trigger] self.balance(q) == other.balance(q)
    }

    /// A stash with every counter at zero.
    pub fn new() -> (r: PlayerStash)
        ensures
            forall|q: Resource| #[trigger] r.balance(q) == 0,
    {
        PlayerStash { berries: 0, resin: 0, stones: 0, tokens: 0, wood: 0 }
    }

    pub fn amount(&self, res: Resource) -> (r: usize)
        ensures
            r == self.balance(res),
    {
        match res {
            Resource::Berries => self.berries,
            Resource::Resin => self.resin,
            Resource::Stones => self.stones,
            Resource::Tokens => self.tokens,
            Resource::Wood => self.wood,
        }
    }

    /// Sets the counter of `res` to `v`, leaving the others.
    fn set(&mut self, res: Resource, v: usize)
        ensures
            final(self).balance(res) == v,
            final(self).same_except(old(self), res),
    {
        match res {
            Resource::Berries => self.berries = v,
            Resource::Resin => self.resin = v,
            Resource::Stones => self.stones = v,
            Resource::Tokens => self.tokens = v,
            Resource::Wood => self.wood = v,
        }
    }

    /// Adds `n` to the counter of `res`.
    pub fn credit(&mut self, res: Resource, n: usize)
        requires
            old(self).balance(res) + n <= usize::MAX,
        ensures
            final(self).balance(res) == old(self).balance(res) + n,
            final(self).same_except(old(self), res),
    {
        let b = self.amount(res);
        self.set(res, b + n);
    }

    /// Takes `n` from the counter of `res`; fails, changing nothing, where the
    /// counter holds less than `n`.
    pub fn debit(&mut self, res: Resource, n: usize) -> (r: Result<(), GameError>)
        ensures
            r is Err <==> n > old(self).balance(res),
            r is Err ==> r == Err::<(), GameError>(GameError::InsufficientResource) && *final(self) == *old(self),
            r is Ok ==> final(self).balance(res) == old(self).balance(res) - n
                && final(self).same_except(old(self), res),
    {
        let b = self.amount(res);
        if n > b {
            Err(GameError::InsufficientResource)
        } else {
            self.set(res, b - n);
            Ok(())
        }
    }
}

} // verus!
