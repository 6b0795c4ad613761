use vstd::prelude::*;

use crate::card::{Card, Deck};
use crate::error::GameError;
use crate::stash::{PlayerStash, Resource};

verus! {

/// The cards one player holds.
#[derive(Debug)]
pub struct PlayerHand(pub Deck);

/// One player: a hand and a stash.
#[derive(Debug)]
pub struct Player {
    pub hand: PlayerHand,
    pub stash: PlayerStash,
}

impl Player {
    /// A player with the given hand and a zeroed stash.
    pub fn new(hand: Deck) -> (r: Player)
        ensures
            r.hand.0@ == hand@,
            forall|q: Resource| #[trigger] r.stash.balance(q) == 0,
    {
        Player { hand: PlayerHand(hand), stash: PlayerStash::new() }
    }
}

/// The shared piles.
#[derive(Debug)]
pub struct Game {
    pub draw_pile: Deck,
    pub discard_pile: Deck,
}

impl Game {
    pub fn new() -> (r: Game)
        ensures
            r.draw_pile@.len() == 0,
            r.discard_pile@.len() == 0,
    {
        Game { draw_pile: Deck::new(), discard_pile: Deck::new() }
    }
}

/// The total number of cards over a sequence of hands.
pub open spec fn hand_total(hands: Seq<Seq<Card>>) -> nat
    decreases hands.len(),
{
    if hands.len() == 0 {
        0
    } else {
        hand_total(hands.drop_last()) + hands.last().len()
    }
}

/// Replacing one hand changes the total by the difference of the two sizes.
pub proof fn lemma_hand_total_update(hands: Seq<Seq<Card>>, k: int, h: Seq<Card>)
    requires
        0 <= k < hands.len(),
    ensures
        hand_total(hands.update(k, h)) + hands[k].len() == hand_total(hands) + h.len(),
    decreases hands.len(),
{
    let u = hands.update(k, h);
    if k == hands.len() - 1 {
        assert(u.drop_last() =~= hands.drop_last());
    } else {
        lemma_hand_total_update(hands.drop_last(), k, h);
        assert(u.drop_last() =~= hands.drop_last().update(k, h));
    }
}

/// The hands before position `k` hold no more cards than all of them.
pub proof fn lemma_hand_total_prefix(hands: Seq<Seq<Card>>, k: int)
    requires
        0 <= k <= hands.len(),
    ensures
        hand_total(hands.take(k)) <= hand_total(hands),
        k < hands.len() ==> hand_total(hands.take(k + 1)) == hand_total(hands.take(k)) + hands[k].len(),
    decreases hands.len(),
{
    if k < hands.len() {
        assert(hands.take(k + 1).drop_last() =~= hands.take(k));
    }
    if k == hands.len() {
        assert(hands.take(k) =~= hands);
    } else {
        lemma_hand_total_prefix(hands.drop_last(), k);
        assert(hands.drop_last().take(k) =~= hands.take(k));
    }
}

/// A change to where cards lie.
#[derive(Clone, Copy, Debug, PartialEq, Eq, Structural)]
pub enum Move {
    /// The head of the draw pile goes to the tail of the player's hand.
    Draw { player: usize },
    /// The card at `index` of the player's hand goes to the tail of the discard pile.
    Discard { player: usize, index: usize },
    /// The card at `index` of one hand goes to the tail of another (or the same) hand.
    Pass { from: usize, to: usize, index: usize },
}

impl Move {
    /// Every player the move names is among the `n` players.
    pub open spec fn names_players_below(self, n: nat) -> bool {
        match self {
            Move::Draw { player } => player < n,
            Move::Discard { player, .. } => player < n,
            Move::Pass { from, to, .. } => from < n && to < n,
        }
    }
}

/// The outcome of a move: `pre` and `post` are the table before and after it.
pub open spec fn moved(pre: Table, post: Table, m: Move, r: Result<(), GameError>) -> bool {
    &&& post.card_count() == pre.card_count()
    &&& post.players@.len() == pre.players@.len()
    &&& post.stashes() == pre.stashes()
    &&& r is Err ==> post.game.draw_pile@ == pre.game.draw_pile@
        && post.game.discard_pile@ == pre.game.discard_pile@ && post.hands() == pre.hands()
    &&& match m {
        Move::Draw { player } => {
            &&& (r is Err <==> pre.game.draw_pile@.len() == 0)
            &&& r is Err ==> r == Err::<(), GameError>(GameError::EmptyContainer)
            &&& r is Ok ==> {
                &&& post.game.draw_pile@ == pre.game.draw_pile@.drop_first()
                &&& post.game.discard_pile@ == pre.game.discard_pile@
                &&& post.hands() == pre.hands().update(
                    player as int,
                    pre.hands()[player as int].push(pre.game.draw_pile@[0]),
                )
            }
        },
        Move::Discard { player, index } => {
            &&& (r is Err <==> index >= pre.hands()[player as int].len())
            &&& r is Err ==> r == Err::<(), GameError>(GameError::EmptyContainer)
            &&& r is Ok ==> {
                &&& post.game.draw_pile@ == pre.game.draw_pile@
                &&& post.game.discard_pile@ == pre.game.discard_pile@.push(
                    pre.hands()[player as int][index as int],
                )
                &&& post.hands() == pre.hands().update(
                    player as int,
                    pre.hands()[player as int].remove(index as int),
                )
            }
        },
        Move::Pass { from, to, index } => {
            &&& (r is Err <==> index >= pre.hands()[from as int].len())
            &&& r is Err ==> r == Err::<(), GameError>(GameError::EmptyContainer)
            &&& r is Ok ==> {
                let taken = pre.hands().update(from as int, pre.hands()[from as int].remove(index as int));
                &&& post.game.draw_pile@ == pre.game.draw_pile@
                &&& post.game.discard_pile@ == pre.game.discard_pile@
                &&& post.hands() == taken.update(
                    to as int,
                    taken[to as int].push(pre.hands()[from as int][index as int]),
                )
            }
        },
    }
}

/// Over any run of moves, whatever each one's outcome, the number of cards
/// on the table stays what it was: `tables[k + 1]` is the table after
/// `moves[k]` is made on `tables[k]`.
pub proof fn lemma_card_count_conserved(
    tables: Seq<Table>,
    moves: Seq<Move>,
    outcomes: Seq<Result<(), GameError>>,
)
    requires
        tables.len() == moves.len() + 1,
        outcomes.len() == moves.len(),
        forall|k: int|
            0 <= k < moves.len() ==> #[trigger] moved(tables[k], tables[k + 1], moves[k], outcomes[k]),
    ensures
        forall|k: int| 0 <= k < tables.len() ==> #[trigger] tables[k].card_count() == tables[0].card_count(),
    decreases moves.len(),
{
    if moves.len() > 0 {
        let n = moves.len() - 1;
        lemma_card_count_conserved(tables.drop_last(), moves.drop_last(), outcomes.drop_last());
        assert(moved(tables[n], tables[n + 1], moves[n], outcomes[n]));
        assert forall|k: int| 0 <= k < tables.len() implies #[trigger] tables[k].card_count()
            == tables[0].card_count() by {
            let pre = tables.drop_last();
            assert(pre[0] == tables[0]);
            if k < tables.len() - 1 {
                assert(pre[k] == tables[k]);
            } else {
                assert(pre[n] == tables[n]);
                assert(pre[n].card_count() == pre[0].card_count());
            }
        }
    }
}

/// The shared piles together with every player.
#[derive(Debug)]
pub struct Table {
    pub game: Game,
    pub players: Vec<Player>,
}

impl Table {
    /// Each player's hand, in player order.
    pub open spec fn hands(&self) -> Seq<Seq<Card>> {
        Seq::new(self.players@.len(), |k: int| self.players@[k].hand.0@)
    }

    /// The number of cards over both piles and every hand.
    pub open spec fn card_count(&self) -> nat {
        self.game.draw_pile@.len() + self.game.discard_pile@.len() + hand_total(self.hands())
    }

    /// Each player's stash, in player order.
    pub open spec fn stashes(&self) -> Seq<PlayerStash> {
        Seq::new(self.players@.len(), |k: int| self.players@[k].stash)
    }

    pub fn new(game: Game, players: Vec<Player>) -> (r: Table)
        ensures
            r.game == game,
            r.players == players,
    {
        Table { game, players }
    }

    /// Puts `card` at the tail of player `p`'s hand.
    fn give(&mut self, p: usize, card: Card)
        requires
            p < old(self).players@.len(),
        ensures
            final(self).game == old(self).game,
            final(self).players@.len() == old(self).players@.len(),
            final(self).hands() == old(self).hands().update(p as int, old(self).hands()[p as int].push(card)),
            final(self).stashes() == old(self).stashes(),
    {
        let mut slot = Player::new(Deck::new());
        self.players.set_and_swap(p, &mut slot);
        slot.hand.0.push(card);
        self.players.set_and_swap(p, &mut slot);
        assert(self.hands() =~= old(self).hands().update(p as int, old(self).hands()[p as int].push(card)));
        assert(self.stashes() =~= old(self).stashes());
    }

    /// Removes the card at position `i` of player `p`'s hand.
    fn take(&mut self, p: usize, i: usize) -> (r: Option<Card>)
        requires
            p < old(self).players@.len(),
        ensures
            final(self).game == old(self).game,
            final(self).players@.len() == old(self).players@.len(),
            final(self).stashes() == old(self).stashes(),
            r is None <==> i >= old(self).hands()[p as int].len(),
            r is None ==> final(self).hands() == old(self).hands(),
            r is Some ==> r->Some_0 == old(self).hands()[p as int][i as int]
                && final(self).hands() == old(self).hands().update(
                p as int,
                old(self).hands()[p as int].remove(i as int),
            ),
    {
        let mut slot = Player::new(Deck::new());
        self.players.set_and_swap(p, &mut slot);
        let r = slot.hand.0.take(i);
        self.players.set_and_swap(p, &mut slot);
        assert(self.stashes() =~= old(self).stashes());
        if r.is_some() {
            assert(self.hands() =~= old(self).hands().update(
                p as int,
                old(self).hands()[p as int].remove(i as int),
            ));
        } else {
            assert(self.hands() =~= old(self).hands());
        }
        r
    }

    /// Moves the head of the draw pile to the tail of player `p`'s hand;
    /// fails with `EmptyContainer`, changing nothing, on an empty draw pile.
    pub fn draw(&mut self, p: usize) -> (r: Result<(), GameError>)
        requires
            p < old(self).players@.len(),
        ensures
            moved(*old(self), *final(self), Move::Draw { player: p }, r),
    {
        match self.game.draw_pile.draw() {
            Err(e) => Err(e),
            Ok(card) => {
                proof {
                    lemma_hand_total_update(self.hands(), p as int, self.hands()[p as int].push(card));
                }
                self.give(p, card);
                Ok(())
            },
        }
    }

    /// Moves the card at position `i` of player `p`'s hand to the tail of the
    /// discard pile; fails with `EmptyContainer`, changing nothing, where the
    /// hand has no such position.
    pub fn discard(&mut self, p: usize, i: usize) -> (r: Result<(), GameError>)
        requires
            p < old(self).players@.len(),
        ensures
            moved(*old(self), *final(self), Move::Discard { player: p, index: i }, r),
    {
        proof {
            if i < self.hands()[p as int].len() {
                lemma_hand_total_update(self.hands(), p as int, self.hands()[p as int].remove(i as int));
            }
        }
        match self.take(p, i) {
            None => Err(GameError::EmptyContainer),
            Some(card) => {
                self.game.discard_pile.push(card);
                Ok(())
            },
        }
    }

    /// Moves the card at position `i` of player `from`'s hand to the tail of
    /// player `to`'s hand; fails with `EmptyContainer`, changing nothing, where
    /// the first hand has no such position.
    pub fn pass(&mut self, from: usize, to: usize, i: usize) -> (r: Result<(), GameError>)
        requires
            from < old(self).players@.len(),
            to < old(self).players@.len(),
        ensures
            moved(*old(self), *final(self), Move::Pass { from, to, index: i }, r),
    {
        proof {
            if i < self.hands()[from as int].len() {
                lemma_hand_total_update(self.hands(), from as int, self.hands()[from as int].remove(i as int));
            }
        }
        match self.take(from, i) {
            None => Err(GameError::EmptyContainer),
            Some(card) => {
                proof {
                    lemma_hand_total_update(self.hands(), to as int, self.hands()[to as int].push(card));
                }
                self.give(to, card);
                Ok(())
            },
        }
    }

    /// Carries out one move.
    pub fn apply(&mut self, m: Move) -> (r: Result<(), GameError>)
        requires
            m.names_players_below(old(self).players@.len()),
        ensures
            moved(*old(self), *final(self), m, r),
    {
        match m {
            Move::Draw { player } => self.draw(player),
            Move::Discard { player, index } => self.discard(player, index),
            Move::Pass { from, to, index } => self.pass(from, to, index),
        }
    }

    /// Carries out `moves` in order, each whether or not an earlier one
    /// failed; returns the outcome of each.
    pub fn apply_all(&mut self, moves: &Vec<Move>) -> (r: Vec<Result<(), GameError>>)
        requires
            forall|k: int| 0 <= k < moves@.len() ==> #[trigger] moves@[k].names_players_below(
                old(self).players@.len(),
            ),
        ensures
            r@.len() == moves@.len(),
            final(self).card_count() == old(self).card_count(),
            final(self).stashes() == old(self).stashes(),
            final(self).players@.len() == old(self).players@.len(),
            exists|ts: Seq<Table>|
                {
                    &&& ts.len() == moves@.len() + 1
                    &&& ts[0] == *old(self)
                    &&& ts[moves@.len() as int] == *final(self)
                    &&& forall|k: int|
                        0 <= k < moves@.len() ==> #[trigger] moved(ts[k], ts[k + 1], moves@[k], r@[k])
                },
    {
        let mut out: Vec<Result<(), GameError>> = Vec::new();
        let mut k: usize = 0;
        let ghost mut ts: Seq<Table> = seq![*self];
        while k < moves.len()
            invariant
                k <= moves@.len(),
                out@.len() == k,
                ts.len() == k + 1,
                ts[0] == *old(self),
                ts[k as int] == *self,
                forall|j: int| 0 <= j < k ==> #[trigger] moved(ts[j], ts[j + 1], moves@[j], out@[j]),
                self.card_count() == old(self).card_count(),
                self.stashes() == old(self).stashes(),
                self.players@.len() == old(self).players@.len(),
                forall|j: int| 0 <= j < moves@.len() ==> #[trigger] moves@[j].names_players_below(
                    old(self).players@.len(),
                ),
            decreases moves@.len() - k,
        {
            let res = self.apply(moves[k]);
            out.push(res);
            proof {
                ts = ts.push(*self);
            }
            k = k + 1;
        }
        out
    }

    /// The number of cards over both piles and every hand.
    pub fn count_cards(&self) -> (r: usize)
        requires
            self.card_count() <= usize::MAX,
        ensures
            r == self.card_count(),
    {
        let mut sum: usize = self.game.draw_pile.len() + self.game.discard_pile.len();
        let mut k: usize = 0;
        while k < self.players.len()
            invariant
                k <= self.players@.len(),
                self.card_count() <= usize::MAX,
                sum == self.game.draw_pile@.len() + self.game.discard_pile@.len() + hand_total(
                    self.hands().take(k as int),
                ),
            decreases self.players@.len() - k,
        {
            proof {
                lemma_hand_total_prefix(self.hands(), k as int);
                lemma_hand_total_prefix(self.hands(), k as int + 1);
            }
            sum = sum + self.players[k].hand.0.len();
            k = k + 1;
        }
        assert(self.hands().take(k as int) =~= self.hands());
        sum
    }

    /// Fails with `InvariantViolation` where the table does not hold
    /// `expected` cards: some card was lost or duplicated.
    pub fn check_count(&self, expected: usize) -> (r: Result<(), GameError>)
        requires
            self.card_count() <= usize::MAX,
        ensures
            r is Ok <==> self.card_count() == expected,
            r is Err ==> r == Err::<(), GameError>(GameError::InvariantViolation),
    {
        if self.count_cards() == expected {
            Ok(())
        } else {
            Err(GameError::InvariantViolation)
        }
    }
}

} // verus!
