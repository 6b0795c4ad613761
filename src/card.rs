use vstd::prelude::*;

use crate::error::GameError;

verus! {

/// The category a card belongs to.
#[derive(Clone, Copy, Debug, PartialEq, Eq, Structural)]
pub enum CardType {
    Traveler,
    Production,
    Destination,
    Governance,
    Prosperity,
}

impl Default for CardType {
    fn default() -> (r: CardType)
        ensures
            r == CardType::Traveler,
    {
        CardType::Traveler
    }
}

/// One playable card. `cost` is advisory: nothing in this library debits it
/// from a stash.
#[derive(Debug)]
pub struct Card {
    pub name: String,
    pub cost: usize,
    pub value: usize,
    pub card_type: CardType,
}

impl Card {
    pub fn new(name: String, cost: usize, value: usize, card_type: CardType) -> (r: Card)
        ensures
            r.name == name,
            r.cost == cost,
            r.value == value,
            r.card_type == card_type,
    {
        Card { name, cost, value, card_type }
    }
}

/// An ordered collection of cards: pushed at the tail, drawn from the head.
#[derive(Debug)]
pub struct Deck {
    cards: Vec<Card>,
}

impl View for Deck {
    type V = Seq<Card>;

    closed spec fn view(&self) -> Seq<Card> {
        self.cards@
    }
}

impl Deck {
    /// A deck with no cards.
    pub fn new() -> (r: Deck)
        ensures
            r@ == Seq::<Card>::empty(),
    {
        Deck { cards: Vec::new() }
    }

    /// A deck holding `cards`, the first of them at the head.
    pub fn from_cards(cards: Vec<Card>) -> (r: Deck)
        ensures
            r@ == cards@,
    {
        Deck { cards }
    }

    pub fn len(&self) -> (r: usize)
        ensures
            r == self@.len(),
    {
        self.cards.len()
    }

    pub fn is_empty(&self) -> (r: bool)
        ensures
            r == (self@.len() == 0),
    {
        self.cards.len() == 0
    }

    /// The card at position `i`, counted from the head.
    pub fn get(&self, i: usize) -> (r: &Card)
        requires
            i < self@.len(),
        ensures
            *r == self@[i as int],
    {
        &self.cards[i]
    }

    /// Appends `card` at the tail.
    pub fn push(&mut self, card: Card)
        ensures
            final(self)@ == old(self)@.push(card),
    {
        self.cards.push(card);
    }

    /// Removes and returns the head card; an empty deck is left as it is.
    pub fn draw(&mut self) -> (r: Result<Card, GameError>)
        ensures
            old(self)@.len() == 0 <==> r is Err,
            r is Err ==> r == Err::<Card, GameError>(GameError::EmptyContainer) && final(self)@ == old(self)@,
            r is Ok ==> r->Ok_0 == old(self)@[0] && final(self)@ == old(self)@.drop_first(),
    {
        if self.cards.len() == 0 {
            Err(GameError::EmptyContainer)
        } else {
            Ok(self.cards.remove(0))
        }
    }

    /// Removes and returns the card at position `i`; `None`, with the deck
    /// unchanged, where there is no such position.
    pub fn take(&mut self, i: usize) -> (r: Option<Card>)
        ensures
            r is None <==> i >= old(self)@.len(),
            r is None ==> final(self)@ == old(self)@,
            r is Some ==> r->Some_0 == old(self)@[i as int] && final(self)@ == old(self)@.remove(i as int),
    {
        if i < self.cards.len() {
            Some(self.cards.remove(i))
        } else {
            None
        }
    }

    /// Draws until the deck is empty; the cards come out in the order they
    /// lay, each once.
    pub fn draw_all(&mut self) -> (r: Vec<Card>)
        ensures
            r@ == old(self)@,
            final(self)@.len() == 0,
    {
        let mut out: Vec<Card> = Vec::new();
        loop
            invariant
                out@ + self@ == old(self)@,
            decreases self@.len(),
        {
            let ghost before = self@;
            match self.draw() {
                Ok(c) => {
                    out.push(c);
                    assert(out@ + self@ =~= old(self)@) by {
                        assert(before =~= seq![c] + self@);
                    }
                },
                Err(_) => {
                    assert(out@ =~= old(self)@);
                    return out;
                },
            }
        }
    }
}

} // verus!
