use vstd::prelude::*;

use crate::card::{Card, Deck};
use crate::interaction::CardVisual;
use crate::stash::PlayerStash;

verus! {

/// The character of the decimal digit `d`.
pub open spec fn digit_char(d: nat) -> char {
    if d == 0 {
        '0'
    } else if d == 1 {
        '1'
    } else if d == 2 {
        '2'
    } else if d == 3 {
        '3'
    } else if d == 4 {
        '4'
    } else if d == 5 {
        '5'
    } else if d == 6 {
        '6'
    } else if d == 7 {
        '7'
    } else if d == 8 {
        '8'
    } else {
        '9'
    }
}

/// `n` written in decimal, without leading zeros.
pub open spec fn decimal(n: nat) -> Seq<char>
    decreases n,
{
    if n < 10 {
        seq![digit_char(n)]
    } else {
        decimal(n / 10).push(digit_char(n % 10))
    }
}

/// The text that shows a stash's counters, one per line.
pub open spec fn stash_text_of(s: PlayerStash) -> Seq<char> {
    "Berries: "@ + decimal(s.berries as nat) + "\nResin: "@ + decimal(s.resin as nat) + "\nStones: "@
        + decimal(s.stones as nat) + "\nWood: "@ + decimal(s.wood as nat) + "\nTokens: "@
        + decimal(s.tokens as nat)
}

fn digit_str(d: usize) -> (r: &'static str)
    requires
        d < 10,
    ensures
        r@ == seq![digit_char(d as nat)],
{
    if d == 0 {
        proof { reveal_strlit("0"); }
        "0"
    } else if d == 1 {
        proof { reveal_strlit("1"); }
        "1"
    } else if d == 2 {
        proof { reveal_strlit("2"); }
        "2"
    } else if d == 3 {
        proof { reveal_strlit("3"); }
        "3"
    } else if d == 4 {
        proof { reveal_strlit("4"); }
        "4"
    } else if d == 5 {
        proof { reveal_strlit("5"); }
        "5"
    } else if d == 6 {
        proof { reveal_strlit("6"); }
        "6"
    } else if d == 7 {
        proof { reveal_strlit("7"); }
        "7"
    } else if d == 8 {
        proof { reveal_strlit("8"); }
        "8"
    } else {
        proof { reveal_strlit("9"); }
        "9"
    }
}

/// `n` written in decimal.
pub fn decimal_string(n: usize) -> (r: String)
    ensures
        r@ == decimal(n as nat),
    decreases n,
{
    if n < 10 {
        String::from_str(digit_str(n))
    } else {
        let mut s = decimal_string(n / 10);
        s.append(digit_str(n % 10));
        s
    }
}

/// The display text of a stash.
pub fn stash_text(s: &PlayerStash) -> (r: String)
    ensures
        r@ == stash_text_of(*s),
{
    let mut t = String::from_str("Berries: ");
    t.append(decimal_string(s.berries).as_str());
    t.append("\nResin: ");
    t.append(decimal_string(s.resin).as_str());
    t.append("\nStones: ");
    t.append(decimal_string(s.stones).as_str());
    t.append("\nWood: ");
    t.append(decimal_string(s.wood).as_str());
    t.append("\nTokens: ");
    t.append(decimal_string(s.tokens).as_str());
    t
}

/// The names of the cards of `hand`, in order.
pub open spec fn card_names(hand: Seq<Card>) -> Seq<Seq<char>> {
    hand.map_values(|c: Card| c.name@)
}

/// The visuals that show a hand: `names[k]` is shown by `visuals[k]`.
#[derive(Debug)]
pub struct HandUi {
    pub names: Vec<String>,
    pub visuals: Vec<CardVisual>,
    /// The identity the next fresh visual gets.
    pub next_id: u64,
}

impl HandUi {
    pub open spec fn wf(&self) -> bool {
        self.names@.len() == self.visuals@.len()
    }

    /// The names shown, in order.
    pub open spec fn shown(&self) -> Seq<Seq<char>> {
        self.names@.map_values(|s: String| s@)
    }

    /// A display that shows nothing yet.
    pub fn new() -> (r: HandUi)
        ensures
            r.wf(),
            r.shown().len() == 0,
            r.next_id == 0,
    {
        HandUi { names: Vec::new(), visuals: Vec::new(), next_id: 0 }
    }

    /// Whether the display shows exactly the cards of `hand`, in order.
    pub fn shows(&self, hand: &Deck) -> (r: bool)
        requires
            self.wf(),
        ensures
            r == (self.shown() == card_names(hand@)),
    {
        if self.names.len() != hand.len() {
            assert(self.shown().len() != card_names(hand@).len());
            return false;
        }
        let mut k: usize = 0;
        while k < self.names.len()
            invariant
                k <= self.names@.len(),
                self.names@.len() == hand@.len(),
                forall|j: int| 0 <= j < k ==> #[trigger] self.names@[j]@ == hand@[j].name@,
            decreases self.names@.len() - k,
        {
            if self.names[k] != hand.get(k).name {
                assert(self.shown()[k as int] != card_names(hand@)[k as int]);
                return false;
            }
            k = k + 1;
        }
        assert(self.shown() =~= card_names(hand@));
        true
    }

    /// Brings the display in line with `hand`. Only where the shown cards
    /// differ from the hand is it rebuilt, one fresh visual per card;
    /// otherwise the visuals, and their interaction state, are kept.
    pub fn sync(&mut self, hand: &Deck) -> (rebuilt: bool)
        requires
            old(self).wf(),
            old(self).next_id + hand@.len() <= u64::MAX,
        ensures
            final(self).wf(),
            final(self).shown() == card_names(hand@),
            rebuilt == (old(self).shown() != card_names(hand@)),
            !rebuilt ==> final(self).visuals@ == old(self).visuals@ && final(self).next_id == old(self).next_id,
            rebuilt ==> final(self).next_id == old(self).next_id + hand@.len() && forall|k: int|
                0 <= k < hand@.len() ==> #[trigger] final(self).visuals@[k] == CardVisual::new_spec(
                    (old(self).next_id + k) as u64,
                ),
    {
        if self.shows(hand) {
            return false;
        }
        let mut names: Vec<String> = Vec::new();
        let mut visuals: Vec<CardVisual> = Vec::new();
        let mut k: usize = 0;
        while k < hand.len()
            invariant
                k <= hand@.len(),
                names@.len() == k,
                visuals@.len() == k,
                self.next_id == old(self).next_id + k,
                old(self).next_id + hand@.len() <= u64::MAX,
                forall|j: int| 0 <= j < k ==> #[trigger] names@[j]@ == hand@[j].name@,
                forall|j: int|
                    0 <= j < k ==> #[trigger] visuals@[j] == CardVisual::new_spec(
                        (old(self).next_id + j) as u64,
                    ),
            decreases hand@.len() - k,
        {
            names.push(hand.get(k).name.clone());
            visuals.push(CardVisual::new(self.next_id));
            self.next_id = self.next_id + 1;
            k = k + 1;
        }
        self.names = names;
        self.visuals = visuals;
        assert(self.shown() =~= card_names(hand@));
        true
    }
}

} // verus!
