use vstd::prelude::*;

use crate::card::{Card, CardType, Deck};
use crate::display::{HandUi, card_names, stash_text, stash_text_of};
use crate::game::{Game, Player, Table};
use crate::interaction::{CardVisual, Interaction, PlayCardEvent, events_of, interaction_tick, step};
use crate::stash::Resource;

verus! {

/// Whether `c` is a starting card named `name`: a production card of cost
/// one and value one.
pub open spec fn is_starting_card(c: Card, name: Seq<char>) -> bool {
    &&& c.name@ == name
    &&& c.cost == 1
    &&& c.value == 1
    &&& c.card_type == CardType::Production
}

/// The names of the draw pile at the start, head first.
pub open spec fn starting_draw_names() -> Seq<Seq<char>> {
    seq![
        "Farm"@,
        "Farm"@,
        "Farm"@,
        "Resin Refinery"@,
        "Resin Refinery"@,
        "Twig Barge"@,
    ]
}

/// The names of the player's hand at the start.
pub open spec fn starting_hand_names() -> Seq<Seq<char>> {
    seq!["Farm"@, "Resin Refinery"@, "Twig Barge"@]
}

/// `cards` are starting cards with the given names, in order.
pub open spec fn starting_cards(cards: Seq<Card>, names: Seq<Seq<char>>) -> bool {
    &&& cards.len() == names.len()
    &&& forall|k: int| 0 <= k < cards.len() ==> #[trigger] is_starting_card(cards[k], names[k])
}

fn starting_card(name: &str) -> (r: Card)
    ensures
        is_starting_card(r, name@),
{
    Card::new(String::from_str(name), 1, 1, CardType::Production)
}

/// The table at the start: the literal draw pile, an empty discard pile,
/// and one player with the literal hand and a zeroed stash.
pub fn initialize() -> (r: Table)
    ensures
        starting_cards(r.game.draw_pile@, starting_draw_names()),
        r.game.discard_pile@.len() == 0,
        r.players@.len() == 1,
        starting_cards(r.players@[0].hand.0@, starting_hand_names()),
        forall|q: Resource| #[trigger] r.players@[0].stash.balance(q) == 0,
{
    let mut game = Game::new();
    game.draw_pile.push(starting_card("Farm"));
    game.draw_pile.push(starting_card("Farm"));
    game.draw_pile.push(starting_card("Farm"));
    game.draw_pile.push(starting_card("Resin Refinery"));
    game.draw_pile.push(starting_card("Resin Refinery"));
    game.draw_pile.push(starting_card("Twig Barge"));
    let mut hand = Deck::new();
    hand.push(starting_card("Farm"));
    hand.push(starting_card("Resin Refinery"));
    hand.push(starting_card("Twig Barge"));
    let mut players: Vec<Player> = Vec::new();
    players.push(Player::new(hand));
    let r = Table::new(game, players);
    assert(starting_cards(r.game.draw_pile@, starting_draw_names()));
    assert(starting_cards(r.players@[0].hand.0@, starting_hand_names()));
    r
}

/// What one tick hands the host.
#[derive(Debug)]
pub struct TickOutput {
    /// The events of this tick, in publish order.
    pub events: Vec<PlayCardEvent>,
    /// The first player's stash as text; `None` where there is no player,
    /// so that the text shown is left as it is.
    pub stash_text: Option<String>,
    /// Whether the hand's visuals were rebuilt.
    pub hand_rebuilt: bool,
}

/// One tick: the input reports (`signals[k]` for `ui.visuals[k]`) go
/// through the interaction pipeline, then the stash text and the hand
/// display are brought up to date with the first player. Without a player
/// the presentation work is skipped.
pub fn tick(table: &Table, ui: &mut HandUi, signals: &Vec<Interaction>) -> (r: TickOutput)
    requires
        old(ui).wf(),
        signals@.len() == old(ui).visuals@.len(),
        table.players@.len() > 0 ==> old(ui).next_id + table.players@[0].hand.0@.len() <= u64::MAX,
    ensures
        final(ui).wf(),
        r.events@ == events_of(old(ui).visuals@, signals@),
        table.players@.len() == 0 ==> {
            &&& r.stash_text is None
            &&& !r.hand_rebuilt
            &&& final(ui).shown() == old(ui).shown()
            &&& final(ui).next_id == old(ui).next_id
            &&& final(ui).visuals@.len() == old(ui).visuals@.len()
            &&& forall|k: int|
                0 <= k < old(ui).visuals@.len() ==> #[trigger] final(ui).visuals@[k] == step(
                    old(ui).visuals@[k],
                    signals@[k],
                )
        },
        table.players@.len() > 0 ==> {
            &&& r.stash_text is Some && r.stash_text->Some_0@ == stash_text_of(table.players@[0].stash)
            &&& final(ui).shown() == card_names(table.players@[0].hand.0@)
            &&& r.hand_rebuilt == (old(ui).shown() != card_names(table.players@[0].hand.0@))
            &&& !r.hand_rebuilt ==> final(ui).next_id == old(ui).next_id && final(ui).visuals@.len()
                == old(ui).visuals@.len() && forall|k: int|
                0 <= k < old(ui).visuals@.len() ==> #[trigger] final(ui).visuals@[k] == step(
                    old(ui).visuals@[k],
                    signals@[k],
                )
            &&& r.hand_rebuilt ==> final(ui).next_id == old(ui).next_id + table.players@[0].hand.0@.len()
                && forall|k: int|
                0 <= k < table.players@[0].hand.0@.len() ==> #[trigger] final(ui).visuals@[k]
                    == CardVisual::new_spec((old(ui).next_id + k) as u64)
        },
{
    let events = interaction_tick(&mut ui.visuals, signals);
    if table.players.len() == 0 {
        return TickOutput { events, stash_text: None, hand_rebuilt: false };
    }
    let player = &table.players[0];
    let text = stash_text(&player.stash);
    let rebuilt = ui.sync(&player.hand.0);
    TickOutput { events, stash_text: Some(text), hand_rebuilt: rebuilt }
}

} // verus!
