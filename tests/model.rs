use everdell::card::{Card, CardType, Deck};
use everdell::error::GameError;
use everdell::game::{Game, Move, Player, Table};
use everdell::session::initialize;
use everdell::stash::{PlayerStash, Resource};

fn card(name: &str) -> Card {
    Card::new(String::from(name), 1, 1, CardType::Production)
}

fn names(cards: &[Card]) -> Vec<String> {
    cards.iter().map(|c| c.name.clone()).collect()
}

#[test]
fn card_type_defaults_to_traveler() {
    assert_eq!(CardType::default(), CardType::Traveler);
}

#[test]
fn push_appends_at_tail_and_draw_takes_head() {
    let mut d = Deck::new();
    assert!(d.is_empty());
    d.push(card("A"));
    d.push(card("B"));
    d.push(card("C"));
    assert_eq!(d.len(), 3);
    assert_eq!(d.get(2).name, "C");
    let c = d.draw().unwrap();
    assert_eq!(c.name, "A");
    assert_eq!(d.len(), 2);
    assert_eq!(d.get(0).name, "B");
}

#[test]
fn drawing_every_card_keeps_insertion_order() {
    let mut d = Deck::from_cards(vec![card("A"), card("B"), card("C"), card("A")]);
    let mut seen = Vec::new();
    for _ in 0..4 {
        seen.push(d.draw().unwrap().name);
    }
    assert_eq!(seen, vec!["A", "B", "C", "A"]);
    assert!(d.is_empty());
}

#[test]
fn draw_all_returns_cards_in_order() {
    let mut d = Deck::from_cards(vec![card("X"), card("Y")]);
    let out = d.draw_all();
    assert_eq!(names(&out), vec!["X", "Y"]);
    assert_eq!(d.len(), 0);
}

#[test]
fn draw_from_empty_deck_fails_and_keeps_it_empty() {
    let mut d = Deck::new();
    assert_eq!(d.draw().unwrap_err(), GameError::EmptyContainer);
    assert_eq!(d.len(), 0);
    assert!(d.is_empty());
}

#[test]
fn take_out_of_range_is_none() {
    let mut d = Deck::from_cards(vec![card("A"), card("B")]);
    assert!(d.take(2).is_none());
    assert_eq!(d.len(), 2);
    assert_eq!(d.take(1).unwrap().name, "B");
    assert_eq!(d.len(), 1);
}

#[test]
fn starting_draw_pile_scenario() {
    let mut t = initialize();
    assert_eq!(t.game.draw_pile.len(), 6);
    let first = t.game.draw_pile.draw().unwrap();
    assert_eq!(t.game.draw_pile.len(), 5);
    assert_eq!(first.name, "Farm");
    let second = t.game.draw_pile.draw().unwrap();
    assert_eq!(t.game.draw_pile.len(), 4);
    assert_eq!(second.name, "Farm");
    let rest = t.game.draw_pile.draw_all();
    assert_eq!(names(&rest), vec!["Farm", "Resin Refinery", "Resin Refinery", "Twig Barge"]);
}

#[test]
fn initialize_builds_one_player_with_three_cards() {
    let t = initialize();
    assert_eq!(t.players.len(), 1);
    let hand = &t.players[0].hand.0;
    assert_eq!(hand.len(), 3);
    assert_eq!(hand.get(0).name, "Farm");
    assert_eq!(hand.get(1).name, "Resin Refinery");
    assert_eq!(hand.get(2).name, "Twig Barge");
    assert_eq!(hand.get(0).cost, 1);
    assert_eq!(hand.get(0).value, 1);
    assert_eq!(hand.get(0).card_type, CardType::Production);
    assert_eq!(t.players[0].stash, PlayerStash::new());
    assert_eq!(t.game.discard_pile.len(), 0);
    assert_eq!(t.count_cards(), 9);
}

#[test]
fn moves_keep_the_card_count() {
    let mut t = Table::new(
        initialize().game,
        vec![
            Player::new(Deck::from_cards(vec![card("H1")])),
            Player::new(Deck::new()),
        ],
    );
    assert_eq!(t.count_cards(), 7);
    assert_eq!(t.draw(0), Ok(()));
    assert_eq!(t.players[0].hand.0.len(), 2);
    assert_eq!(t.players[0].hand.0.get(1).name, "Farm");
    assert_eq!(t.discard(0, 0), Ok(()));
    assert_eq!(t.game.discard_pile.get(0).name, "H1");
    assert_eq!(t.pass(0, 1, 0), Ok(()));
    assert_eq!(t.players[1].hand.0.get(0).name, "Farm");
    assert_eq!(t.players[0].hand.0.len(), 0);
    assert_eq!(t.count_cards(), 7);
    assert_eq!(t.check_count(7), Ok(()));
}

#[test]
fn apply_all_reports_each_outcome() {
    let mut t = Table::new(Game::new(), vec![Player::new(Deck::from_cards(vec![card("A")]))]);
    let moves = vec![
        Move::Draw { player: 0 },
        Move::Discard { player: 0, index: 3 },
        Move::Discard { player: 0, index: 0 },
        Move::Pass { from: 0, to: 0, index: 0 },
    ];
    let out = t.apply_all(&moves);
    assert_eq!(
        out,
        vec![
            Err(GameError::EmptyContainer),
            Err(GameError::EmptyContainer),
            Ok(()),
            Err(GameError::EmptyContainer),
        ]
    );
    assert_eq!(t.game.discard_pile.get(0).name, "A");
    assert_eq!(t.count_cards(), 1);
}

#[test]
fn pass_within_one_hand_moves_card_to_tail() {
    let mut t = Table::new(
        Game::new(),
        vec![Player::new(Deck::from_cards(vec![card("A"), card("B"), card("C")]))],
    );
    assert_eq!(t.apply(Move::Pass { from: 0, to: 0, index: 0 }), Ok(()));
    let hand = &t.players[0].hand.0;
    assert_eq!(hand.get(0).name, "B");
    assert_eq!(hand.get(1).name, "C");
    assert_eq!(hand.get(2).name, "A");
}

#[test]
fn failed_moves_change_nothing() {
    let mut t = Table::new(Game::new(), vec![Player::new(Deck::new())]);
    assert_eq!(t.draw(0), Err(GameError::EmptyContainer));
    assert_eq!(t.discard(0, 0), Err(GameError::EmptyContainer));
    assert_eq!(t.count_cards(), 0);
    assert!(t.players[0].hand.0.is_empty());
}

#[test]
fn wrong_card_count_is_an_invariant_violation() {
    let t = initialize();
    assert_eq!(t.check_count(8), Err(GameError::InvariantViolation));
    assert_eq!(t.check_count(9), Ok(()));
}

#[test]
fn debit_from_empty_stash_fails_unchanged() {
    let mut s = PlayerStash::new();
    assert_eq!(s.debit(Resource::Berries, 1), Err(GameError::InsufficientResource));
    assert_eq!(s, PlayerStash { berries: 0, resin: 0, stones: 0, tokens: 0, wood: 0 });
}

#[test]
fn debit_takes_exactly_n_and_touches_nothing_else() {
    let mut s = PlayerStash { berries: 2, resin: 5, stones: 7, tokens: 1, wood: 3 };
    assert_eq!(s.debit(Resource::Resin, 5), Ok(()));
    assert_eq!(s, PlayerStash { berries: 2, resin: 0, stones: 7, tokens: 1, wood: 3 });
    assert_eq!(s.debit(Resource::Wood, 4), Err(GameError::InsufficientResource));
    assert_eq!(s.amount(Resource::Wood), 3);
    assert_eq!(s.debit(Resource::Stones, 2), Ok(()));
    assert_eq!(s.amount(Resource::Stones), 5);
    assert_eq!(s.debit(Resource::Tokens, 0), Ok(()));
    assert_eq!(s.amount(Resource::Tokens), 1);
}

#[test]
fn credit_adds_to_one_counter() {
    let mut s = PlayerStash::new();
    s.credit(Resource::Berries, 4);
    s.credit(Resource::Berries, 1);
    s.credit(Resource::Wood, 2);
    assert_eq!(s, PlayerStash { berries: 5, resin: 0, stones: 0, tokens: 0, wood: 2 });
    assert_eq!(s.debit(Resource::Berries, 5), Ok(()));
    assert_eq!(s.amount(Resource::Berries), 0);
}
