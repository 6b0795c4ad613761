use everdell::card::{Card, CardType, Deck};
use everdell::display::{decimal_string, stash_text, HandUi};
use everdell::game::{Game, Player, Table};
use everdell::interaction::{
    interaction_tick, react, CardVisual, EventBus, FeedbackColor, Interaction, PlayCardEvent,
};
use everdell::session::{initialize, tick};
use everdell::stash::PlayerStash;

#[test]
fn pressing_emits_one_event_then_none() {
    let mut vs = vec![CardVisual::new(4)];
    let ev = interaction_tick(&mut vs, &vec![Interaction::Pressed]);
    assert_eq!(ev, vec![PlayCardEvent { card: 4 }]);
    assert_eq!(vs[0].color, FeedbackColor::Pressed);
    assert!(!vs[0].interactive);
    let ev = interaction_tick(&mut vs, &vec![Interaction::Pressed]);
    assert!(ev.is_empty());
    assert_eq!(vs[0].color, FeedbackColor::Pressed);
}

#[test]
fn pressing_from_hovered_emits_one_event() {
    let mut v = CardVisual::new(9);
    assert_eq!(react(&mut v, Interaction::Hovered), None);
    assert_eq!(v.color, FeedbackColor::Hovered);
    assert_eq!(react(&mut v, Interaction::Pressed), Some(PlayCardEvent { card: 9 }));
    assert_eq!(v.color, FeedbackColor::Pressed);
    assert_eq!(react(&mut v, Interaction::Hovered), None);
    assert_eq!(react(&mut v, Interaction::Pressed), None);
    assert_eq!(v.interaction, Interaction::Pressed);
}

#[test]
fn hover_and_leave_set_colors_without_events() {
    let mut vs = vec![CardVisual::new(1), CardVisual::new(2)];
    let ev = interaction_tick(&mut vs, &vec![Interaction::Hovered, Interaction::Idle]);
    assert!(ev.is_empty());
    assert_eq!(vs[0].color, FeedbackColor::Hovered);
    assert_eq!(vs[1].color, FeedbackColor::Idle);
    let ev = interaction_tick(&mut vs, &vec![Interaction::Idle, Interaction::Idle]);
    assert!(ev.is_empty());
    assert_eq!(vs[0].color, FeedbackColor::Idle);
    assert!(vs[0].interactive);
}

#[test]
fn events_come_in_visual_order() {
    let mut vs = vec![CardVisual::new(1), CardVisual::new(2), CardVisual::new(3)];
    let ev = interaction_tick(
        &mut vs,
        &vec![Interaction::Pressed, Interaction::Hovered, Interaction::Pressed],
    );
    assert_eq!(ev, vec![PlayCardEvent { card: 1 }, PlayCardEvent { card: 3 }]);
}

#[test]
fn bus_drains_in_publish_order() {
    let mut bus = EventBus::new();
    bus.publish(PlayCardEvent { card: 2 });
    bus.publish(PlayCardEvent { card: 1 });
    assert_eq!(bus.drain(), vec![PlayCardEvent { card: 2 }, PlayCardEvent { card: 1 }]);
    assert!(bus.drain().is_empty());
}

#[test]
fn decimal_rendering() {
    assert_eq!(decimal_string(0), "0");
    assert_eq!(decimal_string(7), "7");
    assert_eq!(decimal_string(10), "10");
    assert_eq!(decimal_string(1234), "1234");
    assert_eq!(decimal_string(usize::MAX), usize::MAX.to_string());
}

#[test]
fn stash_text_lists_counters() {
    let s = PlayerStash { berries: 1, resin: 22, stones: 3, tokens: 40, wood: 5 };
    assert_eq!(stash_text(&s), "Berries: 1\nResin: 22\nStones: 3\nWood: 5\nTokens: 40");
}

#[test]
fn hand_display_rebuilds_only_on_change() {
    let mut ui = HandUi::new();
    let mut hand = Deck::new();
    hand.push(Card::new(String::from("Farm"), 1, 1, CardType::Production));
    hand.push(Card::new(String::from("Twig Barge"), 1, 1, CardType::Production));
    assert!(ui.sync(&hand));
    assert_eq!(ui.names, vec!["Farm", "Twig Barge"]);
    assert_eq!(ui.visuals, vec![CardVisual::new(0), CardVisual::new(1)]);
    assert_eq!(ui.next_id, 2);
    ui.visuals[0].color = FeedbackColor::Hovered;
    assert!(!ui.sync(&hand));
    assert_eq!(ui.visuals[0].color, FeedbackColor::Hovered);
    hand.draw().unwrap();
    assert!(ui.sync(&hand));
    assert_eq!(ui.names, vec!["Twig Barge"]);
    assert_eq!(ui.visuals, vec![CardVisual::new(2)]);
}

#[test]
fn tick_reports_text_hand_and_events() {
    let table = initialize();
    let mut ui = HandUi::new();
    let out = tick(&table, &mut ui, &vec![]);
    assert!(out.events.is_empty());
    assert!(out.hand_rebuilt);
    assert_eq!(
        out.stash_text,
        Some(String::from("Berries: 0\nResin: 0\nStones: 0\nWood: 0\nTokens: 0"))
    );
    assert_eq!(ui.names, vec!["Farm", "Resin Refinery", "Twig Barge"]);
    let out = tick(
        &table,
        &mut ui,
        &vec![Interaction::Idle, Interaction::Pressed, Interaction::Hovered],
    );
    assert_eq!(out.events, vec![PlayCardEvent { card: 1 }]);
    assert!(!out.hand_rebuilt);
    assert_eq!(ui.visuals[1].color, FeedbackColor::Pressed);
    assert_eq!(ui.visuals[2].color, FeedbackColor::Hovered);
}

#[test]
fn tick_without_player_skips_presentation() {
    let table = Table::new(Game::new(), Vec::<Player>::new());
    let mut ui = HandUi::new();
    let out = tick(&table, &mut ui, &vec![]);
    assert_eq!(out.stash_text, None);
    assert!(!out.hand_rebuilt);
    assert!(ui.names.is_empty());
}
