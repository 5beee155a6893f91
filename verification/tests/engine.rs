use card_engine::card_type::{
    CardEffect as Effect, CardType, CardTypeIdentifier, Condition, DestroySelfUnless,
    EffectTrigger, NamedCardOnField, OnDraw, OnSummon, SwapHandWithField,
};
use card_engine::cards::Cards;
use card_engine::state::{
    Action, Activation, ActivationData, ActivatableType, Card, CardEffect, CardInstance,
    CardStatus, GameState, InstanceCounter, InvalidAction, Placed, Resolution,
};

fn card_type(name: &str, effects: Vec<Effect>) -> CardType {
    CardType {
        id: CardTypeIdentifier::default(),
        name: name.to_string(),
        effects,
        defense: 1,
        attack: 1,
    }
}

fn destroy_unless_dragonification(mandatory: bool) -> Effect {
    Effect::OnSummon(OnSummon {
        mandatory,
        trigger: EffectTrigger::DestroySelfUnless(DestroySelfUnless {
            condition: Condition::NamedCardOnField(NamedCardOnField {
                name: "Dragonification".to_string(),
            }),
        }),
    })
}

fn swap_on_draw(mandatory: bool) -> Effect {
    Effect::OnDraw(OnDraw { mandatory, trigger: EffectTrigger::SwapHandWithField(SwapHandWithField) })
}

/// 0: Fragile (mandatory destroy on summon), 1: Brittle (optional destroy on
/// summon), 2: Dragonification, 3: Swapper (optional swap on draw), 4: Plain,
/// 5: Twin (two effects).
fn catalog() -> Cards {
    Cards::from_definitions(vec![
        card_type("Fragile", vec![destroy_unless_dragonification(true)]),
        card_type("Brittle", vec![destroy_unless_dragonification(false)]),
        card_type("Dragonification", vec![]),
        card_type("Swapper", vec![swap_on_draw(false)]),
        card_type("Plain", vec![]),
        card_type("Twin", vec![swap_on_draw(true), destroy_unless_dragonification(false)]),
    ])
    .unwrap()
}

fn make(cards: &Cards, counter: &mut InstanceCounter, kind: u32) -> Card {
    Card::instantiate(cards.at(CardTypeIdentifier(kind)), counter)
}

fn instances(cards: &Vec<Card>) -> Vec<u32> {
    cards.iter().map(|card| card.instance.0).collect()
}

fn placements(placed: &Vec<Placed>) -> Vec<(i64, u32)> {
    placed.iter().map(|p| (p.slot, p.card.instance.0)).collect()
}

fn activation(status: ActivatableType, slot: Option<i64>) -> Activation {
    Activation { status, data: ActivationData { slot } }
}

#[test]
fn scenario_mandatory_destroy_on_summon() {
    let cards = catalog();
    let mut counter = InstanceCounter::new();
    let card = make(&cards, &mut counter, 0);
    let instance = card.instance;
    let mut game = GameState::new(vec![card], vec![], vec![], 0);
    assert_eq!(game.actions(&cards), vec![Action::SummonFromHand(instance)]);

    assert_eq!(game.take_action(&cards, Action::SummonFromHand(instance)), Ok(()));
    assert_eq!(placements(game.field()), vec![(0, instance.0)]);
    assert_eq!(game.field()[0].card.state, CardStatus::Summoned);
    assert!(game.hand().is_empty());
    assert!(game.response_window());
    let mandatory = Action::ActivateFromField(
        instance,
        CardEffect(0),
        activation(ActivatableType::Mandatory, None),
    );
    assert_eq!(game.actions(&cards), vec![mandatory]);

    assert_eq!(game.take_action(&cards, mandatory), Ok(()));
    assert!(game.field().is_empty());
    assert_eq!(placements(game.graveyard()), vec![(0, instance.0)]);
    assert_eq!(game.graveyard()[0].card.state, CardStatus::Destroyed);
    assert!(game.response_window());
    assert_eq!(game.actions(&cards), vec![Action::YieldResponseWindow]);

    assert_eq!(game.take_action(&cards, Action::YieldResponseWindow), Ok(()));
    assert!(!game.response_window());
    assert_eq!(game.phase(), 1);
    assert_eq!(game.graveyard()[0].card.state, CardStatus::Idle);
}

#[test]
fn scenario_optional_destroy_on_summon() {
    let cards = catalog();
    let mut counter = InstanceCounter::new();
    let card = make(&cards, &mut counter, 1);
    let instance = card.instance;
    let mut game = GameState::new(vec![card], vec![], vec![], 0);
    assert_eq!(game.actions(&cards), vec![Action::SummonFromHand(instance)]);
    game.take_action(&cards, Action::SummonFromHand(instance)).unwrap();
    assert_eq!(
        game.actions(&cards),
        vec![
            Action::ActivateFromField(instance, CardEffect(0), activation(ActivatableType::Can, None)),
            Action::YieldResponseWindow,
        ]
    );
    assert_eq!(game.take_action(&cards, Action::YieldResponseWindow), Ok(()));
    assert_eq!(placements(game.field()), vec![(0, instance.0)]);
    assert!(game.graveyard().is_empty());
    assert!(!game.response_window());
    assert_eq!(game.phase(), 1);
    assert_eq!(game.field()[0].card.state, CardStatus::Idle);
    // the status is reset, so the effect no longer offers itself
    assert!(game.actions(&cards).is_empty());
}

#[test]
fn scenario_swap_on_draw() {
    let cards = catalog();
    let mut counter = InstanceCounter::new();
    let first = make(&cards, &mut counter, 4);
    let second = make(&cards, &mut counter, 4);
    let swapper = make(&cards, &mut counter, 3);
    let mut game = GameState::new(vec![first, second], vec![swapper], vec![], 1);
    game.take_action(&cards, Action::SummonFromHand(CardInstance(0))).unwrap();
    game.take_action(&cards, Action::YieldResponseWindow).unwrap();
    game.take_action(&cards, Action::SummonFromHand(CardInstance(1))).unwrap();
    game.take_action(&cards, Action::YieldResponseWindow).unwrap();
    assert_eq!(placements(game.field()), vec![(0, 0), (-1, 1)]);
    assert_eq!(game.actions(&cards), vec![Action::DrawFromLeftDeck]);

    assert_eq!(game.take_action(&cards, Action::DrawFromLeftDeck), Ok(()));
    assert_eq!(instances(game.hand()), vec![2]);
    assert_eq!(game.hand()[0].state, CardStatus::Drawn);
    assert_eq!(game.remaining_draws(), 0);
    assert!(game.left_deck().is_empty());
    assert!(game.response_window());
    let at_zero = Action::ActivateFromHand(
        CardInstance(2),
        CardEffect(0),
        activation(ActivatableType::Can, Some(0)),
    );
    assert_eq!(
        game.actions(&cards),
        vec![
            at_zero,
            Action::ActivateFromHand(
                CardInstance(2),
                CardEffect(0),
                activation(ActivatableType::Can, Some(-1)),
            ),
            Action::YieldResponseWindow,
        ]
    );

    assert_eq!(game.take_action(&cards, at_zero), Ok(()));
    assert_eq!(placements(game.field()), vec![(-1, 1), (0, 2)]);
    assert_eq!(instances(game.hand()), vec![0]);
    assert_eq!(game.hand()[0].state, CardStatus::ReturnedToHand);
    assert_eq!(game.field()[1].card.state, CardStatus::Summoned);
    assert!(game.response_window());
    assert_eq!(game.instance_at(0), Some(CardInstance(2)));
    assert_eq!(game.instance_at(-1), Some(CardInstance(1)));
    assert_eq!(game.instance_at(1), None);
}

#[test]
fn summon_then_destroy_ends_in_the_slots_graveyard() {
    let cards = catalog();
    for slot in [0i64, -1, 1, 7, -40, i64::MAX, i64::MIN] {
        let mut counter = InstanceCounter::new();
        let other = make(&cards, &mut counter, 4);
        let card = make(&cards, &mut counter, 4);
        let mut game = GameState::new(vec![other, card], vec![], vec![], 0);
        assert_eq!(game.take_action(&cards, Action::SummonFromHandToSlot(CardInstance(1), slot)), Ok(()));
        assert_eq!(game.take_action(&cards, Action::DestroyOnField(CardInstance(1))), Ok(()));
        assert_eq!(placements(game.graveyard()), vec![(slot, 1)]);
        assert_eq!(game.graveyard_slot(slot), vec![CardInstance(1)]);
        assert!(game.graveyard_slot(slot.wrapping_add(1)).is_empty());
        assert_eq!(game.graveyard()[0].card.state, CardStatus::Destroyed);
        assert!(game.field().is_empty());
        assert_eq!(instances(game.hand()), vec![0]);
        assert!(game.response_window());
    }
}

#[test]
fn empty_slots_fan_out_from_the_centre() {
    let cards = catalog();
    let mut counter = InstanceCounter::new();
    let mut hand = Vec::new();
    for _ in 0..7 {
        hand.push(make(&cards, &mut counter, 4));
    }
    let mut game = GameState::new(hand, vec![], vec![], 0);
    let expected = [0i64, -1, 1, -2, 2, -3, 3];
    for (n, slot) in expected.iter().enumerate() {
        assert_eq!(game.empty_slot_on_field(), *slot);
        assert_eq!(game.empty_slot_on_field(), *slot);
        assert_eq!(game.instance_at(*slot), None);
        game.take_action(&cards, Action::SummonFromHand(CardInstance(n as u32))).unwrap();
        assert_eq!(game.instance_at(*slot), Some(CardInstance(n as u32)));
    }
    assert_eq!(game.empty_slot_on_field(), -4);
    game.take_action(&cards, Action::DestroyOnField(CardInstance(2))).unwrap();
    assert_eq!(game.empty_slot_on_field(), 1);
    game.take_action(&cards, Action::ReturnFieldToHand(CardInstance(0))).unwrap();
    assert_eq!(game.empty_slot_on_field(), 0);
}

#[test]
fn chosen_slots_are_skipped_by_the_allocation() {
    let cards = catalog();
    let mut counter = InstanceCounter::new();
    let hand = vec![
        make(&cards, &mut counter, 4),
        make(&cards, &mut counter, 4),
        make(&cards, &mut counter, 4),
    ];
    let mut game = GameState::new(hand, vec![], vec![], 0);
    game.take_action(&cards, Action::SummonFromHandToSlot(CardInstance(0), -1)).unwrap();
    assert_eq!(game.empty_slot_on_field(), 0);
    game.take_action(&cards, Action::SummonFromHandToSlot(CardInstance(1), 0)).unwrap();
    assert_eq!(game.empty_slot_on_field(), 1);
    game.take_action(&cards, Action::SummonFromHand(CardInstance(2))).unwrap();
    assert_eq!(placements(game.field()), vec![(-1, 0), (0, 1), (1, 2)]);
}

#[test]
fn invalid_actions_leave_the_state_alone() {
    let cards = catalog();
    let mut counter = InstanceCounter::new();
    let a = make(&cards, &mut counter, 0);
    let b = make(&cards, &mut counter, 4);
    let c = make(&cards, &mut counter, 4);
    let mut game = GameState::new(vec![a, b], vec![], vec![c], 0);
    let none = activation(ActivatableType::Can, None);
    // unknown instance in the named zone
    assert_eq!(game.take_action(&cards, Action::SummonFromHand(CardInstance(9))), Err(InvalidAction));
    assert_eq!(game.take_action(&cards, Action::SummonFromHandToSlot(CardInstance(2), 0)), Err(InvalidAction));
    assert_eq!(game.take_action(&cards, Action::DestroyOnField(CardInstance(0))), Err(InvalidAction));
    assert_eq!(game.take_action(&cards, Action::ReturnFieldToHand(CardInstance(0))), Err(InvalidAction));
    assert_eq!(
        game.take_action(&cards, Action::ActivateFromField(CardInstance(0), CardEffect(0), none)),
        Err(InvalidAction)
    );
    assert_eq!(
        game.take_action(&cards, Action::ActivateFromHand(CardInstance(2), CardEffect(0), none)),
        Err(InvalidAction)
    );
    // out-of-range effect index
    assert_eq!(
        game.take_action(&cards, Action::ActivateFromHand(CardInstance(0), CardEffect(1), none)),
        Err(InvalidAction)
    );
    assert_eq!(
        game.take_action(&cards, Action::ActivateFromHand(CardInstance(1), CardEffect(0), none)),
        Err(InvalidAction)
    );
    // no draws remaining, and an empty deck
    assert_eq!(game.take_action(&cards, Action::DrawFromRightDeck), Err(InvalidAction));
    assert_eq!(game.take_action(&cards, Action::DrawFromLeftDeck), Err(InvalidAction));
    assert_eq!(instances(game.hand()), vec![0, 1]);
    assert!(game.field().is_empty());
    assert!(game.graveyard().is_empty());
    assert_eq!(instances(game.right_deck()), vec![2]);
    assert!(!game.response_window());
    assert_eq!(game.phase(), 0);
    // occupied target slot
    game.take_action(&cards, Action::SummonFromHandToSlot(CardInstance(0), 5)).unwrap();
    assert_eq!(game.take_action(&cards, Action::SummonFromHandToSlot(CardInstance(1), 5)), Err(InvalidAction));
    assert_eq!(instances(game.hand()), vec![1]);
    assert_eq!(placements(game.field()), vec![(5, 0)]);
}

#[test]
fn drawing_needs_a_draw_and_a_card() {
    let cards = catalog();
    let mut counter = InstanceCounter::new();
    let left = vec![make(&cards, &mut counter, 4), make(&cards, &mut counter, 4)];
    let right = vec![make(&cards, &mut counter, 4)];
    let mut game = GameState::new(vec![], left, right, 2);
    assert_eq!(game.actions(&cards), vec![Action::DrawFromLeftDeck, Action::DrawFromRightDeck]);
    assert_eq!(game.take_action(&cards, Action::DrawFromRightDeck), Ok(()));
    assert_eq!(instances(game.hand()), vec![2]);
    assert_eq!(game.hand()[0].state, CardStatus::Drawn);
    assert_eq!(game.remaining_draws(), 1);
    assert!(game.response_window());
    assert_eq!(game.take_action(&cards, Action::DrawFromRightDeck), Err(InvalidAction));
    assert_eq!(game.remaining_draws(), 1);
    // the top of a deck is its last card
    assert_eq!(game.take_action(&cards, Action::DrawFromLeftDeck), Ok(()));
    assert_eq!(instances(game.hand()), vec![2, 1]);
    assert_eq!(instances(game.left_deck()), vec![0]);
    assert_eq!(game.remaining_draws(), 0);
    assert_eq!(game.take_action(&cards, Action::DrawFromLeftDeck), Err(InvalidAction));
    assert_eq!(instances(game.left_deck()), vec![0]);
    game.take_action(&cards, Action::YieldResponseWindow).unwrap();
    assert_eq!(
        game.actions(&cards),
        vec![Action::SummonFromHand(CardInstance(2)), Action::SummonFromHand(CardInstance(1))]
    );
}

#[test]
fn response_window_offers_no_summon_and_no_draw() {
    let cards = catalog();
    let mut counter = InstanceCounter::new();
    let hand = vec![make(&cards, &mut counter, 4), make(&cards, &mut counter, 1)];
    let deck = vec![make(&cards, &mut counter, 4)];
    let mut game = GameState::new(hand, deck, vec![], 3);
    assert_eq!(
        game.actions(&cards),
        vec![
            Action::SummonFromHand(CardInstance(0)),
            Action::SummonFromHand(CardInstance(1)),
            Action::DrawFromLeftDeck,
        ]
    );
    game.take_action(&cards, Action::SummonFromHand(CardInstance(1))).unwrap();
    let actions = game.actions(&cards);
    assert_eq!(
        actions,
        vec![
            Action::ActivateFromField(
                CardInstance(1),
                CardEffect(0),
                activation(ActivatableType::Can, None),
            ),
            Action::YieldResponseWindow,
        ]
    );
    assert!(actions.iter().all(|action| !matches!(
        action,
        Action::SummonFromHand(_) | Action::DrawFromLeftDeck | Action::DrawFromRightDeck
    )));
}

#[test]
fn mandatory_activations_exclude_everything_else() {
    let cards = catalog();
    let mut counter = InstanceCounter::new();
    let hand = vec![
        make(&cards, &mut counter, 1),
        make(&cards, &mut counter, 0),
        make(&cards, &mut counter, 4),
    ];
    let mut game = GameState::new(hand, vec![], vec![], 0);
    game.take_action(&cards, Action::SummonFromHandToSlot(CardInstance(0), 3)).unwrap();
    // the second summon is applied inside the open window
    game.take_action(&cards, Action::SummonFromHandToSlot(CardInstance(1), 4)).unwrap();
    assert_eq!(
        game.actions(&cards),
        vec![Action::ActivateFromField(
            CardInstance(1),
            CardEffect(0),
            activation(ActivatableType::Mandatory, None),
        )]
    );
    game.take_action(
        &cards,
        Action::ActivateFromField(
            CardInstance(1),
            CardEffect(0),
            activation(ActivatableType::Mandatory, None),
        ),
    )
    .unwrap();
    assert_eq!(placements(game.graveyard()), vec![(4, 1)]);
    assert_eq!(
        game.actions(&cards),
        vec![
            Action::ActivateFromField(
                CardInstance(0),
                CardEffect(0),
                activation(ActivatableType::Can, None),
            ),
            Action::YieldResponseWindow,
        ]
    );
}

#[test]
fn destroy_is_spared_while_the_named_card_is_on_the_field() {
    let cards = catalog();
    let mut counter = InstanceCounter::new();
    let hand = vec![make(&cards, &mut counter, 2), make(&cards, &mut counter, 0)];
    let mut game = GameState::new(hand, vec![], vec![], 0);
    game.take_action(&cards, Action::SummonFromHand(CardInstance(0))).unwrap();
    game.take_action(&cards, Action::YieldResponseWindow).unwrap();
    game.take_action(&cards, Action::SummonFromHand(CardInstance(1))).unwrap();
    let fire = Action::ActivateFromField(
        CardInstance(1),
        CardEffect(0),
        activation(ActivatableType::Mandatory, None),
    );
    assert_eq!(game.actions(&cards), vec![fire]);
    assert_eq!(game.take_action(&cards, fire), Ok(()));
    assert_eq!(placements(game.field()), vec![(0, 0), (-1, 1)]);
    assert!(game.graveyard().is_empty());
    assert!(game.response_window());
}

#[test]
fn yield_resets_every_status() {
    let cards = catalog();
    let mut counter = InstanceCounter::new();
    let hand = vec![
        make(&cards, &mut counter, 4),
        make(&cards, &mut counter, 4),
        make(&cards, &mut counter, 4),
    ];
    let deck = vec![make(&cards, &mut counter, 4), make(&cards, &mut counter, 4)];
    let mut game = GameState::new(hand, deck, vec![], 1);
    game.take_action(&cards, Action::SummonFromHand(CardInstance(0))).unwrap();
    game.take_action(&cards, Action::SummonFromHand(CardInstance(1))).unwrap();
    game.take_action(&cards, Action::SummonFromHand(CardInstance(2))).unwrap();
    game.take_action(&cards, Action::DestroyOnField(CardInstance(0))).unwrap();
    game.take_action(&cards, Action::ReturnFieldToHand(CardInstance(1))).unwrap();
    game.take_action(&cards, Action::DrawFromLeftDeck).unwrap();
    assert_eq!(game.hand()[0].state, CardStatus::ReturnedToHand);
    assert_eq!(game.hand()[1].state, CardStatus::Drawn);
    assert_eq!(game.field()[0].card.state, CardStatus::Summoned);
    assert_eq!(game.graveyard()[0].card.state, CardStatus::Destroyed);
    let phase = game.phase();
    assert_eq!(game.take_action(&cards, Action::YieldResponseWindow), Ok(()));
    assert_eq!(game.phase(), phase + 1);
    assert!(!game.response_window());
    assert!(game.hand().iter().all(|card| card.state == CardStatus::Idle));
    assert!(game.field().iter().all(|p| p.card.state == CardStatus::Idle));
    assert!(game.graveyard().iter().all(|p| p.card.state == CardStatus::Idle));
    assert_eq!(instances(game.hand()), vec![1, 4]);
    assert_eq!(placements(game.field()), vec![(1, 2)]);
    assert_eq!(placements(game.graveyard()), vec![(0, 0)]);
    assert_eq!(instances(game.left_deck()), vec![3]);
    // a yield outside a response window also advances the phase
    assert_eq!(game.take_action(&cards, Action::YieldResponseWindow), Ok(()));
    assert_eq!(game.phase(), phase + 2);
}

#[test]
fn every_card_stays_in_exactly_one_zone() {
    let cards = catalog();
    let mut counter = InstanceCounter::new();
    let hand = vec![
        make(&cards, &mut counter, 0),
        make(&cards, &mut counter, 1),
        make(&cards, &mut counter, 4),
    ];
    let left = vec![make(&cards, &mut counter, 3), make(&cards, &mut counter, 5)];
    let right = vec![make(&cards, &mut counter, 2)];
    let mut game = GameState::new(hand, left, right, 3);
    // always take the first legal move, for a while
    for _ in 0..40 {
        let actions = game.actions(&cards);
        if actions.is_empty() {
            break;
        }
        assert_eq!(game.take_action(&cards, actions[0]), Ok(()));
        let mut seen: Vec<u32> = Vec::new();
        seen.extend(instances(game.hand()));
        seen.extend(game.field().iter().map(|p| p.card.instance.0));
        seen.extend(game.graveyard().iter().map(|p| p.card.instance.0));
        seen.extend(instances(game.left_deck()));
        seen.extend(instances(game.right_deck()));
        seen.sort();
        assert_eq!(seen, vec![0, 1, 2, 3, 4, 5]);
        let mut slots: Vec<i64> = game.field().iter().map(|p| p.slot).collect();
        slots.sort();
        slots.dedup();
        assert_eq!(slots.len(), game.field().len());
    }
}

#[test]
fn swap_without_a_target_does_nothing() {
    let cards = catalog();
    let mut counter = InstanceCounter::new();
    let on_field = make(&cards, &mut counter, 4);
    let swapper = make(&cards, &mut counter, 3);
    let mut game = GameState::new(vec![on_field], vec![swapper], vec![], 1);
    game.take_action(&cards, Action::SummonFromHandToSlot(CardInstance(0), 2)).unwrap();
    game.take_action(&cards, Action::YieldResponseWindow).unwrap();
    game.take_action(&cards, Action::DrawFromLeftDeck).unwrap();
    game.take_action(&cards, Action::YieldResponseWindow).unwrap();
    // no slot chosen: nothing moves, but the window opens
    assert_eq!(
        game.take_action(
            &cards,
            Action::ActivateFromHand(CardInstance(1), CardEffect(0), activation(ActivatableType::Can, None)),
        ),
        Ok(())
    );
    assert_eq!(placements(game.field()), vec![(2, 0)]);
    assert_eq!(instances(game.hand()), vec![1]);
    assert!(game.response_window());
    game.take_action(&cards, Action::YieldResponseWindow).unwrap();
    // an empty slot chosen: nothing moves
    assert_eq!(
        game.take_action(
            &cards,
            Action::ActivateFromHand(
                CardInstance(1),
                CardEffect(0),
                activation(ActivatableType::Can, Some(0)),
            ),
        ),
        Ok(())
    );
    assert_eq!(placements(game.field()), vec![(2, 0)]);
    assert_eq!(instances(game.hand()), vec![1]);
    // the occupied slot chosen: the two cards change places
    assert_eq!(
        game.take_action(
            &cards,
            Action::ActivateFromHand(
                CardInstance(1),
                CardEffect(0),
                activation(ActivatableType::Can, Some(2)),
            ),
        ),
        Ok(())
    );
    assert_eq!(placements(game.field()), vec![(2, 1)]);
    assert_eq!(instances(game.hand()), vec![0]);
}

#[test]
fn effects_of_one_card_are_listed_in_order() {
    let cards = catalog();
    let mut counter = InstanceCounter::new();
    let plain = make(&cards, &mut counter, 4);
    let twin = make(&cards, &mut counter, 5);
    let mut game = GameState::new(vec![plain], vec![twin], vec![], 1);
    game.take_action(&cards, Action::SummonFromHand(CardInstance(0))).unwrap();
    game.take_action(&cards, Action::YieldResponseWindow).unwrap();
    game.take_action(&cards, Action::DrawFromLeftDeck).unwrap();
    // the drawn card's first effect is mandatory, with one choice for the one slot
    let swap = Action::ActivateFromHand(
        CardInstance(1),
        CardEffect(0),
        activation(ActivatableType::Mandatory, Some(0)),
    );
    assert_eq!(game.actions(&cards), vec![swap]);
    game.take_action(&cards, swap).unwrap();
    assert_eq!(placements(game.field()), vec![(0, 1)]);
    // now it is summoned on the field: its second effect offers itself
    assert_eq!(
        game.actions(&cards),
        vec![
            Action::ActivateFromField(
                CardInstance(1),
                CardEffect(1),
                activation(ActivatableType::Can, None),
            ),
            Action::YieldResponseWindow,
        ]
    );
}

#[test]
fn resolutions_queue_by_phase() {
    let cards = catalog();
    let mut game = GameState::new(vec![], vec![], vec![], 0);
    assert!(game.queued_effects().is_empty());
    game.queue_resolution(Resolution::DestroyOnField(CardInstance(4)));
    game.queue_resolution(Resolution::DestroyOnField(CardInstance(5)));
    assert_eq!(
        game.queued_effects(),
        &vec![vec![
            Resolution::DestroyOnField(CardInstance(4)),
            Resolution::DestroyOnField(CardInstance(5)),
        ]]
    );
    game.take_action(&cards, Action::YieldResponseWindow).unwrap();
    game.take_action(&cards, Action::YieldResponseWindow).unwrap();
    game.queue_resolution(Resolution::DestroyOnField(CardInstance(6)));
    assert_eq!(game.phase(), 2);
    assert_eq!(
        game.queued_effects(),
        &vec![
            vec![
                Resolution::DestroyOnField(CardInstance(4)),
                Resolution::DestroyOnField(CardInstance(5)),
            ],
            vec![],
            vec![Resolution::DestroyOnField(CardInstance(6))],
        ]
    );
}

#[test]
fn effects_answer_for_their_own_card_only() {
    let cards = catalog();
    let mut counter = InstanceCounter::new();
    let brittle = make(&cards, &mut counter, 1);
    let plain = make(&cards, &mut counter, 4);
    let mut game = GameState::new(vec![brittle, plain], vec![], vec![], 0);
    game.take_action(&cards, Action::SummonFromHand(CardInstance(0))).unwrap();
    let brittle_type = cards.at(CardTypeIdentifier(1));
    let fragile_type = cards.at(CardTypeIdentifier(0));
    let effect = &brittle_type.effects[0];
    assert_eq!(
        effect.can_activate(&cards, brittle_type, &game, CardInstance(0)),
        vec![activation(ActivatableType::Can, None)]
    );
    // another instance, or another card type, is not triggered
    assert!(effect.can_activate(&cards, brittle_type, &game, CardInstance(1)).is_empty());
    assert!(effect.can_activate(&cards, fragile_type, &game, CardInstance(0)).is_empty());
    let swap = EffectTrigger::SwapHandWithField(SwapHandWithField);
    assert_eq!(
        swap.variants(&cards, brittle_type, &game, CardInstance(0)),
        vec![ActivationData { slot: Some(0) }]
    );
    let named = Condition::NamedCardOnField(NamedCardOnField { name: "Brittle".to_string() });
    let none = activation(ActivatableType::Can, None);
    assert!(named.met(&cards, brittle_type, &game, CardInstance(0), none));
    let absent = Condition::NamedCardOnField(NamedCardOnField { name: "Plain".to_string() });
    assert!(!absent.met(&cards, brittle_type, &game, CardInstance(0), none));
    assert_eq!(ActivationData::default(), ActivationData { slot: None });
    assert_eq!(CardEffect::from(3usize), CardEffect(3));
    assert_eq!(CardEffect::at(7), Some(CardEffect(7)));
}

#[test]
fn graveyard_keeps_the_order_of_death_by_slot() {
    let cards = catalog();
    let mut counter = InstanceCounter::new();
    let mut hand = Vec::new();
    for _ in 0..4 {
        hand.push(make(&cards, &mut counter, 4));
    }
    let mut game = GameState::new(hand, vec![], vec![], 0);
    for (instance, slot) in [(0u32, 2i64), (1, -3), (2, 2), (3, 2)] {
        game.take_action(&cards, Action::SummonFromHandToSlot(CardInstance(instance), slot)).unwrap();
        game.take_action(&cards, Action::DestroyOnField(CardInstance(instance))).unwrap();
    }
    assert_eq!(placements(game.graveyard()), vec![(2, 0), (-3, 1), (2, 2), (2, 3)]);
    assert_eq!(
        game.graveyard_slot(2),
        vec![CardInstance(0), CardInstance(2), CardInstance(3)]
    );
    assert_eq!(game.graveyard_slot(-3), vec![CardInstance(1)]);
    assert!(game.graveyard_slot(0).is_empty());
}

#[test]
fn states_tell_whether_the_catalog_knows_their_cards() {
    let cards = catalog();
    let small = Cards::from_definitions(vec![card_type("Only", vec![])]).unwrap();
    let mut counter = InstanceCounter::new();
    let plain = make(&cards, &mut counter, 4);
    let first = make(&cards, &mut counter, 0);
    assert!(plain.is_known_to(&cards));
    assert!(!plain.is_known_to(&small));
    assert!(first.is_known_to(&small));
    let game = GameState::new(vec![first], vec![plain], vec![], 0);
    assert!(game.known_to(&cards));
    assert!(!game.known_to(&small));
    let empty = GameState::new(vec![], vec![], vec![], 0);
    assert!(empty.known_to(&small));
    assert!(empty.actions(&small).is_empty());
}
