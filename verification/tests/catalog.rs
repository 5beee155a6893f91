use card_engine::card_type::{
    CardEffect, CardType, CardTypeIdentifier, Condition, DestroySelfUnless, EffectTrigger,
    NamedCardOnField, OnDraw, OnSummon, SwapHandWithField,
};
use card_engine::cards::{Cards, Reference};
use card_engine::state::{Card, CardInstance, CardStatus, InstanceCounter, InvalidAction};

fn plain(name: &str, attack: u32, defense: u32) -> CardType {
    CardType {
        id: CardTypeIdentifier::default(),
        name: name.to_string(),
        effects: vec![],
        defense,
        attack,
    }
}

fn catalog() -> Cards {
    Cards::from_definitions(vec![
        plain("Staple Dragon", 3, 2),
        plain("Dragonification", 0, 0),
        plain("Staple Dragon", 9, 9),
    ])
    .unwrap()
}

#[test]
fn reading_cards() {
    let cards = catalog();
    let card = cards.card("Staple Dragon").unwrap();
    assert_eq!(card.name, "Staple Dragon");
}

#[test]
fn identifiers_are_positions() {
    let cards = catalog();
    assert_eq!(cards.len(), 3);
    for i in 0..3u32 {
        let card = cards.card(CardTypeIdentifier(i)).unwrap();
        assert_eq!(card.id, CardTypeIdentifier(i));
    }
    assert_eq!(cards.card(CardTypeIdentifier(1)).unwrap().name, "Dragonification");
    assert_eq!(cards.at(CardTypeIdentifier(2)).attack, 9);
}

#[test]
fn definitions_keep_their_contents() {
    let effect = CardEffect::OnSummon(OnSummon {
        mandatory: true,
        trigger: EffectTrigger::DestroySelfUnless(DestroySelfUnless {
            condition: Condition::NamedCardOnField(NamedCardOnField {
                name: "Dragonification".to_string(),
            }),
        }),
    });
    let mut first = plain("A", 1, 2);
    first.id = CardTypeIdentifier(77);
    first.effects.push(effect);
    let cards = Cards::from_definitions(vec![first, plain("B", 3, 4)]).unwrap();
    let a = cards.card("A").unwrap();
    assert_eq!(a.id, CardTypeIdentifier(0));
    assert_eq!(a.attack, 1);
    assert_eq!(a.defense, 2);
    assert_eq!(a.effects.len(), 1);
    assert!(matches!(&a.effects[0], CardEffect::OnSummon(e) if e.mandatory));
    let b = cards.card("B").unwrap();
    assert_eq!(b.id, CardTypeIdentifier(1));
    assert_eq!((b.attack, b.defense), (3, 4));
}

#[test]
fn name_lookup_finds_the_first() {
    let cards = catalog();
    let card = cards.card("Staple Dragon").unwrap();
    assert_eq!(card.id, CardTypeIdentifier(0));
    assert_eq!(card.attack, 3);
    let owned = cards.card(String::from("Dragonification")).unwrap();
    assert_eq!(owned.id, CardTypeIdentifier(1));
    let by_reference = cards.lookup(Reference::Identifier("Staple Dragon".to_string())).unwrap();
    assert_eq!(by_reference.id, CardTypeIdentifier(0));
}

#[test]
fn unknown_references_give_none() {
    let cards = catalog();
    assert!(cards.card("Staple").is_none());
    assert!(cards.card("staple dragon").is_none());
    assert!(cards.card(String::new()).is_none());
    assert!(cards.card(CardTypeIdentifier(3)).is_none());
    assert!(cards.card(CardTypeIdentifier(u32::MAX)).is_none());
    assert!(cards.lookup(Reference::StaticIdentifier("")).is_none());
    let empty = Cards::from_definitions(vec![]).unwrap();
    assert_eq!(empty.len(), 0);
    assert!(empty.card(CardTypeIdentifier(0)).is_none());
    assert!(empty.card("Staple Dragon").is_none());
}

#[test]
fn instances_count_up() {
    let cards = catalog();
    let dragon = cards.card("Staple Dragon").unwrap();
    let spell = cards.card("Dragonification").unwrap();
    let mut counter = InstanceCounter::new();
    assert!(!counter.exhausted());
    let a = Card::instantiate(dragon, &mut counter);
    let b = Card::instantiate(dragon, &mut counter);
    let c = Card::instantiate(spell, &mut counter);
    assert_eq!(a.instance, CardInstance(0));
    assert_eq!(b.instance, CardInstance(1));
    assert_eq!(c.instance, CardInstance(2));
    assert_ne!(a, b);
    assert_eq!(a.card_type, CardTypeIdentifier(0));
    assert_eq!(c.card_type, CardTypeIdentifier(1));
    assert_eq!(a.state, CardStatus::Idle);
}

#[test]
fn cards_know_their_type() {
    let cards = catalog();
    let dragon = cards.card("Staple Dragon").unwrap();
    let spell = cards.card("Dragonification").unwrap();
    let mut counter = InstanceCounter::new();
    let card = Card::instantiate(spell, &mut counter);
    assert!(card.instance_of(spell));
    assert!(!card.instance_of(dragon));
    assert!(card.has_name(&cards, "Dragonification"));
    assert!(!card.has_name(&cards, "Staple Dragon"));
    assert!(!card.has_name(&cards, ""));
    let own = card.lookup_self(&cards);
    assert_eq!(own.name, "Dragonification");
    assert_eq!(own.id, CardTypeIdentifier(1));
}

#[test]
fn error_message() {
    assert_eq!(InvalidAction.message(), "Invalid Action");
}

#[test]
fn effect_variants_exist() {
    let draw = CardEffect::OnDraw(OnDraw {
        mandatory: false,
        trigger: EffectTrigger::SwapHandWithField(SwapHandWithField),
    });
    assert!(matches!(draw, CardEffect::OnDraw(ref e) if !e.mandatory));
    assert_eq!(CardTypeIdentifier::default(), CardTypeIdentifier(0));
}
