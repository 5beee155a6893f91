use vstd::prelude::*;
use crate::cards::Cards;
use crate::state::{
    Action, Activation, ActivationData, ActivatableType, CardInstance, CardStatus, GameState,
    GameStateView, InvalidAction, Placed,
};

verus! {

/// A unique identifier for a card type: its position in the catalog.
#[derive(Copy, Clone, Debug, PartialEq, Eq, Structural)]
pub struct CardTypeIdentifier(pub u32);

impl Default for CardTypeIdentifier {
    fn default() -> (r: Self)
        ensures
            r.0 == 0,
    {
        CardTypeIdentifier(0)
    }
}

/// Holds when some card on the field carries the given name.
#[derive(Debug)]
pub struct NamedCardOnField {
    pub name: String,
}

/// A boolean predicate over the game state, used by triggers.
#[derive(Debug)]
pub enum Condition {
    NamedCardOnField(NamedCardOnField),
}

/// Destroys the activating card unless the condition holds.
#[derive(Debug)]
pub struct DestroySelfUnless {
    pub condition: Condition,
}

/// Swaps the activating hand card with the occupant of a chosen field slot.
#[derive(Debug)]
pub struct SwapHandWithField;

/// What happens when an effect fires, and in how many variant ways.
#[derive(Debug)]
pub enum EffectTrigger {
    DestroySelfUnless(DestroySelfUnless),
    SwapHandWithField(SwapHandWithField),
}

/// Fires while its card sits on the field with status `Summoned`.
#[derive(Debug)]
pub struct OnSummon {
    pub mandatory: bool,
    pub trigger: EffectTrigger,
}

/// Fires while its card sits in the hand with status `Drawn`.
#[derive(Debug)]
pub struct OnDraw {
    pub mandatory: bool,
    pub trigger: EffectTrigger,
}

/// The condition under which a card's effect may fire.
#[derive(Debug)]
pub enum CardEffect {
    OnSummon(OnSummon),
    OnDraw(OnDraw),
}

/// A card type is the template for cards: every card is a copy of one card type.
#[derive(Debug)]
pub struct CardType {
    pub id: CardTypeIdentifier,
    pub name: String,
    pub effects: Vec<CardEffect>,
    pub defense: u32,
    pub attack: u32,
}

/// The state that a move leaves: the move's result where it succeeds, the state as
/// it was where it fails.
pub open spec fn attempt(
    s: GameStateView,
    moved: Result<GameStateView, InvalidAction>,
) -> GameStateView {
    match moved {
        Ok(next) => next,
        Err(_) => s,
    }
}

impl NamedCardOnField {
    /// Whether some card on the field is of a type that carries the name.
    pub open spec fn holds(&self, cards: Seq<CardType>, s: GameStateView) -> bool {
        exists|k: int|
            0 <= k < s.field.len() && cards[(#[trigger] s.field[k]).card.card_type.0 as int].name@
                == self.name@
    }

    /// Is the condition met in this game state?
    pub fn met(
        &self,
        card_pool: &Cards,
        card_type: &CardType,
        game_state: &GameState,
        instance: CardInstance,
        activation: Activation,
    ) -> (r: bool)
        requires
            game_state@.known(card_pool@.len()),
        ensures
            r == self.holds(card_pool@, game_state@),
    {
        let field = game_state.field();
        let mut k: usize = 0;
        while k < field.len()
            invariant
                k <= field@.len(),
                field@ == game_state@.field,
                game_state@.known(card_pool@.len()),
                forall|j: int|
                    0 <= j < k ==> card_pool@[(#[trigger] field@[j]).card.card_type.0 as int].name@
                        != self.name@,
            decreases field@.len() - k,
        {
            if field[k].card.has_name(card_pool, self.name.as_str()) {
                return true;
            }
            k += 1;
        }
        false
    }
}

impl Condition {
    /// Whether the condition holds in the state.
    pub open spec fn holds(&self, cards: Seq<CardType>, s: GameStateView) -> bool {
        match self {
            Condition::NamedCardOnField(c) => c.holds(cards, s),
        }
    }

    /// Is the condition met in this game state?
    pub fn met(
        &self,
        card_pool: &Cards,
        card_type: &CardType,
        game_state: &GameState,
        instance: CardInstance,
        activation: Activation,
    ) -> (r: bool)
        requires
            game_state@.known(card_pool@.len()),
        ensures
            r == self.holds(card_pool@, game_state@),
    {
        match self {
            Condition::NamedCardOnField(c) => c.met(
                card_pool,
                card_type,
                game_state,
                instance,
                activation,
            ),
        }
    }
}

impl DestroySelfUnless {
    /// The one way to activate: with no target.
    pub open spec fn choices(&self, s: GameStateView) -> Seq<ActivationData> {
        seq![ActivationData { slot: None }]
    }

    /// The state after activation: unchanged where the condition holds or the card
    /// is not on the field, else with the card destroyed.
    pub open spec fn activated(
        &self,
        cards: Seq<CardType>,
        s: GameStateView,
        instance: CardInstance,
    ) -> GameStateView {
        if self.condition.holds(cards, s) {
            s
        } else {
            attempt(s, s.destroy(instance))
        }
    }

    /// In what different ways can this trigger activate?
    pub fn variants(
        &self,
        card_pool: &Cards,
        card_type: &CardType,
        game_state: &GameState,
        instance: CardInstance,
    ) -> (r: Vec<ActivationData>)
        ensures
            r@ == self.choices(game_state@),
    {
        let mut r: Vec<ActivationData> = Vec::new();
        r.push(ActivationData::default());
        assert(r@ =~= self.choices(game_state@));
        r
    }

    /// Destroys the card unless the condition is met. That the card is not on the
    /// field is no error: it is destroyed if it is there.
    pub fn activation(
        &self,
        card_pool: &Cards,
        card_type: &CardType,
        game_state: &mut GameState,
        instance: CardInstance,
        activation: Activation,
    )
        requires
            old(game_state)@.known(card_pool@.len()),
        ensures
            final(game_state)@ == self.activated(card_pool@, old(game_state)@, instance),
            final(game_state)@.known(card_pool@.len()),
        decreases 0int, 2int,
    {
        if !self.condition.met(card_pool, card_type, game_state, instance, activation) {
            let _ = game_state.take_action(card_pool, Action::DestroyOnField(instance));
        }
    }

    /// Nothing is deferred.
    pub fn resolution(
        &self,
        card_pool: &Cards,
        card_type: &CardType,
        game_state: &mut GameState,
        instance: CardInstance,
        activation: Activation,
    )
        ensures
            final(game_state)@ == old(game_state)@,
    {
    }
}

impl SwapHandWithField {
    /// One way to activate for each occupied field slot, in the field's order.
    pub open spec fn choices(&self, s: GameStateView) -> Seq<ActivationData> {
        s.field.map_values(|p: Placed| ActivationData { slot: Some(p.slot) })
    }

    /// The state after activation: the occupant of the chosen slot is returned to
    /// the hand, then the card is summoned from the hand to that slot. Without a
    /// chosen slot, or with an empty one, nothing happens; where the summon fails,
    /// the occupant stays in hand.
    pub open spec fn activated(
        &self,
        s: GameStateView,
        instance: CardInstance,
        activation: Activation,
    ) -> GameStateView {
        match activation.data.slot {
            Some(slot) => match s.field_at(slot) {
                Some(target) => match s.return_to_hand(target.instance) {
                    Ok(returned) => attempt(returned, returned.summon(instance, slot)),
                    Err(_) => s,
                },
                None => s,
            },
            None => s,
        }
    }

    /// In what different ways can this trigger activate? On any column of the field.
    pub fn variants(
        &self,
        card_pool: &Cards,
        card_type: &CardType,
        game_state: &GameState,
        instance: CardInstance,
    ) -> (r: Vec<ActivationData>)
        ensures
            r@ == self.choices(game_state@),
    {
        let field = game_state.field();
        let mut r: Vec<ActivationData> = Vec::new();
        let mut k: usize = 0;
        while k < field.len()
            invariant
                k <= field@.len(),
                field@ == game_state@.field,
                r@.len() == k,
                forall|j: int|
                    0 <= j < k ==> r@[j] == (ActivationData { slot: Some(field@[j].slot) }),
            decreases field@.len() - k,
        {
            r.push(ActivationData { slot: Some(field[k].slot) });
            k += 1;
        }
        assert(r@ =~= self.choices(game_state@));
        r
    }

    /// Swaps the card with the occupant of the chosen slot.
    pub fn activation(
        &self,
        card_pool: &Cards,
        card_type: &CardType,
        game_state: &mut GameState,
        instance: CardInstance,
        activation: Activation,
    )
        requires
            old(game_state)@.known(card_pool@.len()),
        ensures
            final(game_state)@ == self.activated(old(game_state)@, instance, activation),
            final(game_state)@.known(card_pool@.len()),
        decreases 0int, 2int,
    {
        let slot = match activation.data.slot {
            Some(slot) => slot,
            None => {
                return ;
            },
        };
        let target = match game_state.instance_at(slot) {
            Some(target) => target,
            None => {
                return ;
            },
        };
        match game_state.take_action(card_pool, Action::ReturnFieldToHand(target)) {
            Ok(_) => {
                let _ = game_state.take_action(
                    card_pool,
                    Action::SummonFromHandToSlot(instance, slot),
                );
            },
            Err(_) => {},
        }
    }

    /// Nothing is deferred.
    pub fn resolution(
        &self,
        card_pool: &Cards,
        card_type: &CardType,
        game_state: &mut GameState,
        instance: CardInstance,
        activation: Activation,
    )
        ensures
            final(game_state)@ == old(game_state)@,
    {
    }
}

impl EffectTrigger {
    /// The targets that the trigger can be activated with, in order.
    pub open spec fn choices(&self, s: GameStateView) -> Seq<ActivationData> {
        match self {
            EffectTrigger::DestroySelfUnless(t) => t.choices(s),
            EffectTrigger::SwapHandWithField(t) => t.choices(s),
        }
    }

    /// The state after the trigger's immediate effects.
    pub open spec fn activated(
        &self,
        cards: Seq<CardType>,
        s: GameStateView,
        instance: CardInstance,
        activation: Activation,
    ) -> GameStateView {
        match self {
            EffectTrigger::DestroySelfUnless(t) => t.activated(cards, s, instance),
            EffectTrigger::SwapHandWithField(t) => t.activated(s, instance, activation),
        }
    }

    /// In what different ways can this trigger activate?
    pub fn variants(
        &self,
        card_pool: &Cards,
        card_type: &CardType,
        game_state: &GameState,
        instance: CardInstance,
    ) -> (r: Vec<ActivationData>)
        ensures
            r@ == self.choices(game_state@),
    {
        match self {
            EffectTrigger::DestroySelfUnless(t) => t.variants(
                card_pool,
                card_type,
                game_state,
                instance,
            ),
            EffectTrigger::SwapHandWithField(t) => t.variants(
                card_pool,
                card_type,
                game_state,
                instance,
            ),
        }
    }

    /// Runs the trigger's immediate effects on the game state.
    pub fn activation(
        &self,
        card_pool: &Cards,
        card_type: &CardType,
        game_state: &mut GameState,
        instance: CardInstance,
        activation: Activation,
    )
        requires
            old(game_state)@.known(card_pool@.len()),
        ensures
            final(game_state)@ == self.activated(
                card_pool@,
                old(game_state)@,
                instance,
                activation,
            ),
            final(game_state)@.known(card_pool@.len()),
        decreases 0int, 3int,
    {
        match self {
            EffectTrigger::DestroySelfUnless(t) => t.activation(
                card_pool,
                card_type,
                game_state,
                instance,
                activation,
            ),
            EffectTrigger::SwapHandWithField(t) => t.activation(
                card_pool,
                card_type,
                game_state,
                instance,
                activation,
            ),
        }
    }

    /// Runs the trigger's deferred effects on the game state. No trigger has any.
    pub fn resolution(
        &self,
        card_pool: &Cards,
        card_type: &CardType,
        game_state: &mut GameState,
        instance: CardInstance,
        activation: Activation,
    )
        ensures
            final(game_state)@ == old(game_state)@,
    {
        match self {
            EffectTrigger::DestroySelfUnless(t) => t.resolution(
                card_pool,
                card_type,
                game_state,
                instance,
                activation,
            ),
            EffectTrigger::SwapHandWithField(t) => t.resolution(
                card_pool,
                card_type,
                game_state,
                instance,
                activation,
            ),
        }
    }
}

/// The activations that a trigger offers: one for each of its choices, all
/// mandatory or all optional.
pub open spec fn offered(mandatory: bool, choices: Seq<ActivationData>) -> Seq<Activation> {
    choices.map_values(
        |data: ActivationData|
            Activation {
                status: if mandatory {
                    ActivatableType::Mandatory
                } else {
                    ActivatableType::Can
                },
                data,
            },
    )
}

fn offer(mandatory: bool, choices: Vec<ActivationData>) -> (r: Vec<Activation>)
    ensures
        r@ == offered(mandatory, choices@),
{
    let mut r: Vec<Activation> = Vec::new();
    let mut k: usize = 0;
    while k < choices.len()
        invariant
            k <= choices@.len(),
            r@.len() == k,
            forall|j: int| 0 <= j < k ==> r@[j] == offered(mandatory, choices@)[j],
        decreases choices@.len() - k,
    {
        r.push(
            Activation {
                status: if mandatory {
                    ActivatableType::Mandatory
                } else {
                    ActivatableType::Can
                },
                data: choices[k],
            },
        );
        k += 1;
    }
    assert(r@ =~= offered(mandatory, choices@));
    r
}

impl OnSummon {
    /// Whether the card with `instance` is on the field, of the given type, and has
    /// just been summoned.
    pub open spec fn triggered(
        card_type: CardType,
        s: GameStateView,
        instance: CardInstance,
    ) -> bool {
        exists|k: int|
            0 <= k < s.field.len() && (#[trigger] s.field[k]).card.instance == instance
                && s.field[k].card.card_type == card_type.id && s.field[k].card.state
                == CardStatus::Summoned
    }

    /// Every way in which the effect could fire now: none unless it is triggered.
    pub open spec fn offers(
        &self,
        card_type: CardType,
        s: GameStateView,
        instance: CardInstance,
    ) -> Seq<Activation> {
        if Self::triggered(card_type, s, instance) {
            offered(self.mandatory, self.trigger.choices(s))
        } else {
            Seq::empty()
        }
    }

    /// How can this effect activate in this game state for this card instance?
    pub fn can_activate(
        &self,
        card_pool: &Cards,
        card_type: &CardType,
        game_state: &GameState,
        instance: CardInstance,
    ) -> (r: Vec<Activation>)
        ensures
            r@ == self.offers(*card_type, game_state@, instance),
    {
        let field = game_state.field();
        let mut k: usize = 0;
        while k < field.len()
            invariant
                k <= field@.len(),
                field@ == game_state@.field,
                forall|j: int|
                    0 <= j < k ==> !((#[trigger] field@[j]).card.instance == instance
                        && field@[j].card.card_type == card_type.id && field@[j].card.state
                        == CardStatus::Summoned),
            decreases field@.len() - k,
        {
            let card = &field[k].card;
            if card.instance == instance && card.instance_of(card_type) && card.state
                == CardStatus::Summoned {
                return offer(
                    self.mandatory,
                    self.trigger.variants(card_pool, card_type, game_state, instance),
                );
            }
            k += 1;
        }
        Vec::new()
    }

    /// Activates the effect in a particular way: the trigger's immediate effects,
    /// then its deferred ones.
    pub fn activate(
        &self,
        card_pool: &Cards,
        card_type: &CardType,
        game_state: &mut GameState,
        instance: CardInstance,
        activation: Activation,
    )
        requires
            old(game_state)@.known(card_pool@.len()),
        ensures
            final(game_state)@ == self.trigger.activated(
                card_pool@,
                old(game_state)@,
                instance,
                activation,
            ),
            final(game_state)@.known(card_pool@.len()),
        decreases 0int, 4int,
    {
        self.trigger.activation(card_pool, card_type, game_state, instance, activation);
        self.trigger.resolution(card_pool, card_type, game_state, instance, activation);
    }
}

impl OnDraw {
    /// Whether the card with `instance` is in hand, of the given type, and has just
    /// been drawn.
    pub open spec fn triggered(
        card_type: CardType,
        s: GameStateView,
        instance: CardInstance,
    ) -> bool {
        exists|k: int|
            0 <= k < s.hand.len() && (#[trigger] s.hand[k]).instance == instance
                && s.hand[k].card_type == card_type.id && s.hand[k].state == CardStatus::Drawn
    }

    /// Every way in which the effect could fire now: none unless it is triggered.
    pub open spec fn offers(
        &self,
        card_type: CardType,
        s: GameStateView,
        instance: CardInstance,
    ) -> Seq<Activation> {
        if Self::triggered(card_type, s, instance) {
            offered(self.mandatory, self.trigger.choices(s))
        } else {
            Seq::empty()
        }
    }

    /// How can this effect activate in this game state for this card instance?
    pub fn can_activate(
        &self,
        card_pool: &Cards,
        card_type: &CardType,
        game_state: &GameState,
        instance: CardInstance,
    ) -> (r: Vec<Activation>)
        ensures
            r@ == self.offers(*card_type, game_state@, instance),
    {
        let hand = game_state.hand();
        let mut k: usize = 0;
        while k < hand.len()
            invariant
                k <= hand@.len(),
                hand@ == game_state@.hand,
                forall|j: int|
                    0 <= j < k ==> !((#[trigger] hand@[j]).instance == instance
                        && hand@[j].card_type == card_type.id && hand@[j].state
                        == CardStatus::Drawn),
            decreases hand@.len() - k,
        {
            let card = &hand[k];
            if card.instance == instance && card.instance_of(card_type) && card.state
                == CardStatus::Drawn {
                return offer(
                    self.mandatory,
                    self.trigger.variants(card_pool, card_type, game_state, instance),
                );
            }
            k += 1;
        }
        Vec::new()
    }

    /// Activates the effect in a particular way: the trigger's immediate effects,
    /// then its deferred ones.
    pub fn activate(
        &self,
        card_pool: &Cards,
        card_type: &CardType,
        game_state: &mut GameState,
        instance: CardInstance,
        activation: Activation,
    )
        requires
            old(game_state)@.known(card_pool@.len()),
        ensures
            final(game_state)@ == self.trigger.activated(
                card_pool@,
                old(game_state)@,
                instance,
                activation,
            ),
            final(game_state)@.known(card_pool@.len()),
        decreases 0int, 4int,
    {
        self.trigger.activation(card_pool, card_type, game_state, instance, activation);
        self.trigger.resolution(card_pool, card_type, game_state, instance, activation);
    }
}

impl CardEffect {
    /// Every way in which the effect could fire now for the card with `instance`.
    pub open spec fn offers(
        &self,
        card_type: CardType,
        s: GameStateView,
        instance: CardInstance,
    ) -> Seq<Activation> {
        match self {
            CardEffect::OnSummon(e) => e.offers(card_type, s, instance),
            CardEffect::OnDraw(e) => e.offers(card_type, s, instance),
        }
    }

    /// The state after the effect has fired with `activation`.
    pub open spec fn outcome(
        &self,
        cards: Seq<CardType>,
        s: GameStateView,
        instance: CardInstance,
        activation: Activation,
    ) -> GameStateView {
        match self {
            CardEffect::OnSummon(e) => e.trigger.activated(cards, s, instance, activation),
            CardEffect::OnDraw(e) => e.trigger.activated(cards, s, instance, activation),
        }
    }

    /// How can this effect activate in this game state for this card instance?
    /// Empty where the effect's condition is not met.
    pub fn can_activate(
        &self,
        card_pool: &Cards,
        card_type: &CardType,
        game_state: &GameState,
        instance: CardInstance,
    ) -> (r: Vec<Activation>)
        ensures
            r@ == self.offers(*card_type, game_state@, instance),
    {
        match self {
            CardEffect::OnSummon(e) => e.can_activate(card_pool, card_type, game_state, instance),
            CardEffect::OnDraw(e) => e.can_activate(card_pool, card_type, game_state, instance),
        }
    }

    /// Activates this effect in this game state for this card instance in a
    /// particular way.
    pub fn activate(
        &self,
        card_pool: &Cards,
        card_type: &CardType,
        game_state: &mut GameState,
        instance: CardInstance,
        activation: Activation,
    )
        requires
            old(game_state)@.known(card_pool@.len()),
        ensures
            final(game_state)@ == self.outcome(card_pool@, old(game_state)@, instance, activation),
            final(game_state)@.known(card_pool@.len()),
        decreases 0int, 5int,
    {
        match self {
            CardEffect::OnSummon(e) => e.activate(
                card_pool,
                card_type,
                game_state,
                instance,
                activation,
            ),
            CardEffect::OnDraw(e) => e.activate(card_pool, card_type, game_state, instance, activation),
        }
    }
}

} // verus!
