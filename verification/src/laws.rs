use vstd::prelude::*;
use crate::card_type::{CardEffect, CardType, EffectTrigger};
use crate::state::{
    all_card_actions, card_actions, count_from, effect_actions, field_actions, hand_actions,
    is_mandatory, is_next_free, lemma_count_from, lemma_first_index, lemma_next_free_unique,
    mandatory_ones, occupied, optional_ones, placed_position, position, reset_cards,
    reset_placed, with_status, zigzag, Action, Activation, Card, CardInstance, CardStatus,
    GameStateView, Placed,
};

verus! {

/// How many elements of `s` satisfy `pred`.
pub open spec fn count<A>(s: Seq<A>, pred: spec_fn(A) -> bool) -> nat
    decreases s.len(),
{
    if s.len() == 0 {
        0
    } else {
        count(s.drop_last(), pred) + if pred(s.last()) {
            1nat
        } else {
            0nat
        }
    }
}

/// Appending an element adds it to the count where it satisfies `pred`.
pub proof fn lemma_count_push<A>(s: Seq<A>, a: A, pred: spec_fn(A) -> bool)
    ensures
        count(s.push(a), pred) == count(s, pred) + if pred(a) {
            1nat
        } else {
            0nat
        },
{
    assert(s.push(a).drop_last() =~= s);
}

/// Removing an element takes it from the count where it satisfies `pred`.
pub proof fn lemma_count_remove<A>(s: Seq<A>, k: int, pred: spec_fn(A) -> bool)
    requires
        0 <= k < s.len(),
    ensures
        count(s, pred) == count(s.remove(k), pred) + if pred(s[k]) {
            1nat
        } else {
            0nat
        },
    decreases s.len(),
{
    if k == s.len() - 1 {
        assert(s.remove(k) =~= s.drop_last());
    } else {
        lemma_count_remove(s.drop_last(), k, pred);
        assert(s.remove(k).drop_last() =~= s.drop_last().remove(k));
        assert(s.remove(k).last() == s.last());
    }
}

/// Two sequences whose elements agree on `pred` place by place have the same count.
pub proof fn lemma_count_same<A>(s: Seq<A>, t: Seq<A>, pred: spec_fn(A) -> bool)
    requires
        s.len() == t.len(),
        forall|j: int| 0 <= j < s.len() ==> pred(s[j]) == pred(t[j]),
    ensures
        count(s, pred) == count(t, pred),
    decreases s.len(),
{
    if s.len() > 0 {
        lemma_count_same(s.drop_last(), t.drop_last(), pred);
    }
}

/// A sequence that holds an element which satisfies `pred` counts at least one.
pub proof fn lemma_count_positive<A>(s: Seq<A>, k: int, pred: spec_fn(A) -> bool)
    requires
        0 <= k < s.len(),
        pred(s[k]),
    ensures
        count(s, pred) >= 1,
    decreases s.len(),
{
    if k < s.len() - 1 {
        lemma_count_positive(s.drop_last(), k, pred);
    }
}

/// The predicate that picks the cards with the given instance.
pub open spec fn is_card(instance: CardInstance) -> spec_fn(Card) -> bool {
    |c: Card| c.instance == instance
}

/// The predicate that picks the placed cards with the given instance.
pub open spec fn is_placed(instance: CardInstance) -> spec_fn(Placed) -> bool {
    |p: Placed| p.card.instance == instance
}

impl GameStateView {
    /// How many cards in hand have the instance.
    pub open spec fn in_hand(self, instance: CardInstance) -> nat {
        count(self.hand, is_card(instance))
    }

    /// How many field slots hold a card with the instance.
    pub open spec fn on_field(self, instance: CardInstance) -> nat {
        count(self.field, is_placed(instance))
    }

    /// How many places in the graveyard hold a card with the instance.
    pub open spec fn in_graveyard(self, instance: CardInstance) -> nat {
        count(self.graveyard, is_placed(instance))
    }

    /// How many cards in the two decks have the instance.
    pub open spec fn in_decks(self, instance: CardInstance) -> nat {
        count(self.left_deck, is_card(instance)) + count(self.right_deck, is_card(instance))
    }

    /// How many places in hand, on the field and in the graveyard hold the instance.
    pub open spec fn in_play(self, instance: CardInstance) -> nat {
        self.in_hand(instance) + self.on_field(instance) + self.in_graveyard(instance)
    }

    /// How many places in all zones and decks hold the instance.
    pub open spec fn copies(self, instance: CardInstance) -> nat {
        self.in_play(instance) + self.in_decks(instance)
    }

    /// No instance is in two places.
    pub open spec fn exclusive(self) -> bool {
        forall|instance: CardInstance| #[trigger] self.copies(instance) <= 1
    }
}

/// A summon moves one card from the hand to the field and touches no other place.
pub proof fn lemma_summon(s: GameStateView, instance: CardInstance, slot: i64, other: CardInstance)
    requires
        s.summon(instance, slot) is Ok,
    ensures
        ({
            let t = s.summon(instance, slot)->Ok_0;
            let moved: nat = if other == instance {
                1
            } else {
                0
            };
            &&& t.in_hand(other) + moved == s.in_hand(other)
            &&& t.on_field(other) == s.on_field(other) + moved
            &&& t.in_graveyard(other) == s.in_graveyard(other)
            &&& t.in_decks(other) == s.in_decks(other)
            &&& s.wf() ==> t.wf()
        }),
{
    lemma_first_index(s.hand, |c: Card| c.instance == instance);
    let k = position(s.hand, instance)->Some_0;
    lemma_count_remove(s.hand, k, is_card(other));
    lemma_count_push(
        s.field,
        Placed { slot, card: with_status(s.hand[k], CardStatus::Summoned) },
        is_placed(other),
    );
}

/// A destruction moves one card from the field to the graveyard and touches no
/// other place.
pub proof fn lemma_destroy(s: GameStateView, instance: CardInstance, other: CardInstance)
    requires
        s.destroy(instance) is Ok,
    ensures
        ({
            let t = s.destroy(instance)->Ok_0;
            let moved: nat = if other == instance {
                1
            } else {
                0
            };
            &&& t.in_hand(other) == s.in_hand(other)
            &&& t.on_field(other) + moved == s.on_field(other)
            &&& t.in_graveyard(other) == s.in_graveyard(other) + moved
            &&& t.in_decks(other) == s.in_decks(other)
            &&& s.wf() ==> t.wf()
        }),
{
    lemma_first_index(s.field, |p: Placed| p.card.instance == instance);
    let k = placed_position(s.field, instance)->Some_0;
    lemma_count_remove(s.field, k, is_placed(other));
    lemma_count_push(
        s.graveyard,
        Placed { slot: s.field[k].slot, card: with_status(s.field[k].card, CardStatus::Destroyed) },
        is_placed(other),
    );
}

/// A return moves one card from the field to the hand and touches no other place.
pub proof fn lemma_return(s: GameStateView, instance: CardInstance, other: CardInstance)
    requires
        s.return_to_hand(instance) is Ok,
    ensures
        ({
            let t = s.return_to_hand(instance)->Ok_0;
            let moved: nat = if other == instance {
                1
            } else {
                0
            };
            &&& t.in_hand(other) == s.in_hand(other) + moved
            &&& t.on_field(other) + moved == s.on_field(other)
            &&& t.in_graveyard(other) == s.in_graveyard(other)
            &&& t.in_decks(other) == s.in_decks(other)
            &&& s.wf() ==> t.wf()
        }),
{
    lemma_first_index(s.field, |p: Placed| p.card.instance == instance);
    let k = placed_position(s.field, instance)->Some_0;
    lemma_count_remove(s.field, k, is_placed(other));
    lemma_count_push(
        s.hand,
        with_status(s.field[k].card, CardStatus::ReturnedToHand),
        is_card(other),
    );
}

/// A yield leaves every card where it is.
pub proof fn lemma_yield(s: GameStateView, other: CardInstance)
    requires
        s.yield_window() is Ok,
    ensures
        ({
            let t = s.yield_window()->Ok_0;
            &&& t.in_hand(other) == s.in_hand(other)
            &&& t.on_field(other) == s.on_field(other)
            &&& t.in_graveyard(other) == s.in_graveyard(other)
            &&& t.in_decks(other) == s.in_decks(other)
            &&& s.wf() ==> t.wf()
        }),
{
    lemma_count_same(s.hand, reset_cards(s.hand), is_card(other));
    lemma_count_same(s.field, reset_placed(s.field), is_placed(other));
    lemma_count_same(s.graveyard, reset_placed(s.graveyard), is_placed(other));
}

/// A draw moves the top card of a deck to the hand and touches no other place.
pub proof fn lemma_draw(s: GameStateView, other: CardInstance)
    ensures
        s.draw_left() matches Ok(t) ==> {
            &&& t.in_hand(other) + t.in_decks(other) == s.in_hand(other) + s.in_decks(other)
            &&& t.in_hand(other) >= s.in_hand(other)
            &&& t.on_field(other) == s.on_field(other)
            &&& t.in_graveyard(other) == s.in_graveyard(other)
            &&& s.wf() ==> t.wf()
        },
        s.draw_right() matches Ok(t) ==> {
            &&& t.in_hand(other) + t.in_decks(other) == s.in_hand(other) + s.in_decks(other)
            &&& t.in_hand(other) >= s.in_hand(other)
            &&& t.on_field(other) == s.on_field(other)
            &&& t.in_graveyard(other) == s.in_graveyard(other)
            &&& s.wf() ==> t.wf()
        },
{
    if s.left_deck.len() > 0 {
        lemma_count_push(s.hand, with_status(s.left_deck.last(), CardStatus::Drawn), is_card(other));
    }
    if s.right_deck.len() > 0 {
        lemma_count_push(
            s.hand,
            with_status(s.right_deck.last(), CardStatus::Drawn),
            is_card(other),
        );
    }
}

/// What one action moves: every instance keeps its number of places over all zones
/// and decks, an instance in play stays in play, and slots stay unshared.
pub open spec fn carried_over(s: GameStateView, t: GameStateView, instance: CardInstance) -> bool {
    &&& t.copies(instance) == s.copies(instance)
    &&& t.in_play(instance) >= s.in_play(instance)
    &&& s.wf() ==> t.wf()
}

/// Whatever an effect does when it fires, it carries every instance over.
proof fn lemma_effect_carries(
    effect: CardEffect,
    cards: Seq<CardType>,
    s: GameStateView,
    instance: CardInstance,
    activation: Activation,
    other: CardInstance,
)
    ensures
        carried_over(s, effect.outcome(cards, s, instance, activation), other),
{
    let trigger = match effect {
        CardEffect::OnSummon(e) => e.trigger,
        CardEffect::OnDraw(e) => e.trigger,
    };
    match trigger {
        EffectTrigger::DestroySelfUnless(t) => {
            if s.destroy(instance) is Ok {
                lemma_destroy(s, instance, other);
            }
        },
        EffectTrigger::SwapHandWithField(t) => {
            match activation.data.slot {
                Some(slot) => match s.field_at(slot) {
                    Some(target) => {
                        if s.return_to_hand(target.instance) is Ok {
                            lemma_return(s, target.instance, other);
                            let returned = s.return_to_hand(target.instance)->Ok_0;
                            if returned.summon(instance, slot) is Ok {
                                lemma_summon(returned, instance, slot, other);
                            }
                        }
                    },
                    None => {},
                },
                None => {},
            }
        },
    }
}

/// Zone exclusivity, for one action: an action that succeeds changes no instance's
/// number of places over all zones and decks, takes no instance out of play, and
/// keeps the field's slots unshared.
pub proof fn law_action_moves_cards(
    cards: Seq<CardType>,
    s: GameStateView,
    action: Action,
    instance: CardInstance,
)
    requires
        s.step(cards, action) is Ok,
    ensures
        carried_over(s, s.step(cards, action)->Ok_0, instance),
{
    match action {
        Action::SummonFromHand(i) => {
            lemma_summon(s, i, s.empty_slot() as i64, instance);
        },
        Action::SummonFromHandToSlot(i, slot) => {
            lemma_summon(s, i, slot, instance);
        },
        Action::ActivateFromField(i, effect, activation) => {
            let k = placed_position(s.field, i)->Some_0;
            let card_type = cards[s.field[k].card.card_type.0 as int];
            lemma_effect_carries(
                card_type.effects@[effect.0 as int],
                cards,
                s,
                s.field[k].card.instance,
                activation,
                instance,
            );
        },
        Action::ActivateFromHand(i, effect, activation) => {
            let k = position(s.hand, i)->Some_0;
            let card_type = cards[s.hand[k].card_type.0 as int];
            lemma_effect_carries(
                card_type.effects@[effect.0 as int],
                cards,
                s,
                s.hand[k].instance,
                activation,
                instance,
            );
        },
        Action::DestroyOnField(i) => {
            lemma_destroy(s, i, instance);
        },
        Action::ReturnFieldToHand(i) => {
            lemma_return(s, i, instance);
        },
        Action::YieldResponseWindow => {
            lemma_yield(s, instance);
        },
        Action::DrawFromLeftDeck => {
            lemma_draw(s, instance);
        },
        Action::DrawFromRightDeck => {
            lemma_draw(s, instance);
        },
    }
}

/// The state after the actions have been taken in order, each on the state that
/// the one before it left; an action that fails leaves the state as it is.
pub open spec fn run(cards: Seq<CardType>, s: GameStateView, actions: Seq<Action>) -> GameStateView
    decreases actions.len(),
{
    if actions.len() == 0 {
        s
    } else {
        let before = run(cards, s, actions.drop_last());
        match before.step(cards, actions.last()) {
            Ok(next) => next,
            Err(_) => before,
        }
    }
}

/// Zone exclusivity: where no instance is in two places at the start, none is after
/// any sequence of actions; an instance that was in play is then in exactly one
/// place of hand, field and graveyard; and no two cards share a field slot.
pub proof fn law_zone_exclusivity(
    cards: Seq<CardType>,
    s: GameStateView,
    actions: Seq<Action>,
    instance: CardInstance,
)
    requires
        s.wf(),
        s.exclusive(),
    ensures
        run(cards, s, actions).wf(),
        run(cards, s, actions).exclusive(),
        run(cards, s, actions).copies(instance) == s.copies(instance),
        s.in_play(instance) == 1 ==> run(cards, s, actions).in_play(instance) == 1,
        run(cards, s, actions).in_play(instance) <= 1,
    decreases actions.len(),
{
    if actions.len() > 0 {
        let before = run(cards, s, actions.drop_last());
        law_zone_exclusivity(cards, s, actions.drop_last(), instance);
        let after = run(cards, s, actions);
        if before.step(cards, actions.last()) is Ok {
            law_action_moves_cards(cards, before, actions.last(), instance);
            assert forall|other: CardInstance| #[trigger] after.copies(other) <= 1 by {
                law_action_moves_cards(cards, before, actions.last(), other);
                assert(before.copies(other) <= 1);
            }
        }
    }
    assert(s.copies(instance) <= 1);
    assert(run(cards, s, actions).copies(instance) <= 1);
}

/// Whether every action of the sequence activates an effect.
pub open spec fn all_activate(actions: Seq<Action>) -> bool {
    forall|j: int| 0 <= j < actions.len() ==> (#[trigger] actions[j]).is_activation()
}

proof fn lemma_joined_activate(a: Seq<Action>, b: Seq<Action>)
    requires
        all_activate(a),
        all_activate(b),
    ensures
        all_activate(a + b),
{
    assert forall|j: int| 0 <= j < (a + b).len() implies (#[trigger] (a + b)[j]).is_activation() by {
        if j < a.len() {
            assert((a + b)[j] == a[j]);
        } else {
            assert((a + b)[j] == b[j - a.len()]);
        }
    }
}

proof fn lemma_card_actions_activate(
    cards: Seq<CardType>,
    s: GameStateView,
    card: Card,
    from_field: bool,
    upto: nat,
)
    ensures
        all_activate(card_actions(cards, s, card, from_field, upto)),
    decreases upto,
{
    if upto > 0 {
        lemma_card_actions_activate(cards, s, card, from_field, (upto - 1) as nat);
        let last = effect_actions(cards, s, card, from_field, upto - 1);
        assert(all_activate(last));
        lemma_joined_activate(card_actions(cards, s, card, from_field, (upto - 1) as nat), last);
    }
}

proof fn lemma_field_actions_activate(cards: Seq<CardType>, s: GameStateView, upto: nat)
    ensures
        all_activate(field_actions(cards, s, upto)),
    decreases upto,
{
    if upto > 0 {
        lemma_field_actions_activate(cards, s, (upto - 1) as nat);
        let card = s.field[upto - 1].card;
        lemma_card_actions_activate(
            cards,
            s,
            card,
            true,
            cards[card.card_type.0 as int].effects@.len(),
        );
        lemma_joined_activate(
            field_actions(cards, s, (upto - 1) as nat),
            all_card_actions(cards, s, card, true),
        );
    }
}

proof fn lemma_hand_actions_activate(cards: Seq<CardType>, s: GameStateView, upto: nat)
    ensures
        all_activate(hand_actions(cards, s, upto)),
    decreases upto,
{
    if upto > 0 {
        lemma_hand_actions_activate(cards, s, (upto - 1) as nat);
        let card = s.hand[upto - 1];
        lemma_card_actions_activate(
            cards,
            s,
            card,
            false,
            cards[card.card_type.0 as int].effects@.len(),
        );
        lemma_joined_activate(
            hand_actions(cards, s, (upto - 1) as nat),
            all_card_actions(cards, s, card, false),
        );
    }
}

/// Every activation that the cards offer is an action that activates an effect.
pub proof fn lemma_activations_activate(cards: Seq<CardType>, s: GameStateView)
    ensures
        all_activate(s.activations(cards)),
{
    lemma_field_actions_activate(cards, s, s.field.len());
    lemma_hand_actions_activate(cards, s, s.hand.len());
    lemma_joined_activate(
        field_actions(cards, s, s.field.len()),
        hand_actions(cards, s, s.hand.len()),
    );
}

/// What is picked out of a sequence of activations satisfies the predicate that
/// picked it, and is an activation.
proof fn lemma_filtered(all: Seq<Action>, pred: spec_fn(Action) -> bool)
    requires
        all_activate(all),
    ensures
        all_activate(all.filter(pred)),
        forall|j: int| 0 <= j < all.filter(pred).len() ==> pred(#[trigger] all.filter(pred)[j]),
    decreases all.len(),
{
    reveal(Seq::filter);
    if all.len() > 0 {
        let front = all.drop_last();
        assert(forall|j: int| 0 <= j < front.len() ==> front[j] == all[j]);
        lemma_filtered(front, pred);
    }
}

/// Mandatory precedence: where the legal moves hold a mandatory activation, they
/// are exactly the mandatory activations, so hold no optional action and no yield.
pub proof fn law_mandatory_precedence(cards: Seq<CardType>, s: GameStateView)
    ensures
        (exists|i: int|
            0 <= i < s.legal_actions(cards).len() && is_mandatory(
                #[trigger] s.legal_actions(cards)[i],
            )) ==> {
            &&& s.legal_actions(cards) == s.activations(cards).filter(mandatory_ones())
            &&& forall|j: int|
                0 <= j < s.legal_actions(cards).len() ==> is_mandatory(
                    #[trigger] s.legal_actions(cards)[j],
                )
        },
        s.activations(cards).filter(mandatory_ones()).len() > 0 ==> s.legal_actions(cards)
            == s.activations(cards).filter(mandatory_ones()),
{
    let all = s.activations(cards);
    let legal = s.legal_actions(cards);
    lemma_activations_activate(cards, s);
    lemma_filtered(all, mandatory_ones());
    lemma_filtered(all, optional_ones());
    if all.filter(mandatory_ones()).len() == 0 {
        assert forall|i: int| 0 <= i < legal.len() implies !is_mandatory(#[trigger] legal[i]) by {
            let optional = all.filter(optional_ones());
            if i < optional.len() {
                assert(legal[i] == optional[i]);
                assert(optional_ones()(optional[i]));
            }
        }
    }
}

/// Response-window gating: while a response window is open, the legal moves hold
/// no summon and no draw; each of them activates an effect or yields.
pub proof fn law_response_window_gating(cards: Seq<CardType>, s: GameStateView)
    requires
        s.response_window,
    ensures
        forall|j: int|
            0 <= j < s.legal_actions(cards).len() ==> {
                let action = #[trigger] s.legal_actions(cards)[j];
                &&& !(action is SummonFromHand)
                &&& !(action is SummonFromHandToSlot)
                &&& !(action is DrawFromLeftDeck)
                &&& !(action is DrawFromRightDeck)
                &&& (action.is_activation() || action is YieldResponseWindow)
            },
{
    let all = s.activations(cards);
    let legal = s.legal_actions(cards);
    lemma_activations_activate(cards, s);
    lemma_filtered(all, mandatory_ones());
    lemma_filtered(all, optional_ones());
    assert forall|j: int| 0 <= j < legal.len() implies ((#[trigger] legal[j]).is_activation()
        || legal[j] is YieldResponseWindow) by {
        let mandatory = all.filter(mandatory_ones());
        let optional = all.filter(optional_ones());
        if mandatory.len() > 0 {
            assert(mandatory[j].is_activation());
        } else if j < optional.len() {
            assert(legal[j] == optional[j]);
            assert(optional[j].is_activation());
        }
    }
}

/// Some place of the zig-zag order from `n` on is free, where every place before
/// `n` is taken.
proof fn lemma_some_slot_is_free(placed: Seq<Placed>, n: nat)
    requires
        forall|m: nat| m < n ==> occupied(placed, #[trigger] zigzag(m)),
    ensures
        exists|k: nat| is_next_free(placed, k),
    decreases count_from(placed, n),
{
    if occupied(placed, zigzag(n)) {
        lemma_count_from(placed, n);
        assert forall|m: nat| m < n + 1 implies occupied(placed, #[trigger] zigzag(m)) by {
            if m == n {
            }
        }
        lemma_some_slot_is_free(placed, n + 1);
    } else {
        assert(is_next_free(placed, n));
    }
}

/// Slot allocation: the slot that `empty_slot` names is held by no card; it is the
/// first free one in the order 0, -1, 1, -2, 2, ...; and it depends on the field
/// alone, so it stays the same until the field changes.
pub proof fn law_slot_allocation(s: GameStateView, t: GameStateView)
    ensures
        !occupied(s.field, s.empty_slot()),
        exists|n: nat| is_next_free(s.field, n) && s.empty_slot() == zigzag(n),
        t.field == s.field ==> t.empty_slot() == s.empty_slot(),
{
    lemma_some_slot_is_free(s.field, 0);
    let n = choose|n: nat| is_next_free(s.field, n);
    lemma_next_free_unique(s.field, n);
}

/// Status reset on yield: after a yield every card in hand, on the field and in the
/// graveyard has the status `Idle`, the response window is closed, and the phase
/// has advanced by exactly one. A yield fails only with the phase at its limit.
pub proof fn law_yield_resets(cards: Seq<CardType>, s: GameStateView)
    ensures
        s.step(cards, Action::YieldResponseWindow) is Ok <==> s.phase < usize::MAX,
        s.step(cards, Action::YieldResponseWindow) matches Ok(t) ==> {
            &&& t.phase == s.phase + 1
            &&& !t.response_window
            &&& t.hand.len() == s.hand.len()
            &&& t.field.len() == s.field.len()
            &&& t.graveyard.len() == s.graveyard.len()
            &&& forall|i: int| 0 <= i < t.hand.len() ==> (#[trigger] t.hand[i]).state == CardStatus::Idle
            &&& forall|i: int|
                0 <= i < t.field.len() ==> (#[trigger] t.field[i]).card.state == CardStatus::Idle
            &&& forall|i: int|
                0 <= i < t.graveyard.len() ==> (#[trigger] t.graveyard[i]).card.state
                    == CardStatus::Idle
        },
{
}

/// Summon, then destroy: where a card that is in no two places is summoned to a
/// slot and then destroyed, it is the last card of that slot's graveyard, and is in
/// no other place: not in hand, not on the field, nowhere else in the graveyard.
pub proof fn law_summon_then_destroy(
    cards: Seq<CardType>,
    s: GameStateView,
    instance: CardInstance,
    slot: i64,
)
    requires
        s.copies(instance) <= 1,
        s.step(cards, Action::SummonFromHandToSlot(instance, slot)) is Ok,
    ensures
        ({
            let summoned = s.step(cards, Action::SummonFromHandToSlot(instance, slot))->Ok_0;
            &&& summoned.step(cards, Action::DestroyOnField(instance)) matches Ok(t) && {
                &&& t.graveyard_at(slot).len() > 0
                &&& t.graveyard_at(slot).last().instance == instance
                &&& t.graveyard_at(slot).last().state == CardStatus::Destroyed
                &&& t.in_graveyard(instance) == 1
                &&& t.in_hand(instance) == 0
                &&& t.on_field(instance) == 0
                &&& t.in_decks(instance) == 0
            }
        }),
{
    let summoned = s.summon(instance, slot)->Ok_0;
    lemma_summon(s, instance, slot, instance);
    lemma_first_index(s.hand, |c: Card| c.instance == instance);
    let k = position(s.hand, instance)->Some_0;
    lemma_count_positive(s.hand, k, is_card(instance));
    lemma_first_index(summoned.field, |p: Placed| p.card.instance == instance);
    let last = summoned.field.len() - 1;
    assert(summoned.field[last].card.instance == instance);
    let at = placed_position(summoned.field, instance)->Some_0;
    assert(at == last) by {
        if at < last {
            assert(summoned.field[at] == s.field[at]);
            lemma_count_positive(s.field, at, is_placed(instance));
        }
    }
    lemma_destroy(summoned, instance, instance);
    let t = summoned.destroy(instance)->Ok_0;
    let died = Placed { slot, card: with_status(summoned.field[last].card, CardStatus::Destroyed) };
    assert(t.graveyard == summoned.graveyard.push(died));
    summoned.graveyard.lemma_filter_push(died, |p: Placed| p.slot == slot);
}

} // verus!
