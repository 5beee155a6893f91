use vstd::prelude::*;
use crate::card_type::{CardType, CardTypeIdentifier};
use crate::cards::Cards;

verus! {

/// Whether an effect may be activated, or must be.
#[derive(Copy, Clone, Debug, PartialEq, Eq, Structural)]
pub enum ActivatableType {
    Can,
    Mandatory,
}

/// Why a card currently occupies its zone.
#[derive(Copy, Clone, Debug, PartialEq, Eq, Structural)]
pub enum CardStatus {
    Drawn,
    Discarded,
    Summoned,
    Destroyed,
    ReturnedToHand,
    Idle,
}

/// A unique id assigned to a card to identify the copy.
#[derive(Copy, Clone, Debug, PartialEq, Eq, Structural)]
pub struct CardInstance(pub u32);

/// The ith card effect a card type may have.
#[derive(Copy, Clone, Debug, PartialEq, Eq, Structural)]
pub struct CardEffect(pub u32);

impl CardEffect {
    /// The effect at a position of a card type's effect list, when the position has
    /// a `u32` for it.
    pub fn at(index: usize) -> (r: Option<CardEffect>)
        ensures
            r == (if index <= u32::MAX {
                Some(CardEffect(index as u32))
            } else {
                None
            }),
    {
        if index <= u32::MAX as usize {
            Some(CardEffect(index as u32))
        } else {
            None
        }
    }
}

impl vstd::std_specs::convert::FromSpecImpl<usize> for CardEffect {
    open spec fn obeys_from_spec() -> bool {
        true
    }

    open spec fn from_spec(index: usize) -> CardEffect {
        CardEffect(index as u32)
    }
}

impl From<usize> for CardEffect {
    /// The effect at a position of a card type's effect list. A position beyond
    /// `u32::MAX` is cut to its low 32 bits.
    fn from(index: usize) -> (r: CardEffect) {
        CardEffect(#[verifier::truncate] (index as u32))
    }
}

/// The one error of the engine: the action asked for is not possible.
#[derive(Copy, Clone, Debug, PartialEq, Eq, Structural)]
pub struct InvalidAction;

impl InvalidAction {
    /// The message that describes the error.
    pub fn message(&self) -> (r: String)
        ensures
            r@ == "Invalid Action"@,
    {
        "Invalid Action".to_owned()
    }
}

/// Hands out instance identifiers in increasing order, each one once.
#[derive(Debug)]
pub struct InstanceCounter {
    next: u32,
}

impl View for InstanceCounter {
    type V = nat;

    closed spec fn view(&self) -> nat {
        self.next as nat
    }
}

impl InstanceCounter {
    /// A counter whose first identifier is zero.
    pub fn new() -> (r: InstanceCounter)
        ensures
            r@ == 0,
    {
        InstanceCounter { next: 0 }
    }

    /// Whether every identifier has been handed out.
    pub fn exhausted(&self) -> (r: bool)
        ensures
            r == (self@ >= u32::MAX),
    {
        self.next == u32::MAX
    }
}

/// One copy of a card type in play. Neither `Copy` nor `Clone`, so that no card is
/// duplicated by accident.
#[derive(Debug, PartialEq, Eq)]
pub struct Card {
    pub card_type: CardTypeIdentifier,
    pub instance: CardInstance,
    pub state: CardStatus,
}

impl Card {
    /// Creates a new card of the given type, with the counter's next identifier.
    pub fn instantiate(card_type: &CardType, counter: &mut InstanceCounter) -> (r: Card)
        requires
            old(counter)@ < u32::MAX,
        ensures
            r.card_type == card_type.id,
            r.instance.0 == old(counter)@,
            r.state == CardStatus::Idle,
            final(counter)@ == old(counter)@ + 1,
    {
        let instance = CardInstance(counter.next);
        counter.next = counter.next + 1;
        Card { card_type: card_type.id, instance, state: CardStatus::Idle }
    }

    /// Whether this card is a copy of `card_type`.
    pub fn instance_of(&self, card_type: &CardType) -> (r: bool)
        ensures
            r == (self.card_type == card_type.id),
    {
        self.card_type == card_type.id
    }

    /// Whether the card's type is one of the catalog's.
    pub open spec fn known_to(&self, card_pool: &Cards) -> bool {
        self.card_type.0 < card_pool@.len()
    }

    /// Whether the card's type is one of the catalog's, as `has_name` and
    /// `lookup_self` need it.
    pub fn is_known_to(&self, card_pool: &Cards) -> (r: bool)
        ensures
            r == self.known_to(card_pool),
    {
        (self.card_type.0 as usize) < card_pool.len()
    }

    /// Whether this card's type carries the given name.
    pub fn has_name(&self, card_pool: &Cards, name: &str) -> (r: bool)
        requires
            self.known_to(card_pool),
        ensures
            r == (card_pool@[self.card_type.0 as int].name@ == name@),
    {
        let wanted = name.to_owned();
        self.lookup_self(card_pool).name == wanted
    }

    /// The card's type. Cards are made from the catalog's card types, so the lookup
    /// is taken to succeed.
    pub fn lookup_self<'a>(&self, card_pool: &'a Cards) -> (r: &'a CardType)
        requires
            self.known_to(card_pool),
        ensures
            *r == card_pool@[self.card_type.0 as int],
    {
        card_pool.at(self.card_type)
    }
}

/// A card on the field or in the graveyard, with the slot it occupies or died in.
#[derive(Debug, PartialEq, Eq)]
pub struct Placed {
    pub slot: i64,
    pub card: Card,
}

/// What an activation targets.
#[derive(Copy, Clone, Debug, PartialEq, Eq)]
pub struct ActivationData {
    pub slot: Option<i64>,
}

impl Default for ActivationData {
    fn default() -> (r: Self)
        ensures
            r.slot is None,
    {
        ActivationData { slot: None }
    }
}

/// A concrete, chosen way of firing a card effect.
#[derive(Copy, Clone, Debug, PartialEq, Eq)]
pub struct Activation {
    pub status: ActivatableType,
    pub data: ActivationData,
}

/// A move of the player.
#[derive(Copy, Clone, Debug, PartialEq, Eq)]
pub enum Action {
    SummonFromHand(CardInstance),
    SummonFromHandToSlot(CardInstance, i64),
    ActivateFromField(CardInstance, CardEffect, Activation),
    ActivateFromHand(CardInstance, CardEffect, Activation),
    DestroyOnField(CardInstance),
    ReturnFieldToHand(CardInstance),
    YieldResponseWindow,
    DrawFromLeftDeck,
    DrawFromRightDeck,
}

/// A deferred effect, queued in a phase to be resolved at the turn's end.
#[derive(Copy, Clone, Debug, PartialEq, Eq)]
pub enum Resolution {
    DestroyOnField(CardInstance),
}

/// The first position of `s` whose element satisfies `pred`.
pub open spec fn first_index<A>(s: Seq<A>, pred: spec_fn(A) -> bool) -> Option<int>
    decreases s.len(),
{
    if s.len() == 0 {
        None
    } else {
        match first_index(s.drop_last(), pred) {
            Some(k) => Some(k),
            None => if pred(s.last()) {
                Some(s.len() - 1)
            } else {
                None
            },
        }
    }
}

/// `first_index` finds a position that satisfies `pred` with none before it that
/// does, and finds none only where no element satisfies `pred`.
pub proof fn lemma_first_index<A>(s: Seq<A>, pred: spec_fn(A) -> bool)
    ensures
        match first_index(s, pred) {
            Some(k) => 0 <= k < s.len() && pred(s[k]) && forall|j: int|
                0 <= j < k ==> !pred(#[trigger] s[j]),
            None => forall|j: int| 0 <= j < s.len() ==> !pred(#[trigger] s[j]),
        },
    decreases s.len(),
{
    if s.len() > 0 {
        let front = s.drop_last();
        lemma_first_index(front, pred);
        assert(forall|j: int| 0 <= j < front.len() ==> front[j] == s[j]);
        match first_index(front, pred) {
            Some(k) => {
                assert(front[k] == s[k]);
            },
            None => {
                assert forall|j: int| 0 <= j < s.len() - 1 implies !pred(#[trigger] s[j]) by {
                    assert(front[j] == s[j]);
                }
            },
        }
    }
}

/// The first position in `cards` of the card with the given instance.
pub open spec fn position(cards: Seq<Card>, instance: CardInstance) -> Option<int> {
    first_index(cards, |c: Card| c.instance == instance)
}

/// The first position among `placed` of the card with the given instance.
pub open spec fn placed_position(placed: Seq<Placed>, instance: CardInstance) -> Option<int> {
    first_index(placed, |p: Placed| p.card.instance == instance)
}

/// The first position among `placed` of the given slot.
pub open spec fn slot_position(placed: Seq<Placed>, slot: i64) -> Option<int> {
    first_index(placed, |p: Placed| p.slot == slot)
}

/// Whether a card of `placed` holds `slot`.
pub open spec fn occupied(placed: Seq<Placed>, slot: int) -> bool {
    exists|k: int| 0 <= k < placed.len() && (#[trigger] placed[k]).slot == slot
}

/// The `n`th slot in the order 0, -1, 1, -2, 2, ... that fans out from the centre.
pub open spec fn zigzag(n: nat) -> int {
    if n % 2 == 0 {
        n as int / 2
    } else {
        -((n as int + 1) / 2)
    }
}

/// The place of `slot` in the order 0, -1, 1, -2, 2, ...
pub open spec fn zigzag_rank(slot: int) -> nat {
    if slot >= 0 {
        (2 * slot) as nat
    } else {
        (-2 * slot - 1) as nat
    }
}

/// Whether `n` is the first place in the zig-zag order whose slot is free.
pub open spec fn is_next_free(placed: Seq<Placed>, n: nat) -> bool {
    &&& !occupied(placed, zigzag(n))
    &&& forall|m: nat| m < n ==> occupied(placed, #[trigger] zigzag(m))
}

/// The first slot in the order 0, -1, 1, -2, 2, ... that no card of `placed` holds.
pub open spec fn next_empty_slot(placed: Seq<Placed>) -> int {
    zigzag(choose|n: nat| is_next_free(placed, n))
}

/// The card with its status replaced.
pub open spec fn with_status(card: Card, state: CardStatus) -> Card {
    Card { card_type: card.card_type, instance: card.instance, state }
}

/// The cards with every status reset.
pub open spec fn reset_cards(cards: Seq<Card>) -> Seq<Card> {
    cards.map_values(|c: Card| with_status(c, CardStatus::Idle))
}

/// The placed cards with every status reset.
pub open spec fn reset_placed(placed: Seq<Placed>) -> Seq<Placed> {
    placed.map_values(
        |p: Placed| Placed { slot: p.slot, card: with_status(p.card, CardStatus::Idle) },
    )
}

/// The mathematical value of one player's game state.
pub struct GameStateView {
    /// The cards in hand.
    pub hand: Seq<Card>,
    /// The cards on the field with their slots, in the order in which they arrived.
    pub field: Seq<Placed>,
    /// The cards that died, each with the slot it died in, in the order of death.
    pub graveyard: Seq<Placed>,
    /// The left deck; its top is the last element.
    pub left_deck: Seq<Card>,
    /// The right deck; its top is the last element.
    pub right_deck: Seq<Card>,
    /// The number of response windows closed so far.
    pub phase: usize,
    /// Whether only responses to the last major action are legal.
    pub response_window: bool,
    /// The draws still available.
    pub remaining_draws: u32,
    /// For each phase, the resolutions queued in it.
    pub queued_effects: Seq<Seq<Resolution>>,
}

impl GameStateView {
    /// No two cards on the field hold the same slot.
    pub open spec fn wf(self) -> bool {
        forall|i: int, j: int|
            0 <= i < j < self.field.len() ==> (#[trigger] self.field[i]).slot != (
            #[trigger] self.field[j]).slot
    }

    /// Every card's type is among the first `n` of the catalog.
    pub open spec fn known(self, n: nat) -> bool {
        &&& forall|i: int| 0 <= i < self.hand.len() ==> (#[trigger] self.hand[i]).card_type.0 < n
        &&& forall|i: int|
            0 <= i < self.field.len() ==> (#[trigger] self.field[i]).card.card_type.0 < n
        &&& forall|i: int|
            0 <= i < self.graveyard.len() ==> (#[trigger] self.graveyard[i]).card.card_type.0 < n
        &&& forall|i: int|
            0 <= i < self.left_deck.len() ==> (#[trigger] self.left_deck[i]).card_type.0 < n
        &&& forall|i: int|
            0 <= i < self.right_deck.len() ==> (#[trigger] self.right_deck[i]).card_type.0 < n
    }

    /// The cards that died in `slot`, in the order of death.
    pub open spec fn graveyard_at(self, slot: i64) -> Seq<Card> {
        self.graveyard.filter(|p: Placed| p.slot == slot).map_values(|p: Placed| p.card)
    }

    /// The card that holds `slot` on the field, if any.
    pub open spec fn field_at(self, slot: i64) -> Option<Card> {
        match slot_position(self.field, slot) {
            Some(k) => Some(self.field[k].card),
            None => None,
        }
    }

    /// The slot that the next summon without a chosen slot goes to.
    pub open spec fn empty_slot(self) -> int {
        next_empty_slot(self.field)
    }

    /// Moves `instance` from the hand to `slot`, and opens a response window.
    /// Fails when the card is not in hand or the slot is taken.
    pub open spec fn summon(self, instance: CardInstance, slot: i64) -> Result<
        GameStateView,
        InvalidAction,
    > {
        match position(self.hand, instance) {
            Some(k) => if occupied(self.field, slot as int) {
                Err(InvalidAction)
            } else {
                Ok(
                    GameStateView {
                        hand: self.hand.remove(k),
                        field: self.field.push(
                            Placed { slot, card: with_status(self.hand[k], CardStatus::Summoned) },
                        ),
                        response_window: true,
                        ..self
                    },
                )
            },
            None => Err(InvalidAction),
        }
    }

    /// Moves `instance` from the field to the graveyard of its slot, and opens a
    /// response window. Fails when the card is not on the field.
    pub open spec fn destroy(self, instance: CardInstance) -> Result<GameStateView, InvalidAction> {
        match placed_position(self.field, instance) {
            Some(k) => Ok(
                GameStateView {
                    field: self.field.remove(k),
                    graveyard: self.graveyard.push(
                        Placed {
                            slot: self.field[k].slot,
                            card: with_status(self.field[k].card, CardStatus::Destroyed),
                        },
                    ),
                    response_window: true,
                    ..self
                },
            ),
            None => Err(InvalidAction),
        }
    }

    /// Moves `instance` from the field to the hand, and opens a response window.
    /// Fails when the card is not on the field.
    pub open spec fn return_to_hand(self, instance: CardInstance) -> Result<
        GameStateView,
        InvalidAction,
    > {
        match placed_position(self.field, instance) {
            Some(k) => Ok(
                GameStateView {
                    field: self.field.remove(k),
                    hand: self.hand.push(with_status(self.field[k].card, CardStatus::ReturnedToHand)),
                    response_window: true,
                    ..self
                },
            ),
            None => Err(InvalidAction),
        }
    }

    /// Resets every status in hand, field and graveyard, closes the response window
    /// and advances the phase. Fails only when the phase counter is at its limit.
    pub open spec fn yield_window(self) -> Result<GameStateView, InvalidAction> {
        if self.phase < usize::MAX {
            Ok(
                GameStateView {
                    hand: reset_cards(self.hand),
                    field: reset_placed(self.field),
                    graveyard: reset_placed(self.graveyard),
                    response_window: false,
                    phase: (self.phase + 1) as usize,
                    ..self
                },
            )
        } else {
            Err(InvalidAction)
        }
    }

    /// Moves the top card of the left deck to the hand, uses up one draw and opens a
    /// response window. Fails when no draw remains or the deck is empty.
    pub open spec fn draw_left(self) -> Result<GameStateView, InvalidAction> {
        if self.remaining_draws > 0 && self.left_deck.len() > 0 {
            Ok(
                GameStateView {
                    left_deck: self.left_deck.drop_last(),
                    hand: self.hand.push(with_status(self.left_deck.last(), CardStatus::Drawn)),
                    remaining_draws: (self.remaining_draws - 1) as u32,
                    response_window: true,
                    ..self
                },
            )
        } else {
            Err(InvalidAction)
        }
    }

    /// Moves the top card of the right deck to the hand, uses up one draw and opens
    /// a response window. Fails when no draw remains or the deck is empty.
    pub open spec fn draw_right(self) -> Result<GameStateView, InvalidAction> {
        if self.remaining_draws > 0 && self.right_deck.len() > 0 {
            Ok(
                GameStateView {
                    right_deck: self.right_deck.drop_last(),
                    hand: self.hand.push(with_status(self.right_deck.last(), CardStatus::Drawn)),
                    remaining_draws: (self.remaining_draws - 1) as u32,
                    response_window: true,
                    ..self
                },
            )
        } else {
            Err(InvalidAction)
        }
    }
}

/// How many cards of `placed` hold a slot whose place in the zig-zag order is `n`
/// or later.
pub open spec fn count_from(placed: Seq<Placed>, n: nat) -> nat
    decreases placed.len(),
{
    if placed.len() == 0 {
        0
    } else {
        count_from(placed.drop_last(), n) + if zigzag_rank(placed.last().slot as int) >= n {
            1nat
        } else {
            0nat
        }
    }
}

/// Passing an occupied place of the zig-zag order leaves fewer cards ahead.
pub proof fn lemma_count_from(placed: Seq<Placed>, n: nat)
    ensures
        count_from(placed, n) <= placed.len(),
        count_from(placed, n + 1) <= count_from(placed, n),
        occupied(placed, zigzag(n)) ==> count_from(placed, n + 1) < count_from(placed, n),
    decreases placed.len(),
{
    if placed.len() > 0 {
        let front = placed.drop_last();
        lemma_count_from(front, n);
        if occupied(placed, zigzag(n)) {
            let k = choose|k: int| 0 <= k < placed.len() && (#[trigger] placed[k]).slot == zigzag(n);
            if k == placed.len() - 1 {
                assert(zigzag_rank(zigzag(n)) == n);
            } else {
                assert(front[k] == placed[k]);
                assert(occupied(front, zigzag(n)));
            }
        }
    }
}

/// A place of the zig-zag order that is free with every earlier one taken is the
/// one that `next_empty_slot` names.
pub proof fn lemma_next_free_unique(placed: Seq<Placed>, n: nat)
    requires
        is_next_free(placed, n),
    ensures
        next_empty_slot(placed) == zigzag(n),
        !occupied(placed, next_empty_slot(placed)),
{
    let m = choose|m: nat| is_next_free(placed, m);
    assert(is_next_free(placed, m));
    if m < n {
        assert(occupied(placed, zigzag(m)));
    }
    if n < m {
        assert(occupied(placed, zigzag(n)));
    }
}

fn zigzag_slot(n: usize) -> (r: i64)
    ensures
        r == zigzag(n as nat),
{
    if n % 2 == 0 {
        (n / 2) as i64
    } else {
        -((n / 2) as i64) - 1
    }
}

pub(crate) fn find_card(cards: &Vec<Card>, instance: CardInstance) -> (r: Option<usize>)
    ensures
        r matches Some(i) ==> position(cards@, instance) == Some(i as int) && i < cards@.len()
            && cards@[i as int].instance == instance,
        r is None ==> position(cards@, instance) is None,
{
    let mut i: usize = cards.len();
    let mut found: Option<usize> = None;
    while i > 0
        invariant
            i <= cards@.len(),
            match found {
                Some(k) => i <= k < cards@.len() && cards@[k as int].instance == instance
                    && forall|j: int| i <= j < k ==> (#[trigger] cards@[j]).instance != instance,
                None => forall|j: int|
                    i <= j < cards@.len() ==> (#[trigger] cards@[j]).instance != instance,
            },
        decreases i,
    {
        i -= 1;
        if cards[i].instance == instance {
            found = Some(i);
        }
    }
    proof {
        lemma_first_index(cards@, |c: Card| c.instance == instance);
    }
    found
}

fn find_placed(placed: &Vec<Placed>, instance: CardInstance) -> (r: Option<usize>)
    ensures
        r matches Some(i) ==> placed_position(placed@, instance) == Some(i as int) && i
            < placed@.len() && placed@[i as int].card.instance == instance,
        r is None ==> placed_position(placed@, instance) is None,
{
    let mut i: usize = placed.len();
    let mut found: Option<usize> = None;
    while i > 0
        invariant
            i <= placed@.len(),
            match found {
                Some(k) => i <= k < placed@.len() && placed@[k as int].card.instance == instance
                    && forall|j: int|
                    i <= j < k ==> (#[trigger] placed@[j]).card.instance != instance,
                None => forall|j: int|
                    i <= j < placed@.len() ==> (#[trigger] placed@[j]).card.instance != instance,
            },
        decreases i,
    {
        i -= 1;
        if placed[i].card.instance == instance {
            found = Some(i);
        }
    }
    proof {
        lemma_first_index(placed@, |p: Placed| p.card.instance == instance);
    }
    found
}

fn find_slot(placed: &Vec<Placed>, slot: i64) -> (r: Option<usize>)
    ensures
        r matches Some(i) ==> slot_position(placed@, slot) == Some(i as int) && i < placed@.len()
            && placed@[i as int].slot == slot,
        r is None ==> slot_position(placed@, slot) is None,
        r is Some <==> occupied(placed@, slot as int),
{
    let mut i: usize = placed.len();
    let mut found: Option<usize> = None;
    while i > 0
        invariant
            i <= placed@.len(),
            match found {
                Some(k) => i <= k < placed@.len() && placed@[k as int].slot == slot && forall|j: int|
                    i <= j < k ==> (#[trigger] placed@[j]).slot != slot,
                None => forall|j: int| i <= j < placed@.len() ==> (#[trigger] placed@[j]).slot != slot,
            },
        decreases i,
    {
        i -= 1;
        if placed[i].slot == slot {
            found = Some(i);
        }
    }
    proof {
        lemma_first_index(placed@, |p: Placed| p.slot == slot);
    }
    found
}

fn all_known(cards: &Vec<Card>, n: usize) -> (r: bool)
    ensures
        r == forall|i: int| 0 <= i < cards@.len() ==> (#[trigger] cards@[i]).card_type.0 < n,
{
    let mut i: usize = 0;
    while i < cards.len()
        invariant
            i <= cards@.len(),
            forall|j: int| 0 <= j < i ==> (#[trigger] cards@[j]).card_type.0 < n,
        decreases cards@.len() - i,
    {
        if cards[i].card_type.0 as usize >= n {
            return false;
        }
        i += 1;
    }
    true
}

fn all_placed_known(placed: &Vec<Placed>, n: usize) -> (r: bool)
    ensures
        r == forall|i: int| 0 <= i < placed@.len() ==> (#[trigger] placed@[i]).card.card_type.0 < n,
{
    let mut i: usize = 0;
    while i < placed.len()
        invariant
            i <= placed@.len(),
            forall|j: int| 0 <= j < i ==> (#[trigger] placed@[j]).card.card_type.0 < n,
        decreases placed@.len() - i,
    {
        if placed[i].card.card_type.0 as usize >= n {
            return false;
        }
        i += 1;
    }
    true
}

fn reset_statuses(cards: &mut Vec<Card>)
    ensures
        final(cards)@ == reset_cards(old(cards)@),
{
    let mut i: usize = 0;
    while i < cards.len()
        invariant
            i <= cards@.len() == old(cards)@.len(),
            forall|j: int| 0 <= j < i ==> cards@[j] == with_status(old(cards)@[j], CardStatus::Idle),
            forall|j: int| i <= j < cards@.len() ==> cards@[j] == old(cards)@[j],
        decreases cards@.len() - i,
    {
        cards[i].state = CardStatus::Idle;
        i += 1;
    }
    assert(cards@ =~= reset_cards(old(cards)@));
}

fn reset_placed_statuses(placed: &mut Vec<Placed>)
    ensures
        final(placed)@ == reset_placed(old(placed)@),
{
    let mut i: usize = 0;
    while i < placed.len()
        invariant
            i <= placed@.len() == old(placed)@.len(),
            forall|j: int|
                0 <= j < i ==> placed@[j] == (Placed {
                    slot: old(placed)@[j].slot,
                    card: with_status(old(placed)@[j].card, CardStatus::Idle),
                }),
            forall|j: int| i <= j < placed@.len() ==> placed@[j] == old(placed)@[j],
        decreases placed@.len() - i,
    {
        placed[i].card.state = CardStatus::Idle;
        i += 1;
    }
    assert(placed@ =~= reset_placed(old(placed)@));
}

/// The resolutions of each phase, as sequences.
pub open spec fn queue_view(queue: Seq<Vec<Resolution>>) -> Seq<Seq<Resolution>> {
    queue.map_values(|q: Vec<Resolution>| q@)
}

/// One player's zones, with the turn's phase and response window.
#[derive(Debug)]
pub struct GameState {
    hand: Vec<Card>,
    field: Vec<Placed>,
    graveyard: Vec<Placed>,
    left_deck: Vec<Card>,
    right_deck: Vec<Card>,
    phase: usize,
    response_window: bool,
    remaining_draws: u32,
    queued_effects: Vec<Vec<Resolution>>,
}

impl View for GameState {
    type V = GameStateView;

    closed spec fn view(&self) -> GameStateView {
        GameStateView {
            hand: self.hand@,
            field: self.field@,
            graveyard: self.graveyard@,
            left_deck: self.left_deck@,
            right_deck: self.right_deck@,
            phase: self.phase,
            response_window: self.response_window,
            remaining_draws: self.remaining_draws,
            queued_effects: queue_view(self.queued_effects@),
        }
    }
}

impl GameState {
    /// A game that begins with the given hand and decks, an empty field and
    /// graveyard, no response window, and the given number of draws.
    pub fn new(hand: Vec<Card>, left_deck: Vec<Card>, right_deck: Vec<Card>, draws: u32) -> (r: Self)
        ensures
            r@ == (GameStateView {
                hand: hand@,
                field: Seq::empty(),
                graveyard: Seq::empty(),
                left_deck: left_deck@,
                right_deck: right_deck@,
                phase: 0,
                response_window: false,
                remaining_draws: draws,
                queued_effects: Seq::empty(),
            }),
            r@.wf(),
    {
        let r = GameState {
            hand,
            field: Vec::new(),
            graveyard: Vec::new(),
            left_deck,
            right_deck,
            phase: 0,
            response_window: false,
            remaining_draws: draws,
            queued_effects: Vec::new(),
        };
        assert(r@.queued_effects =~= Seq::empty());
        r
    }

    /// The cards in hand.
    pub fn hand(&self) -> (r: &Vec<Card>)
        ensures
            r@ == self@.hand,
    {
        &self.hand
    }

    /// The cards on the field with their slots.
    pub fn field(&self) -> (r: &Vec<Placed>)
        ensures
            r@ == self@.field,
    {
        &self.field
    }

    /// The cards that died, each with the slot it died in.
    pub fn graveyard(&self) -> (r: &Vec<Placed>)
        ensures
            r@ == self@.graveyard,
    {
        &self.graveyard
    }

    /// The left deck.
    pub fn left_deck(&self) -> (r: &Vec<Card>)
        ensures
            r@ == self@.left_deck,
    {
        &self.left_deck
    }

    /// The right deck.
    pub fn right_deck(&self) -> (r: &Vec<Card>)
        ensures
            r@ == self@.right_deck,
    {
        &self.right_deck
    }

    /// The number of response windows closed so far.
    pub fn phase(&self) -> (r: usize)
        ensures
            r == self@.phase,
    {
        self.phase
    }

    /// Whether a response window is open.
    pub fn response_window(&self) -> (r: bool)
        ensures
            r == self@.response_window,
    {
        self.response_window
    }

    /// The draws still available.
    pub fn remaining_draws(&self) -> (r: u32)
        ensures
            r == self@.remaining_draws,
    {
        self.remaining_draws
    }

    /// Whether every card's type is one of the catalog's, as `actions` and
    /// `take_action` need it.
    pub fn known_to(&self, card_pool: &Cards) -> (r: bool)
        ensures
            r == self@.known(card_pool@.len()),
    {
        let n = card_pool.len();
        all_known(&self.hand, n) && all_placed_known(&self.field, n) && all_placed_known(
            &self.graveyard,
            n,
        ) && all_known(&self.left_deck, n) && all_known(&self.right_deck, n)
    }

    /// The instances of the cards that died in `slot`, in the order of death.
    pub fn graveyard_slot(&self, slot: i64) -> (r: Vec<CardInstance>)
        ensures
            r@ == self@.graveyard_at(slot).map_values(|c: Card| c.instance),
    {
        let ghost pred = |p: Placed| p.slot == slot;
        let mut r: Vec<CardInstance> = Vec::new();
        let mut i: usize = 0;
        proof {
            assert(self.graveyard@.take(0) =~= Seq::<Placed>::empty());
            Seq::<Placed>::empty().lemma_filter_len(pred);
        }
        while i < self.graveyard.len()
            invariant
                i <= self.graveyard@.len(),
                pred == |p: Placed| p.slot == slot,
                r@.len() == self.graveyard@.take(i as int).filter(pred).len(),
                forall|j: int|
                    0 <= j < r@.len() ==> r@[j] == self.graveyard@.take(i as int).filter(
                        pred,
                    )[j].card.instance,
            decreases self.graveyard@.len() - i,
        {
            proof {
                assert(self.graveyard@.take(i + 1) =~= self.graveyard@.take(i as int).push(
                    self.graveyard@[i as int],
                ));
                self.graveyard@.take(i as int).lemma_filter_push(self.graveyard@[i as int], pred);
            }
            if self.graveyard[i].slot == slot {
                r.push(self.graveyard[i].card.instance);
            }
            i += 1;
        }
        assert(self.graveyard@.take(i as int) =~= self.graveyard@);
        assert(r@ =~= self@.graveyard_at(slot).map_values(|c: Card| c.instance));
        r
    }

    /// For each phase so far, the resolutions queued in it.
    pub fn queued_effects(&self) -> (r: &Vec<Vec<Resolution>>)
        ensures
            queue_view(r@) == self@.queued_effects,
    {
        &self.queued_effects
    }

    /// The instance of the card that holds `slot` on the field, if any.
    pub fn instance_at(&self, slot: i64) -> (r: Option<CardInstance>)
        ensures
            r == match self@.field_at(slot) {
                Some(card) => Some(card.instance),
                None => None,
            },
    {
        match find_slot(&self.field, slot) {
            Some(k) => Some(self.field[k].card.instance),
            None => None,
        }
    }

    /// The first slot in the order 0, -1, 1, -2, 2, ... that no card holds.
    pub fn empty_slot_on_field(&self) -> (r: i64)
        ensures
            r == self@.empty_slot(),
            !occupied(self@.field, r as int),
    {
        let mut n: usize = 0;
        let len = self.field.len();
        proof {
            lemma_count_from(self.field@, 0);
        }
        loop
            invariant
                len == self.field@.len(),
                n + count_from(self.field@, n as nat) <= self.field@.len(),
                forall|m: nat| m < n ==> occupied(self.field@, #[trigger] zigzag(m)),
            decreases self.field@.len() - n,
        {
            let slot = zigzag_slot(n);
            if find_slot(&self.field, slot).is_none() {
                proof {
                    lemma_next_free_unique(self.field@, n as nat);
                }
                return slot;
            }
            proof {
                lemma_count_from(self.field@, n as nat);
                assert(count_from(self.field@, n as nat) >= 1);
            }
            n += 1;
        }
    }

    fn summon_to_slot(&mut self, instance: CardInstance, slot: i64) -> (r: Result<
        (),
        InvalidAction,
    >)
        ensures
            match old(self)@.summon(instance, slot) {
                Ok(next) => r is Ok && final(self)@ == next,
                Err(_) => r is Err && final(self)@ == old(self)@,
            },
    {
        match find_card(&self.hand, instance) {
            Some(k) => {
                if find_slot(&self.field, slot).is_some() {
                    return Err(InvalidAction);
                }
                let mut card = self.hand.remove(k);
                card.state = CardStatus::Summoned;
                self.field.push(Placed { slot, card });
                self.response_window = true;
                Ok(())
            },
            None => Err(InvalidAction),
        }
    }

    fn destroy_on_field(&mut self, instance: CardInstance) -> (r: Result<(), InvalidAction>)
        ensures
            match old(self)@.destroy(instance) {
                Ok(next) => r is Ok && final(self)@ == next,
                Err(_) => r is Err && final(self)@ == old(self)@,
            },
    {
        match find_placed(&self.field, instance) {
            Some(k) => {
                let mut placed = self.field.remove(k);
                placed.card.state = CardStatus::Destroyed;
                self.graveyard.push(placed);
                self.response_window = true;
                Ok(())
            },
            None => Err(InvalidAction),
        }
    }

    fn return_field_to_hand(&mut self, instance: CardInstance) -> (r: Result<(), InvalidAction>)
        ensures
            match old(self)@.return_to_hand(instance) {
                Ok(next) => r is Ok && final(self)@ == next,
                Err(_) => r is Err && final(self)@ == old(self)@,
            },
    {
        match find_placed(&self.field, instance) {
            Some(k) => {
                let placed = self.field.remove(k);
                let mut card = placed.card;
                card.state = CardStatus::ReturnedToHand;
                self.hand.push(card);
                self.response_window = true;
                Ok(())
            },
            None => Err(InvalidAction),
        }
    }

    fn yield_response_window(&mut self) -> (r: Result<(), InvalidAction>)
        ensures
            match old(self)@.yield_window() {
                Ok(next) => r is Ok && final(self)@ == next,
                Err(_) => r is Err && final(self)@ == old(self)@,
            },
    {
        if self.phase == usize::MAX {
            return Err(InvalidAction);
        }
        reset_statuses(&mut self.hand);
        reset_placed_statuses(&mut self.field);
        reset_placed_statuses(&mut self.graveyard);
        self.response_window = false;
        self.phase = self.phase + 1;
        Ok(())
    }

    fn draw_from_left_deck(&mut self) -> (r: Result<(), InvalidAction>)
        ensures
            match old(self)@.draw_left() {
                Ok(next) => r is Ok && final(self)@ == next,
                Err(_) => r is Err && final(self)@ == old(self)@,
            },
    {
        if self.remaining_draws == 0 {
            return Err(InvalidAction);
        }
        match self.left_deck.pop() {
            Some(card) => {
                let mut card = card;
                card.state = CardStatus::Drawn;
                self.hand.push(card);
                self.remaining_draws = self.remaining_draws - 1;
                self.response_window = true;
                Ok(())
            },
            None => Err(InvalidAction),
        }
    }

    fn draw_from_right_deck(&mut self) -> (r: Result<(), InvalidAction>)
        ensures
            match old(self)@.draw_right() {
                Ok(next) => r is Ok && final(self)@ == next,
                Err(_) => r is Err && final(self)@ == old(self)@,
            },
    {
        if self.remaining_draws == 0 {
            return Err(InvalidAction);
        }
        match self.right_deck.pop() {
            Some(card) => {
                let mut card = card;
                card.state = CardStatus::Drawn;
                self.hand.push(card);
                self.remaining_draws = self.remaining_draws - 1;
                self.response_window = true;
                Ok(())
            },
            None => Err(InvalidAction),
        }
    }
}

/// A move of a card between zones keeps every card's type within the catalog.
pub proof fn lemma_moves_keep_known(s: GameStateView, n: nat, instance: CardInstance, slot: i64)
    requires
        s.known(n),
    ensures
        s.summon(instance, slot) matches Ok(t) ==> t.known(n),
        s.destroy(instance) matches Ok(t) ==> t.known(n),
        s.return_to_hand(instance) matches Ok(t) ==> t.known(n),
        s.yield_window() matches Ok(t) ==> t.known(n),
        s.draw_left() matches Ok(t) ==> t.known(n),
        s.draw_right() matches Ok(t) ==> t.known(n),
{
    lemma_first_index(s.hand, |c: Card| c.instance == instance);
    lemma_first_index(s.field, |p: Placed| p.card.instance == instance);
}

impl Action {
    /// Whether the action activates an effect.
    pub open spec fn is_activation(self) -> bool {
        self is ActivateFromField || self is ActivateFromHand
    }
}

impl GameStateView {
    /// The state after `card`'s effect number `effect` has fired with `activation`,
    /// with the response window open. Fails when the card's type has no such effect.
    pub open spec fn activate(
        self,
        cards: Seq<CardType>,
        card: Card,
        effect: CardEffect,
        activation: Activation,
    ) -> Result<GameStateView, InvalidAction> {
        let card_type = cards[card.card_type.0 as int];
        if effect.0 < card_type.effects@.len() {
            Ok(
                GameStateView {
                    response_window: true,
                    ..card_type.effects@[effect.0 as int].outcome(
                        cards,
                        self,
                        card.instance,
                        activation,
                    )
                },
            )
        } else {
            Err(InvalidAction)
        }
    }

    /// The state that `action` leads to, or the error where it is not possible.
    pub open spec fn step(self, cards: Seq<CardType>, action: Action) -> Result<
        GameStateView,
        InvalidAction,
    > {
        match action {
            Action::SummonFromHand(instance) => self.summon(instance, self.empty_slot() as i64),
            Action::SummonFromHandToSlot(instance, slot) => self.summon(instance, slot),
            Action::ActivateFromField(instance, effect, activation) => match placed_position(
                self.field,
                instance,
            ) {
                Some(k) => self.activate(cards, self.field[k].card, effect, activation),
                None => Err(InvalidAction),
            },
            Action::ActivateFromHand(instance, effect, activation) => match position(
                self.hand,
                instance,
            ) {
                Some(k) => self.activate(cards, self.hand[k], effect, activation),
                None => Err(InvalidAction),
            },
            Action::DestroyOnField(instance) => self.destroy(instance),
            Action::ReturnFieldToHand(instance) => self.return_to_hand(instance),
            Action::YieldResponseWindow => self.yield_window(),
            Action::DrawFromLeftDeck => self.draw_left(),
            Action::DrawFromRightDeck => self.draw_right(),
        }
    }
}

impl GameState {
    /// Applies one action. On an error the state is as it was.
    pub fn take_action(&mut self, card_pool: &Cards, action: Action) -> (r: Result<
        (),
        InvalidAction,
    >)
        requires
            old(self)@.known(card_pool@.len()),
        ensures
            match old(self)@.step(card_pool@, action) {
                Ok(next) => r is Ok && final(self)@ == next,
                Err(_) => r is Err && final(self)@ == old(self)@,
            },
            final(self)@.known(card_pool@.len()),
            old(self)@.wf() ==> final(self)@.wf(),
            old(self)@.exclusive() ==> final(self)@.exclusive(),
        decreases
                (if action.is_activation() {
                    1int
                } else {
                    0int
                }),
                0int,
    {
        proof {
            if self@.step(card_pool@, action) is Ok {
                let next = self@.step(card_pool@, action)->Ok_0;
                assert forall|i: CardInstance|
                    self@.copies(i) == #[trigger] next.copies(i) && (self@.wf() ==> next.wf()) by {
                    crate::laws::law_action_moves_cards(card_pool@, self@, action, i);
                }
                if self@.exclusive() {
                    assert forall|i: CardInstance| #[trigger] next.copies(i) <= 1 by {
                        assert(self@.copies(i) <= 1);
                    }
                }
                crate::laws::law_action_moves_cards(card_pool@, self@, action, CardInstance(0));
            }
            lemma_moves_keep_known(
                self@,
                card_pool@.len(),
                match action {
                    Action::SummonFromHand(i) => i,
                    Action::SummonFromHandToSlot(i, _) => i,
                    Action::DestroyOnField(i) => i,
                    Action::ReturnFieldToHand(i) => i,
                    _ => CardInstance(0),
                },
                match action {
                    Action::SummonFromHandToSlot(_, slot) => slot,
                    _ => self@.empty_slot() as i64,
                },
            );
        }
        match action {
            Action::SummonFromHand(instance) => {
                let slot = self.empty_slot_on_field();
                self.summon_to_slot(instance, slot)
            },
            Action::SummonFromHandToSlot(instance, slot) => self.summon_to_slot(instance, slot),
            Action::ActivateFromField(instance, effect, activation) => {
                match find_placed(&self.field, instance) {
                    Some(k) => {
                        let card_type = self.field[k].card.lookup_self(card_pool);
                        if (effect.0 as usize) < card_type.effects.len() {
                            card_type.effects[effect.0 as usize].activate(
                                card_pool,
                                card_type,
                                self,
                                instance,
                                activation,
                            );
                            self.response_window = true;
                            Ok(())
                        } else {
                            Err(InvalidAction)
                        }
                    },
                    None => Err(InvalidAction),
                }
            },
            Action::ActivateFromHand(instance, effect, activation) => {
                match find_card(&self.hand, instance) {
                    Some(k) => {
                        let card_type = self.hand[k].lookup_self(card_pool);
                        if (effect.0 as usize) < card_type.effects.len() {
                            card_type.effects[effect.0 as usize].activate(
                                card_pool,
                                card_type,
                                self,
                                instance,
                                activation,
                            );
                            self.response_window = true;
                            Ok(())
                        } else {
                            Err(InvalidAction)
                        }
                    },
                    None => Err(InvalidAction),
                }
            },
            Action::DestroyOnField(instance) => self.destroy_on_field(instance),
            Action::ReturnFieldToHand(instance) => self.return_field_to_hand(instance),
            Action::YieldResponseWindow => self.yield_response_window(),
            Action::DrawFromLeftDeck => self.draw_from_left_deck(),
            Action::DrawFromRightDeck => self.draw_from_right_deck(),
        }
    }
}

/// The action that activates an effect of a card on the field or in hand.
pub open spec fn activation_action(
    from_field: bool,
    instance: CardInstance,
    effect: CardEffect,
    activation: Activation,
) -> Action {
    if from_field {
        Action::ActivateFromField(instance, effect, activation)
    } else {
        Action::ActivateFromHand(instance, effect, activation)
    }
}

/// The given activations of one effect of one card, as actions.
pub open spec fn as_actions(
    from_field: bool,
    instance: CardInstance,
    effect: CardEffect,
    activations: Seq<Activation>,
) -> Seq<Action> {
    activations.map_values(|a: Activation| activation_action(from_field, instance, effect, a))
}

/// The activations that effect number `e` of `card` offers in `s`, as actions.
/// An effect whose number has no `u32` cannot be named, and offers none.
pub open spec fn effect_actions(
    cards: Seq<CardType>,
    s: GameStateView,
    card: Card,
    from_field: bool,
    e: int,
) -> Seq<Action> {
    let card_type = cards[card.card_type.0 as int];
    if e <= u32::MAX {
        as_actions(
            from_field,
            card.instance,
            CardEffect(e as u32),
            card_type.effects@[e].offers(card_type, s, card.instance),
        )
    } else {
        Seq::empty()
    }
}

/// The activations that the first `upto` effects of `card` offer, in order.
pub open spec fn card_actions(
    cards: Seq<CardType>,
    s: GameStateView,
    card: Card,
    from_field: bool,
    upto: nat,
) -> Seq<Action>
    decreases upto,
{
    if upto == 0 {
        Seq::empty()
    } else {
        card_actions(cards, s, card, from_field, (upto - 1) as nat) + effect_actions(
            cards,
            s,
            card,
            from_field,
            upto - 1,
        )
    }
}

/// Every activation that `card` offers.
pub open spec fn all_card_actions(
    cards: Seq<CardType>,
    s: GameStateView,
    card: Card,
    from_field: bool,
) -> Seq<Action> {
    card_actions(cards, s, card, from_field, cards[card.card_type.0 as int].effects@.len())
}

/// Every activation that the first `upto` cards on the field offer, in order.
pub open spec fn field_actions(cards: Seq<CardType>, s: GameStateView, upto: nat) -> Seq<Action>
    decreases upto,
{
    if upto == 0 {
        Seq::empty()
    } else {
        field_actions(cards, s, (upto - 1) as nat) + all_card_actions(
            cards,
            s,
            s.field[upto - 1].card,
            true,
        )
    }
}

/// Every activation that the first `upto` cards in hand offer, in order.
pub open spec fn hand_actions(cards: Seq<CardType>, s: GameStateView, upto: nat) -> Seq<Action>
    decreases upto,
{
    if upto == 0 {
        Seq::empty()
    } else {
        hand_actions(cards, s, (upto - 1) as nat) + all_card_actions(
            cards,
            s,
            s.hand[upto - 1],
            false,
        )
    }
}

/// Whether the action is an activation that must be chosen.
pub open spec fn is_mandatory(action: Action) -> bool {
    match action {
        Action::ActivateFromField(_, _, a) => a.status == ActivatableType::Mandatory,
        Action::ActivateFromHand(_, _, a) => a.status == ActivatableType::Mandatory,
        _ => false,
    }
}

/// The predicate that picks the mandatory activations.
pub open spec fn mandatory_ones() -> spec_fn(Action) -> bool {
    |a: Action| is_mandatory(a)
}

/// The predicate that picks what is not a mandatory activation.
pub open spec fn optional_ones() -> spec_fn(Action) -> bool {
    |a: Action| !is_mandatory(a)
}

/// A summon for each card in hand, in the hand's order.
pub open spec fn summons(hand: Seq<Card>) -> Seq<Action> {
    hand.map_values(|c: Card| Action::SummonFromHand(c.instance))
}

impl GameStateView {
    /// Every activation that a card on the field or in hand offers: the field's
    /// cards first, then the hand's, each card's effects in order.
    pub open spec fn activations(self, cards: Seq<CardType>) -> Seq<Action> {
        field_actions(cards, self, self.field.len()) + hand_actions(cards, self, self.hand.len())
    }

    /// A draw for each deck that has a card, left first, while draws remain.
    pub open spec fn draws(self) -> Seq<Action> {
        if self.remaining_draws > 0 {
            let left: Seq<Action> = if self.left_deck.len() > 0 {
                seq![Action::DrawFromLeftDeck]
            } else {
                Seq::empty()
            };
            let right: Seq<Action> = if self.right_deck.len() > 0 {
                seq![Action::DrawFromRightDeck]
            } else {
                Seq::empty()
            };
            left + right
        } else {
            Seq::empty()
        }
    }

    /// The legal moves. Where a mandatory activation exists, the mandatory
    /// activations and nothing else. Otherwise the optional activations, followed in
    /// a response window by the yield, and outside of one by a summon for each card
    /// in hand and the draws.
    pub open spec fn legal_actions(self, cards: Seq<CardType>) -> Seq<Action> {
        let all = self.activations(cards);
        let mandatory = all.filter(mandatory_ones());
        if mandatory.len() > 0 {
            mandatory
        } else if self.response_window {
            all.filter(optional_ones()).push(Action::YieldResponseWindow)
        } else {
            all.filter(optional_ones()) + summons(self.hand) + self.draws()
        }
    }
}

fn push_activations(
    from_field: bool,
    instance: CardInstance,
    effect: CardEffect,
    activations: &Vec<Activation>,
    all: &mut Vec<Action>,
)
    ensures
        final(all)@ == old(all)@ + as_actions(from_field, instance, effect, activations@),
{
    let ghost wanted = as_actions(from_field, instance, effect, activations@);
    let mut j: usize = 0;
    while j < activations.len()
        invariant
            j <= activations@.len(),
            wanted == as_actions(from_field, instance, effect, activations@),
            all@ == old(all)@ + wanted.take(j as int),
        decreases activations@.len() - j,
    {
        let action = if from_field {
            Action::ActivateFromField(instance, effect, activations[j])
        } else {
            Action::ActivateFromHand(instance, effect, activations[j])
        };
        all.push(action);
        assert(all@ =~= old(all)@ + wanted.take(j + 1));
        j += 1;
    }
    assert(wanted.take(j as int) =~= wanted);
}

fn push_card_actions(
    game_state: &GameState,
    card_pool: &Cards,
    card: &Card,
    from_field: bool,
    all: &mut Vec<Action>,
)
    requires
        card.known_to(card_pool),
    ensures
        final(all)@ == old(all)@ + all_card_actions(card_pool@, game_state@, *card, from_field),
{
    let card_type = card.lookup_self(card_pool);
    let mut e: usize = 0;
    while e < card_type.effects.len()
        invariant
            e <= card_type.effects@.len(),
            *card_type == card_pool@[card.card_type.0 as int],
            all@ == old(all)@ + card_actions(card_pool@, game_state@, *card, from_field, e as nat),
        decreases card_type.effects@.len() - e,
    {
        let ghost before = all@;
        match CardEffect::at(e) {
            Some(effect) => {
                let activations = card_type.effects[e].can_activate(
                    card_pool,
                    card_type,
                    game_state,
                    card.instance,
                );
                push_activations(from_field, card.instance, effect, &activations, all);
            },
            None => {},
        }
        assert(all@ =~= before + effect_actions(card_pool@, game_state@, *card, from_field, e as int));
        assert(all@ =~= old(all)@ + card_actions(
            card_pool@,
            game_state@,
            *card,
            from_field,
            (e + 1) as nat,
        ));
        e += 1;
    }
}

fn collect_activations(game_state: &GameState, card_pool: &Cards) -> (all: Vec<Action>)
    requires
        game_state@.known(card_pool@.len()),
    ensures
        all@ == game_state@.activations(card_pool@),
{
    let mut all: Vec<Action> = Vec::new();
    let field = game_state.field();
    let mut k: usize = 0;
    while k < field.len()
        invariant
            k <= field@.len(),
            field@ == game_state@.field,
            game_state@.known(card_pool@.len()),
            all@ == field_actions(card_pool@, game_state@, k as nat),
        decreases field@.len() - k,
    {
        push_card_actions(game_state, card_pool, &field[k].card, true, &mut all);
        k += 1;
    }
    let ghost from_field = all@;
    let hand = game_state.hand();
    let mut k: usize = 0;
    assert(all@ =~= from_field + hand_actions(card_pool@, game_state@, 0));
    while k < hand.len()
        invariant
            k <= hand@.len(),
            hand@ == game_state@.hand,
            game_state@.known(card_pool@.len()),
            all@ == from_field + hand_actions(card_pool@, game_state@, k as nat),
        decreases hand@.len() - k,
    {
        push_card_actions(game_state, card_pool, &hand[k], false, &mut all);
        assert(all@ =~= from_field + hand_actions(card_pool@, game_state@, (k + 1) as nat));
        k += 1;
    }
    all
}

fn must_be_chosen(action: &Action) -> (r: bool)
    ensures
        r == is_mandatory(*action),
{
    match action {
        Action::ActivateFromField(_, _, a) => match a.status {
            ActivatableType::Mandatory => true,
            ActivatableType::Can => false,
        },
        Action::ActivateFromHand(_, _, a) => match a.status {
            ActivatableType::Mandatory => true,
            ActivatableType::Can => false,
        },
        _ => false,
    }
}

fn partition(all: &Vec<Action>) -> (r: (Vec<Action>, Vec<Action>))
    ensures
        r.0@ == all@.filter(mandatory_ones()),
        r.1@ == all@.filter(optional_ones()),
{
    let mut mandatory: Vec<Action> = Vec::new();
    let mut optional: Vec<Action> = Vec::new();
    let mut i: usize = 0;
    proof {
        Seq::<Action>::empty().lemma_filter_len(mandatory_ones());
        Seq::<Action>::empty().lemma_filter_len(optional_ones());
        assert(all@.take(0) =~= Seq::<Action>::empty());
        assert(Seq::<Action>::empty().filter(mandatory_ones()) =~= Seq::<Action>::empty());
        assert(Seq::<Action>::empty().filter(optional_ones()) =~= Seq::<Action>::empty());
    }
    while i < all.len()
        invariant
            i <= all@.len(),
            mandatory@ == all@.take(i as int).filter(mandatory_ones()),
            optional@ == all@.take(i as int).filter(optional_ones()),
        decreases all@.len() - i,
    {
        let action = all[i];
        proof {
            assert(all@.take(i + 1) =~= all@.take(i as int).push(action));
            all@.take(i as int).lemma_filter_push(action, mandatory_ones());
            all@.take(i as int).lemma_filter_push(action, optional_ones());
        }
        if must_be_chosen(&action) {
            mandatory.push(action);
        } else {
            optional.push(action);
        }
        i += 1;
    }
    assert(all@.take(i as int) =~= all@);
    (mandatory, optional)
}

fn push_summons(hand: &Vec<Card>, actions: &mut Vec<Action>)
    ensures
        final(actions)@ == old(actions)@ + summons(hand@),
{
    let mut k: usize = 0;
    assert(actions@ =~= old(actions)@ + summons(hand@).take(0));
    while k < hand.len()
        invariant
            k <= hand@.len(),
            actions@ == old(actions)@ + summons(hand@).take(k as int),
        decreases hand@.len() - k,
    {
        actions.push(Action::SummonFromHand(hand[k].instance));
        assert(actions@ =~= old(actions)@ + summons(hand@).take(k + 1));
        k += 1;
    }
    assert(summons(hand@).take(k as int) =~= summons(hand@));
}

impl GameState {
    /// The legal moves in this state.
    pub fn actions(&self, card_pool: &Cards) -> (r: Vec<Action>)
        requires
            self@.known(card_pool@.len()),
        ensures
            r@ == self@.legal_actions(card_pool@),
    {
        let all = collect_activations(self, card_pool);
        let (mandatory, optional) = partition(&all);
        if mandatory.len() > 0 {
            return mandatory;
        }
        let mut optional = optional;
        if self.response_window {
            optional.push(Action::YieldResponseWindow);
            return optional;
        }
        push_summons(&self.hand, &mut optional);
        let ghost with_summons = optional@;
        if self.remaining_draws > 0 {
            if self.left_deck.len() > 0 {
                optional.push(Action::DrawFromLeftDeck);
            }
            if self.right_deck.len() > 0 {
                optional.push(Action::DrawFromRightDeck);
            }
        }
        assert(optional@ =~= with_summons + self@.draws());
        optional
    }
}

/// The queue with `resolution` appended to the entry of `phase`, after as many
/// empty entries as it takes for `phase` to have one.
pub open spec fn queued(queue: Seq<Seq<Resolution>>, phase: int, resolution: Resolution) -> Seq<
    Seq<Resolution>,
> {
    let padded = if queue.len() <= phase {
        queue + Seq::new((phase + 1 - queue.len()) as nat, |i: int| Seq::<Resolution>::empty())
    } else {
        queue
    };
    padded.update(phase, padded[phase].push(resolution))
}

impl GameState {
    /// Appends a resolution to the current phase's queue, extending the queue as
    /// needed. Nothing else changes.
    pub fn queue_resolution(&mut self, resolution: Resolution)
        ensures
            final(self)@ == (GameStateView {
                queued_effects: queued(
                    old(self)@.queued_effects,
                    old(self)@.phase as int,
                    resolution,
                ),
                ..old(self)@
            }),
    {
        let phase = self.phase;
        let ghost given = self.queued_effects@;
        while self.queued_effects.len() <= phase
            invariant
                phase == old(self).phase,
                self.phase == phase,
                self.hand == old(self).hand,
                self.field == old(self).field,
                self.graveyard == old(self).graveyard,
                self.left_deck == old(self).left_deck,
                self.right_deck == old(self).right_deck,
                self.response_window == old(self).response_window,
                self.remaining_draws == old(self).remaining_draws,
                given.len() <= self.queued_effects@.len(),
                given.len() <= phase ==> self.queued_effects@.len() <= phase + 1,
                given.len() > phase ==> self.queued_effects@ == given,
                forall|i: int| 0 <= i < given.len() ==> self.queued_effects@[i] == given[i],
                forall|i: int|
                    given.len() <= i < self.queued_effects@.len() ==> (
                    #[trigger] self.queued_effects@[i])@ == Seq::<Resolution>::empty(),
            decreases phase + 1 - self.queued_effects@.len(),
        {
            self.queued_effects.push(Vec::new());
        }
        let ghost padded = self.queued_effects@;
        self.queued_effects[phase].push(resolution);
        proof {
            let want = queued(queue_view(given), phase as int, resolution);
            let got = queue_view(self.queued_effects@);
            assert(got.len() == want.len());
            assert forall|i: int| 0 <= i < got.len() implies got[i] == want[i] by {
                if i != phase {
                    assert(self.queued_effects@[i] == padded[i]);
                }
            }
            assert(got =~= want);
        }
    }
}

} // verus!
