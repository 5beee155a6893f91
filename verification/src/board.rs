use vstd::prelude::*;
use crate::state::{find_card, position, Card, CardInstance, InvalidAction};

verus! {

/// The two players of the table.
#[derive(Copy, Clone, Debug, PartialEq, Eq, Structural)]
pub enum Player {
    One,
    Two,
}

impl Player {
    /// The other player.
    pub fn next(&self) -> (r: Player)
        ensures
            r == self.other(),
    {
        match self {
            Player::One => Player::Two,
            Player::Two => Player::One,
        }
    }

    /// The other player.
    pub open spec fn other(self) -> Player {
        match self {
            Player::One => Player::Two,
            Player::Two => Player::One,
        }
    }
}

/// What an action does with its card.
#[derive(Copy, Clone, Debug, PartialEq, Eq, Structural)]
pub enum ActionType {
    Effect,
    Summon,
    Attack,
}

/// What the player who has priority may do next while the game is open.
#[derive(Copy, Clone, Debug, PartialEq, Eq, Structural)]
pub enum Phase {
    MayDraw,
    MayTakeAction,
}

/// Whether a new action may be begun, or only answered.
#[derive(Copy, Clone, Debug, PartialEq, Eq, Structural)]
pub enum GameStateType {
    /// The active player may draw and/or then take an action.
    Open { phase: Phase },
    /// An effect has been activated and now both players may respond in turn.
    Closed,
}

/// The two decks that a player draws from.
#[derive(Copy, Clone, Debug, PartialEq, Eq, Structural)]
pub enum FaceDownDeck {
    Left,
    Right,
}

/// The fourteen positions of a player's field: a front row and a back row of seven.
#[derive(Copy, Clone, Debug, PartialEq, Eq, Structural)]
pub enum FieldSlot {
    F0,
    F1,
    F2,
    F3,
    F4,
    F5,
    F6,
    B0,
    B1,
    B2,
    B3,
    B4,
    B5,
    B6,
}

impl FieldSlot {
    /// The slot's place in the order front row, then back row.
    pub open spec fn place(self) -> int {
        match self {
            FieldSlot::F0 => 0,
            FieldSlot::F1 => 1,
            FieldSlot::F2 => 2,
            FieldSlot::F3 => 3,
            FieldSlot::F4 => 4,
            FieldSlot::F5 => 5,
            FieldSlot::F6 => 6,
            FieldSlot::B0 => 7,
            FieldSlot::B1 => 8,
            FieldSlot::B2 => 9,
            FieldSlot::B3 => 10,
            FieldSlot::B4 => 11,
            FieldSlot::B5 => 12,
            FieldSlot::B6 => 13,
        }
    }

    /// The slot at a place of the order front row, then back row.
    pub open spec fn at(place: int) -> FieldSlot {
        if place == 0 {
            FieldSlot::F0
        } else if place == 1 {
            FieldSlot::F1
        } else if place == 2 {
            FieldSlot::F2
        } else if place == 3 {
            FieldSlot::F3
        } else if place == 4 {
            FieldSlot::F4
        } else if place == 5 {
            FieldSlot::F5
        } else if place == 6 {
            FieldSlot::F6
        } else if place == 7 {
            FieldSlot::B0
        } else if place == 8 {
            FieldSlot::B1
        } else if place == 9 {
            FieldSlot::B2
        } else if place == 10 {
            FieldSlot::B3
        } else if place == 11 {
            FieldSlot::B4
        } else if place == 12 {
            FieldSlot::B5
        } else {
            FieldSlot::B6
        }
    }

    fn of_place(place: usize) -> (r: FieldSlot)
        requires
            place < 14,
        ensures
            r == FieldSlot::at(place as int),
            r.place() == place,
    {
        if place == 0 {
            FieldSlot::F0
        } else if place == 1 {
            FieldSlot::F1
        } else if place == 2 {
            FieldSlot::F2
        } else if place == 3 {
            FieldSlot::F3
        } else if place == 4 {
            FieldSlot::F4
        } else if place == 5 {
            FieldSlot::F5
        } else if place == 6 {
            FieldSlot::F6
        } else if place == 7 {
            FieldSlot::B0
        } else if place == 8 {
            FieldSlot::B1
        } else if place == 9 {
            FieldSlot::B2
        } else if place == 10 {
            FieldSlot::B3
        } else if place == 11 {
            FieldSlot::B4
        } else if place == 12 {
            FieldSlot::B5
        } else {
            FieldSlot::B6
        }
    }
}

/// An action with a card: summoning it to a slot, attacking with it, or
/// activating its effect.
#[derive(Copy, Clone, Debug, PartialEq, Eq, Structural)]
pub struct Action {
    pub action_type: ActionType,
    pub instance: CardInstance,
    pub slot: Option<FieldSlot>,
}

/// One thing that the player who has priority may do.
#[derive(Copy, Clone, Debug, PartialEq, Eq, Structural)]
pub enum PlayerOption {
    Draw(FaceDownDeck),
    SkipDraw,
    Action(Action),
    SkipAction,
}

/// The mathematical value of one player's side of the table.
pub struct FieldView {
    /// The front row and then the back row: fourteen positions, each empty or
    /// holding a card.
    pub slots: Seq<Option<Card>>,
    pub left_deck: Seq<Card>,
    pub center_deck: Seq<Card>,
    pub right_deck: Seq<Card>,
    /// For each of the seven columns, the cards destroyed in it.
    pub destroyed: Seq<Seq<Card>>,
    pub hand: Seq<Card>,
}

/// The places among the first `upto` of `slots` that hold no card, as slots, in
/// order.
pub open spec fn empty_places(slots: Seq<Option<Card>>, upto: nat) -> Seq<FieldSlot>
    decreases upto,
{
    if upto == 0 {
        Seq::empty()
    } else if slots[upto - 1] is None {
        empty_places(slots, (upto - 1) as nat).push(FieldSlot::at(upto - 1))
    } else {
        empty_places(slots, (upto - 1) as nat)
    }
}

/// The instances of the cards in the first `upto` places of `slots`, in order.
pub open spec fn occupants(slots: Seq<Option<Card>>, upto: nat) -> Seq<CardInstance>
    decreases upto,
{
    if upto == 0 {
        Seq::empty()
    } else {
        match slots[upto - 1] {
            Some(card) => occupants(slots, (upto - 1) as nat).push(card.instance),
            None => occupants(slots, (upto - 1) as nat),
        }
    }
}

/// The option to summon `instance` to `slot`.
pub open spec fn summon_option(instance: CardInstance, slot: FieldSlot) -> PlayerOption {
    PlayerOption::Action(Action { action_type: ActionType::Summon, instance, slot: Some(slot) })
}

/// The option to attack with `instance`.
pub open spec fn attack_option(instance: CardInstance) -> PlayerOption {
    PlayerOption::Action(Action { action_type: ActionType::Attack, instance, slot: None })
}

/// For each of the first `upto` instances in turn, the options to summon it to
/// each of the slots in turn.
pub open spec fn summon_options(
    instances: Seq<CardInstance>,
    slots: Seq<FieldSlot>,
    upto: nat,
) -> Seq<PlayerOption>
    decreases upto,
{
    if upto == 0 {
        Seq::empty()
    } else {
        summon_options(instances, slots, (upto - 1) as nat) + slots.map_values(
            |slot: FieldSlot| summon_option(instances[upto - 1], slot),
        )
    }
}

impl FieldView {
    /// The side has its fourteen positions and seven columns of destroyed cards.
    pub open spec fn wf(self) -> bool {
        self.slots.len() == 14 && self.destroyed.len() == 7
    }

    /// Whether a deck has a card.
    pub open spec fn can_draw(self) -> bool {
        self.left_deck.len() > 0 || self.right_deck.len() > 0
    }

    /// Whether a position is empty.
    pub open spec fn has_space(self) -> bool {
        exists|i: int| 0 <= i < 14 && (#[trigger] self.slots[i]) is None
    }

    /// The empty positions, front row first.
    pub open spec fn empty_slots(self) -> Seq<FieldSlot> {
        empty_places(self.slots, 14)
    }

    /// The instances in hand while a position is empty, else none.
    pub open spec fn summonable(self) -> Seq<CardInstance> {
        if self.has_space() {
            self.hand.map_values(|c: Card| c.instance)
        } else {
            Seq::empty()
        }
    }

    /// The instances on the field, front row first.
    pub open spec fn attackers(self) -> Seq<CardInstance> {
        occupants(self.slots, 14)
    }

    /// The side with the top card of the named deck moved to the hand.
    pub open spec fn drawn(self, deck: FaceDownDeck) -> FieldView {
        match deck {
            FaceDownDeck::Left => FieldView {
                left_deck: self.left_deck.drop_last(),
                hand: self.hand.push(self.left_deck.last()),
                ..self
            },
            FaceDownDeck::Right => FieldView {
                right_deck: self.right_deck.drop_last(),
                hand: self.hand.push(self.right_deck.last()),
                ..self
            },
        }
    }

    /// The side with the `k`th card of the hand moved to `slot`.
    pub open spec fn summoned(self, k: int, slot: FieldSlot) -> FieldView {
        FieldView {
            hand: self.hand.remove(k),
            slots: self.slots.update(slot.place(), Some(self.hand[k])),
            ..self
        }
    }
}

/// One player's side of the table.
#[derive(Debug)]
pub struct Field {
    // Cards in the front or back row are always face up.
    front: [Option<Card>; 7],
    back: [Option<Card>; 7],
    left_deck: Vec<Card>,
    // The center deck is face up, has no order, and is public knowledge.
    center_deck: Vec<Card>,
    right_deck: Vec<Card>,
    // Destroyed cards retain their column upon death.
    destroyed: [Vec<Card>; 7],
    // The hand is orderless private knowledge for each player.
    hand: Vec<Card>,
}

impl View for Field {
    type V = FieldView;

    closed spec fn view(&self) -> FieldView {
        FieldView {
            slots: self.front@ + self.back@,
            left_deck: self.left_deck@,
            center_deck: self.center_deck@,
            right_deck: self.right_deck@,
            destroyed: self.destroyed@.map_values(|column: Vec<Card>| column@),
            hand: self.hand@,
        }
    }
}

impl Field {
    /// A side with an empty field and the given decks and hand.
    pub fn new(
        left_deck: Vec<Card>,
        center_deck: Vec<Card>,
        right_deck: Vec<Card>,
        hand: Vec<Card>,
    ) -> (r: Field)
        ensures
            r@.wf(),
            r@.slots == Seq::new(14, |i: int| None::<Card>),
            r@.left_deck == left_deck@,
            r@.center_deck == center_deck@,
            r@.right_deck == right_deck@,
            r@.destroyed == Seq::new(7, |i: int| Seq::<Card>::empty()),
            r@.hand == hand@,
    {
        let r = Field {
            front: [None, None, None, None, None, None, None],
            back: [None, None, None, None, None, None, None],
            left_deck,
            center_deck,
            right_deck,
            destroyed: [
                Vec::new(),
                Vec::new(),
                Vec::new(),
                Vec::new(),
                Vec::new(),
                Vec::new(),
                Vec::new(),
            ],
            hand,
        };
        assert(r@.slots =~= Seq::new(14, |i: int| None::<Card>));
        assert(r@.destroyed =~= Seq::new(7, |i: int| Seq::<Card>::empty()));
        r
    }

    /// The cards in hand.
    pub fn hand(&self) -> (r: &Vec<Card>)
        ensures
            r@ == self@.hand,
    {
        &self.hand
    }

    /// The left deck; cards are drawn from its end.
    pub fn left_deck(&self) -> (r: &Vec<Card>)
        ensures
            r@ == self@.left_deck,
    {
        &self.left_deck
    }

    /// The center deck.
    pub fn center_deck(&self) -> (r: &Vec<Card>)
        ensures
            r@ == self@.center_deck,
    {
        &self.center_deck
    }

    /// The right deck; cards are drawn from its end.
    pub fn right_deck(&self) -> (r: &Vec<Card>)
        ensures
            r@ == self@.right_deck,
    {
        &self.right_deck
    }

    /// The cards destroyed in a column.
    pub fn destroyed(&self, column: usize) -> (r: &Vec<Card>)
        requires
            column < 7,
        ensures
            r@ == self@.destroyed[column as int],
    {
        &self.destroyed[column]
    }

    /// Whether a deck has a card to draw.
    pub fn has_cards_to_draw(&self) -> (r: bool)
        ensures
            r == self@.can_draw(),
    {
        self.has_cards_to_draw_left() || self.has_cards_to_draw_right()
    }

    /// Whether the left deck has a card to draw.
    pub fn has_cards_to_draw_left(&self) -> (r: bool)
        ensures
            r == (self@.left_deck.len() > 0),
    {
        !self.left_deck.is_empty()
    }

    /// Whether the right deck has a card to draw.
    pub fn has_cards_to_draw_right(&self) -> (r: bool)
        ensures
            r == (self@.right_deck.len() > 0),
    {
        !self.right_deck.is_empty()
    }

    /// The card at a position, if any.
    pub fn index(&self, index: FieldSlot) -> (r: &Option<Card>)
        ensures
            *r == self@.slots[index.place()],
    {
        match index {
            FieldSlot::F0 => &self.front[0],
            FieldSlot::F1 => &self.front[1],
            FieldSlot::F2 => &self.front[2],
            FieldSlot::F3 => &self.front[3],
            FieldSlot::F4 => &self.front[4],
            FieldSlot::F5 => &self.front[5],
            FieldSlot::F6 => &self.front[6],
            FieldSlot::B0 => &self.back[0],
            FieldSlot::B1 => &self.back[1],
            FieldSlot::B2 => &self.back[2],
            FieldSlot::B3 => &self.back[3],
            FieldSlot::B4 => &self.back[4],
            FieldSlot::B5 => &self.back[5],
            FieldSlot::B6 => &self.back[6],
        }
    }

    /// The position itself, to fill or to clear.
    pub fn index_mut(&mut self, index: FieldSlot) -> (r: &mut Option<Card>)
        ensures
            *r == old(self)@.slots[index.place()],
            final(self)@.slots =~= old(self)@.slots.update(index.place(), *final(r)),
            final(self)@.left_deck == old(self)@.left_deck,
            final(self)@.center_deck == old(self)@.center_deck,
            final(self)@.right_deck == old(self)@.right_deck,
            final(self)@.destroyed == old(self)@.destroyed,
            final(self)@.hand == old(self)@.hand,
    {
        match index {
            FieldSlot::F0 => &mut self.front[0],
            FieldSlot::F1 => &mut self.front[1],
            FieldSlot::F2 => &mut self.front[2],
            FieldSlot::F3 => &mut self.front[3],
            FieldSlot::F4 => &mut self.front[4],
            FieldSlot::F5 => &mut self.front[5],
            FieldSlot::F6 => &mut self.front[6],
            FieldSlot::B0 => &mut self.back[0],
            FieldSlot::B1 => &mut self.back[1],
            FieldSlot::B2 => &mut self.back[2],
            FieldSlot::B3 => &mut self.back[3],
            FieldSlot::B4 => &mut self.back[4],
            FieldSlot::B5 => &mut self.back[5],
            FieldSlot::B6 => &mut self.back[6],
        }
    }

    /// Whether a position holds no card.
    pub fn slot_is_empty(&self, slot: FieldSlot) -> (r: bool)
        ensures
            r == (self@.slots[slot.place()] is None),
    {
        self.index(slot).is_none()
    }

    /// The fourteen positions, front row first.
    pub fn field_slots(&self) -> (r: Vec<&Option<Card>>)
        ensures
            r@.len() == 14,
            forall|i: int| 0 <= i < 14 ==> *r@[i] == self@.slots[i],
    {
        let mut r: Vec<&Option<Card>> = Vec::new();
        let mut i: usize = 0;
        while i < 14
            invariant
                i <= 14,
                r@.len() == i,
                forall|j: int| 0 <= j < i ==> *r@[j] == self@.slots[j],
            decreases 14 - i,
        {
            r.push(self.index(FieldSlot::of_place(i)));
            i += 1;
        }
        r
    }

    /// Whether some position holds no card.
    pub fn space_on_field(&self) -> (r: bool)
        ensures
            r == self@.has_space(),
    {
        let mut i: usize = 0;
        while i < 14
            invariant
                i <= 14,
                forall|j: int| 0 <= j < i ==> (#[trigger] self@.slots[j]) is Some,
            decreases 14 - i,
        {
            if self.slot_is_empty(FieldSlot::of_place(i)) {
                return true;
            }
            i += 1;
        }
        false
    }

    /// The cards that can be summoned: those in hand while a position is empty.
    pub fn cards_to_summon(&self) -> (r: Vec<CardInstance>)
        ensures
            r@ == self@.summonable(),
    {
        let mut r: Vec<CardInstance> = Vec::new();
        if self.space_on_field() {
            let mut k: usize = 0;
            while k < self.hand.len()
                invariant
                    k <= self.hand@.len(),
                    r@.len() == k,
                    forall|j: int| 0 <= j < k ==> r@[j] == self.hand@[j].instance,
                decreases self.hand@.len() - k,
            {
                r.push(self.hand[k].instance);
                k += 1;
            }
        }
        assert(r@ =~= self@.summonable());
        r
    }

    /// The cards that can attack: those on the field, front row first.
    pub fn cards_to_attack(&self) -> (r: Vec<CardInstance>)
        ensures
            r@ == self@.attackers(),
    {
        let mut r: Vec<CardInstance> = Vec::new();
        let mut i: usize = 0;
        while i < 14
            invariant
                i <= 14,
                r@ == occupants(self@.slots, i as nat),
            decreases 14 - i,
        {
            match self.index(FieldSlot::of_place(i)) {
                Some(card) => {
                    r.push(card.instance);
                },
                None => {},
            }
            i += 1;
        }
        r
    }

    /// The positions that hold no card, front row first.
    pub fn empty_slots(&self) -> (r: Vec<FieldSlot>)
        ensures
            r@ == self@.empty_slots(),
    {
        let mut r: Vec<FieldSlot> = Vec::new();
        let mut i: usize = 0;
        while i < 14
            invariant
                i <= 14,
                r@ == empty_places(self@.slots, i as nat),
            decreases 14 - i,
        {
            let slot = FieldSlot::of_place(i);
            if self.slot_is_empty(slot) {
                r.push(slot);
            }
            i += 1;
        }
        r
    }
}

/// The mathematical value of the table: both sides, who has priority, and whether
/// the game is open.
pub struct BoardView {
    pub player_one: FieldView,
    pub player_two: FieldView,
    pub active: Player,
    pub open: GameStateType,
}

impl BoardView {
    /// The side of the player who has priority.
    pub open spec fn active_field(self) -> FieldView {
        match self.active {
            Player::One => self.player_one,
            Player::Two => self.player_two,
        }
    }

    /// The table with the side of the player who has priority replaced.
    pub open spec fn with_active_field(self, field: FieldView) -> BoardView {
        match self.active {
            Player::One => BoardView { player_one: field, ..self },
            Player::Two => BoardView { player_two: field, ..self },
        }
    }

    /// What the player who has priority may do. While the player may draw: skip
    /// the draw, or draw from a deck that has a card. While the player may act:
    /// skip, summon a card in hand to an empty position, or attack with a card on
    /// the field. While the game is closed: nothing.
    pub open spec fn options(self) -> Seq<PlayerOption> {
        let field = self.active_field();
        match self.open {
            GameStateType::Open { phase: Phase::MayDraw } => {
                let left: Seq<PlayerOption> = if field.left_deck.len() > 0 {
                    seq![PlayerOption::Draw(FaceDownDeck::Left)]
                } else {
                    Seq::empty()
                };
                let right: Seq<PlayerOption> = if field.right_deck.len() > 0 {
                    seq![PlayerOption::Draw(FaceDownDeck::Right)]
                } else {
                    Seq::empty()
                };
                seq![PlayerOption::SkipDraw] + left + right
            },
            GameStateType::Open { phase: Phase::MayTakeAction } => {
                let summons = summon_options(
                    field.summonable(),
                    field.empty_slots(),
                    field.summonable().len(),
                );
                let attacks = field.attackers().map_values(|i: CardInstance| attack_option(i));
                seq![PlayerOption::SkipAction] + summons + attacks
            },
            GameStateType::Closed => Seq::empty(),
        }
    }

    /// The table after the player who has priority has taken `option`; an error
    /// where the option is not among the player's options.
    pub open spec fn taken(self, option: PlayerOption) -> Result<BoardView, InvalidAction> {
        let field = self.active_field();
        if !self.options().contains(option) {
            Err(InvalidAction)
        } else {
            match option {
                PlayerOption::SkipDraw => Ok(
                    BoardView { open: GameStateType::Open { phase: Phase::MayTakeAction }, ..self },
                ),
                PlayerOption::Draw(deck) => {
                    let has_card = match deck {
                        FaceDownDeck::Left => field.left_deck.len() > 0,
                        FaceDownDeck::Right => field.right_deck.len() > 0,
                    };
                    if has_card {
                        Ok(
                            BoardView {
                                open: GameStateType::Open { phase: Phase::MayTakeAction },
                                ..self.with_active_field(field.drawn(deck))
                            },
                        )
                    } else {
                        Err(InvalidAction)
                    }
                },
                PlayerOption::SkipAction => Ok(
                    BoardView {
                        active: self.active.other(),
                        open: GameStateType::Open { phase: Phase::MayDraw },
                        ..self
                    },
                ),
                PlayerOption::Action(action) => match action.action_type {
                    ActionType::Summon => match action.slot {
                        Some(slot) => match position(field.hand, action.instance) {
                            Some(k) => if field.slots[slot.place()] is None {
                                Ok(
                                    BoardView {
                                        open: GameStateType::Closed,
                                        ..self.with_active_field(field.summoned(k, slot))
                                    },
                                )
                            } else {
                                Err(InvalidAction)
                            },
                            None => Err(InvalidAction),
                        },
                        None => Err(InvalidAction),
                    },
                    _ => Ok(BoardView { open: GameStateType::Closed, ..self }),
                },
            }
        }
    }
}

/// Every slot among the empty places is a place that holds no card.
pub proof fn lemma_empty_places(slots: Seq<Option<Card>>, upto: nat, j: int)
    requires
        upto <= 14,
        0 <= j < empty_places(slots, upto).len(),
    ensures
        0 <= empty_places(slots, upto)[j].place() < upto,
        slots[empty_places(slots, upto)[j].place()] is None,
    decreases upto,
{
    if upto > 0 {
        let before = empty_places(slots, (upto - 1) as nat);
        if j < before.len() {
            lemma_empty_places(slots, (upto - 1) as nat, j);
        }
    }
}

/// Every option among the summon options names one of the instances and one of
/// the slots.
pub proof fn lemma_summon_options(
    instances: Seq<CardInstance>,
    slots: Seq<FieldSlot>,
    upto: nat,
    j: int,
)
    requires
        upto <= instances.len(),
        0 <= j < summon_options(instances, slots, upto).len(),
    ensures
        exists|k: int, m: int|
            0 <= k < upto && 0 <= m < slots.len() && summon_options(instances, slots, upto)[j]
                == summon_option(#[trigger] instances[k], #[trigger] slots[m]),
    decreases upto,
{
    if upto > 0 {
        let before = summon_options(instances, slots, (upto - 1) as nat);
        if j < before.len() {
            lemma_summon_options(instances, slots, (upto - 1) as nat, j);
        } else {
            let m = j - before.len();
            assert(summon_options(instances, slots, upto)[j] == summon_option(
                instances[upto - 1],
                slots[m],
            ));
        }
    }
}

/// Every option offered can be taken: on a table whose sides have their fourteen
/// positions, taking an option succeeds exactly when it is among the options.
pub proof fn law_options_can_be_taken(table: BoardView, option: PlayerOption)
    requires
        table.active_field().wf(),
    ensures
        table.taken(option) is Ok <==> table.options().contains(option),
{
    let field = table.active_field();
    let options = table.options();
    if options.contains(option) {
        let j = choose|j: int| 0 <= j < options.len() && options[j] == option;
        match table.open {
            GameStateType::Open { phase: Phase::MayDraw } => {},
            GameStateType::Open { phase: Phase::MayTakeAction } => {
                let summons = summon_options(
                    field.summonable(),
                    field.empty_slots(),
                    field.summonable().len(),
                );
                if 1 <= j < 1 + summons.len() {
                    lemma_summon_options(
                        field.summonable(),
                        field.empty_slots(),
                        field.summonable().len(),
                        j - 1,
                    );
                    let (k, m) = choose|k: int, m: int|
                        0 <= k < field.summonable().len() && 0 <= m < field.empty_slots().len()
                            && summons[j - 1] == summon_option(
                            #[trigger] field.summonable()[k],
                            #[trigger] field.empty_slots()[m],
                        );
                    lemma_empty_places(field.slots, 14, m);
                    crate::state::lemma_first_index(
                        field.hand,
                        |c: Card| c.instance == field.summonable()[k],
                    );
                    assert(field.hand[k].instance == field.summonable()[k]);
                }
            },
            GameStateType::Closed => {},
        }
    }
}

/// The table: each player's side, who has priority, and whether the game is open.
#[derive(Debug)]
pub struct GameState {
    player_one: Field,
    player_two: Field,
    active: Player,
    open: GameStateType,
}

impl View for GameState {
    type V = BoardView;

    closed spec fn view(&self) -> BoardView {
        BoardView {
            player_one: self.player_one@,
            player_two: self.player_two@,
            active: self.active,
            open: self.open,
        }
    }
}

fn holds_option(options: &Vec<PlayerOption>, option: PlayerOption) -> (r: bool)
    ensures
        r == options@.contains(option),
{
    let mut i: usize = 0;
    while i < options.len()
        invariant
            i <= options@.len(),
            forall|j: int| 0 <= j < i ==> options@[j] != option,
        decreases options@.len() - i,
    {
        if options[i] == option {
            return true;
        }
        i += 1;
    }
    false
}

fn push_summon_options(
    instance: CardInstance,
    slots: &Vec<FieldSlot>,
    options: &mut Vec<PlayerOption>,
)
    ensures
        final(options)@ == old(options)@ + slots@.map_values(
            |slot: FieldSlot| summon_option(instance, slot),
        ),
{
    let ghost wanted = slots@.map_values(|slot: FieldSlot| summon_option(instance, slot));
    let mut j: usize = 0;
    assert(options@ =~= old(options)@ + wanted.take(0));
    while j < slots.len()
        invariant
            j <= slots@.len(),
            wanted == slots@.map_values(|slot: FieldSlot| summon_option(instance, slot)),
            options@ == old(options)@ + wanted.take(j as int),
        decreases slots@.len() - j,
    {
        options.push(
            PlayerOption::Action(
                Action { action_type: ActionType::Summon, instance, slot: Some(slots[j]) },
            ),
        );
        assert(options@ =~= old(options)@ + wanted.take(j + 1));
        j += 1;
    }
    assert(wanted.take(j as int) =~= wanted);
}

impl GameState {
    /// Initialise a game state with both players having drawn hands and supplied
    /// decks. Each player gives the left, center and right deck and the hand.
    pub fn start(
        player_one: (Vec<Card>, Vec<Card>, Vec<Card>, Vec<Card>),
        player_two: (Vec<Card>, Vec<Card>, Vec<Card>, Vec<Card>),
    ) -> (r: Self)
        ensures
            r@.active == Player::One,
            r@.open == (GameStateType::Open { phase: Phase::MayDraw }),
            r@.player_one.wf(),
            r@.player_two.wf(),
            r@.player_one == (FieldView {
                slots: Seq::new(14, |i: int| None::<Card>),
                left_deck: player_one.0@,
                center_deck: player_one.1@,
                right_deck: player_one.2@,
                destroyed: Seq::new(7, |i: int| Seq::<Card>::empty()),
                hand: player_one.3@,
            }),
            r@.player_two == (FieldView {
                slots: Seq::new(14, |i: int| None::<Card>),
                left_deck: player_two.0@,
                center_deck: player_two.1@,
                right_deck: player_two.2@,
                destroyed: Seq::new(7, |i: int| Seq::<Card>::empty()),
                hand: player_two.3@,
            }),
    {
        GameState {
            player_one: Field::new(player_one.0, player_one.1, player_one.2, player_one.3),
            player_two: Field::new(player_two.0, player_two.1, player_two.2, player_two.3),
            active: Player::One,
            open: GameStateType::Open { phase: Phase::MayDraw },
        }
    }

    /// Returns which player has priority.
    pub fn priority(&self) -> (r: Player)
        ensures
            r == self@.active,
    {
        self.active
    }

    /// Whether the game is open, and in which phase.
    pub fn open(&self) -> (r: GameStateType)
        ensures
            r == self@.open,
    {
        self.open
    }

    /// The side of the player who has priority.
    pub fn priority_player(&self) -> (r: &Field)
        ensures
            r@ == self@.active_field(),
    {
        match self.priority() {
            Player::One => &self.player_one,
            Player::Two => &self.player_two,
        }
    }

    /// The side of the given player.
    pub fn player(&self, player: Player) -> (r: &Field)
        ensures
            r@ == (match player {
                Player::One => self@.player_one,
                Player::Two => self@.player_two,
            }),
    {
        match player {
            Player::One => &self.player_one,
            Player::Two => &self.player_two,
        }
    }

    fn priority_player_mut(&mut self) -> (r: &mut Field)
        ensures
            *r == old(self).priority_field(),
            final(self)@ == old(self)@.with_active_field(final(r)@),
    {
        match self.priority() {
            Player::One => &mut self.player_one,
            Player::Two => &mut self.player_two,
        }
    }

    closed spec fn priority_field(&self) -> Field {
        match self.active {
            Player::One => self.player_one,
            Player::Two => self.player_two,
        }
    }

    /// What the player who has priority may do.
    pub fn priority_player_options(&self) -> (r: Vec<PlayerOption>)
        ensures
            r@ == self@.options(),
    {
        let field = self.priority_player();
        match self.open {
            GameStateType::Open { phase: Phase::MayDraw } => {
                let mut options: Vec<PlayerOption> = Vec::new();
                options.push(PlayerOption::SkipDraw);
                if field.has_cards_to_draw() {
                    if field.has_cards_to_draw_left() {
                        options.push(PlayerOption::Draw(FaceDownDeck::Left));
                    }
                    if field.has_cards_to_draw_right() {
                        options.push(PlayerOption::Draw(FaceDownDeck::Right));
                    }
                }
                assert(options@ =~= self@.options());
                options
            },
            GameStateType::Open { phase: Phase::MayTakeAction } => {
                let mut options: Vec<PlayerOption> = Vec::new();
                options.push(PlayerOption::SkipAction);
                let cards = field.cards_to_summon();
                let slots = field.empty_slots();
                let ghost first = options@;
                let mut k: usize = 0;
                assert(options@ =~= first + summon_options(cards@, slots@, 0));
                while k < cards.len()
                    invariant
                        k <= cards@.len(),
                        options@ == first + summon_options(cards@, slots@, k as nat),
                    decreases cards@.len() - k,
                {
                    push_summon_options(cards[k], &slots, &mut options);
                    assert(options@ =~= first + summon_options(cards@, slots@, (k + 1) as nat));
                    k += 1;
                }
                let attackers = field.cards_to_attack();
                let ghost with_summons = options@;
                let ghost attacks = attackers@.map_values(|i: CardInstance| attack_option(i));
                let mut k: usize = 0;
                assert(options@ =~= with_summons + attacks.take(0));
                while k < attackers.len()
                    invariant
                        k <= attackers@.len(),
                        attacks == attackers@.map_values(|i: CardInstance| attack_option(i)),
                        options@ == with_summons + attacks.take(k as int),
                    decreases attackers@.len() - k,
                {
                    options.push(
                        PlayerOption::Action(
                            Action {
                                action_type: ActionType::Attack,
                                instance: attackers[k],
                                slot: None,
                            },
                        ),
                    );
                    assert(options@ =~= with_summons + attacks.take(k + 1));
                    k += 1;
                }
                assert(attacks.take(k as int) =~= attacks);
                options
            },
            GameStateType::Closed => {
                let options: Vec<PlayerOption> = Vec::new();
                assert(options@ =~= self@.options());
                options
            },
        }
    }

    /// Takes one of the options of the player who has priority. An option that is
    /// not among them is an error, and leaves the table as it is.
    pub fn priorty_player_take_option(&mut self, option: PlayerOption) -> (r: Result<
        (),
        InvalidAction,
    >)
        ensures
            match old(self)@.taken(option) {
                Ok(next) => r is Ok && final(self)@ == next,
                Err(_) => r is Err && final(self)@ == old(self)@,
            },
            r is Ok <==> old(self)@.options().contains(option),
    {
        proof {
            assert(self.player_one@.wf());
            assert(self.player_two@.wf());
            law_options_can_be_taken(self@, option);
        }
        let options = self.priority_player_options();
        if !holds_option(&options, option) {
            return Err(InvalidAction);
        }
        match option {
            PlayerOption::SkipDraw => {
                self.open = GameStateType::Open { phase: Phase::MayTakeAction };
            },
            PlayerOption::Draw(deck) => {
                let player = self.priority_player_mut();
                // move the card from deck to hand
                match deck {
                    FaceDownDeck::Left => {
                        match player.left_deck.pop() {
                            Some(card) => {
                                player.hand.push(card);
                            },
                            None => {
                                return Err(InvalidAction);
                            },
                        }
                    },
                    FaceDownDeck::Right => {
                        match player.right_deck.pop() {
                            Some(card) => {
                                player.hand.push(card);
                            },
                            None => {
                                return Err(InvalidAction);
                            },
                        }
                    },
                }
                self.open = GameStateType::Open { phase: Phase::MayTakeAction };
            },
            PlayerOption::SkipAction => {
                // immediately passes priority
                self.active = self.active.next();
                self.open = GameStateType::Open { phase: Phase::MayDraw };
            },
            PlayerOption::Action(action) => {
                let player = self.priority_player_mut();
                match action.action_type {
                    ActionType::Summon => {
                        let slot = match action.slot {
                            Some(slot) => slot,
                            None => {
                                return Err(InvalidAction);
                            },
                        };
                        let card_index = match find_card(&player.hand, action.instance) {
                            Some(k) => k,
                            None => {
                                return Err(InvalidAction);
                            },
                        };
                        if player.slot_is_empty(slot) {
                            let card = player.hand.remove(card_index);
                            *player.index_mut(slot) = Some(card);
                        } else {
                            return Err(InvalidAction);
                        }
                    },
                    ActionType::Effect => (),
                    ActionType::Attack => (),
                }
                // the game state is now closed: the other player may only respond
                self.open = GameStateType::Closed;
            },
        }
        Ok(())
    }
}

} // verus!
