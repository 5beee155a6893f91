use vstd::prelude::*;
use vstd::std_specs::convert::IntoSpec;
use crate::card_type::{CardType, CardTypeIdentifier};

verus! {

/// The catalog of card types. A card type's identifier is its position here.
pub struct Cards {
    cards: Vec<CardType>,
}

/// The ways to name a card type of the catalog.
pub enum Reference {
    Identifier(String),
    StaticIdentifier(&'static str),
    ID(CardTypeIdentifier),
}

/// The first position at which `name` is the name of a card type of `cards`.
pub open spec fn first_named(cards: Seq<CardType>, name: Seq<char>) -> Option<int>
    decreases cards.len(),
{
    if cards.len() == 0 {
        None
    } else {
        match first_named(cards.drop_last(), name) {
            Some(k) => Some(k),
            None => if cards.last().name@ == name {
                Some(cards.len() - 1)
            } else {
                None
            },
        }
    }
}

impl vstd::std_specs::convert::FromSpecImpl<CardTypeIdentifier> for Reference {
    open spec fn obeys_from_spec() -> bool {
        true
    }

    open spec fn from_spec(id: CardTypeIdentifier) -> Reference {
        Reference::ID(id)
    }
}

impl From<CardTypeIdentifier> for Reference {
    fn from(id: CardTypeIdentifier) -> (r: Reference) {
        Reference::ID(id)
    }
}

impl vstd::std_specs::convert::FromSpecImpl<&'static str> for Reference {
    open spec fn obeys_from_spec() -> bool {
        true
    }

    open spec fn from_spec(identifier: &'static str) -> Reference {
        Reference::StaticIdentifier(identifier)
    }
}

impl From<&'static str> for Reference {
    fn from(identifier: &'static str) -> (r: Reference) {
        Reference::StaticIdentifier(identifier)
    }
}

impl vstd::std_specs::convert::FromSpecImpl<String> for Reference {
    open spec fn obeys_from_spec() -> bool {
        true
    }

    open spec fn from_spec(identifier: String) -> Reference {
        Reference::Identifier(identifier)
    }
}

impl From<String> for Reference {
    fn from(identifier: String) -> (r: Reference) {
        Reference::Identifier(identifier)
    }
}

impl Reference {
    /// The position in `cards` that this reference names, if any: for a name, the
    /// first card type that carries it; for an identifier, the identifier itself.
    pub open spec fn resolve(self, cards: Seq<CardType>) -> Option<int> {
        match self {
            Reference::Identifier(name) => first_named(cards, name@),
            Reference::StaticIdentifier(name) => first_named(cards, name@),
            Reference::ID(id) => if id.0 < cards.len() {
                Some(id.0 as int)
            } else {
                None
            },
        }
    }
}

/// What `first_named` finds is a position of `cards` that carries `name`, and no
/// earlier position does.
pub proof fn lemma_first_named(cards: Seq<CardType>, name: Seq<char>)
    ensures
        match first_named(cards, name) {
            Some(k) => 0 <= k < cards.len() && cards[k].name@ == name && forall|j: int|
                0 <= j < k ==> (#[trigger] cards[j]).name@ != name,
            None => forall|j: int| 0 <= j < cards.len() ==> (#[trigger] cards[j]).name@ != name,
        },
    decreases cards.len(),
{
    if cards.len() > 0 {
        let front = cards.drop_last();
        lemma_first_named(front, name);
        assert(forall|j: int| 0 <= j < front.len() ==> front[j] == cards[j]);
        match first_named(front, name) {
            Some(k) => {
                assert(front[k] == cards[k]);
            },
            None => {
                assert forall|j: int| 0 <= j < cards.len() - 1 implies (#[trigger] cards[j]).name@
                    != name by {
                    assert(front[j] == cards[j]);
                }
            },
        }
    }
}

impl View for Cards {
    type V = Seq<CardType>;

    closed spec fn view(&self) -> Seq<CardType> {
        self.cards@
    }
}

impl Cards {
    /// Every card type sits at the position that its identifier names.
    pub open spec fn wf(&self) -> bool {
        forall|i: int| 0 <= i < self@.len() ==> (#[trigger] self@[i]).id.0 == i
    }

    /// Builds the catalog from definitions in order, giving each its position as
    /// identifier. `None` when there are more than `u32::MAX` definitions.
    pub fn from_definitions(definitions: Vec<CardType>) -> (r: Option<Cards>)
        ensures
            r is Some <==> definitions@.len() <= u32::MAX,
            r is Some ==> {
                let c = r->Some_0;
                &&& c.wf()
                &&& c@.len() == definitions@.len()
                &&& forall|i: int|
                    0 <= i < c@.len() ==> {
                        &&& (#[trigger] c@[i]).name == definitions@[i].name
                        &&& c@[i].effects == definitions@[i].effects
                        &&& c@[i].defense == definitions@[i].defense
                        &&& c@[i].attack == definitions@[i].attack
                    }
            },
    {
        if definitions.len() > u32::MAX as usize {
            return None;
        }
        let mut definitions = definitions;
        let ghost given = definitions@;
        let mut i: usize = 0;
        while i < definitions.len()
            invariant
                i <= definitions@.len() == given.len() <= u32::MAX,
                forall|j: int| 0 <= j < i ==> (#[trigger] definitions@[j]).id.0 == j,
                forall|j: int|
                    0 <= j < definitions@.len() ==> {
                        &&& (#[trigger] definitions@[j]).name == given[j].name
                        &&& definitions@[j].effects == given[j].effects
                        &&& definitions@[j].defense == given[j].defense
                        &&& definitions@[j].attack == given[j].attack
                    },
            decreases definitions@.len() - i,
        {
            definitions[i].id = CardTypeIdentifier(i as u32);
            i += 1;
        }
        Some(Cards { cards: definitions })
    }

    /// Looks a card type up by identifier or by exact name. Unknown references give
    /// `None`.
    pub fn lookup(&self, reference: Reference) -> (r: Option<&CardType>)
        ensures
            match reference.resolve(self@) {
                Some(k) => r == Some(&self@[k]),
                None => r is None,
            },
    {
        match reference {
            Reference::Identifier(name) => self.find_named(name.as_str()),
            Reference::StaticIdentifier(name) => self.find_named(name),
            Reference::ID(id) => {
                if (id.0 as usize) < self.cards.len() {
                    Some(&self.cards[id.0 as usize])
                } else {
                    None
                }
            },
        }
    }

    /// Looks a card type up by anything that converts into a `Reference`.
    pub fn card<R: Into<Reference>>(&self, reference: R) -> (r: Option<&CardType>)
        ensures
            R::obeys_into_spec() ==> match reference.into_spec().resolve(self@) {
                Some(k) => r == Some(&self@[k]),
                None => r is None,
            },
    {
        self.lookup(reference.into())
    }

    fn find_named(&self, name: &str) -> (r: Option<&CardType>)
        ensures
            match first_named(self@, name@) {
                Some(k) => r == Some(&self@[k]),
                None => r is None,
            },
    {
        let wanted = name.to_owned();
        let mut i: usize = self.cards.len();
        let mut found: Option<usize> = None;
        while i > 0
            invariant
                i <= self.cards@.len(),
                wanted@ == name@,
                match found {
                    Some(k) => i <= k < self.cards@.len() && self.cards@[k as int].name@ == name@ && forall|j: int|
                        i <= j < k ==> (#[trigger] self.cards@[j]).name@ != name@,
                    None => forall|j: int|
                        i <= j < self.cards@.len() ==> (#[trigger] self.cards@[j]).name@ != name@,
                },
            decreases i,
        {
            i -= 1;
            if self.cards[i].name == wanted {
                found = Some(i);
            }
        }
        proof {
            lemma_first_named(self@, name@);
        }
        match found {
            Some(k) => Some(&self.cards[k]),
            None => None,
        }
    }

    /// The card type with the given identifier, which the catalog holds.
    pub fn at(&self, id: CardTypeIdentifier) -> (r: &CardType)
        requires
            id.0 < self@.len(),
        ensures
            *r == self@[id.0 as int],
    {
        &self.cards[id.0 as usize]
    }

    /// The number of card types.
    pub fn len(&self) -> (r: usize)
        ensures
            r == self@.len(),
    {
        self.cards.len()
    }
}

} // verus!
