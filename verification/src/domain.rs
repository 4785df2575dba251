//! The three domain entities of the task-board hierarchy — boards, lists and
//! cards — together with their mathematical views, the shared naming
//! capability used by pattern matching, and the lazy-load state of nested
//! collections (`None` means "not yet fetched", not "empty").
use vstd::prelude::*;
use vstd::string::StringExecFns;

verus! {

/// A label attached to a card. Labels are carried verbatim through edits; the
/// text format never exposes them.
#[derive(Debug)]
pub struct Label {
    pub name: String,
    pub color: String,
}

/// Mathematical value of a `Label`.
pub struct LabelView {
    pub name: Seq<char>,
    pub color: Seq<char>,
}

impl View for Label {
    type V = LabelView;

    open spec fn view(&self) -> LabelView {
        LabelView { name: self.name@, color: self.color@ }
    }
}

impl Clone for Label {
    fn clone(&self) -> (r: Self)
        ensures
            r@ == self@,
    {
        Label { name: self.name.clone(), color: self.color.clone() }
    }
}

/// A card: the leaf entity. `id` and `labels` are identity fields owned by
/// the server; `name` and `desc` are the fields exposed for text editing.
#[derive(Debug)]
pub struct Card {
    pub id: String,
    pub name: String,
    pub desc: String,
    pub closed: bool,
    pub labels: Vec<Label>,
}

/// Mathematical value of a `Card`.
pub struct CardView {
    pub id: Seq<char>,
    pub name: Seq<char>,
    pub desc: Seq<char>,
    pub closed: bool,
    pub labels: Seq<LabelView>,
}

impl View for Card {
    type V = CardView;

    open spec fn view(&self) -> CardView {
        CardView {
            id: self.id@,
            name: self.name@,
            desc: self.desc@,
            closed: self.closed,
            labels: self.labels@.map_values(|l: Label| l@),
        }
    }
}

/// A list of cards inside a board. `cards` is `None` until a fetch populates
/// it; an empty fetched list is `Some` of an empty vector.
#[derive(Debug)]
pub struct List {
    pub id: String,
    pub name: String,
    pub closed: bool,
    pub cards: Option<Vec<Card>>,
}

/// Mathematical value of a `List`.
pub struct ListView {
    pub id: Seq<char>,
    pub name: Seq<char>,
    pub closed: bool,
    pub cards: Option<Seq<CardView>>,
}

impl View for List {
    type V = ListView;

    open spec fn view(&self) -> ListView {
        ListView {
            id: self.id@,
            name: self.name@,
            closed: self.closed,
            cards: match &self.cards {
                Option::None => Option::None,
                Option::Some(cs) => Option::Some(cs@.map_values(|c: Card| c@)),
            },
        }
    }
}

/// A board: the root entity. `lists` has the same lazy-load meaning as
/// `List::cards`.
#[derive(Debug)]
pub struct Board {
    pub id: String,
    pub name: String,
    pub closed: bool,
    pub lists: Option<Vec<List>>,
}

/// Mathematical value of a `Board`.
pub struct BoardView {
    pub id: Seq<char>,
    pub name: Seq<char>,
    pub closed: bool,
    pub lists: Option<Seq<ListView>>,
}

impl View for Board {
    type V = BoardView;

    open spec fn view(&self) -> BoardView {
        BoardView {
            id: self.id@,
            name: self.name@,
            closed: self.closed,
            lists: match &self.lists {
                Option::None => Option::None,
                Option::Some(ls) => Option::Some(ls@.map_values(|l: List| l@)),
            },
        }
    }
}

/// The naming capability shared by the three entity kinds: a name to match
/// patterns against and a human-readable label for error messages.
pub trait TrelloObject: Sized {
    spec fn name_spec(&self) -> Seq<char>;

    spec fn type_label_spec() -> Seq<char>;

    fn get_name(&self) -> (r: &str)
        ensures
            r@ == self.name_spec(),
    ;

    fn get_type() -> (r: String)
        ensures
            r@ == Self::type_label_spec(),
    ;
}

impl TrelloObject for Board {
    open spec fn name_spec(&self) -> Seq<char> {
        self.name@
    }

    open spec fn type_label_spec() -> Seq<char> {
        "Board"@
    }

    fn get_name(&self) -> (r: &str) {
        self.name.as_str()
    }

    fn get_type() -> (r: String) {
        String::from_str("Board")
    }
}

impl TrelloObject for List {
    open spec fn name_spec(&self) -> Seq<char> {
        self.name@
    }

    open spec fn type_label_spec() -> Seq<char> {
        "List"@
    }

    fn get_name(&self) -> (r: &str) {
        self.name.as_str()
    }

    fn get_type() -> (r: String) {
        String::from_str("List")
    }
}

impl TrelloObject for Card {
    open spec fn name_spec(&self) -> Seq<char> {
        self.name@
    }

    open spec fn type_label_spec() -> Seq<char> {
        "Card"@
    }

    fn get_name(&self) -> (r: &str) {
        self.name.as_str()
    }

    fn get_type() -> (r: String) {
        String::from_str("Card")
    }
}

pub(crate) fn clone_labels(labels: &Vec<Label>) -> (r: Vec<Label>)
    ensures
        r@.map_values(|l: Label| l@) == labels@.map_values(|l: Label| l@),
{
    let mut out: Vec<Label> = Vec::new();
    let mut i: usize = 0;
    while i < labels.len()
        invariant
            i <= labels@.len(),
            out@.len() == i,
            forall|k: int| 0 <= k < i ==> out@[k]@ == labels@[k]@,
        decreases labels@.len() - i,
    {
        out.push(labels[i].clone());
        i = i + 1;
    }
    proof {
        assert(out@.map_values(|l: Label| l@) =~= labels@.map_values(|l: Label| l@));
    }
    out
}

impl Clone for Card {
    fn clone(&self) -> (r: Self)
        ensures
            r@ == self@,
    {
        Card {
            id: self.id.clone(),
            name: self.name.clone(),
            desc: self.desc.clone(),
            closed: self.closed,
            labels: clone_labels(&self.labels),
        }
    }
}

fn clone_cards(cards: &Vec<Card>) -> (r: Vec<Card>)
    ensures
        r@.map_values(|c: Card| c@) == cards@.map_values(|c: Card| c@),
{
    let mut out: Vec<Card> = Vec::new();
    let mut i: usize = 0;
    while i < cards.len()
        invariant
            i <= cards@.len(),
            out@.len() == i,
            forall|k: int| 0 <= k < i ==> out@[k]@ == cards@[k]@,
        decreases cards@.len() - i,
    {
        out.push(cards[i].clone());
        i = i + 1;
    }
    proof {
        assert(out@.map_values(|c: Card| c@) =~= cards@.map_values(|c: Card| c@));
    }
    out
}

impl Clone for List {
    fn clone(&self) -> (r: Self)
        ensures
            r@ == self@,
    {
        List {
            id: self.id.clone(),
            name: self.name.clone(),
            closed: self.closed,
            cards: match &self.cards {
                Option::None => Option::None,
                Option::Some(cs) => Option::Some(clone_cards(cs)),
            },
        }
    }
}

fn clone_lists(lists: &Vec<List>) -> (r: Vec<List>)
    ensures
        r@.map_values(|l: List| l@) == lists@.map_values(|l: List| l@),
{
    let mut out: Vec<List> = Vec::new();
    let mut i: usize = 0;
    while i < lists.len()
        invariant
            i <= lists@.len(),
            out@.len() == i,
            forall|k: int| 0 <= k < i ==> out@[k]@ == lists@[k]@,
        decreases lists@.len() - i,
    {
        out.push(lists[i].clone());
        i = i + 1;
    }
    proof {
        assert(out@.map_values(|l: List| l@) =~= lists@.map_values(|l: List| l@));
    }
    out
}

impl Clone for Board {
    fn clone(&self) -> (r: Self)
        ensures
            r@ == self@,
    {
        Board {
            id: self.id.clone(),
            name: self.name.clone(),
            closed: self.closed,
            lists: match &self.lists {
                Option::None => Option::None,
                Option::Some(ls) => Option::Some(clone_lists(ls)),
            },
        }
    }
}

impl List {
    /// The cards of this list have been fetched.
    pub open spec fn cards_loaded(&self) -> bool {
        self.cards is Some
    }
}

impl Board {
    /// The lists of this board have been fetched.
    pub open spec fn lists_loaded(&self) -> bool {
        self.lists is Some
    }

    /// The state after a full nested retrieval: lists fetched, and the cards
    /// of every list fetched.
    pub open spec fn fully_loaded(&self) -> bool {
        &&& self.lists is Some
        &&& forall|i: int|
            0 <= i < self.lists->0@.len() ==> (#[trigger] self.lists->0@[i]).cards_loaded()
    }
}

} // verus!
