//! Core data structures of the user's flashcard collection.
//!
//! Every type has a mathematical model, its view, and the contracts are
//! stated over the views. A [`FlashcardSet`] hands out the identifiers of its
//! cards from a counter; [`FlashcardSetView::wf`] is the invariant that keeps
//! them apart.

use vstd::prelude::*;

verus! {

/// Rich text: text entered by the user, with a colour.
#[derive(Debug)]
pub struct RichText {
    pub text: String,
    pub color: String,
}

/// Mathematical model of a [`RichText`].
pub struct RichTextView {
    pub text: Seq<char>,
    pub color: Seq<char>,
}

impl View for RichText {
    type V = RichTextView;

    open spec fn view(&self) -> RichTextView {
        RichTextView { text: self.text@, color: self.color@ }
    }
}

/// The colour of plain text: black.
pub open spec fn plain_color() -> Seq<char> {
    "#000000"@
}

/// Model of the plain, black text that reads `text`.
pub open spec fn plain(text: Seq<char>) -> RichTextView {
    RichTextView { text, color: plain_color() }
}

impl RichText {
    /// An empty black text.
    pub fn empty() -> (r: Self)
        ensures
            r@ == plain(Seq::empty()),
    {
        Self::plaintext(String::new())
    }

    /// Plain, black text.
    pub fn plaintext(text: String) -> (r: Self)
        ensures
            r@ == plain(text@),
    {
        Self { text, color: "#000000".to_owned() }
    }
}

impl Clone for RichText {
    fn clone(&self) -> (copy: Self)
        ensures
            copy@ == self@,
    {
        Self { text: self.text.clone(), color: self.color.clone() }
    }
}

impl PartialEq for RichText {
    /// Two texts are equal when they read the same in the same colour.
    fn eq(&self, other: &Self) -> (r: bool) {
        self.text == other.text && self.color == other.color
    }
}

impl Eq for RichText {

}

impl vstd::std_specs::cmp::PartialEqSpecImpl for RichText {
    open spec fn obeys_eq_spec() -> bool {
        true
    }

    open spec fn eq_spec(&self, other: &Self) -> bool {
        self@ == other@
    }
}

/// A side of a flashcard.
#[derive(Clone, Copy, Debug, PartialEq, Eq, Structural)]
pub enum CardSide {
    Front,
    Back,
}

/// A flashcard, with [`RichText`] on the front and on the back.
#[derive(Debug)]
pub struct Flashcard {
    /// Text on the front of the flashcard.
    pub front: RichText,
    /// Text on the back of the flashcard.
    pub back: RichText,
    /// Identifier of the card within the set that owns it.
    id: u64,
}

/// Mathematical model of a [`Flashcard`].
pub struct FlashcardView {
    pub front: RichTextView,
    pub back: RichTextView,
    pub id: u64,
}

impl FlashcardView {
    /// The text on the given side.
    pub open spec fn side(self, side: CardSide) -> RichTextView {
        match side {
            CardSide::Front => self.front,
            CardSide::Back => self.back,
        }
    }

    /// This card with `text` written on the given side, in the colour that
    /// the side had.
    pub open spec fn with_text(self, side: CardSide, text: Seq<char>) -> FlashcardView {
        match side {
            CardSide::Front => FlashcardView {
                front: RichTextView { text, color: self.front.color },
                ..self
            },
            CardSide::Back => FlashcardView {
                back: RichTextView { text, color: self.back.color },
                ..self
            },
        }
    }
}

impl View for Flashcard {
    type V = FlashcardView;

    closed spec fn view(&self) -> FlashcardView {
        FlashcardView { front: self.front@, back: self.back@, id: self.id }
    }
}

impl Flashcard {
    /// A card put together from its parts, as when stored data are read
    /// back. Within a set, cards get their identifiers from
    /// [`FlashcardSet::add`].
    pub fn from_parts(front: RichText, back: RichText, id: u64) -> (card: Self)
        ensures
            card@ == (FlashcardView { front: front@, back: back@, id }),
    {
        Self { front, back, id }
    }

    /// The card's identifier.
    pub fn id(&self) -> (r: u64)
        ensures
            r == self@.id,
    {
        self.id
    }

    /// The text on the given side of the card.
    pub fn side(&self, side: CardSide) -> (text: &RichText)
        ensures
            text@ == self@.side(side),
    {
        match side {
            CardSide::Front => &self.front,
            CardSide::Back => &self.back,
        }
    }
}

impl Clone for Flashcard {
    fn clone(&self) -> (copy: Self)
        ensures
            copy@ == self@,
    {
        Self { front: self.front.clone(), back: self.back.clone(), id: self.id }
    }
}

impl PartialEq for Flashcard {
    /// Two cards are equal when both sides and the identifier are.
    fn eq(&self, other: &Self) -> (r: bool) {
        self.front == other.front && self.back == other.back && self.id == other.id
    }
}

impl Eq for Flashcard {

}

impl vstd::std_specs::cmp::PartialEqSpecImpl for Flashcard {
    open spec fn obeys_eq_spec() -> bool {
        true
    }

    open spec fn eq_spec(&self, other: &Self) -> bool {
        self@ == other@
    }
}

/// The first occurrence of `key` in `keys` is the index that
/// `index_of_first` gives.
pub proof fn lemma_first_occurrence<K>(keys: Seq<K>, key: K, i: int)
    requires
        0 <= i < keys.len(),
        keys[i] == key,
        forall|j: int| 0 <= j < i ==> keys[j] != key,
    ensures
        keys.contains(key),
        keys.index_of_first(key) == Some(i),
{
    keys.index_of_first_ensures(key);
}

/// In a sequence without duplicates, an element is found at its own index.
pub proof fn lemma_unique_occurrence<K>(keys: Seq<K>, i: int)
    requires
        keys.no_duplicates(),
        0 <= i < keys.len(),
    ensures
        keys.index_of_first(keys[i]) == Some(i),
{
    lemma_first_occurrence(keys, keys[i], i);
}

/// A named set of flashcards. Each card gets its identifier from the set's
/// counter when it is added, and identifiers are never handed out twice.
#[derive(Debug)]
pub struct FlashcardSet {
    /// Name of this set.
    pub name: String,
    /// The flashcards of this set, in the order in which they were added.
    pub flashcards: Vec<Flashcard>,
    /// The identifier that the next card will get.
    highest_id: u64,
}

/// Mathematical model of a [`FlashcardSet`].
pub struct FlashcardSetView {
    pub name: Seq<char>,
    pub cards: Seq<FlashcardView>,
    pub highest_id: u64,
}

impl FlashcardSetView {
    /// The identifiers of the cards, in the cards' order.
    pub open spec fn ids(self) -> Seq<u64> {
        self.cards.map_values(|card: FlashcardView| card.id)
    }

    /// Every identifier lies below the counter, and no two cards share one.
    pub open spec fn wf(self) -> bool {
        &&& forall|i: int| 0 <= i < self.cards.len() ==> (#[trigger] self.cards[i]).id < self.highest_id
        &&& self.ids().no_duplicates()
    }

    /// Whether some card of the set has the identifier `id`.
    pub open spec fn holds(self, id: u64) -> bool {
        self.ids().contains(id)
    }

    /// The card with the identifier `id`: the first such card in the set's
    /// order, if there is any.
    pub open spec fn card(self, id: u64) -> Option<FlashcardView> {
        match self.ids().index_of_first(id) {
            Some(i) => Some(self.cards[i]),
            None => None,
        }
    }

    /// The set that `add` makes of this one: a card with the counter's value
    /// as its identifier is appended, and the counter goes up by one.
    pub open spec fn add(self, front: RichTextView, back: RichTextView) -> FlashcardSetView {
        FlashcardSetView {
            name: self.name,
            cards: self.cards.push(FlashcardView { front, back, id: self.highest_id }),
            highest_id: (self.highest_id + 1) as u64,
        }
    }

    /// The set after one `add` for each pair of front and back in `texts`,
    /// in their order.
    pub open spec fn add_all(self, texts: Seq<(RichTextView, RichTextView)>) -> FlashcardSetView
        decreases texts.len(),
    {
        if texts.len() == 0 {
            self
        } else {
            self.add_all(texts.drop_last()).add(texts.last().0, texts.last().1)
        }
    }

    /// This set with `card` in the place of the first card that has the
    /// identifier `id`; the set itself where it holds no such card.
    pub open spec fn with_card(self, id: u64, card: FlashcardView) -> FlashcardSetView {
        match self.ids().index_of_first(id) {
            Some(i) => FlashcardSetView { cards: self.cards.update(i, card), ..self },
            None => self,
        }
    }

    /// A set holds the identifiers for which `card` gives a card, and in a
    /// well-formed set each card is the one that `card` gives for its
    /// identifier.
    pub proof fn lemma_card(self, id: u64)
        ensures
            self.card(id) is Some <==> self.holds(id),
            self.card(id) matches Some(card) ==> card.id == id && self.cards.contains(card),
            self.wf() ==> forall|i: int|
                0 <= i < self.cards.len() && (#[trigger] self.cards[i]).id == id ==> self.card(id)
                    == Some(self.cards[i]),
    {
        self.ids().index_of_first_ensures(id);
        if self.wf() {
            assert forall|i: int|
                0 <= i < self.cards.len() && (#[trigger] self.cards[i]).id == id implies self.card(
                id,
            ) == Some(self.cards[i]) by {
                lemma_unique_occurrence(self.ids(), i);
            }
        }
    }

    /// In a well-formed set the card at index `i` is the one that its
    /// identifier stands for: `card` gives it, and `with_card` replaces it.
    pub proof fn lemma_card_at(self, i: int)
        requires
            self.wf(),
            0 <= i < self.cards.len(),
        ensures
            self.holds(self.cards[i].id),
            self.card(self.cards[i].id) == Some(self.cards[i]),
            forall|card: FlashcardView| #[trigger]
                self.with_card(self.cards[i].id, card) == (FlashcardSetView {
                    cards: self.cards.update(i, card),
                    ..self
                }),
    {
        lemma_unique_occurrence(self.ids(), i);
    }

    /// Adding a card to a well-formed set leaves it well formed, as long as
    /// the counter has not run out.
    pub proof fn lemma_add_keeps_wf(self, front: RichTextView, back: RichTextView)
        requires
            self.wf(),
            self.highest_id < u64::MAX,
        ensures
            self.add(front, back).wf(),
    {
        let after = self.add(front, back);
        assert forall|i: int, j: int|
            0 <= i < after.ids().len() && 0 <= j < after.ids().len() && i != j implies after.ids()[i]
            != after.ids()[j] by {
            if i < self.cards.len() {
                assert(self.ids()[i] == self.cards[i].id);
            }
            if j < self.cards.len() {
                assert(self.ids()[j] == self.cards[j].id);
            }
        }
    }

    /// A run of calls of `add` appends one card for each call, in the order
    /// of the calls, and leaves the cards that were there as they were. The
    /// new cards take the identifiers from the counter's value upwards: they
    /// rise strictly in the order of the calls, so no two of them are equal,
    /// and a well-formed set stays well formed.
    pub proof fn lemma_add_all(self, texts: Seq<(RichTextView, RichTextView)>)
        requires
            self.highest_id + texts.len() <= u64::MAX,
        ensures
            self.add_all(texts).name == self.name,
            self.add_all(texts).highest_id == self.highest_id + texts.len(),
            self.add_all(texts).cards.len() == self.cards.len() + texts.len(),
            forall|k: int|
                0 <= k < self.cards.len() ==> (#[trigger] self.add_all(texts).cards[k])
                    == self.cards[k],
            forall|k: int|
                0 <= k < texts.len() ==> (#[trigger] self.add_all(texts).cards[self.cards.len() + k])
                    == (FlashcardView {
                    front: texts[k].0,
                    back: texts[k].1,
                    id: (self.highest_id + k) as u64,
                }),
            forall|j: int, k: int|
                0 <= j < k < texts.len() ==> (#[trigger] self.add_all(texts).cards[self.cards.len()
                    + j]).id < (#[trigger] self.add_all(texts).cards[self.cards.len() + k]).id,
            forall|j: int, k: int|
                0 <= j < texts.len() && 0 <= k < texts.len() && j != k ==> (
                #[trigger] self.add_all(texts).cards[self.cards.len() + j]).id != (
                #[trigger] self.add_all(texts).cards[self.cards.len() + k]).id,
            self.wf() ==> self.add_all(texts).wf(),
        decreases texts.len(),
    {
        if texts.len() > 0 {
            let before = self.add_all(texts.drop_last());
            self.lemma_add_all(texts.drop_last());
            if self.wf() {
                before.lemma_add_keeps_wf(texts.last().0, texts.last().1);
            }
            let after = self.add_all(texts);
            assert forall|k: int| 0 <= k < texts.len() implies (#[trigger] after.cards[self.cards.len()
                + k]) == (FlashcardView {
                front: texts[k].0,
                back: texts[k].1,
                id: (self.highest_id + k) as u64,
            }) by {}
        }
    }

    /// An identifier that the counter has not reached yet belongs to no card
    /// of a well-formed set.
    pub proof fn lemma_unassigned_id(self, id: u64)
        requires
            self.wf(),
            id >= self.highest_id,
        ensures
            !self.holds(id),
            self.card(id) is None,
    {
        self.ids().index_of_first_ensures(id);
    }

    /// Replacing a card by one with the same identifier leaves a well-formed
    /// set well formed.
    pub proof fn lemma_with_card_keeps_wf(self, id: u64, card: FlashcardView)
        requires
            self.wf(),
            card.id == id,
        ensures
            self.with_card(id, card).wf(),
    {
        self.ids().index_of_first_ensures(id);
        let after = self.with_card(id, card);
        assert(after.ids() =~= self.ids());
    }
}

impl View for FlashcardSet {
    type V = FlashcardSetView;

    closed spec fn view(&self) -> FlashcardSetView {
        FlashcardSetView {
            name: self.name@,
            cards: card_views(self.flashcards@),
            highest_id: self.highest_id,
        }
    }
}

impl Clone for FlashcardSet {
    fn clone(&self) -> (copy: Self)
        ensures
            copy@ == self@,
    {
        let mut flashcards: Vec<Flashcard> = Vec::new();
        let mut i: usize = 0;
        while i < self.flashcards.len()
            invariant
                i <= self.flashcards.len(),
                flashcards@.len() == i,
                forall|k: int| 0 <= k < i ==> (#[trigger] flashcards@[k])@ == self@.cards[k],
            decreases self.flashcards.len() - i,
        {
            let card = self.flashcards[i].clone();
            flashcards.push(card);
            i += 1;
        }
        assert(card_views(flashcards@) =~= self@.cards);
        Self { name: self.name.clone(), flashcards, highest_id: self.highest_id }
    }
}

/// The models of the cards of a sequence, in its order.
spec fn card_views(cards: Seq<Flashcard>) -> Seq<FlashcardView> {
    cards.map_values(|card: Flashcard| card@)
}

impl FlashcardSet {
    /// Creates a new, empty flashcard set.
    pub fn new(name: String) -> (set: Self)
        ensures
            set@ == (FlashcardSetView { name: name@, cards: Seq::empty(), highest_id: 0 }),
            set@.wf(),
    {
        let set = Self { name, flashcards: Vec::new(), highest_id: 0 };
        assert(set@.cards =~= Seq::empty());
        set
    }

    /// A set put together from its parts, as when stored data are read
    /// back. Nothing is asked of the parts: whether the set is well formed
    /// is for the caller to know.
    pub fn from_parts(name: String, flashcards: Vec<Flashcard>, highest_id: u64) -> (set: Self)
        ensures
            set@ == (FlashcardSetView {
                name: name@,
                cards: flashcards@.map_values(|card: Flashcard| card@),
                highest_id,
            }),
    {
        Self { name, flashcards, highest_id }
    }

    /// The name of this set.
    pub fn name(&self) -> (name: &String)
        ensures
            name@ == self@.name,
    {
        &self.name
    }

    /// The counter: the identifier that the next card will get.
    pub fn highest_id(&self) -> (r: u64)
        ensures
            r == self@.highest_id,
    {
        self.highest_id
    }

    /// Adds a flashcard with the given front and back to this set and
    /// returns it. The card's identifier is the counter's value before the
    /// call.
    pub fn add(&mut self, front: RichText, back: RichText) -> (card: &Flashcard)
        requires
            old(self)@.highest_id < u64::MAX,
        ensures
            final(self)@ == old(self)@.add(front@, back@),
            card@ == (FlashcardView { front: front@, back: back@, id: old(self)@.highest_id }),
            old(self)@.wf() ==> final(self)@.wf(),
    {
        let card = Flashcard { front, back, id: self.highest_id };
        self.flashcards.push(card);
        self.highest_id += 1;
        proof {
            assert(self@.cards =~= old(self)@.add(front@, back@).cards);
            if old(self)@.wf() {
                old(self)@.lemma_add_keeps_wf(front@, back@);
            }
        }
        let n = self.flashcards.len();
        &self.flashcards[n - 1]
    }

    /// The identifiers of the cards, in the cards' order.
    pub fn ids(&self) -> (ids: Vec<u64>)
        ensures
            ids@ == self@.ids(),
    {
        let mut ids: Vec<u64> = Vec::new();
        let mut i: usize = 0;
        while i < self.flashcards.len()
            invariant
                i <= self.flashcards.len(),
                ids@ == self@.ids().take(i as int),
            decreases self.flashcards.len() - i,
        {
            ids.push(self.flashcards[i].id);
            i += 1;
        }
        ids
    }

    /// Linear scan for the first card with the identifier `id`.
    fn find(&self, id: u64) -> (r: Option<usize>)
        ensures
            r is Some <==> self@.holds(id),
            r matches Some(i) ==> i < self.flashcards@.len() && self@.ids().index_of_first(id)
                == Some(i as int),
    {
        let mut i: usize = 0;
        while i < self.flashcards.len()
            invariant
                i <= self.flashcards.len(),
                forall|j: int| 0 <= j < i ==> self@.ids()[j] != id,
            decreases self.flashcards.len() - i,
        {
            if self.flashcards[i].id == id {
                proof {
                    lemma_first_occurrence(self@.ids(), id, i as int);
                }
                return Some(i);
            }
            i += 1;
        }
        None
    }

    /// Whether some card of this set has the identifier `id`.
    pub fn contains_id(&self, id: u64) -> (r: bool)
        ensures
            r == self@.holds(id),
    {
        self.find(id).is_some()
    }

    /// The card with the identifier `id`, if this set holds one: the first
    /// such card in the set's order.
    pub fn get(&self, id: u64) -> (r: Option<&Flashcard>)
        ensures
            r is Some <==> self@.holds(id),
            r matches Some(card) ==> self@.card(id) == Some(card@),
    {
        match self.find(id) {
            Some(i) => Some(&self.flashcards[i]),
            None => None,
        }
    }

    /// Mutable access to the card with the identifier `index`: the first
    /// such card in the set's order.
    pub fn index_mut(&mut self, index: u64) -> (card: &mut Flashcard)
        requires
            old(self)@.holds(index),
        ensures
            old(self)@.card(index) == Some(card@),
            final(self)@ == old(self)@.with_card(index, final(card)@),
    {
        match self.find(index) {
            Some(i) => {
                assert forall|c: Flashcard|
                    #[trigger] card_views(self.flashcards@.update(i as int, c))
                        == self@.cards.update(i as int, c@) by {
                    assert(card_views(self.flashcards@.update(i as int, c))
                        =~= self@.cards.update(i as int, c@));
                }
                &mut self.flashcards[i]
            },
            None => vstd::pervasive::unreached(),
        }
    }

    /// Writes `text` on the given side of the card with the identifier `id`;
    /// the side keeps its colour, and nothing else in the set changes.
    pub fn set_text(&mut self, id: u64, side: CardSide, text: String)
        requires
            old(self)@.holds(id),
        ensures
            final(self)@ == old(self)@.with_card(
                id,
                old(self)@.card(id).unwrap().with_text(side, text@),
            ),
            old(self)@.wf() ==> final(self)@.wf(),
    {
        proof {
            old(self)@.ids().index_of_first_ensures(id);
            if old(self)@.wf() {
                old(self)@.lemma_with_card_keeps_wf(
                    id,
                    old(self)@.card(id).unwrap().with_text(side, text@),
                );
            }
        }
        let card = self.index_mut(id);
        match side {
            CardSide::Front => {
                card.front.text = text;
            },
            CardSide::Back => {
                card.back.text = text;
            },
        }
    }
}

impl vstd::std_specs::core::IndexSpecImpl<u64> for FlashcardSet {
    /// Indexing asks for an identifier that the set holds.
    open spec fn index_req(&self, index: &u64) -> bool {
        self@.holds(*index)
    }
}

impl std::ops::Index<u64> for FlashcardSet {
    type Output = Flashcard;

    /// The card with the identifier `index`: the first such card in the
    /// set's order.
    fn index(&self, index: u64) -> (card: &Flashcard)
        ensures
            self@.card(index) == Some(card@),
    {
        match self.find(index) {
            Some(i) => &self.flashcards[i],
            None => vstd::pervasive::unreached(),
        }
    }
}

/// A span of time: whole seconds, and the nanoseconds beyond them.
#[derive(Clone, Copy, Debug, PartialEq, Eq, Structural)]
pub struct TimeSpan {
    pub secs: u64,
    pub nanos: u32,
}

impl TimeSpan {
    /// The empty span.
    pub fn zero() -> (span: Self)
        ensures
            span == (TimeSpan { secs: 0, nanos: 0 }),
    {
        TimeSpan { secs: 0, nanos: 0 }
    }
}

/// All of the user's saved data.
pub struct UserData {
    /// All of the user's flashcard sets.
    pub sets: Vec<FlashcardSet>,
    /// How long ago the previous visit was when this one began.
    pub duration_since_last_visit: TimeSpan,
    /// When the last visit took place, in seconds since the Unix epoch.
    pub last_visit: u64,
    /// The system time that was last observed, since the Unix epoch.
    pub last_sys_time: TimeSpan,
}

/// Mathematical model of a [`UserData`].
pub struct UserDataView {
    pub sets: Seq<FlashcardSetView>,
    pub duration_since_last_visit: TimeSpan,
    pub last_visit: u64,
    pub last_sys_time: TimeSpan,
}

impl UserDataView {
    /// The names of the sets, in the sets' order.
    pub open spec fn names(self) -> Seq<Seq<char>> {
        self.sets.map_values(|set: FlashcardSetView| set.name)
    }

    /// Whether some set is called `name`.
    pub open spec fn has_set_named(self, name: Seq<char>) -> bool {
        self.names().contains(name)
    }

    /// The set called `name`: the first such set in the sets' order, if
    /// there is any.
    pub open spec fn set_named(self, name: Seq<char>) -> Option<FlashcardSetView> {
        match self.names().index_of_first(name) {
            Some(i) => Some(self.sets[i]),
            None => None,
        }
    }

    /// Whether every set is well formed.
    pub open spec fn wf(self) -> bool {
        forall|i: int| 0 <= i < self.sets.len() ==> (#[trigger] self.sets[i]).wf()
    }

    /// Whether no two sets share a name.
    pub open spec fn names_unique(self) -> bool {
        self.names().no_duplicates()
    }

    /// This data with `set` appended to its sets.
    pub open spec fn with_set(self, set: FlashcardSetView) -> UserDataView {
        UserDataView { sets: self.sets.push(set), ..self }
    }

    /// `set_named` gives a set for the names that some set has, and that set
    /// has the name. Where no two sets share a name, each set is the one
    /// that `set_named` gives for its name.
    pub proof fn lemma_set_named(self, name: Seq<char>)
        ensures
            self.set_named(name) is Some <==> self.has_set_named(name),
            self.set_named(name) matches Some(set) ==> set.name == name && self.sets.contains(set),
            self.names_unique() ==> forall|i: int|
                0 <= i < self.sets.len() && (#[trigger] self.sets[i]).name == name
                    ==> self.set_named(name) == Some(self.sets[i]),
    {
        self.names().index_of_first_ensures(name);
        if self.names_unique() {
            assert forall|i: int|
                0 <= i < self.sets.len() && (#[trigger] self.sets[i]).name
                    == name implies self.set_named(name) == Some(self.sets[i]) by {
                lemma_unique_occurrence(self.names(), i);
            }
        }
    }

    /// Appending a set under a name that no set has yet keeps the names
    /// apart.
    pub proof fn lemma_with_set_keeps_names_unique(self, set: FlashcardSetView)
        requires
            self.names_unique(),
            !self.has_set_named(set.name),
        ensures
            self.with_set(set).names_unique(),
    {
        let after = self.with_set(set);
        assert(after.names() =~= self.names().push(set.name));
    }
}

impl View for UserData {
    type V = UserDataView;

    open spec fn view(&self) -> UserDataView {
        UserDataView {
            sets: self.sets@.map_values(|set: FlashcardSet| set@),
            duration_since_last_visit: self.duration_since_last_visit,
            last_visit: self.last_visit,
            last_sys_time: self.last_sys_time,
        }
    }
}

/// Model of a card of plain text.
pub open spec fn plain_card(id: u64, front: Seq<char>, back: Seq<char>) -> FlashcardView {
    FlashcardView { front: plain(front), back: plain(back), id }
}

/// Model of the data that a new user starts with: the sets "French" and
/// "German" with two cards each, and no visit on record.
pub open spec fn seed_data() -> UserDataView {
    UserDataView {
        sets: seq![
            FlashcardSetView {
                name: "French"@,
                cards: seq![
                    plain_card(0, "I live"@, "J'habite"@),
                    plain_card(1, "I am"@, "Je suis"@),
                ],
                highest_id: 2,
            },
            FlashcardSetView {
                name: "German"@,
                cards: seq![
                    plain_card(0, "To eat"@, "Essen"@),
                    plain_card(1, "Cockroach"@, "Kakerlaken"@),
                ],
                highest_id: 2,
            },
        ],
        duration_since_last_visit: TimeSpan { secs: 0, nanos: 0 },
        last_visit: 0,
        last_sys_time: TimeSpan { secs: 0, nanos: 0 },
    }
}

/// The seed data are well formed, and their sets differ in name.
pub proof fn lemma_seed_data_wf()
    ensures
        seed_data().wf(),
        seed_data().names_unique(),
{
    reveal_strlit("French");
    reveal_strlit("German");
    assert("French"@[0] != "German"@[0]);
}

impl Default for UserData {
    /// The data that a new user starts with.
    fn default() -> (data: Self)
        ensures
            data@ == seed_data(),
            data@.wf(),
            data@.names_unique(),
    {
        let mut french = FlashcardSet::new("French".to_owned());
        french.add(
            RichText::plaintext("I live".to_owned()),
            RichText::plaintext("J'habite".to_owned()),
        );
        french.add(
            RichText::plaintext("I am".to_owned()),
            RichText::plaintext("Je suis".to_owned()),
        );
        let mut german = FlashcardSet::new("German".to_owned());
        german.add(
            RichText::plaintext("To eat".to_owned()),
            RichText::plaintext("Essen".to_owned()),
        );
        german.add(
            RichText::plaintext("Cockroach".to_owned()),
            RichText::plaintext("Kakerlaken".to_owned()),
        );
        let data = Self {
            sets: vec![french, german],
            duration_since_last_visit: TimeSpan::zero(),
            last_visit: 0,
            last_sys_time: TimeSpan::zero(),
        };
        proof {
            assert(data@.sets[0].cards =~= seed_data().sets[0].cards);
            assert(data@.sets[1].cards =~= seed_data().sets[1].cards);
            assert(data@.sets =~= seed_data().sets);
            lemma_seed_data_wf();
        }
        data
    }
}

impl UserData {
    /// Linear scan for the first set called `name`.
    fn find_named(&self, name: &String) -> (r: Option<usize>)
        ensures
            r is Some <==> self@.has_set_named(name@),
            r matches Some(i) ==> i < self.sets@.len() && self@.names().index_of_first(name@)
                == Some(i as int),
    {
        let mut i: usize = 0;
        while i < self.sets.len()
            invariant
                i <= self.sets.len(),
                forall|j: int| 0 <= j < i ==> self@.names()[j] != name@,
            decreases self.sets.len() - i,
        {
            if self.sets[i].name == *name {
                proof {
                    lemma_first_occurrence(self@.names(), name@, i as int);
                }
                return Some(i);
            }
            i += 1;
        }
        None
    }

    /// Whether some set is called `name`.
    pub fn has_set_named(&self, name: &str) -> (r: bool)
        ensures
            r == self@.has_set_named(name@),
    {
        self.find_named(&name.to_owned()).is_some()
    }

    /// The set called `name`, if there is one: the first such set in the
    /// sets' order.
    pub fn set_named(&self, name: &str) -> (r: Option<&FlashcardSet>)
        ensures
            r is Some <==> self@.has_set_named(name@),
            r matches Some(set) ==> self@.set_named(name@) == Some(set@),
    {
        match self.find_named(&name.to_owned()) {
            Some(i) => Some(&self.sets[i]),
            None => None,
        }
    }

    /// Appends `set` unless a set of its name is there already; in that case
    /// the data stay as they are and `set` comes back.
    pub fn add_set(&mut self, set: FlashcardSet) -> (r: Result<(), FlashcardSet>)
        ensures
            match r {
                Ok(_) => !old(self)@.has_set_named(set@.name) && final(self)@ == old(self)@.with_set(
                    set@,
                ),
                Err(back) => old(self)@.has_set_named(set@.name) && back == set && *final(self)
                    == *old(self),
            },
            old(self)@.names_unique() ==> final(self)@.names_unique(),
            old(self)@.wf() && set@.wf() ==> final(self)@.wf(),
    {
        if self.find_named(&set.name).is_some() {
            return Err(set);
        }
        proof {
            if self@.names_unique() {
                self@.lemma_with_set_keeps_names_unique(set@);
            }
        }
        self.sets.push(set);
        assert(self@.sets =~= old(self)@.with_set(set@).sets);
        Ok(())
    }
}

/// Holds the user's data for as long as the program runs. The data are
/// changed through [`UserDataAccessor::modify`] alone, so that whoever drives
/// the accessor can write them out after each change.
pub struct UserDataAccessor {
    data: UserData,
}

impl View for UserDataAccessor {
    type V = UserDataView;

    open spec fn view(&self) -> UserDataView {
        self.data()@
    }
}

impl UserDataAccessor {
    /// The data that the accessor holds.
    pub closed spec fn data(&self) -> UserData {
        self.data
    }

    /// Wraps `data`.
    pub fn new(data: UserData) -> (accessor: Self)
        ensures
            accessor.data() == data,
    {
        Self { data }
    }

    /// The data as they stand.
    pub fn get(&self) -> (data: &UserData)
        ensures
            *data == self.data(),
    {
        &self.data
    }

    /// Applies `f` to the data. What `f` left behind are the data from then
    /// on, whatever becomes of writing them out afterwards.
    pub fn modify(&mut self, f: impl FnOnce(&mut UserData))
        requires
            forall|data: &mut UserData| *data == old(self).data() ==> call_requires(f, (data,)),
        ensures
            exists|data: &mut UserData|
                *data == old(self).data() && *final(data) == final(self).data() && call_ensures(
                    f,
                    (data,),
                    (),
                ),
    {
        f(&mut self.data);
    }
}

} // verus!
