//! Study sessions: the settings chosen before a session, and the queue of
//! cards that a session goes through, in an order shuffled once.

use vstd::prelude::*;
use rand::seq::SliceRandom;
use crate::data::{Flashcard, FlashcardSet, UserData};

verus! {

/// The shortest study time that can be chosen, in minutes.
pub const MIN_MINUTES: u8 = 5;

/// The longest study time that can be chosen, in minutes.
pub const MAX_MINUTES: u8 = 120;

/// Study times are chosen in steps of this many minutes.
pub const MINUTES_STEP: u8 = 5;

/// The study time before any is chosen, in minutes.
pub const DEFAULT_MINUTES: u8 = 20;

/// Whether `minutes` is a study time that can be chosen.
pub open spec fn valid_minutes(minutes: u8) -> bool {
    MIN_MINUTES <= minutes <= MAX_MINUTES && minutes % MINUTES_STEP == 0
}

/// Why a session cannot start or cannot show a card.
#[derive(Clone, Copy, Debug, PartialEq, Eq, Structural)]
pub enum StudyError {
    /// No set has the chosen name.
    UnknownSet,
    /// The chosen set has no cards.
    EmptySet,
    /// The queue has been gone through.
    Finished,
    /// The card that is next in the queue is no longer in the set.
    InvalidId,
}

/// The identifiers of the cards that a session still has to show, the next
/// one first.
#[derive(Debug)]
pub struct StudyQueue {
    ids: Vec<u64>,
}

impl View for StudyQueue {
    type V = Seq<u64>;

    closed spec fn view(&self) -> Seq<u64> {
        self.ids@
    }
}

impl Clone for StudyQueue {
    fn clone(&self) -> (copy: Self)
        ensures
            copy@ == self@,
    {
        Self { ids: self.ids.clone() }
    }
}

/// `rand::seq::SliceRandom::shuffle` on the identifiers, with the generator
/// that `rand::thread_rng` gives. The shuffle only swaps elements of the
/// slice, so what comes out holds the identifiers that went in, each as often
/// as before; in which order depends on the generator, and nothing is
/// claimed of it.
#[verifier::external_body]
fn shuffle(ids: &mut Vec<u64>)
    ensures
        final(ids)@.to_multiset() == old(ids)@.to_multiset(),
{
    ids.shuffle(&mut rand::thread_rng());
}

/// A sequence that holds the elements of another, each as often, is as long
/// as the other and holds the same elements; where the other is free of
/// duplicates, so is the sequence.
pub proof fn lemma_reordered(ids: Seq<u64>, queue: Seq<u64>)
    requires
        queue.to_multiset() == ids.to_multiset(),
    ensures
        queue.len() == ids.len(),
        forall|id: u64| queue.contains(id) <==> ids.contains(id),
        ids.no_duplicates() ==> queue.no_duplicates(),
{
    vstd::seq_lib::to_multiset_len(ids);
    vstd::seq_lib::to_multiset_len(queue);
    assert forall|id: u64| queue.contains(id) <==> ids.contains(id) by {
        vstd::seq_lib::to_multiset_contains(ids, id);
        vstd::seq_lib::to_multiset_contains(queue, id);
    }
    if ids.no_duplicates() {
        ids.lemma_multiset_has_no_duplicates();
        queue.lemma_multiset_has_no_duplicates_conv();
    }
}

impl StudyQueue {
    /// A queue that goes through `ids` in the order given.
    pub fn from_ids(ids: Vec<u64>) -> (queue: Self)
        ensures
            queue@ == ids@,
    {
        Self { ids }
    }

    /// A queue of the cards of `set` in a shuffled order: it holds the
    /// identifiers of the set's cards, each as often as the set does, which
    /// in a well-formed set is once.
    pub fn shuffled(set: &FlashcardSet) -> (queue: Self)
        ensures
            queue@.to_multiset() == set@.ids().to_multiset(),
            queue@.len() == set@.cards.len(),
            forall|id: u64| queue@.contains(id) <==> set@.holds(id),
            set@.wf() ==> queue@.no_duplicates(),
    {
        let mut ids = set.ids();
        shuffle(&mut ids);
        proof {
            lemma_reordered(set@.ids(), ids@);
        }
        Self { ids }
    }

    /// The identifiers that are left, the next one first.
    pub fn ids(&self) -> (ids: &Vec<u64>)
        ensures
            ids@ == self@,
    {
        &self.ids
    }

    /// How many cards are left.
    pub fn len(&self) -> (n: usize)
        ensures
            n == self@.len(),
    {
        self.ids.len()
    }

    /// Whether the queue has been gone through.
    pub fn is_finished(&self) -> (r: bool)
        ensures
            r == (self@.len() == 0),
    {
        self.ids.len() == 0
    }

    /// The card that is next: the one that `set` holds under the identifier
    /// at the front of the queue.
    pub fn current<'a>(&self, set: &'a FlashcardSet) -> (r: Result<&'a Flashcard, StudyError>)
        ensures
            match r {
                Ok(card) => self@.len() > 0 && set@.card(self@[0]) == Some(card@),
                Err(StudyError::Finished) => self@.len() == 0,
                Err(StudyError::InvalidId) => self@.len() > 0 && !set@.holds(self@[0]),
                Err(_) => false,
            },
    {
        if self.ids.len() == 0 {
            return Err(StudyError::Finished);
        }
        match set.get(self.ids[0]) {
            Some(card) => Ok(card),
            None => Err(StudyError::InvalidId),
        }
    }

    /// Takes the identifier at the front off the queue and returns it; a
    /// queue that has been gone through stays as it is. In a queue without
    /// duplicates the identifier does not come up again.
    pub fn advance(&mut self) -> (shown: Option<u64>)
        ensures
            match shown {
                Some(id) => old(self)@.len() > 0 && id == old(self)@[0] && final(self)@ == old(
                    self,
                )@.drop_first(),
                None => old(self)@.len() == 0 && final(self)@ == old(self)@,
            },
            old(self)@.no_duplicates() ==> final(self)@.no_duplicates(),
            old(self)@.no_duplicates() ==> (shown matches Some(id) ==> !final(self)@.contains(id)),
    {
        if self.ids.len() == 0 {
            return None;
        }
        let id = self.ids.remove(0);
        Some(id)
    }
}

/// Mathematical model of a [`StudyConfig`].
pub struct StudyConfigView {
    pub minutes: u8,
    pub set: Seq<char>,
}

/// What is chosen before a session starts: how long to study, and which set.
#[derive(Debug)]
pub struct StudyConfig {
    minutes: u8,
    set: String,
}

impl View for StudyConfig {
    type V = StudyConfigView;

    closed spec fn view(&self) -> StudyConfigView {
        StudyConfigView { minutes: self.minutes, set: self.set@ }
    }
}

impl Clone for StudyConfig {
    fn clone(&self) -> (copy: Self)
        ensures
            copy@ == self@,
    {
        proof {
            use_type_invariant(self);
        }
        Self { minutes: self.minutes, set: self.set.clone() }
    }
}

impl StudyConfig {
    #[verifier::type_invariant]
    spec fn minutes_can_be_chosen(self) -> bool {
        valid_minutes(self.minutes)
    }

    /// Settings for the set called `set`, with the default study time.
    pub fn new(set: String) -> (config: Self)
        ensures
            config@ == (StudyConfigView { minutes: DEFAULT_MINUTES, set: set@ }),
    {
        Self { minutes: DEFAULT_MINUTES, set }
    }

    /// Settings for the first of the user's sets, with the default study
    /// time; none where the user has no set.
    pub fn initial(data: &UserData) -> (config: Option<Self>)
        ensures
            match config {
                Some(config) => data@.sets.len() > 0 && config@ == (StudyConfigView {
                    minutes: DEFAULT_MINUTES,
                    set: data@.sets[0].name,
                }),
                None => data@.sets.len() == 0,
            },
    {
        if data.sets.len() == 0 {
            return None;
        }
        Some(Self::new(data.sets[0].name().clone()))
    }

    /// The chosen study time in minutes, which is one that can be chosen.
    pub fn minutes(&self) -> (minutes: u8)
        ensures
            minutes == self@.minutes,
            valid_minutes(minutes),
    {
        proof {
            use_type_invariant(self);
        }
        self.minutes
    }

    /// The name of the chosen set.
    pub fn set(&self) -> (name: &String)
        ensures
            name@ == self@.set,
    {
        &self.set
    }

    /// Chooses a study time of `minutes`, if that is one that can be
    /// chosen; otherwise the settings stay as they are.
    pub fn set_minutes(&mut self, minutes: u8) -> (accepted: bool)
        ensures
            accepted == valid_minutes(minutes),
            final(self)@ == if accepted {
                StudyConfigView { minutes, set: old(self)@.set }
            } else {
                old(self)@
            },
    {
        proof {
            use_type_invariant(&*self);
        }
        if MIN_MINUTES <= minutes && minutes <= MAX_MINUTES && minutes % MINUTES_STEP == 0 {
            self.minutes = minutes;
            true
        } else {
            false
        }
    }

    /// Chooses the set called `set`.
    pub fn choose_set(&mut self, set: String)
        ensures
            final(self)@ == (StudyConfigView { minutes: old(self)@.minutes, set: set@ }),
    {
        proof {
            use_type_invariant(&*self);
        }
        self.set = set;
    }

    /// Starts a session on the chosen set: a queue of the set's cards in a
    /// shuffled order.
    pub fn start(&self, data: &UserData) -> (r: Result<StudyQueue, StudyError>)
        ensures
            match r {
                Ok(queue) => data@.set_named(self@.set) matches Some(set) && set.cards.len() > 0
                    && queue@.to_multiset() == set.ids().to_multiset() && queue@.len()
                    == set.cards.len() && (set.wf() ==> queue@.no_duplicates()),
                Err(StudyError::UnknownSet) => !data@.has_set_named(self@.set) && data@.set_named(
                    self@.set,
                ) is None,
                Err(StudyError::EmptySet) => data@.set_named(self@.set) matches Some(set)
                    && set.cards.len() == 0,
                Err(_) => false,
            },
    {
        match data.set_named(self.set.as_str()) {
            None => {
                proof {
                    data@.lemma_set_named(self@.set);
                }
                Err(StudyError::UnknownSet)
            },
            Some(set) => {
                let queue = StudyQueue::shuffled(set);
                if queue.is_finished() {
                    Err(StudyError::EmptySet)
                } else {
                    Ok(queue)
                }
            },
        }
    }
}

} // verus!
