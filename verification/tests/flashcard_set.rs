use magistrax::data::{CardSide, Flashcard, FlashcardSet, RichText};

fn plain(text: &str) -> RichText {
    RichText::plaintext(text.to_string())
}

fn set_of(n: u64) -> FlashcardSet {
    let mut set = FlashcardSet::new("numbers".to_string());
    for i in 0..n {
        set.add(plain(&format!("front {}", i)), plain(&format!("back {}", i)));
    }
    set
}

#[test]
fn new_set_is_empty_and_named() {
    let set = FlashcardSet::new("French".to_string());
    assert_eq!(set.name, "French");
    assert_eq!(set.name(), "French");
    assert!(set.flashcards.is_empty());
    assert!(set.ids().is_empty());
    assert_eq!(set.highest_id(), 0);
}

#[test]
fn first_card_gets_id_zero() {
    let mut set = FlashcardSet::new("French".to_string());
    let card = set.add(plain("I live"), plain("J'habite"));
    assert_eq!(card.id(), 0);
    assert_eq!(card.front, plain("I live"));
    assert_eq!(card.back, plain("J'habite"));
    assert_eq!(set.flashcards.len(), 1);
}

#[test]
fn add_returns_the_card_that_it_appended() {
    let mut set = set_of(3);
    let id = set.add(plain("new"), plain("card")).id();
    assert_eq!(id, 3);
    let last = set.flashcards.last().unwrap();
    assert_eq!(last.id(), 3);
    assert_eq!(last.front.text, "new");
    assert_eq!(last.back.text, "card");
}

#[test]
fn ids_rise_by_one_in_the_order_of_the_calls() {
    let set = set_of(6);
    assert_eq!(set.ids(), vec![0, 1, 2, 3, 4, 5]);
    for (i, card) in set.flashcards.iter().enumerate() {
        assert_eq!(card.id(), i as u64);
        assert_eq!(card.front.text, format!("front {}", i));
    }
}

#[test]
fn ids_are_pairwise_distinct() {
    let set = set_of(20);
    let ids = set.ids();
    for i in 0..ids.len() {
        for j in (i + 1)..ids.len() {
            assert_ne!(ids[i], ids[j]);
            assert!(ids[i] < ids[j]);
        }
    }
}

#[test]
fn ids_are_not_handed_out_again_after_a_removal() {
    let mut set = set_of(3);
    set.flashcards.remove(1);
    let id = set.add(plain("new"), plain("card")).id();
    assert_eq!(id, 3);
    assert_eq!(set.ids(), vec![0, 2, 3]);
    set.flashcards.clear();
    assert_eq!(set.add(plain("again"), plain("card")).id(), 4);
}

#[test]
fn the_counter_goes_up_with_each_card_and_never_down() {
    let mut set = set_of(3);
    assert_eq!(set.highest_id(), 3);
    set.flashcards.pop();
    assert_eq!(set.highest_id(), 3);
    set.add(plain("a"), plain("b"));
    assert_eq!(set.highest_id(), 4);
}

#[test]
fn a_set_from_parts_is_made_of_them() {
    let cards = vec![
        Flashcard::from_parts(plain("a"), plain("b"), 4),
        Flashcard::from_parts(plain("c"), plain("d"), 9),
    ];
    assert_eq!(cards[0].id(), 4);
    assert_eq!(cards[1].front, plain("c"));
    assert_eq!(cards[1].back, plain("d"));
    let mut set = FlashcardSet::from_parts("stored".to_string(), cards, 12);
    assert_eq!(set.name, "stored");
    assert_eq!(set.ids(), vec![4, 9]);
    assert_eq!(set.highest_id(), 12);
    assert_eq!(set[9].front.text, "c");
    assert!(set.get(0).is_none());
    assert_eq!(set.add(plain("e"), plain("f")).id(), 12);
    assert_eq!(set.highest_id(), 13);
}

#[test]
fn a_set_from_the_parts_of_a_set_is_that_set() {
    let set = set_of(4);
    let copy = FlashcardSet::from_parts(
        set.name.clone(),
        set.flashcards
            .iter()
            .map(|card| Flashcard::from_parts(card.front.clone(), card.back.clone(), card.id()))
            .collect(),
        set.highest_id(),
    );
    assert_eq!(copy.name, set.name);
    assert_eq!(copy.flashcards, set.flashcards);
    assert_eq!(copy.highest_id(), set.highest_id());
}

#[test]
fn ids_are_local_to_their_set() {
    let mut french = FlashcardSet::new("French".to_string());
    let mut german = FlashcardSet::new("German".to_string());
    assert_eq!(french.add(plain("a"), plain("b")).id(), 0);
    assert_eq!(german.add(plain("c"), plain("d")).id(), 0);
    assert_eq!(french.add(plain("e"), plain("f")).id(), 1);
}

#[test]
fn get_finds_each_card_by_its_id() {
    let set = set_of(5);
    for id in 0..5u64 {
        let card = set.get(id).unwrap();
        assert_eq!(card.id(), id);
        assert_eq!(card.front.text, format!("front {}", id));
        assert_eq!(card.back.text, format!("back {}", id));
        assert!(set.contains_id(id));
    }
}

#[test]
fn index_finds_each_card_by_its_id() {
    let set = set_of(5);
    for id in 0..5u64 {
        assert_eq!(set[id].id(), id);
        assert_eq!(set[id].back.text, format!("back {}", id));
    }
}

#[test]
fn lookup_goes_by_id_and_not_by_place() {
    let mut set = set_of(4);
    set.flashcards.remove(0);
    set.flashcards.reverse();
    assert_eq!(set.ids(), vec![3, 2, 1]);
    assert_eq!(set[1].front.text, "front 1");
    assert_eq!(set.get(3).unwrap().front.text, "front 3");
    assert!(set.get(0).is_none());
}

#[test]
fn an_id_that_was_never_assigned_is_not_found() {
    let set = set_of(3);
    assert!(set.get(3).is_none());
    assert!(set.get(99).is_none());
    assert!(set.get(u64::MAX).is_none());
    assert!(!set.contains_id(3));
    assert!(!set.contains_id(u64::MAX));
}

#[test]
fn an_id_of_another_set_is_not_found() {
    let big = set_of(5);
    let small = set_of(2);
    let id = big.flashcards[4].id();
    assert!(big.contains_id(id));
    assert!(small.get(id).is_none());
    assert!(!small.contains_id(id));
}

#[test]
fn nothing_is_found_in_an_empty_set() {
    let set = FlashcardSet::new("empty".to_string());
    assert!(set.get(0).is_none());
    assert!(!set.contains_id(0));
}

#[test]
fn index_mut_gives_the_card_to_change() {
    let mut set = set_of(3);
    set.index_mut(1).front.text = "changed".to_string();
    set.index_mut(1).back.color = "#00ff00".to_string();
    assert_eq!(set[1].front.text, "changed");
    assert_eq!(set[1].front.color, "#000000");
    assert_eq!(set[1].back.text, "back 1");
    assert_eq!(set[1].back.color, "#00ff00");
    assert_eq!(set[0].front.text, "front 0");
    assert_eq!(set[2].front.text, "front 2");
    assert_eq!(set.ids(), vec![0, 1, 2]);
}

#[test]
fn set_text_writes_on_one_side_of_one_card() {
    let mut set = set_of(3);
    set.index_mut(2).back.color = "#123456".to_string();
    set.set_text(2, CardSide::Back, "Kakerlaken".to_string());
    set.set_text(0, CardSide::Front, "Cockroach".to_string());
    assert_eq!(set[2].back.text, "Kakerlaken");
    assert_eq!(set[2].back.color, "#123456");
    assert_eq!(set[2].front.text, "front 2");
    assert_eq!(set[0].front.text, "Cockroach");
    assert_eq!(set[0].back.text, "back 0");
    assert_eq!(set[1].front.text, "front 1");
    assert_eq!(set[1].back.text, "back 1");
    assert_eq!(set.ids(), vec![0, 1, 2]);
    assert_eq!(set.name, "numbers");
    assert_eq!(set.add(plain("x"), plain("y")).id(), 3);
}

#[test]
fn lookup_takes_the_first_card_where_two_share_an_id() {
    let mut set = set_of(2);
    let mut copy = set.flashcards[0].clone();
    copy.front.text = "copy".to_string();
    set.flashcards.push(copy);
    assert_eq!(set.ids(), vec![0, 1, 0]);
    assert_eq!(set[0].front.text, "front 0");
    set.set_text(0, CardSide::Front, "first".to_string());
    assert_eq!(set.flashcards[0].front.text, "first");
    assert_eq!(set.flashcards[2].front.text, "copy");
}

#[test]
fn a_clone_of_a_set_has_its_name_cards_and_counter() {
    let mut set = set_of(3);
    set.flashcards.remove(1);
    let mut copy = set.clone();
    assert_eq!(copy.name, set.name);
    assert_eq!(copy.flashcards, set.flashcards);
    assert_eq!(copy.highest_id(), 3);
    // the copy goes its own way from here
    copy.set_text(0, CardSide::Front, "changed".to_string());
    assert_eq!(copy.add(plain("x"), plain("y")).id(), 3);
    assert_eq!(set[0].front.text, "front 0");
    assert_eq!(set.flashcards.len(), 2);
    assert_eq!(set.highest_id(), 3);
}

#[test]
fn a_clone_of_a_card_is_equal_to_it() {
    let set = set_of(2);
    let card = set[1].clone();
    assert_eq!(card, set[1]);
    assert_eq!(card.id(), 1);
    assert_ne!(card, set[0]);
}
