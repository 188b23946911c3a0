use magistrax::data::{CardSide, FlashcardSet, RichText, TimeSpan};

#[test]
fn empty_text_is_black_and_reads_nothing() {
    let text = RichText::empty();
    assert_eq!(text.text, "");
    assert_eq!(text.color, "#000000");
}

#[test]
fn plaintext_keeps_the_text_and_is_black() {
    let text = RichText::plaintext("J'habite".to_string());
    assert_eq!(text.text, "J'habite");
    assert_eq!(text.color, "#000000");
}

#[test]
fn plaintext_of_nothing_is_the_empty_text() {
    assert_eq!(RichText::plaintext(String::new()), RichText::empty());
}

#[test]
fn texts_differ_by_text_or_by_colour() {
    let plain = RichText::plaintext("a".to_string());
    let other_text = RichText::plaintext("b".to_string());
    let mut other_colour = RichText::plaintext("a".to_string());
    other_colour.color = "#ff0000".to_string();
    assert_eq!(plain, plain.clone());
    assert_ne!(plain, other_text);
    assert_ne!(plain, other_colour);
}

#[test]
fn cards_are_equal_when_sides_and_id_are() {
    let mut first = FlashcardSet::new("a".to_string());
    let mut second = FlashcardSet::new("b".to_string());
    first.add(RichText::plaintext("x".to_string()), RichText::plaintext("y".to_string()));
    second.add(RichText::plaintext("x".to_string()), RichText::plaintext("y".to_string()));
    second.add(RichText::plaintext("x".to_string()), RichText::plaintext("y".to_string()));
    second.add(RichText::plaintext("x".to_string()), RichText::plaintext("z".to_string()));
    // same sides, same id
    assert_eq!(first.flashcards[0], second.flashcards[0]);
    // same sides, another id
    assert_ne!(first.flashcards[0], second.flashcards[1]);
    // another back
    assert_ne!(second.flashcards[1].back, second.flashcards[2].back);
    assert_ne!(second.flashcards[1], second.flashcards[2]);
}

#[test]
fn side_picks_front_or_back() {
    let mut set = FlashcardSet::new("a".to_string());
    let card = set.add(RichText::plaintext("front".to_string()), RichText::plaintext("back".to_string()));
    assert_eq!(card.side(CardSide::Front).text, "front");
    assert_eq!(card.side(CardSide::Back).text, "back");
}

#[test]
fn zero_span_has_neither_seconds_nor_nanoseconds() {
    let span = TimeSpan::zero();
    assert_eq!(span.secs, 0);
    assert_eq!(span.nanos, 0);
    assert_eq!(span, TimeSpan { secs: 0, nanos: 0 });
}
