use magistrax::data::{FlashcardSet, UserData};
use magistrax::store::{begin_load, finish_seed, loaded_or_default, LoadStep, Stored, APP_NAME, DATA_FILE_NAME};

fn other_data() -> UserData {
    let mut data = UserData::default();
    data.sets.push(FlashcardSet::new("Latin".to_string()));
    data.last_visit = 9;
    data
}

fn is_seed(data: &UserData) -> bool {
    data.sets.len() == 2
        && data.sets[0].name == "French"
        && data.sets[1].name == "German"
        && data.sets[0].flashcards[0].front.text == "I live"
        && data.sets[1].flashcards[1].back.text == "Kakerlaken"
        && data.last_visit == 0
}

#[test]
fn data_file_is_kept_under_the_application_name() {
    assert_eq!(APP_NAME, "magistrax");
    assert_eq!(DATA_FILE_NAME, "user-data.json");
}

#[test]
fn stored_data_are_what_a_load_gives() {
    match begin_load::<String>(Stored::Found(other_data())) {
        LoadStep::Ready(data) => {
            assert_eq!(data.sets.len(), 3);
            assert_eq!(data.sets[2].name, "Latin");
            assert_eq!(data.last_visit, 9);
        }
        _ => panic!("stored data were not taken"),
    }
}

#[test]
fn an_unreadable_file_fails_the_load_with_the_host_error() {
    match begin_load(Stored::Unreadable("expected value at line 1".to_string())) {
        LoadStep::Failed(error) => assert_eq!(error, "expected value at line 1"),
        _ => panic!("an unreadable file did not fail the load"),
    }
}

#[test]
fn a_missing_file_asks_for_the_seed_data_to_be_written() {
    match begin_load::<String>(Stored::Missing) {
        LoadStep::Seed(seed) => assert!(is_seed(&seed)),
        _ => panic!("a missing file did not ask for the seed data"),
    }
}

#[test]
fn written_seed_data_are_what_the_load_gives() {
    let loaded = finish_seed::<String>(UserData::default(), Ok(()));
    assert!(is_seed(&loaded.ok().unwrap()));
}

#[test]
fn seed_data_that_could_not_be_written_fail_the_load() {
    let loaded = finish_seed(UserData::default(), Err("read-only file system".to_string()));
    assert_eq!(loaded.err().unwrap(), "read-only file system");
}

#[test]
fn a_load_after_a_first_load_gives_the_seed_data_again() {
    let seed = match begin_load::<String>(Stored::Missing) {
        LoadStep::Seed(seed) => seed,
        _ => panic!("a missing file did not ask for the seed data"),
    };
    let first = finish_seed::<String>(seed, Ok(())).ok().unwrap();
    // what the first load wrote out is what the second one finds
    match begin_load::<String>(Stored::Found(first)) {
        LoadStep::Ready(second) => assert!(is_seed(&second)),
        _ => panic!("stored data were not taken"),
    }
}

#[test]
fn loaded_data_start_the_program() {
    let data = loaded_or_default::<String>(Ok(other_data()));
    assert_eq!(data.sets.len(), 3);
    assert_eq!(data.last_visit, 9);
}

#[test]
fn a_failed_load_starts_the_program_with_the_seed_data() {
    let data = loaded_or_default(Err("permission denied".to_string()));
    assert!(is_seed(&data));
}
