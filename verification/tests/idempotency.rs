use zero2prod::database::{Database, PersistenceError};
use zero2prod::http::{HeaderPair, Response};
use zero2prod::idempotency::{
    begin, check_key, claimed, filled, header_columns, replay, restore_response, save_response,
    saved_row, try_processing, CommandError, IdempotencyKey, KeyError, NextAction, SavedRow,
    MAX_KEY_LENGTH,
};

fn key(text: &str) -> IdempotencyKey {
    IdempotencyKey::parse(text.to_string()).expect("a valid key")
}

fn teapot() -> Response {
    Response {
        status_code: 418,
        headers: vec![HeaderPair { name: "x-kind".to_string(), value: b"teapot".to_vec() }],
        body: b"short and stout".to_vec(),
    }
}

#[test]
fn a_uuid_shaped_key_is_accepted() {
    let parsed = IdempotencyKey::parse("11111111-1111-1111-1111-111111111111".to_string());
    let parsed = parsed.expect("a valid key");
    assert_eq!(parsed.as_str(), "11111111-1111-1111-1111-111111111111");
    assert_eq!(parsed.as_string(), "11111111-1111-1111-1111-111111111111");
    assert_eq!(parsed.into_string(), "11111111-1111-1111-1111-111111111111");
}

#[test]
fn every_character_of_the_key_alphabet_is_accepted() {
    assert_eq!(check_key("abcxyzABCXYZ0189_-"), None);
}

#[test]
fn an_empty_key_is_rejected() {
    assert_eq!(IdempotencyKey::parse(String::new()).err(), Some(KeyError::Empty));
}

#[test]
fn a_key_of_fifty_characters_is_accepted_and_one_more_is_too_long() {
    assert_eq!(MAX_KEY_LENGTH, 50);
    assert_eq!(check_key(&"a".repeat(50)), None);
    assert_eq!(check_key(&"a".repeat(51)), Some(KeyError::TooLong));
}

#[test]
fn the_length_of_a_key_is_counted_in_characters_not_bytes() {
    // Fifty two-byte characters are not too long; they are illegal.
    assert_eq!(check_key(&"é".repeat(50)), Some(KeyError::IllegalCharacter));
    assert_eq!(check_key(&"é".repeat(51)), Some(KeyError::TooLong));
}

#[test]
fn a_key_with_an_at_sign_or_white_space_is_rejected() {
    for malformed in ["user@example", "two words", "tab\tkey", "line\nbreak", " lead", "trail "] {
        assert_eq!(check_key(malformed), Some(KeyError::IllegalCharacter), "{}", malformed);
    }
}

#[test]
fn a_key_with_punctuation_outside_the_alphabet_is_rejected() {
    for malformed in ["a.b", "a/b", "a+b", "a=b", "ключ", "a:b", "{a}"] {
        assert_eq!(check_key(malformed), Some(KeyError::IllegalCharacter), "{}", malformed);
    }
}

#[test]
fn too_long_is_reported_before_an_illegal_character() {
    let long_and_illegal = "@".repeat(51);
    assert_eq!(check_key(&long_and_illegal), Some(KeyError::TooLong));
}

#[test]
fn each_key_rule_has_its_own_message() {
    assert_eq!(KeyError::Empty.message(), "The idempotency key cannot be empty");
    assert_eq!(
        KeyError::TooLong.message(),
        "The idempotency key must be shorter than 51 characters"
    );
    assert_eq!(
        KeyError::IllegalCharacter.message(),
        "The idempotency key may only contain letters, digits, '_' and '-'"
    );
}

#[test]
fn command_errors_map_to_their_status_codes() {
    assert_eq!(CommandError::ValidationError(KeyError::Empty).status_code(), 400);
    assert_eq!(CommandError::Conflict.status_code(), 409);
    assert_eq!(
        CommandError::PersistenceError(PersistenceError::DuplicateKey).status_code(),
        500
    );
}

#[test]
fn only_a_conflict_is_retryable() {
    assert!(CommandError::Conflict.is_retryable());
    assert!(!CommandError::ValidationError(KeyError::TooLong).is_retryable());
    assert!(!CommandError::PersistenceError(PersistenceError::StaleTransaction).is_retryable());
}

#[test]
fn begin_rejects_a_malformed_key_before_touching_the_store() {
    let mut db = Database::new();
    for (malformed, rule) in [
        (String::new(), KeyError::Empty),
        ("k".repeat(51), KeyError::TooLong),
        ("user@example".to_string(), KeyError::IllegalCharacter),
        ("two words".to_string(), KeyError::IllegalCharacter),
    ] {
        match begin(&mut db, 7, malformed) {
            Err(reason) => assert_eq!(reason, CommandError::ValidationError(rule)),
            Ok(_) => panic!("a malformed key was accepted"),
        }
        assert_eq!(db.idempotency_count(), 0);
    }
}

#[test]
fn begin_claims_a_free_key_with_a_placeholder() {
    let mut db = Database::new();
    db.set_time(1_700_000_000);
    let next = begin(&mut db, 7, "free-key".to_string()).expect("a free key");
    let tx = match next {
        NextAction::StartProcessing(tx) => tx,
        NextAction::ReturnSavedResponse(_) => panic!("nothing was saved yet"),
    };
    assert_eq!(tx.caller_id(), 7);
    assert_eq!(tx.key(), "free-key");
    assert_eq!(db.idempotency_count(), 1);
    assert_eq!(db.saved_response(7, &"free-key".to_string()), None);
}

#[test]
fn a_key_in_flight_is_a_conflict() {
    let mut db = Database::new();
    let first = try_processing(&mut db, &key("k1"), 7);
    assert!(matches!(first, Ok(NextAction::StartProcessing(_))));
    let second = try_processing(&mut db, &key("k1"), 7);
    assert!(matches!(second, Err(CommandError::Conflict)));
    assert_eq!(db.idempotency_count(), 1);
}

#[test]
fn the_same_key_of_another_caller_is_free() {
    let mut db = Database::new();
    assert!(matches!(try_processing(&mut db, &key("k1"), 7), Ok(NextAction::StartProcessing(_))));
    assert!(matches!(try_processing(&mut db, &key("k1"), 8), Ok(NextAction::StartProcessing(_))));
    assert!(matches!(try_processing(&mut db, &key("k2"), 7), Ok(NextAction::StartProcessing(_))));
    assert_eq!(db.idempotency_count(), 3);
}

#[test]
fn a_saved_response_is_replayed_byte_for_byte() {
    let mut db = Database::new();
    let k = key("k1");
    let tx = match try_processing(&mut db, &k, 7) {
        Ok(NextAction::StartProcessing(tx)) => tx,
        _ => panic!("the key was free"),
    };
    let saved = save_response(&mut db, tx, &k, 7, teapot()).expect("the claim was in flight");
    assert_eq!(saved, teapot());
    match try_processing(&mut db, &k, 7) {
        Ok(NextAction::ReturnSavedResponse(replayed)) => assert_eq!(replayed, teapot()),
        _ => panic!("the response was saved"),
    }
    assert_eq!(db.saved_response(7, &"k1".to_string()), Some(teapot()));
    assert_eq!(db.idempotency_count(), 1);
}

#[test]
fn rolling_back_frees_the_key() {
    let mut db = Database::new();
    let k = key("k1");
    let tx = match try_processing(&mut db, &k, 7) {
        Ok(NextAction::StartProcessing(tx)) => tx,
        _ => panic!("the key was free"),
    };
    db.rollback(tx);
    assert_eq!(db.idempotency_count(), 0);
    assert!(matches!(try_processing(&mut db, &k, 7), Ok(NextAction::StartProcessing(_))));
}

#[test]
fn saving_under_another_key_is_refused_and_rolls_back() {
    let mut db = Database::new();
    let tx = match try_processing(&mut db, &key("k1"), 7) {
        Ok(NextAction::StartProcessing(tx)) => tx,
        _ => panic!("the key was free"),
    };
    let saved = save_response(&mut db, tx, &key("other"), 7, teapot());
    assert_eq!(
        saved,
        Err(CommandError::PersistenceError(PersistenceError::StaleTransaction))
    );
    assert_eq!(db.idempotency_count(), 0);
}

#[test]
fn saving_for_another_caller_is_refused_and_rolls_back() {
    let mut db = Database::new();
    let k = key("k1");
    let tx = match try_processing(&mut db, &k, 7) {
        Ok(NextAction::StartProcessing(tx)) => tx,
        _ => panic!("the key was free"),
    };
    let saved = save_response(&mut db, tx, &k, 8, teapot());
    assert_eq!(
        saved,
        Err(CommandError::PersistenceError(PersistenceError::StaleTransaction))
    );
    assert_eq!(db.idempotency_count(), 0);
}

#[test]
fn a_row_with_every_field_null_is_in_flight() {
    let row = SavedRow { status_code: None, headers: None, body: None };
    assert_eq!(restore_response(row), Err(CommandError::Conflict));
}

#[test]
fn a_filled_row_is_restored_as_it_was_saved() {
    let row = SavedRow {
        status_code: Some(303),
        headers: Some(vec![HeaderPair {
            name: "location".to_string(),
            value: b"/admin/newsletters".to_vec(),
        }]),
        body: Some(Vec::new()),
    };
    let restored = restore_response(row).expect("a filled row");
    assert_eq!(restored.status_code, 303);
    assert_eq!(restored.headers.len(), 1);
    assert_eq!(restored.headers[0].name, "location");
    assert_eq!(restored.headers[0].value, b"/admin/newsletters".to_vec());
    assert!(restored.body.is_empty());
}

#[test]
fn a_row_that_is_filled_in_part_is_corrupt() {
    let corrupt = Err(CommandError::PersistenceError(PersistenceError::CorruptRow));
    let row = SavedRow { status_code: Some(200), headers: None, body: Some(Vec::new()) };
    assert_eq!(restore_response(row), corrupt);
    let row = SavedRow { status_code: None, headers: Some(Vec::new()), body: Some(Vec::new()) };
    assert_eq!(restore_response(row), corrupt);
    let row = SavedRow { status_code: Some(200), headers: Some(Vec::new()), body: None };
    assert_eq!(restore_response(row), corrupt);
}

#[test]
fn a_row_whose_status_is_no_http_status_is_corrupt() {
    let corrupt = Err(CommandError::PersistenceError(PersistenceError::CorruptRow));
    for code in [-1i16, 0, 99, 1000] {
        let row =
            SavedRow { status_code: Some(code), headers: Some(Vec::new()), body: Some(Vec::new()) };
        assert_eq!(restore_response(row), corrupt, "{}", code);
    }
    for code in [100i16, 200, 999] {
        let row =
            SavedRow { status_code: Some(code), headers: Some(Vec::new()), body: Some(Vec::new()) };
        assert_eq!(restore_response(row).map(|r| r.status_code), Ok(code as u16));
    }
}

#[test]
fn an_insert_that_wrote_a_row_claimed_the_key() {
    assert!(claimed(1));
    assert!(!claimed(0));
}

#[test]
fn a_taken_key_is_answered_from_the_row_that_is_read_back() {
    assert_eq!(replay(None), Err(CommandError::Conflict));
    let empty = SavedRow { status_code: None, headers: None, body: None };
    assert_eq!(replay(Some(empty)), Err(CommandError::Conflict));
    let saved = SavedRow {
        status_code: Some(418),
        headers: Some(teapot().headers),
        body: Some(teapot().body),
    };
    assert_eq!(replay(Some(saved)), Ok(teapot()));
}

#[test]
fn an_update_that_found_no_placeholder_is_a_stale_transaction() {
    assert_eq!(filled(1), Ok(()));
    assert_eq!(
        filled(0),
        Err(CommandError::PersistenceError(PersistenceError::StaleTransaction))
    );
}

#[test]
fn the_columns_of_a_placeholder_make_an_empty_row() {
    let row = saved_row(None, None, None, None).expect("a placeholder");
    assert_eq!(row.status_code, None);
    assert_eq!(row.headers, None);
    assert_eq!(row.body, None);
    assert_eq!(restore_response(row), Err(CommandError::Conflict));
}

#[test]
fn the_columns_of_names_and_values_are_paired_in_order() {
    let names = vec!["location".to_string(), "x-kind".to_string()];
    let values = vec![b"/admin/newsletters".to_vec(), b"teapot".to_vec()];
    let row = saved_row(Some(303), Some(names), Some(values), Some(vec![1, 2])).expect("a row");
    assert_eq!(row.status_code, Some(303));
    assert_eq!(row.body, Some(vec![1, 2]));
    let headers = row.headers.expect("headers");
    assert_eq!(
        headers,
        vec![
            HeaderPair { name: "location".to_string(), value: b"/admin/newsletters".to_vec() },
            HeaderPair { name: "x-kind".to_string(), value: b"teapot".to_vec() },
        ]
    );
    let no_headers = saved_row(Some(200), Some(Vec::new()), Some(Vec::new()), Some(Vec::new()));
    assert_eq!(no_headers.expect("a row").headers, Some(Vec::new()));
}

#[test]
fn columns_of_names_and_values_that_do_not_fit_are_a_corrupt_row() {
    let corrupt = CommandError::PersistenceError(PersistenceError::CorruptRow);
    let one_name = || Some(vec!["location".to_string()]);
    let one_value = || Some(vec![b"/".to_vec()]);
    let two_values = || Some(vec![b"/".to_vec(), b"x".to_vec()]);
    assert_eq!(saved_row(Some(303), one_name(), None, Some(Vec::new())).err(), Some(corrupt));
    assert_eq!(saved_row(Some(303), None, one_value(), Some(Vec::new())).err(), Some(corrupt));
    assert_eq!(saved_row(Some(303), one_name(), two_values(), Some(Vec::new())).err(), Some(corrupt));
    assert_eq!(saved_row(None, one_name(), None, None).err(), Some(corrupt));
    assert!(saved_row(Some(303), one_name(), one_value(), Some(Vec::new())).is_ok());
}

#[test]
fn headers_are_stored_as_a_column_of_names_and_a_column_of_values() {
    let response = teapot();
    let (names, values) = header_columns(&response.headers);
    assert_eq!(names, vec!["x-kind".to_string()]);
    assert_eq!(values, vec![b"teapot".to_vec()]);
    let row = saved_row(Some(418), Some(names), Some(values), Some(response.body.clone()))
        .expect("a row");
    assert_eq!(restore_response(row), Ok(response));
    assert_eq!(header_columns(&Vec::new()), (Vec::new(), Vec::new()));
}
