use bson::{Bson, Document};
use cmap_pool::coll::{
    assert_duplicate_key_error_with_utf8_replacement, carries_no_read_preference, check_allow_disk_use,
    check_duplicate_key_error_with_utf8_replacement, check_found, check_options_inherited,
    check_write_concern_details, kill_cursors_sent, multibatch_documents_with_duplicate_keys, BulkWriteError,
    BulkWriteFailure, CommandEvent, CommandMismatch, CommandStartedEvent, DetailsMismatch, DuplicateKeyMismatch,
    ErrorKind, EventClient, FoundMismatch, TestDocument, WriteConcernError, WriteError, WriteFailure,
    DUPLICATE_KEY, MULTIBATCH_LEN, REPLACEMENT_CHARACTER,
};
use cmap_pool::text::{contains_char, is_one_of, same_text};

fn document(entries: Vec<(&str, Bson)>) -> Document {
    let mut document = Document::new();
    for (key, value) in entries {
        document.insert(key, value);
    }
    document
}

fn started_with(name: &str, command: Document) -> CommandEvent {
    CommandEvent::Started(CommandStartedEvent { command_name: name.to_string(), command })
}

fn started(name: &str) -> CommandEvent {
    started_with(name, Document::new())
}

fn names(events: Vec<&CommandStartedEvent>) -> Vec<String> {
    events.into_iter().map(|e| e.command_name.clone()).collect()
}

fn concern_error(details: Option<Document>) -> ErrorKind {
    ErrorKind::Write(WriteFailure::WriteConcernError(WriteConcernError {
        code: 100,
        code_name: "UnsatisfiableWriteConcern".to_string(),
        message: "Not enough data-bearing nodes".to_string(),
        details,
    }))
}

fn write_error(code: i32, message: &str) -> ErrorKind {
    ErrorKind::Write(WriteFailure::WriteError(WriteError {
        code,
        code_name: None,
        message: message.to_string(),
    }))
}

fn bulk(errors: Option<Vec<(i32, &str)>>) -> ErrorKind {
    ErrorKind::BulkWrite(BulkWriteFailure {
        write_errors: errors.map(|es| {
            es.into_iter()
                .enumerate()
                .map(|(index, (code, message))| BulkWriteError {
                    index,
                    code,
                    code_name: None,
                    message: message.to_string(),
                })
                .collect()
        }),
        write_concern_error: None,
    })
}

#[test]
fn text_helpers() {
    assert!(same_text("killCursors", "killCursors"));
    assert!(!same_text("killCursors", "killcursors"));
    assert!(same_text("", ""));
    assert!(contains_char("dup key: { : \"\u{FFFD}\" }", '\u{FFFD}'));
    assert!(!contains_char("dup key", '\u{FFFD}'));
    assert!(contains_char("(╯°□°)╯︵ ┻━┻", '┻'));
    assert!(!contains_char("", 'a'));
    assert!(is_one_of("find", &["insert", "find"]));
    assert!(!is_one_of("find", &["insert", "findAndModify"]));
    assert!(!is_one_of("find", &[]));
}

#[test]
fn command_started_events_are_picked_by_name() {
    let client = EventClient {
        events: vec![
            started("insert"),
            CommandEvent::Succeeded { command_name: "insert".to_string() },
            started("find"),
            CommandEvent::Failed { command_name: "find".to_string() },
            started("getMore"),
            started("find"),
        ],
    };
    assert_eq!(names(client.get_command_started_events(&["find"])), vec!["find".to_string(), "find".to_string()]);
    assert_eq!(
        names(client.get_command_started_events(&["getMore", "insert"])),
        vec!["insert".to_string(), "getMore".to_string()]
    );
    assert!(client.get_command_started_events(&["killCursors"]).is_empty());
    assert!(client.get_command_started_events(&[]).is_empty());
}

#[test]
fn kill_cursors_sent_looks_for_a_started_command() {
    let mut client = EventClient { events: vec![started("find"), started("getMore")] };
    assert!(!kill_cursors_sent(&client));
    client.events.push(CommandEvent::Succeeded { command_name: "killCursors".to_string() });
    assert!(!kill_cursors_sent(&client));
    client.events.push(started("killCursors"));
    assert!(kill_cursors_sent(&client));
    assert!(!kill_cursors_sent(&EventClient { events: vec![] }));
}

#[test]
fn multibatch_documents_have_the_duplicates_where_the_batches_break() {
    let docs = multibatch_documents_with_duplicate_keys();
    assert_eq!(docs.len(), 35000);
    assert_eq!(MULTIBATCH_LEN, 35000);
    let ids: Vec<usize> = docs
        .iter()
        .enumerate()
        .filter(|(_, d)| **d == TestDocument::WithId(1))
        .map(|(i, _)| i)
        .collect();
    assert_eq!(ids, vec![7498, 7499, 22499, 32499]);
    assert!(docs.iter().all(|d| *d == TestDocument::Large || *d == TestDocument::WithId(1)));
    // The documents that repeat an earlier id are where the write errors are expected.
    let repeats: Vec<usize> = (0..docs.len())
        .filter(|i| docs[*i] != TestDocument::Large && docs[..*i].contains(&docs[*i]))
        .collect();
    assert_eq!(repeats, vec![7499, 22499, 32499]);
}

#[test]
fn duplicate_key_error_with_replacement_character_is_accepted() {
    assert_eq!(DUPLICATE_KEY, 11000);
    assert_eq!(REPLACEMENT_CHARACTER, '\u{FFFD}');
    let single = write_error(11000, "E11000 duplicate key error: { name: \"(╯°□\u{FFFD}\" }");
    assert_eq!(check_duplicate_key_error_with_utf8_replacement(&single), Ok(()));
    assert_duplicate_key_error_with_utf8_replacement(&single);
    let many = bulk(Some(vec![(11000, "dup \u{FFFD}")]));
    assert_eq!(check_duplicate_key_error_with_utf8_replacement(&many), Ok(()));
    assert_duplicate_key_error_with_utf8_replacement(&many);
}

#[test]
fn other_errors_are_told_apart() {
    let check = check_duplicate_key_error_with_utf8_replacement;
    assert_eq!(check(&write_error(11001, "dup \u{FFFD}")), Err(DuplicateKeyMismatch::Code(11001)));
    assert_eq!(check(&write_error(11000, "dup")), Err(DuplicateKeyMismatch::NoReplacementCharacter));
    // The code is looked at before the message.
    assert_eq!(check(&write_error(1, "dup")), Err(DuplicateKeyMismatch::Code(1)));
    let concern = ErrorKind::Write(WriteFailure::WriteConcernError(WriteConcernError {
        code: 11000,
        code_name: "x".to_string(),
        message: "\u{FFFD}".to_string(),
        details: None,
    }));
    assert_eq!(check(&concern), Err(DuplicateKeyMismatch::NotAWriteFailure));
    assert_eq!(check(&bulk(None)), Err(DuplicateKeyMismatch::NoWriteErrors));
    assert_eq!(check(&bulk(Some(vec![]))), Err(DuplicateKeyMismatch::WriteErrorCount(0)));
    assert_eq!(
        check(&bulk(Some(vec![(11000, "\u{FFFD}"), (11000, "\u{FFFD}")]))),
        Err(DuplicateKeyMismatch::WriteErrorCount(2))
    );
    assert_eq!(check(&bulk(Some(vec![(2, "\u{FFFD}")]))), Err(DuplicateKeyMismatch::Code(2)));
    assert_eq!(check(&bulk(Some(vec![(11000, "plain")]))), Err(DuplicateKeyMismatch::NoReplacementCharacter));
    assert_eq!(
        check(&ErrorKind::InvalidArgument { message: "\u{FFFD}".to_string() }),
        Err(DuplicateKeyMismatch::NotAWriteError)
    );
    assert_eq!(
        check(&ErrorKind::Command { code: 11000, message: "\u{FFFD}".to_string() }),
        Err(DuplicateKeyMismatch::NotAWriteError)
    );
    assert_eq!(
        check(&ErrorKind::Internal { message: "test error".to_string() }),
        Err(DuplicateKeyMismatch::NotAWriteError)
    );
}

#[test]
fn started_events_keep_their_commands() {
    let client = EventClient {
        events: vec![
            started_with("find", document(vec![("find", Bson::String("a".to_string()))])),
            started_with("find", document(vec![("find", Bson::String("b".to_string()))])),
        ],
    };
    let found = client.get_command_started_events(&["find"]);
    assert_eq!(found.len(), 2);
    assert_eq!(found[0].command.get_str("find"), Ok("a"));
    assert_eq!(found[1].command.get_str("find"), Ok("b"));
}

#[test]
fn allow_disk_use_is_read_off_the_one_find() {
    let with = |value: Option<Bson>| {
        let mut entries = vec![("find", Bson::String("coll".to_string()))];
        if let Some(value) = value {
            entries.push(("allowDiskUse", value));
        }
        EventClient { events: vec![started("insert"), started_with("find", document(entries))] }
    };
    assert_eq!(check_allow_disk_use(&with(Some(Bson::Boolean(true))), Some(true)), Ok(()));
    assert_eq!(check_allow_disk_use(&with(Some(Bson::Boolean(false))), Some(false)), Ok(()));
    assert_eq!(check_allow_disk_use(&with(None), None), Ok(()));
    assert_eq!(check_allow_disk_use(&with(Some(Bson::Boolean(true))), Some(false)), Err(CommandMismatch::AllowDiskUse));
    assert_eq!(check_allow_disk_use(&with(Some(Bson::Boolean(true))), None), Err(CommandMismatch::AllowDiskUse));
    assert_eq!(check_allow_disk_use(&with(None), Some(true)), Err(CommandMismatch::AllowDiskUse));
    // A value that is not a boolean counts as none.
    assert_eq!(check_allow_disk_use(&with(Some(Bson::Int32(1))), None), Ok(()));
    assert_eq!(check_allow_disk_use(&with(Some(Bson::Int32(1))), Some(true)), Err(CommandMismatch::AllowDiskUse));
    let none = EventClient { events: vec![started("insert")] };
    assert_eq!(check_allow_disk_use(&none, None), Err(CommandMismatch::Count(0)));
    let two = EventClient { events: vec![started("find"), started("find")] };
    assert_eq!(check_allow_disk_use(&two, None), Err(CommandMismatch::Count(2)));
}

#[test]
fn inherited_options_are_read_off_the_latest_command() {
    let concern = ("readConcern", Bson::Document(document(vec![("level", Bson::String("majority".to_string()))])));
    let preference = ("$readPreference", Bson::Document(document(vec![("mode", Bson::String("secondary".to_string()))])));
    let both = document(vec![concern.clone(), preference.clone()]);
    let only_concern = document(vec![concern.clone()]);
    let only_preference = document(vec![preference.clone()]);
    let client = |latest: Document| EventClient {
        events: vec![started_with("find", Document::new()), started("aggregate"), started_with("find", latest)],
    };
    assert_eq!(check_options_inherited(&client(both.clone()), "find", false), Ok(()));
    assert_eq!(check_options_inherited(&client(both.clone()), "find", true), Err(CommandMismatch::ReadPreference));
    assert_eq!(check_options_inherited(&client(only_concern.clone()), "find", true), Ok(()));
    assert_eq!(
        check_options_inherited(&client(only_concern.clone()), "find", false),
        Err(CommandMismatch::ReadPreference)
    );
    assert_eq!(check_options_inherited(&client(only_preference), "find", false), Err(CommandMismatch::ReadConcern));
    // The latest command of the name decides, whatever came before.
    assert_eq!(check_options_inherited(&client(both.clone()), "aggregate", true), Err(CommandMismatch::ReadConcern));
    assert_eq!(check_options_inherited(&client(both), "count", true), Err(CommandMismatch::Count(0)));
    assert!(carries_no_read_preference(&only_concern));
    assert!(!carries_no_read_preference(&document(vec![preference])));
    assert!(carries_no_read_preference(&Document::new()));
}

#[test]
fn found_documents_are_checked_entry_by_entry() {
    let id = ("_id", Bson::Int64(7));
    assert_eq!(check_found(&document(vec![id.clone(), ("x", Bson::Int32(3))]), 3), Ok(()));
    assert_eq!(check_found(&document(vec![("x", Bson::Int32(3)), id.clone()]), 3), Ok(()));
    assert_eq!(check_found(&document(vec![id.clone(), ("x", Bson::Int32(3))]), 4), Err(FoundMismatch::X));
    assert_eq!(check_found(&document(vec![id.clone(), ("x", Bson::Int64(3))]), 3), Err(FoundMismatch::X));
    assert_eq!(check_found(&document(vec![id.clone(), ("y", Bson::Int32(3))]), 3), Err(FoundMismatch::X));
    assert_eq!(
        check_found(&document(vec![("id", Bson::Int32(1)), ("x", Bson::Int32(3))]), 3),
        Err(FoundMismatch::NoId)
    );
    assert_eq!(check_found(&document(vec![("x", Bson::Int32(3))]), 3), Err(FoundMismatch::Len(1)));
    assert_eq!(
        check_found(&document(vec![id, ("x", Bson::Int32(3)), ("z", Bson::Null)]), 3),
        Err(FoundMismatch::Len(3))
    );
    assert_eq!(check_found(&Document::new(), 0), Err(FoundMismatch::Len(0)));
}

#[test]
fn write_concern_details_must_say_where_the_concern_comes_from() {
    let write_concern = |provenance: bool| {
        let mut entries = vec![("w", Bson::Int32(2)), ("wtimeout", Bson::Int32(0))];
        if provenance {
            entries.push(("provenance", Bson::String("clientSupplied".to_string())));
        }
        Bson::Document(document(entries))
    };
    let details = document(vec![("writeConcern", write_concern(true))]);
    assert_eq!(check_write_concern_details(&concern_error(Some(details))), Ok(()));
    let details = document(vec![("writeConcern", write_concern(false))]);
    assert_eq!(check_write_concern_details(&concern_error(Some(details))), Err(DetailsMismatch::NoProvenance));
    let details = document(vec![("provenance", Bson::String("clientSupplied".to_string()))]);
    assert_eq!(check_write_concern_details(&concern_error(Some(details))), Err(DetailsMismatch::NoWriteConcern));
    let details = document(vec![("writeConcern", Bson::String("provenance".to_string()))]);
    assert_eq!(check_write_concern_details(&concern_error(Some(details))), Err(DetailsMismatch::NoWriteConcern));
    assert_eq!(check_write_concern_details(&concern_error(None)), Err(DetailsMismatch::NoDetails));
    assert_eq!(
        check_write_concern_details(&write_error(100, "Not enough data-bearing nodes")),
        Err(DetailsMismatch::NotAWriteConcernError)
    );
    assert_eq!(
        check_write_concern_details(&ErrorKind::Internal { message: "x".to_string() }),
        Err(DetailsMismatch::NotAWriteConcernError)
    );
}
