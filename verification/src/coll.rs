//! What the collection scenarios decide and compute: test data, what a
//! recorded command log shows, and which errors count as expected.

use vstd::prelude::*;
use bson::Document;
use crate::document::{
    contains_key, document_child_keys, document_keys, entry_count, flag_at, get_bool, get_document,
    get_i32, number_at,
};
use crate::text::{contains_char, is_one_of};

verus! {

/// A command that a client started.
#[derive(Debug)]
pub struct CommandStartedEvent {
    pub command_name: String,
    /// The command as it was sent.
    pub command: Document,
}

/// A command event as a monitored client records it.
#[derive(Debug)]
pub enum CommandEvent {
    Started(CommandStartedEvent),
    Succeeded { command_name: String },
    Failed { command_name: String },
}

/// The record of a monitored client: every command event, oldest first.
#[derive(Debug)]
pub struct EventClient {
    pub events: Vec<CommandEvent>,
}

/// Whether `name` is one of `names`.
pub open spec fn among(name: Seq<char>, names: Seq<&str>) -> bool {
    exists|i: int| 0 <= i < names.len() && (#[trigger] names[i])@ == name
}

/// Whether `e` says that a command named one of `names` was started.
pub open spec fn is_started_named(e: CommandEvent, names: Seq<&str>) -> bool {
    e matches CommandEvent::Started(started) && among(started.command_name@, names)
}

/// The started commands of `events` that are named one of `names`, oldest
/// first.
pub open spec fn started(events: Seq<CommandEvent>, names: Seq<&str>) -> Seq<CommandStartedEvent>
    decreases events.len(),
{
    if events.len() == 0 {
        Seq::empty()
    } else if is_started_named(events.last(), names) {
        started(events.drop_last(), names).push(events.last()->Started_0)
    } else {
        started(events.drop_last(), names)
    }
}

/// Something was selected exactly if some event qualifies.
pub proof fn lemma_started_nonempty(events: Seq<CommandEvent>, names: Seq<&str>)
    ensures
        started(events, names).len() > 0 <==> exists|i: int|
            0 <= i < events.len() && is_started_named(#[trigger] events[i], names),
    decreases events.len(),
{
    if events.len() > 0 {
        let front = events.drop_last();
        lemma_started_nonempty(front, names);
        if is_started_named(events.last(), names) {
        } else if started(front, names).len() > 0 {
            let i = choose|i: int| 0 <= i < front.len() && is_started_named(#[trigger] front[i], names);
        } else {
            assert forall|i: int| 0 <= i < events.len() implies !is_started_named(
                #[trigger] events[i],
                names,
            ) by {
                if i < front.len() {
                    assert(events[i] == front[i]);
                }
            }
        }
    }
}

impl EventClient {
    /// The recorded started commands that are named one of `command_names`,
    /// oldest first.
    pub fn get_command_started_events(&self, command_names: &[&str]) -> (r: Vec<
        &CommandStartedEvent,
    >)
        ensures
            r@.len() == started(self.events@, command_names@).len(),
            forall|i: int|
                0 <= i < r@.len() ==> *(#[trigger] r@[i]) == started(self.events@, command_names@)[i],
    {
        let mut found: Vec<&CommandStartedEvent> = Vec::new();
        let n = self.events.len();
        let mut i: usize = 0;
        while i < n
            invariant
                0 <= i <= n,
                n == self.events@.len(),
                found@.len() == started(self.events@.take(i as int), command_names@).len(),
                forall|j: int|
                    0 <= j < found@.len() ==> *(#[trigger] found@[j]) == started(
                        self.events@.take(i as int),
                        command_names@,
                    )[j],
            decreases n - i,
        {
            proof {
                assert(self.events@.take(i + 1).drop_last() =~= self.events@.take(i as int));
            }
            match &self.events[i] {
                CommandEvent::Started(event) => {
                    if is_one_of(event.command_name.as_str(), command_names) {
                        found.push(event);
                    }
                },
                _ => {},
            }
            i = i + 1;
        }
        proof {
            assert(self.events@.take(n as int) =~= self.events@);
        }
        found
    }
}

/// Whether `e` says that a `killCursors` command was started.
pub open spec fn is_kill_cursors_started(e: CommandEvent) -> bool {
    e matches CommandEvent::Started(started) && started.command_name@ == "killCursors"@
}

/// Whether the client has sent a `killCursors` command.
pub fn kill_cursors_sent(client: &EventClient) -> (r: bool)
    ensures
        r == exists|i: int|
            0 <= i < client.events@.len() && is_kill_cursors_started(#[trigger] client.events@[i]),
{
    let names: [&str; 1] = ["killCursors"];
    let found = client.get_command_started_events(names.as_slice());
    proof {
        let ns = names@;
        lemma_started_nonempty(client.events@, ns);
        assert forall|e: CommandEvent| is_started_named(e, ns) == is_kill_cursors_started(e) by {
            if is_kill_cursors_started(e) {
            }
        }
        if found@.len() > 0 {
            let i = choose|i: int|
                0 <= i < client.events@.len() && is_started_named(#[trigger] client.events@[i], ns);
        }
    }
    found.len() > 0
}

/// Why the commands on record are not what a scenario expects.
#[derive(Clone, Copy, Debug, PartialEq, Eq, Structural)]
pub enum CommandMismatch {
    /// This many commands of the name were started instead of the one, or of
    /// the one at least, that was expected.
    Count(usize),
    /// The command does not carry the expected `allowDiskUse`.
    AllowDiskUse,
    /// The command carries no `readConcern`.
    ReadConcern,
    /// The command carries a `$readPreference` though it goes to a
    /// standalone server, or carries none though it does not.
    ReadPreference,
}

/// What the record says of a scenario that sends one `find` which is to carry
/// `allowDiskUse` as `expected` has it, or not at all if it has none.
pub open spec fn judge_allow_disk_use(events: Seq<CommandEvent>, expected: Option<bool>) -> Result<
    (),
    CommandMismatch,
> {
    let finds = started(events, seq!["find"]);
    if finds.len() != 1 {
        Err(CommandMismatch::Count(finds.len() as usize))
    } else if flag_at(finds[0].command, "allowDiskUse"@) != expected {
        Err(CommandMismatch::AllowDiskUse)
    } else {
        Ok(())
    }
}

/// Checks that exactly one `find` was started and that it carries
/// `allowDiskUse` as `expected_value` has it: with that value, or not at all.
pub fn check_allow_disk_use(client: &EventClient, expected_value: Option<bool>) -> (r: Result<
    (),
    CommandMismatch,
>)
    ensures
        r == judge_allow_disk_use(client.events@, expected_value),
{
    let names: [&str; 1] = ["find"];
    let events = client.get_command_started_events(names.as_slice());
    proof {
        assert(names@ =~= seq!["find"]);
    }
    if events.len() != 1 {
        return Err(CommandMismatch::Count(events.len()));
    }
    let allow_disk_use = get_bool(&events[0].command, "allowDiskUse");
    let same = match (allow_disk_use, expected_value) {
        (Some(a), Some(e)) => a == e,
        (None, None) => true,
        _ => false,
    };
    if same {
        Ok(())
    } else {
        Err(CommandMismatch::AllowDiskUse)
    }
}

/// What the record says of a scenario whose latest command named `name` is
/// to carry the options of its collection: a `readConcern` always, and a
/// `$readPreference` unless the server stands alone.
pub open spec fn judge_options_inherited(
    events: Seq<CommandEvent>,
    name: &str,
    standalone: bool,
) -> Result<(), CommandMismatch> {
    let sent = started(events, seq![name]);
    if sent.len() == 0 {
        Err(CommandMismatch::Count(0))
    } else if !document_keys(sent.last().command).contains("readConcern"@) {
        Err(CommandMismatch::ReadConcern)
    } else if document_keys(sent.last().command).contains("$readPreference"@) == standalone {
        Err(CommandMismatch::ReadPreference)
    } else {
        Ok(())
    }
}

/// Checks that the latest started command named `command_name` carries the
/// options of its collection.
pub fn check_options_inherited(client: &EventClient, command_name: &str, standalone: bool) -> (r:
    Result<(), CommandMismatch>)
    ensures
        r == judge_options_inherited(client.events@, command_name, standalone),
{
    let names: [&str; 1] = [command_name];
    let events = client.get_command_started_events(names.as_slice());
    proof {
        assert(names@ =~= seq![command_name]);
    }
    if events.len() == 0 {
        return Err(CommandMismatch::Count(0));
    }
    let event = events[events.len() - 1];
    if !contains_key(&event.command, "readConcern") {
        Err(CommandMismatch::ReadConcern)
    } else if contains_key(&event.command, "$readPreference") == standalone {
        Err(CommandMismatch::ReadPreference)
    } else {
        Ok(())
    }
}

/// Whether a command goes out without a `$readPreference`, as every command
/// to a standalone server must.
pub fn carries_no_read_preference(command: &Document) -> (r: bool)
    ensures
        r == !document_keys(*command).contains("$readPreference"@),
{
    !contains_key(command, "$readPreference")
}

/// Why a document that was found is not the one that was inserted.
#[derive(Clone, Copy, Debug, PartialEq, Eq, Structural)]
pub enum FoundMismatch {
    /// The document has this many entries instead of two.
    Len(usize),
    /// The document has no `_id`.
    NoId,
    /// The document does not hold the expected number under `x`.
    X,
}

/// What a document that was found is judged as, if the document that was
/// inserted held nothing but the number `x` under `x`: it has two entries,
/// one of them the `_id` it was given, and holds `x` under `x`.
pub open spec fn judge_found(document: Document, x: i32) -> Result<(), FoundMismatch> {
    if document_keys(document).len() != 2 {
        Err(FoundMismatch::Len(document_keys(document).len() as usize))
    } else if !document_keys(document).contains("_id"@) {
        Err(FoundMismatch::NoId)
    } else if number_at(document, "x"@) != Some(x) {
        Err(FoundMismatch::X)
    } else {
        Ok(())
    }
}

/// Checks a document that was found against the number it was inserted with.
pub fn check_found(document: &Document, x: i32) -> (r: Result<(), FoundMismatch>)
    ensures
        r == judge_found(*document, x),
{
    let len = entry_count(document);
    if len != 2 {
        Err(FoundMismatch::Len(len))
    } else if !contains_key(document, "_id") {
        Err(FoundMismatch::NoId)
    } else {
        match get_i32(document, "x") {
            Some(found) if found == x => Ok(()),
            _ => Err(FoundMismatch::X),
        }
    }
}

/// A document of the insert scenarios, as far as they tell one from another.
#[derive(Clone, Copy, Debug, PartialEq, Eq, Structural)]
pub enum TestDocument {
    /// The large filler document, without an `_id`.
    Large,
    /// A document that holds nothing but this `_id`.
    WithId(i32),
}

/// The number of documents of the multi-batch insert.
pub const MULTIBATCH_LEN: usize = 35000;

/// The documents of the multi-batch insert: filler everywhere but at the
/// four places that hold the same `_id`.
pub open spec fn multibatch_documents() -> Seq<TestDocument> {
    Seq::new(
        35000,
        |i: int|
            if i == 7498 || i == 7499 || i == 22499 || i == 32499 {
                TestDocument::WithId(1)
            } else {
                TestDocument::Large
            },
    )
}

/// Appends `count` filler documents.
fn extend_with_filler(docs: &mut Vec<TestDocument>, count: usize)
    ensures
        final(docs)@ == old(docs)@ + Seq::new(count as nat, |i: int| TestDocument::Large),
{
    let ghost before = docs@;
    let mut i: usize = 0;
    while i < count
        invariant
            0 <= i <= count,
            docs@ == before + Seq::new(i as nat, |i: int| TestDocument::Large),
        decreases count - i,
    {
        docs.push(TestDocument::Large);
        i = i + 1;
    }
}

/// Returns documents that cannot be sent in one batch (35000 documents),
/// with the same `_id` in different batches: at the indexes 7498 and 7499 in
/// the first, 22499 in the second and 32499 in the third.
pub fn multibatch_documents_with_duplicate_keys() -> (docs: Vec<TestDocument>)
    ensures
        docs@ == multibatch_documents(),
        docs@.len() == MULTIBATCH_LEN,
{
    let mut docs: Vec<TestDocument> = Vec::new();
    extend_with_filler(&mut docs, 7498);
    docs.push(TestDocument::WithId(1));
    docs.push(TestDocument::WithId(1));
    extend_with_filler(&mut docs, 14999);
    docs.push(TestDocument::WithId(1));
    extend_with_filler(&mut docs, 9999);
    docs.push(TestDocument::WithId(1));
    extend_with_filler(&mut docs, 2500);
    docs
}

/// Whether the document at `i` repeats the `_id` of an earlier document.
pub open spec fn repeats_earlier_id(docs: Seq<TestDocument>, i: int) -> bool {
    0 <= i < docs.len() && docs[i] is WithId && exists|j: int| 0 <= j < i && docs[j] == docs[i]
}

/// In the multi-batch insert exactly the documents at 7499, 22499 and 32499
/// repeat an earlier `_id`: these are the indexes of the write errors that an
/// unordered insert reports, and the first is where an ordered insert stops.
pub proof fn lemma_multibatch_duplicates(i: int)
    ensures
        repeats_earlier_id(multibatch_documents(), i) <==> (i == 7499 || i == 22499 || i == 32499),
{
    let docs = multibatch_documents();
    if i == 7499 || i == 22499 || i == 32499 {
        assert(docs[7498] == docs[i]);
    }
}

/// The error code of a duplicate key.
pub const DUPLICATE_KEY: i32 = 11000;

/// The character that stands in for bytes that are not valid UTF-8.
pub const REPLACEMENT_CHARACTER: char = '\u{FFFD}';

/// An error of a single write.
#[derive(Debug)]
pub struct WriteError {
    pub code: i32,
    pub code_name: Option<String>,
    pub message: String,
}

/// An error of one write of a bulk write.
#[derive(Debug)]
pub struct BulkWriteError {
    pub index: usize,
    pub code: i32,
    pub code_name: Option<String>,
    pub message: String,
}

/// An error of the write concern.
#[derive(Debug)]
pub struct WriteConcernError {
    pub code: i32,
    pub code_name: String,
    pub message: String,
    /// What the server adds to explain the error.
    pub details: Option<Document>,
}

/// What went wrong in a bulk write.
#[derive(Debug)]
pub struct BulkWriteFailure {
    pub write_errors: Option<Vec<BulkWriteError>>,
    pub write_concern_error: Option<WriteConcernError>,
}

/// What went wrong in a single write.
#[derive(Debug)]
pub enum WriteFailure {
    WriteConcernError(WriteConcernError),
    WriteError(WriteError),
}

/// The kinds of errors the scenarios tell apart.
#[derive(Debug)]
pub enum ErrorKind {
    Write(WriteFailure),
    BulkWrite(BulkWriteFailure),
    InvalidArgument { message: String },
    Command { code: i32, message: String },
    Internal { message: String },
}

/// Why an error is not the duplicate key error that was expected.
#[derive(Clone, Copy, Debug, PartialEq, Eq, Structural)]
pub enum DuplicateKeyMismatch {
    /// Neither a write error nor a bulk write error.
    NotAWriteError,
    /// A write failure, but of the write concern.
    NotAWriteFailure,
    /// A bulk write failure without write errors.
    NoWriteErrors,
    /// A bulk write failure with this many write errors instead of one.
    WriteErrorCount(usize),
    /// An error with this code instead of that of a duplicate key.
    Code(i32),
    /// A message without the replacement character.
    NoReplacementCharacter,
}

/// What an error with this code and message is judged as.
pub open spec fn judge_code_and_message(code: i32, message: Seq<char>) -> Result<
    (),
    DuplicateKeyMismatch,
> {
    if code != DUPLICATE_KEY {
        Err(DuplicateKeyMismatch::Code(code))
    } else if !message.contains(REPLACEMENT_CHARACTER) {
        Err(DuplicateKeyMismatch::NoReplacementCharacter)
    } else {
        Ok(())
    }
}

/// What `error` is judged as: a duplicate key error whose message holds the
/// replacement character, or the first thing that is wrong with it.
pub open spec fn judge_duplicate_key_error(error: ErrorKind) -> Result<(), DuplicateKeyMismatch> {
    match error {
        ErrorKind::Write(WriteFailure::WriteError(e)) => judge_code_and_message(e.code, e.message@),
        ErrorKind::Write(_) => Err(DuplicateKeyMismatch::NotAWriteFailure),
        ErrorKind::BulkWrite(failure) => match failure.write_errors {
            Some(errors) => if errors@.len() != 1 {
                Err(DuplicateKeyMismatch::WriteErrorCount(errors@.len() as usize))
            } else {
                judge_code_and_message(errors@[0].code, errors@[0].message@)
            },
            None => Err(DuplicateKeyMismatch::NoWriteErrors),
        },
        _ => Err(DuplicateKeyMismatch::NotAWriteError),
    }
}

/// Judges a code and a message.
fn check_code_and_message(code: i32, message: &String) -> (r: Result<(), DuplicateKeyMismatch>)
    ensures
        r == judge_code_and_message(code, message@),
{
    if code != DUPLICATE_KEY {
        Err(DuplicateKeyMismatch::Code(code))
    } else if !contains_char(message.as_str(), REPLACEMENT_CHARACTER) {
        Err(DuplicateKeyMismatch::NoReplacementCharacter)
    } else {
        Ok(())
    }
}

/// Checks that `error` is a duplicate key error whose message holds the
/// replacement character, which shows that a message that was not valid
/// UTF-8 was decoded all the same. Says what is wrong if it is not.
pub fn check_duplicate_key_error_with_utf8_replacement(error: &ErrorKind) -> (r: Result<
    (),
    DuplicateKeyMismatch,
>)
    ensures
        r == judge_duplicate_key_error(*error),
{
    match error {
        ErrorKind::Write(failure) => match failure {
            WriteFailure::WriteError(e) => check_code_and_message(e.code, &e.message),
            _ => Err(DuplicateKeyMismatch::NotAWriteFailure),
        },
        ErrorKind::BulkWrite(failure) => match &failure.write_errors {
            Some(errors) => {
                if errors.len() != 1 {
                    Err(DuplicateKeyMismatch::WriteErrorCount(errors.len()))
                } else {
                    check_code_and_message(errors[0].code, &errors[0].message)
                }
            },
            None => Err(DuplicateKeyMismatch::NoWriteErrors),
        },
        _ => Err(DuplicateKeyMismatch::NotAWriteError),
    }
}

/// Accepts an error that is a duplicate key error whose message holds the
/// replacement character. Any other error is a failed expectation: a caller
/// that cannot rule it out asks
/// `check_duplicate_key_error_with_utf8_replacement` first.
pub fn assert_duplicate_key_error_with_utf8_replacement(error: &ErrorKind)
    requires
        judge_duplicate_key_error(*error) is Ok,
{
    let checked = check_duplicate_key_error_with_utf8_replacement(error);
}

/// Why an error does not explain the write concern it failed for.
#[derive(Clone, Copy, Debug, PartialEq, Eq, Structural)]
pub enum DetailsMismatch {
    /// Not an error of the write concern.
    NotAWriteConcernError,
    /// The error has no details.
    NoDetails,
    /// The details hold no document under `writeConcern`.
    NoWriteConcern,
    /// The write concern in the details does not say where it comes from.
    NoProvenance,
}

/// What `error` is judged as: an error of the write concern whose details
/// hold the write concern, which says where it comes from, or the first
/// thing that is missing.
pub open spec fn judge_write_concern_details(error: ErrorKind) -> Result<(), DetailsMismatch> {
    match error {
        ErrorKind::Write(WriteFailure::WriteConcernError(e)) => match e.details {
            Some(details) => match document_child_keys(details, "writeConcern"@) {
                Some(keys) => if keys.contains("provenance"@) {
                    Ok(())
                } else {
                    Err(DetailsMismatch::NoProvenance)
                },
                None => Err(DetailsMismatch::NoWriteConcern),
            },
            None => Err(DetailsMismatch::NoDetails),
        },
        _ => Err(DetailsMismatch::NotAWriteConcernError),
    }
}

/// Checks that `error` is an error of the write concern whose details say
/// where the write concern comes from.
pub fn check_write_concern_details(error: &ErrorKind) -> (r: Result<(), DetailsMismatch>)
    ensures
        r == judge_write_concern_details(*error),
{
    match error {
        ErrorKind::Write(failure) => match failure {
            WriteFailure::WriteConcernError(e) => match &e.details {
                Some(details) => match get_document(details, "writeConcern") {
                    Some(write_concern) => {
                        if contains_key(write_concern, "provenance") {
                            Ok(())
                        } else {
                            Err(DetailsMismatch::NoProvenance)
                        }
                    },
                    None => Err(DetailsMismatch::NoWriteConcern),
                },
                None => Err(DetailsMismatch::NoDetails),
            },
            _ => Err(DetailsMismatch::NotAWriteConcernError),
        },
        _ => Err(DetailsMismatch::NotAWriteConcernError),
    }
}

} // verus!
