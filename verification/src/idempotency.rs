//! The idempotency store: keys, the claim that makes a command run at most
//! once, and the saved response that answers every repetition.

use crate::database::{
    lemma_key_position, Database, PersistenceError, Transaction, TransactionView,
};
use crate::http::{copy_bytes, headers_view, HeaderPair, Response};
use vstd::prelude::*;

verus! {

/// The longest idempotency key that is accepted, in characters.
pub const MAX_KEY_LENGTH: usize = 50;

/// The rule that a rejected idempotency key breaks.
#[derive(Debug, Clone, Copy, PartialEq, Eq, Structural)]
pub enum KeyError {
    /// The key has no characters.
    Empty,
    /// The key has more than [`MAX_KEY_LENGTH`] characters.
    TooLong,
    /// The key holds a character outside `[A-Za-z0-9_-]`.
    IllegalCharacter,
}

/// Whether `c` may occur in an idempotency key: an ASCII letter, an ASCII
/// digit, `_` or `-`.
pub open spec fn is_key_char(c: char) -> bool {
    ||| 'a' <= c <= 'z'
    ||| 'A' <= c <= 'Z'
    ||| '0' <= c <= '9'
    ||| c == '_'
    ||| c == '-'
}

/// The rule that `s` breaks as an idempotency key, if any. Emptiness is
/// reported before length, and length before the alphabet.
pub open spec fn key_violation(s: Seq<char>) -> Option<KeyError> {
    if s.len() == 0 {
        Some(KeyError::Empty)
    } else if s.len() > MAX_KEY_LENGTH {
        Some(KeyError::TooLong)
    } else if exists|i: int| 0 <= i < s.len() && !is_key_char(#[trigger] s[i]) {
        Some(KeyError::IllegalCharacter)
    } else {
        None
    }
}

/// Whether `s` is a well-formed idempotency key.
pub open spec fn is_valid_key(s: Seq<char>) -> bool {
    key_violation(s) is None
}

fn key_char(c: char) -> (ok: bool)
    ensures
        ok == is_key_char(c),
{
    ('a' <= c && c <= 'z') || ('A' <= c && c <= 'Z') || ('0' <= c && c <= '9') || c == '_' || c
        == '-'
}

/// Checks `s` against the rules for idempotency keys.
pub fn check_key(s: &str) -> (violation: Option<KeyError>)
    ensures
        violation == key_violation(s@),
{
    let n = s.unicode_len();
    if n == 0 {
        return Some(KeyError::Empty);
    }
    if n > MAX_KEY_LENGTH {
        return Some(KeyError::TooLong);
    }
    let mut i: usize = 0;
    while i < n
        invariant
            n == s@.len(),
            0 < n <= MAX_KEY_LENGTH,
            i <= n,
            forall|j: int| 0 <= j < i ==> is_key_char(#[trigger] s@[j]),
        decreases n - i,
    {
        if !key_char(s.get_char(i)) {
            assert(!is_key_char(s@[i as int]));
            return Some(KeyError::IllegalCharacter);
        }
        i += 1;
    }
    None
}

/// A client-supplied token that names one logical command. Every value of
/// this type is non-empty, at most [`MAX_KEY_LENGTH`] characters long and
/// drawn from `[A-Za-z0-9_-]`.
pub struct IdempotencyKey {
    key: String,
}

impl View for IdempotencyKey {
    type V = Seq<char>;

    closed spec fn view(&self) -> Seq<char> {
        self.key@
    }
}

impl IdempotencyKey {
    #[verifier::type_invariant]
    spec fn well_formed(self) -> bool {
        is_valid_key(self.key@)
    }

    /// Accepts `s` as a key, or names the rule it breaks.
    pub fn parse(s: String) -> (parsed: Result<IdempotencyKey, KeyError>)
        ensures
            match parsed {
                Ok(key) => is_valid_key(s@) && key@ == s@,
                Err(rule) => key_violation(s@) == Some(rule),
            },
    {
        match check_key(s.as_str()) {
            Some(rule) => Err(rule),
            None => Ok(IdempotencyKey { key: s }),
        }
    }

    /// The key's text, as an owned string that is borrowed.
    pub fn as_string(&self) -> (text: &String)
        ensures
            text@ == self@,
            is_valid_key(self@),
    {
        proof {
            use_type_invariant(self);
        }
        &self.key
    }

    /// The key's text.
    pub fn as_str(&self) -> (text: &str)
        ensures
            text@ == self@,
            is_valid_key(self@),
    {
        proof {
            use_type_invariant(self);
        }
        self.key.as_str()
    }

    /// Gives up the key's text.
    pub fn into_string(self) -> (text: String)
        ensures
            text@ == self@,
            is_valid_key(self@),
    {
        proof {
            use_type_invariant(&self);
        }
        self.key
    }
}

impl KeyError {
    /// The message shown to the client for this rule.
    pub fn message(&self) -> (text: &'static str)
        ensures
            text@ == match self {
                KeyError::Empty => "The idempotency key cannot be empty"@,
                KeyError::TooLong => "The idempotency key must be shorter than 51 characters"@,
                KeyError::IllegalCharacter =>
                    "The idempotency key may only contain letters, digits, '_' and '-'"@,
            },
    {
        match self {
            KeyError::Empty => "The idempotency key cannot be empty",
            KeyError::TooLong => "The idempotency key must be shorter than 51 characters",
            KeyError::IllegalCharacter =>
                "The idempotency key may only contain letters, digits, '_' and '-'",
        }
    }
}

/// Why a command was not carried out.
#[derive(Debug, Clone, Copy, PartialEq, Eq, Structural)]
pub enum CommandError {
    /// The idempotency key is malformed. Nothing was read or written.
    ValidationError(KeyError),
    /// The same command is in flight and has not saved its response yet.
    /// The caller may try again later.
    Conflict,
    /// The store refused a write. Whatever the command had written is
    /// discarded.
    PersistenceError(PersistenceError),
}

impl CommandError {
    /// The status code that answers a command which failed this way.
    pub open spec fn status(self) -> u16 {
        match self {
            CommandError::ValidationError(_) => 400,
            CommandError::Conflict => 409,
            CommandError::PersistenceError(_) => 500,
        }
    }

    pub fn status_code(&self) -> (code: u16)
        ensures
            code == self.status(),
    {
        match self {
            CommandError::ValidationError(_) => 400,
            CommandError::Conflict => 409,
            CommandError::PersistenceError(_) => 500,
        }
    }

    /// Whether the same command may succeed when it is sent again.
    pub fn is_retryable(&self) -> (retryable: bool)
        ensures
            retryable == (*self == CommandError::Conflict),
    {
        match self {
            CommandError::Conflict => true,
            _ => false,
        }
    }
}

/// What the store tells a command to do.
pub enum NextAction {
    /// The key was free and is now claimed: do the work on this transaction
    /// and save the response.
    StartProcessing(Transaction),
    /// The command was carried out before: answer with this response and do
    /// nothing else.
    ReturnSavedResponse(Response),
}

/// A row of the idempotency table as it is read back, each response field
/// possibly null.
pub struct SavedRow {
    pub status_code: Option<i16>,
    pub headers: Option<Vec<HeaderPair>>,
    pub body: Option<Vec<u8>>,
}

/// The header pairs that columns of names and of values hold side by side.
pub open spec fn paired(names: Seq<String>, values: Seq<Vec<u8>>) -> Seq<(Seq<char>, Seq<u8>)> {
    Seq::new(names.len(), |i: int| (names[i]@, values[i]@))
}

/// Puts the four nullable columns of a stored response together as a row.
/// The headers are stored as a column of names and a column of values: both
/// null, or both of one length, which are then paired in order. Anything
/// else is a corrupt row.
pub fn saved_row(
    status_code: Option<i16>,
    header_names: Option<Vec<String>>,
    header_values: Option<Vec<Vec<u8>>>,
    body: Option<Vec<u8>>,
) -> (row: Result<SavedRow, CommandError>)
    ensures
        match (header_names, header_values) {
            (None, None) => {
                &&& row matches Ok(row)
                &&& row.status_code == status_code
                &&& row.headers is None
                &&& row.body == body
            },
            (Some(names), Some(values)) => if names.len() == values.len() {
                &&& row matches Ok(row)
                &&& row.status_code == status_code
                &&& row.headers matches Some(headers) && headers_view(headers@) == paired(
                    names@,
                    values@,
                )
                &&& row.body == body
            } else {
                row matches Err(reason) && reason == CommandError::PersistenceError(
                    PersistenceError::CorruptRow,
                )
            },
            _ => row matches Err(reason) && reason == CommandError::PersistenceError(
                PersistenceError::CorruptRow,
            ),
        },
{
    match (header_names, header_values) {
        (None, None) => Ok(SavedRow { status_code, headers: None, body }),
        (Some(names), Some(values)) => {
            if names.len() != values.len() {
                return Err(CommandError::PersistenceError(PersistenceError::CorruptRow));
            }
            let mut headers: Vec<HeaderPair> = Vec::new();
            let mut i: usize = 0;
            while i < names.len()
                invariant
                    i <= names.len(),
                    names.len() == values.len(),
                    headers.len() == i,
                    forall|j: int| 0 <= j < i ==> (#[trigger] headers[j])@ == (names[j]@, values[j]@),
                decreases names.len() - i,
            {
                headers.push(HeaderPair { name: names[i].clone(), value: copy_bytes(&values[i]) });
                i += 1;
            }
            assert(headers_view(headers@) =~= paired(names@, values@));
            Ok(SavedRow { status_code, headers: Some(headers), body })
        },
        _ => Err(CommandError::PersistenceError(PersistenceError::CorruptRow)),
    }
}

/// Splits headers into the column of their names and the column of their
/// values, as they are stored.
pub fn header_columns(headers: &Vec<HeaderPair>) -> (columns: (Vec<String>, Vec<Vec<u8>>))
    ensures
        columns.0.len() == headers.len(),
        columns.1.len() == headers.len(),
        paired(columns.0@, columns.1@) == headers_view(headers@),
{
    let mut names: Vec<String> = Vec::new();
    let mut values: Vec<Vec<u8>> = Vec::new();
    let mut i: usize = 0;
    while i < headers.len()
        invariant
            i <= headers.len(),
            names.len() == i,
            values.len() == i,
            forall|j: int| 0 <= j < i ==> (names[j]@, values[j]@) == (#[trigger] headers[j])@,
        decreases headers.len() - i,
    {
        names.push(headers[i].name.clone());
        values.push(copy_bytes(&headers[i].value));
        i += 1;
    }
    assert(paired(names@, values@) =~= headers_view(headers@));
    (names, values)
}

/// Reads a stored row back as a response. A row with every field null is a
/// placeholder: the command is in flight. A row that is filled only in part,
/// or whose status code is no HTTP status, is corrupt.
pub fn restore_response(row: SavedRow) -> (restored: Result<Response, CommandError>)
    ensures
        match restored {
            Ok(response) => {
                &&& row.status_code matches Some(code)
                &&& row.headers matches Some(headers)
                &&& row.body matches Some(body)
                &&& 100 <= code <= 999
                &&& response.status_code == code
                &&& response.headers == headers
                &&& response.body == body
            },
            Err(CommandError::Conflict) => row.status_code is None && row.headers is None
                && row.body is None,
            Err(reason) => {
                &&& reason == CommandError::PersistenceError(PersistenceError::CorruptRow)
                &&& !(row.status_code is None && row.headers is None && row.body is None)
                &&& !(row.status_code matches Some(code) && 100 <= code <= 999
                    && row.headers is Some && row.body is Some)
            },
        },
{
    let SavedRow { status_code, headers, body } = row;
    match (status_code, headers, body) {
        (None, None, None) => Err(CommandError::Conflict),
        (Some(code), Some(headers), Some(body)) => {
            if 100 <= code && code <= 999 {
                Ok(Response { status_code: code as u16, headers, body })
            } else {
                Err(CommandError::PersistenceError(PersistenceError::CorruptRow))
            }
        },
        _ => Err(CommandError::PersistenceError(PersistenceError::CorruptRow)),
    }
}

/// Whether the insert of a placeholder claimed the key, given how many rows
/// it inserted: it inserts one row, or none when the key is taken.
pub fn claimed(rows_inserted: u64) -> (won: bool)
    ensures
        won == (rows_inserted > 0),
{
    rows_inserted > 0
}

/// Answers a command whose key is taken from the row that is read back. A
/// filled row is replayed. A row that is still empty, or gone because its
/// command was rolled back meanwhile, is a conflict: the command may be sent
/// again.
pub fn replay(row: Option<SavedRow>) -> (answer: Result<Response, CommandError>)
    ensures
        match row {
            None => answer matches Err(CommandError::Conflict),
            Some(row) => match answer {
                Ok(response) => {
                    &&& row.status_code matches Some(code)
                    &&& row.headers matches Some(headers)
                    &&& row.body matches Some(body)
                    &&& 100 <= code <= 999
                    &&& response.status_code == code
                    &&& response.headers == headers
                    &&& response.body == body
                },
                Err(CommandError::Conflict) => row.status_code is None && row.headers is None
                    && row.body is None,
                Err(reason) => {
                    &&& reason == CommandError::PersistenceError(PersistenceError::CorruptRow)
                    &&& !(row.status_code is None && row.headers is None && row.body is None)
                    &&& !(row.status_code matches Some(code) && 100 <= code <= 999
                        && row.headers is Some && row.body is Some)
                },
            },
        },
{
    match row {
        Some(row) => restore_response(row),
        None => Err(CommandError::Conflict),
    }
}

/// Whether the update that fills a placeholder found it, given how many rows
/// it updated: a transaction that no longer holds its claim updates none.
pub fn filled(rows_updated: u64) -> (done: Result<(), CommandError>)
    ensures
        done == if rows_updated > 0 {
            Ok::<(), CommandError>(())
        } else {
            Err::<(), CommandError>(
                CommandError::PersistenceError(PersistenceError::StaleTransaction),
            )
        },
{
    if rows_updated > 0 {
        Ok(())
    } else {
        Err(CommandError::PersistenceError(PersistenceError::StaleTransaction))
    }
}

/// Claims `(caller_id, key)` for a command, or finds out that it was claimed
/// before.
///
/// A free key is claimed with a placeholder row and the command receives the
/// transaction that holds the claim. A key with a saved response replays
/// that response, and the store is not touched. A key whose command is in
/// flight yields [`CommandError::Conflict`]: this store never waits.
pub fn try_processing(db: &mut Database, key: &IdempotencyKey, caller_id: u128) -> (next: Result<
    NextAction,
    CommandError,
>)
    requires
        old(db)@.wf(),
    ensures
        final(db)@.wf(),
        match next {
            Ok(NextAction::StartProcessing(tx)) => {
                &&& !old(db)@.has_key(caller_id, key@)
                &&& final(db)@ == old(db)@.claim(caller_id, key@)
                &&& final(db)@.in_flight(caller_id, key@)
                &&& tx@ == (TransactionView {
                    caller_id,
                    key: key@,
                    issue: None,
                    recipients: Seq::empty(),
                })
            },
            Ok(NextAction::ReturnSavedResponse(response)) => {
                &&& old(db)@.saved_response(caller_id, key@) == Some(response@)
                &&& final(db)@ == old(db)@
            },
            Err(reason) => {
                &&& reason == CommandError::Conflict
                &&& old(db)@.in_flight(caller_id, key@)
                &&& final(db)@ == old(db)@
            },
        },
{
    match db.begin_transaction(caller_id, key.as_string()) {
        Some(tx) => Ok(NextAction::StartProcessing(tx)),
        None => match db.saved_response(caller_id, key.as_string()) {
            Some(response) => Ok(NextAction::ReturnSavedResponse(response)),
            None => Err(CommandError::Conflict),
        },
    }
}

/// Validates `key` and then claims `(caller_id, key)` as [`try_processing`]
/// does. A malformed key is refused before the store is read or written.
pub fn begin(db: &mut Database, caller_id: u128, key: String) -> (next: Result<
    NextAction,
    CommandError,
>)
    requires
        old(db)@.wf(),
    ensures
        final(db)@.wf(),
        match next {
            Ok(NextAction::StartProcessing(tx)) => {
                &&& is_valid_key(key@)
                &&& !old(db)@.has_key(caller_id, key@)
                &&& final(db)@ == old(db)@.claim(caller_id, key@)
                &&& final(db)@.in_flight(caller_id, key@)
                &&& tx@ == (TransactionView {
                    caller_id,
                    key: key@,
                    issue: None,
                    recipients: Seq::empty(),
                })
            },
            Ok(NextAction::ReturnSavedResponse(response)) => {
                &&& is_valid_key(key@)
                &&& old(db)@.saved_response(caller_id, key@) == Some(response@)
                &&& final(db)@ == old(db)@
            },
            Err(CommandError::ValidationError(rule)) => {
                &&& key_violation(key@) == Some(rule)
                &&& final(db)@ == old(db)@
            },
            Err(reason) => {
                &&& reason == CommandError::Conflict
                &&& is_valid_key(key@)
                &&& old(db)@.in_flight(caller_id, key@)
                &&& final(db)@ == old(db)@
            },
        },
{
    match IdempotencyKey::parse(key) {
        Ok(key) => try_processing(db, &key, caller_id),
        Err(rule) => Err(CommandError::ValidationError(rule)),
    }
}

/// Saves `response` under the claim that `tx` holds and commits `tx`, so
/// that the response and every write staged on `tx` become durable together
/// or not at all. Hands `response` back unchanged.
///
/// The save is refused, and the transaction rolled back, when
/// `(caller_id, key)` is not the claim of `tx`, when the claim is no longer
/// in flight, or when the store refuses the staged writes.
pub fn save_response(
    db: &mut Database,
    tx: Transaction,
    key: &IdempotencyKey,
    caller_id: u128,
    response: Response,
) -> (saved: Result<Response, CommandError>)
    requires
        old(db)@.wf(),
        tx@.wf(),
    ensures
        final(db)@.wf(),
        match saved {
            Ok(same) => {
                &&& same == response
                &&& tx@.caller_id == caller_id
                &&& tx@.key == key@
                &&& old(db)@.can_commit(tx@)
                &&& final(db)@ == old(db)@.commit(tx@, response@)
                &&& final(db)@.saved_response(caller_id, key@) == Some(response@)
            },
            Err(reason) => {
                &&& !(tx@.caller_id == caller_id && tx@.key == key@ && old(db)@.can_commit(tx@))
                &&& final(db)@ == old(db)@.release(tx@.caller_id, tx@.key)
                &&& reason == CommandError::PersistenceError(
                    if !(tx@.caller_id == caller_id && tx@.key == key@) || !old(db)@.in_flight(
                        tx@.caller_id,
                        tx@.key,
                    ) {
                        PersistenceError::StaleTransaction
                    } else {
                        PersistenceError::DuplicateKey
                    },
                )
            },
        },
{
    if tx.caller_id() != caller_id || *tx.key() != *key.as_string() {
        db.rollback(tx);
        return Err(CommandError::PersistenceError(PersistenceError::StaleTransaction));
    }
    let ghost pre = db@;
    let ghost claim = tx@;
    match db.commit(tx, response.duplicate()) {
        Ok(()) => {
            proof {
                let position = pre.key_position(caller_id, key@);
                assert(crate::database::is_row_of(pre.idempotency, position, caller_id, key@));
                lemma_key_position(db@, position, caller_id, key@);
            }
            Ok(response)
        },
        Err(reason) => Err(CommandError::PersistenceError(reason)),
    }
}

} // verus!
