//! Replies, and how failures become replies.
//!
//! Every reply is made here, so that the error envelope and the status codes stay the same
//! everywhere: 201 for a creation, 200 for a read, 204 for a deletion, 400 for a refused request,
//! 404 for an unknown id, 409 for a duplicate.

use vstd::prelude::*;

use crate::db::{DbError, DbErrorView, ErrorCode};
use crate::json;
use crate::records::{AccountResponse, CategoryResponse, CurrencyResponse, TransactionResponse};

verus! {

/// SQLite's extended result code for a primary key that is already there.
pub const SQLITE_CONSTRAINT_PRIMARYKEY: i32 = 1555;

/// SQLite's extended result code for a value that a unique index already holds.
pub const SQLITE_CONSTRAINT_UNIQUE: i32 = 2067;

/// What a reply carries. All but `Empty` go out as JSON; `Error` is JSON text already.
#[derive(Debug)]
pub enum Body {
    Empty,
    Error(String),
    Currency(CurrencyResponse),
    Currencies(Vec<CurrencyResponse>),
    Category(CategoryResponse),
    Categories(Vec<CategoryResponse>),
    Account(AccountResponse),
    Accounts(Vec<AccountResponse>),
    Transaction(TransactionResponse),
    Transactions(Vec<TransactionResponse>),
}

/// A reply to a request.
#[derive(Debug)]
pub struct Reply {
    pub status: u16,
    pub body: Body,
}

impl Reply {
    /// Whether the reply goes out as `application/json`.
    pub fn is_json(&self) -> (json: bool)
        ensures
            json == !(self.body is Empty),
    {
        match self.body {
            Body::Empty => false,
            _ => true,
        }
    }
}

/// The envelope around an error message: `{"error":"<message>"}`.
pub open spec fn error_envelope(message: Seq<char>) -> Seq<char> {
    json::json_pair("error"@, message)
}

/// Whether `reply` is the error reply with this status and this message: its text is the envelope
/// around the message, and reads back as an object whose only member is the message.
pub open spec fn is_error(reply: Reply, status: u16, message: Seq<char>) -> bool {
    &&& reply.status == status
    &&& reply.body matches Body::Error(text)
    &&& text@ == error_envelope(message)
    &&& json::json_object(text@) == Some(
        seq![json::JsonMemberView { name: "error"@, text: Some(message), integer: None }],
    )
}

/// Whether `reply` says that there is no such thing.
pub open spec fn is_not_found(reply: Reply) -> bool {
    is_error(reply, 404, "not found"@)
}

/// Whether SQLite refused a row because its key, or a value that must be unique, is already there.
pub open spec fn is_duplicate(error: DbErrorView) -> bool {
    &&& error.failure matches Some(failure)
    &&& failure.extended_code == SQLITE_CONSTRAINT_PRIMARYKEY || failure.extended_code
        == SQLITE_CONSTRAINT_UNIQUE
}

/// The status that a database failure is answered with.
pub open spec fn failure_status(error: DbErrorView) -> u16 {
    if is_duplicate(error) { 409 } else { 400 }
}

/// The message that a database failure is answered with.
pub open spec fn failure_message(error: DbErrorView) -> Seq<char> {
    if is_duplicate(error) {
        "duplicate id"@
    } else {
        match error.failure {
            Some(failure) => if failure.code is ConstraintViolation {
                match failure.message {
                    Some(message) => message,
                    None => "constraint violation"@,
                }
            } else {
                error.text
            },
            None => error.text,
        }
    }
}

/// Whether `reply` is the answer to this database failure.
pub open spec fn is_db_error(reply: Reply, error: DbErrorView) -> bool {
    is_error(reply, failure_status(error), failure_message(error))
}

/// A reply that carries JSON.
pub fn json_response(status: u16, body: Body) -> (reply: Reply)
    ensures
        reply == (Reply { status, body }),
{
    Reply { status, body }
}

/// An `{"error": "<message>"}` reply.
pub fn error_response(status: u16, message: &str) -> (reply: Reply)
    ensures
        is_error(reply, status, message@),
{
    json_response(status, Body::Error(json::write_pair("error", message)))
}

/// The reply to a request for something unknown.
pub fn not_found() -> (reply: Reply)
    ensures
        is_not_found(reply),
{
    error_response(404, "not found")
}

/// The reply to a deletion that was carried out.
pub fn no_content() -> (reply: Reply)
    ensures
        reply == (Reply { status: 204, body: Body::Empty }),
{
    Reply { status: 204, body: Body::Empty }
}

/// The status and the message that a database failure is answered with: 409 where a key or a unique
/// value is already there, 400 otherwise.
pub fn map_db_error(error: &DbError) -> (mapped: (u16, String))
    ensures
        mapped.0 == failure_status(error@),
        mapped.1@ == failure_message(error@),
{
    if let Some(failure) = &error.failure {
        if failure.extended_code == SQLITE_CONSTRAINT_PRIMARYKEY || failure.extended_code
            == SQLITE_CONSTRAINT_UNIQUE {
            return (409, "duplicate id".to_owned());
        }
        if failure.code == ErrorCode::ConstraintViolation {
            return match &failure.message {
                Some(message) => (400, message.clone()),
                None => (400, "constraint violation".to_owned()),
            };
        }
    }
    (400, error.text.clone())
}

/// The reply to a database failure.
pub fn db_error_response(error: &DbError) -> (reply: Reply)
    ensures
        is_db_error(reply, error@),
{
    let mapped: (u16, String) = map_db_error(error);
    error_response(mapped.0, mapped.1.as_str())
}

/// A database failure is answered with 409 exactly where SQLite reported one of its two extended codes
/// for a value that is there already, 1555 for a primary key and 2067 for a unique index, and with 400
/// otherwise.
pub proof fn law_conflict_is_a_duplicate(error: DbErrorView)
    ensures
        failure_status(error) == 409 <==> error.failure is Some && (error.failure->0.extended_code
            == 1555 || error.failure->0.extended_code == 2067),
        failure_status(error) == 409 || failure_status(error) == 400,
{
}

/// A duplicate is called one; any other violated constraint speaks for itself, if SQLite gave it
/// words; every other failure is told as it is.
pub proof fn law_words_of_failures(error: DbErrorView)
    ensures
        failure_status(error) == 409 ==> failure_message(error) == "duplicate id"@,
        failure_status(error) != 409 && error.failure is Some
            && error.failure->0.code is ConstraintViolation ==> failure_message(error) == (
        match error.failure->0.message {
            Some(message) => message,
            None => "constraint violation"@,
        }),
        error.failure is None ==> failure_message(error) == error.text,
        failure_status(error) != 409 && error.failure is Some
            && !(error.failure->0.code is ConstraintViolation) ==> failure_message(error)
            == error.text,
{
}

/// An error reply carries its message whole: what it sends reads back as an object with one member,
/// `error`, whose text is the message. So two messages that are sent alike are the same.
pub proof fn law_error_carries_its_message(
    reply: Reply,
    status: u16,
    message: Seq<char>,
    other: Reply,
    other_status: u16,
    other_message: Seq<char>,
)
    requires
        is_error(reply, status, message),
        is_error(other, other_status, other_message),
    ensures
        reply.status == status,
        reply.body is Error,
        reply.body->Error_0@ == json::json_pair("error"@, message),
        json::json_object(reply.body->Error_0@) == Some(
            seq![json::JsonMemberView { name: "error"@, text: Some(message), integer: None }],
        ),
        reply.body->Error_0@ == other.body->Error_0@ ==> message == other_message,
{
    if reply.body->Error_0@ == other.body->Error_0@ {
        let members = json::json_object(reply.body->Error_0@)->0;
        assert(members[0].text == Some(message));
        assert(members[0].text == Some(other_message));
    }
}

/// What is not there is answered with 404 and `not found`.
pub proof fn law_not_found_says_so(reply: Reply)
    requires
        is_not_found(reply),
    ensures
        is_error(reply, 404, "not found"@),
{
}

/// An error reply is one of that status whose body is the envelope around that message, and nothing
/// else is.
pub proof fn law_envelope(reply: Reply, status: u16, message: Seq<char>)
    ensures
        error_envelope(message) == json::json_pair("error"@, message),
        is_error(reply, status, message) <==> reply.status == status && reply.body is Error
            && reply.body->Error_0@ == json::json_pair("error"@, message) && json::json_object(
            reply.body->Error_0@,
        ) == Some(
            seq![json::JsonMemberView { name: "error"@, text: Some(message), integer: None }],
        ),
        is_not_found(reply) <==> is_error(reply, 404, "not found"@),
{
}

/// The answer to a failure is the error reply with its status and its words.
pub proof fn law_failure_is_answered(reply: Reply, error: DbErrorView)
    ensures
        is_db_error(reply, error) <==> is_error(
            reply,
            if error.failure is Some && (error.failure->0.extended_code == 1555
                || error.failure->0.extended_code == 2067) {
                409
            } else {
                400
            },
            failure_message(error),
        ),
{
}

} // verus!
