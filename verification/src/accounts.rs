//! Accounts.

use vstd::prelude::*;
use vstd::string::*;

use crate::db;
use crate::db::Outcome;
use crate::protocol;
use crate::protocol::{Pending, Step};
use crate::records::{CreateAccountRequest, AccountResponse};
use crate::reply;
use crate::reply::{Body, Reply};
use crate::statements::Statement;
use crate::text;

verus! {

/// Whether `step` is how a request for a new account begins.
pub open spec fn creates(request: Option<CreateAccountRequest>, step: Step) -> bool {
    match request {
        Some(request) => step == (Step::Ask {
            statement: Statement::InsertAccount {
                name: request.name,
                account_type: request.account_type,
                currency_id: request.currency_id,
            },
            pending: Pending::AccountInserted,
        }),
        None => protocol::replies_error(step, 400, "expected {name, type}"@),
    }
}

/// Whether `step` is the reply to a request for a new account, by what came of storing it.
pub open spec fn inserted(outcome: Outcome, step: Step) -> bool {
    match db::only_record::<AccountResponse>(outcome) {
        Ok(account) => step == Step::Reply(Reply { status: 201, body: Body::Account(account) }),
        Err(error) => protocol::replies_db_error(step, error),
    }
}

/// Whether `step` is how a request for all accounts begins.
pub open spec fn lists(step: Step) -> bool {
    step == (Step::Ask {
        statement: Statement::ListAccounts,
        pending: Pending::AccountsListed,
    })
}

/// Whether `step` is the reply to a request for all accounts, by what came of reading them.
pub open spec fn listed(outcome: Outcome, step: Step) -> bool {
    match outcome {
        Ok(answer) => match db::records_of::<AccountResponse>(answer.rows@) {
            Ok(accounts) => {
                &&& step matches Step::Reply(reply)
                &&& reply.status == 200
                &&& reply.body matches Body::Accounts(list)
                &&& list@ == accounts
            },
            Err(error) => protocol::is_abort(step, "failed to read account row"@, error),
        },
        Err(error) => protocol::is_abort(step, "failed to query accounts"@, error@),
    }
}

/// Whether `step` is how a request to delete an account begins. A segment that writes no row id names
/// no account.
pub open spec fn begins_delete(id: Seq<char>, step: Step) -> bool {
    match text::id_value(id) {
        Some(id) => step == (Step::Ask {
            statement: Statement::DeleteAccount { id },
            pending: Pending::AccountDeleted,
        }),
        None => protocol::replies_not_found(step),
    }
}

/// Begins to create an account.
pub fn create_account(request: Option<CreateAccountRequest>) -> (step: Step)
    ensures
        creates(request, step),
{
    match request {
        Some(request) => Step::Ask {
            statement: Statement::InsertAccount {
                name: request.name,
                account_type: request.account_type,
                currency_id: request.currency_id,
            },
            pending: Pending::AccountInserted,
        },
        None => Step::Reply(reply::error_response(400, "expected {name, type}")),
    }
}

/// Replies with the account that was stored.
pub fn account_inserted(outcome: Outcome) -> (step: Step)
    ensures
        inserted(outcome, step),
{
    match db::fetch_one::<AccountResponse>(outcome) {
        Ok(account) => Step::Reply(reply::json_response(201, Body::Account(account))),
        Err(error) => Step::Reply(reply::db_error_response(&error)),
    }
}

/// Begins to list all accounts.
pub fn list_accounts() -> (step: Step)
    ensures
        lists(step),
{
    Step::Ask { statement: Statement::ListAccounts, pending: Pending::AccountsListed }
}

/// Replies with all accounts.
pub fn accounts_listed(outcome: Outcome) -> (step: Step)
    ensures
        listed(outcome, step),
{
    match outcome {
        Ok(answer) => match db::read_rows::<AccountResponse>(&answer.rows) {
            Ok(list) => Step::Reply(reply::json_response(200, Body::Accounts(list))),
            Err(error) => Step::Abort { message: "failed to read account row".to_owned(), error },
        },
        Err(error) => Step::Abort { message: "failed to query accounts".to_owned(), error },
    }
}

/// Begins to delete an account.
pub fn delete_account(id: &str) -> (step: Step)
    ensures
        begins_delete(id@, step),
{
    match text::parse_id(id) {
        Some(id) => Step::Ask {
            statement: Statement::DeleteAccount { id },
            pending: Pending::AccountDeleted,
        },
        None => Step::Reply(reply::not_found()),
    }
}

} // verus!
