//! How a request is carried out: a conversation in which the ledger puts one statement after
//! another to the database and, by what came of each, goes on to the next or replies.

use vstd::prelude::*;

use crate::accounts;
use crate::categories;
use crate::currencies;
use crate::db::{DbError, DbErrorView, Outcome};
use crate::records::{
    AccountFacts,
    CreateAccountRequest,
    CreateCategoryRequest,
    CreateCurrencyRequest,
    CreateTransactionRequest,
    CreateTransactionsBatchRequest,
    TransactionResponse,
};
use crate::reply;
use crate::reply::Reply;
use crate::statements::Statement;
use crate::transactions;

verus! {

/// A request, with its body read. `None` stands for a body that could not be read.
#[derive(Debug)]
pub enum Request {
    CreateCurrency(Option<CreateCurrencyRequest>),
    ListCurrencies,
    CreateAccount(Option<CreateAccountRequest>),
    ListAccounts,
    DeleteAccount { id: String },
    CreateCategory(Option<CreateCategoryRequest>),
    ListCategories,
    DeleteCategory { id: String },
    CreateTransactionsBatch(Option<CreateTransactionsBatchRequest>),
    CreateTransaction(Option<CreateTransactionRequest>),
    ListTransactions,
    PatchTransaction { id: String, body: String },
    DeleteTransaction { id: String },
    NotFound,
}

/// What to do next.
#[derive(Debug)]
pub enum Step {
    /// Put `statement` to the database and `resume` from `pending` with what came of it.
    Ask { statement: Statement, pending: Pending },
    /// The request is done with; this is the reply.
    Reply(Reply),
    /// The database failed where it must not: stop the program.
    Abort { message: String, error: DbError },
}

/// Where a transaction that is being stored comes from.
#[derive(Debug)]
pub enum Progress {
    /// It was sent on its own.
    Single,
    /// It is one of a batch: `created` are stored already, `waiting` come after it, the next one
    /// last.
    Batch {
        batch_id: String,
        created: Vec<TransactionResponse>,
        waiting: Vec<CreateTransactionRequest>,
    },
}

/// What a conversation waits for.
#[derive(Debug)]
pub enum Pending {
    CurrencyInserted,
    CurrenciesListed,
    CategoryInserted,
    CategoriesListed,
    CategoryDeleted,
    AccountInserted,
    AccountsListed,
    AccountDeleted,
    AccountLookedUp { row: CreateTransactionRequest, progress: Progress },
    OpposingLookedUp { row: CreateTransactionRequest, account: AccountFacts, progress: Progress },
    TransactionInserted { progress: Progress },
    BatchBegun { batch_id: String, waiting: Vec<CreateTransactionRequest> },
    BatchCommitted { created: Vec<TransactionResponse> },
    BatchRolledBack { reply: Reply },
    TransactionsListed,
    TransactionUpdated { id: String },
    TransactionReloaded,
    TransactionDeleted,
}

/// Whether `step` stops the program with this message and this error.
pub open spec fn is_abort(step: Step, message: Seq<char>, error: DbErrorView) -> bool {
    step matches Step::Abort { message: said, error: cause } && said@ == message && cause@ == error
}

/// Whether `step` is the error reply with this status and this message.
pub open spec fn replies_error(step: Step, status: u16, message: Seq<char>) -> bool {
    step matches Step::Reply(reply) && reply::is_error(reply, status, message)
}

/// Whether `step` is the answer to this database failure.
pub open spec fn replies_db_error(step: Step, error: DbErrorView) -> bool {
    replies_error(step, reply::failure_status(error), reply::failure_message(error))
}

/// Whether `step` says that there is no such thing.
pub open spec fn replies_not_found(step: Step) -> bool {
    step matches Step::Reply(reply) && reply::is_not_found(reply)
}

/// Whether `step` is the reply to a deletion that was carried out.
pub open spec fn replies_no_content(step: Step) -> bool {
    step == Step::Reply(Reply { status: 204, body: reply::Body::Empty })
}

/// Whether `step` goes on from the outcome of a deletion: no row of that id, one that is gone, or a
/// refusal by the database.
pub open spec fn deletes(outcome: Outcome, step: Step) -> bool {
    match outcome {
        Ok(answer) => if answer.changed == 0 {
            replies_not_found(step)
        } else {
            replies_no_content(step)
        },
        Err(error) => replies_db_error(step, error@),
    }
}

/// Whether `step` is how `request` begins.
pub open spec fn begins(request: Request, step: Step) -> bool {
    match request {
        Request::CreateCurrency(request) => currencies::creates(request, step),
        Request::ListCurrencies => currencies::lists(step),
        Request::CreateAccount(request) => accounts::creates(request, step),
        Request::ListAccounts => accounts::lists(step),
        Request::DeleteAccount { id } => accounts::begins_delete(id@, step),
        Request::CreateCategory(request) => categories::creates(request, step),
        Request::ListCategories => categories::lists(step),
        Request::DeleteCategory { id } => categories::begins_delete(id@, step),
        Request::CreateTransactionsBatch(request) => transactions::creates_batch(request, step),
        Request::CreateTransaction(request) => transactions::creates(request, step),
        Request::ListTransactions => transactions::lists(step),
        Request::PatchTransaction { id, body } => transactions::patches(id, body@, step),
        Request::DeleteTransaction { id } => transactions::begins_delete(id, step),
        Request::NotFound => replies_not_found(step),
    }
}

/// Whether `step` is how a conversation goes on from `pending` by `outcome`.
pub open spec fn resumes(pending: Pending, outcome: Outcome, step: Step) -> bool {
    match pending {
        Pending::CurrencyInserted => currencies::inserted(outcome, step),
        Pending::CurrenciesListed => currencies::listed(outcome, step),
        Pending::CategoryInserted => categories::inserted(outcome, step),
        Pending::CategoriesListed => categories::listed(outcome, step),
        Pending::CategoryDeleted => categories::deleted(outcome, step),
        Pending::AccountInserted => accounts::inserted(outcome, step),
        Pending::AccountsListed => accounts::listed(outcome, step),
        Pending::AccountDeleted => deletes(outcome, step),
        Pending::AccountLookedUp { row, progress } => transactions::account_checked(
            row,
            progress,
            outcome,
            step,
        ),
        Pending::OpposingLookedUp { row, account, progress } => transactions::opposing_checked(
            row,
            account,
            progress,
            outcome,
            step,
        ),
        Pending::TransactionInserted { progress } => transactions::inserted(
            progress,
            outcome,
            step,
        ),
        Pending::BatchBegun { batch_id, waiting } => transactions::begun(
            batch_id,
            waiting@,
            outcome,
            step,
        ),
        Pending::BatchCommitted { created } => transactions::committed(created, outcome, step),
        Pending::BatchRolledBack { reply } => transactions::rolled_back(reply, outcome, step),
        Pending::TransactionsListed => transactions::listed(outcome, step),
        Pending::TransactionUpdated { id } => transactions::updated(id, outcome, step),
        Pending::TransactionReloaded => transactions::reloaded(outcome, step),
        Pending::TransactionDeleted => deletes(outcome, step),
    }
}

/// Begins to carry out a request.
pub fn begin(request: Request) -> (step: Step)
    ensures
        begins(request, step),
{
    match request {
        Request::CreateCurrency(request) => currencies::create_currency(request),
        Request::ListCurrencies => currencies::list_currencies(),
        Request::CreateAccount(request) => accounts::create_account(request),
        Request::ListAccounts => accounts::list_accounts(),
        Request::DeleteAccount { id } => accounts::delete_account(id.as_str()),
        Request::CreateCategory(request) => categories::create_category(request),
        Request::ListCategories => categories::list_categories(),
        Request::DeleteCategory { id } => categories::delete_category(id.as_str()),
        Request::CreateTransactionsBatch(request) => transactions::create_transactions_batch(
            request,
        ),
        Request::CreateTransaction(request) => transactions::create_transaction(request),
        Request::ListTransactions => transactions::list_transactions(),
        Request::PatchTransaction { id, body } => transactions::patch_transaction(
            id,
            body.as_str(),
        ),
        Request::DeleteTransaction { id } => transactions::delete_transaction(id),
        Request::NotFound => Step::Reply(reply::not_found()),
    }
}

/// Goes on with a conversation by what came of its last statement.
pub fn resume(pending: Pending, outcome: Outcome) -> (step: Step)
    ensures
        resumes(pending, outcome, step),
{
    match pending {
        Pending::CurrencyInserted => currencies::currency_inserted(outcome),
        Pending::CurrenciesListed => currencies::currencies_listed(outcome),
        Pending::CategoryInserted => categories::category_inserted(outcome),
        Pending::CategoriesListed => categories::categories_listed(outcome),
        Pending::CategoryDeleted => categories::category_deleted(outcome),
        Pending::AccountInserted => accounts::account_inserted(outcome),
        Pending::AccountsListed => accounts::accounts_listed(outcome),
        Pending::AccountDeleted => row_deleted(outcome),
        Pending::AccountLookedUp { row, progress } => transactions::account_looked_up(
            row,
            progress,
            outcome,
        ),
        Pending::OpposingLookedUp { row, account, progress } => transactions::opposing_looked_up(
            row,
            account,
            progress,
            outcome,
        ),
        Pending::TransactionInserted { progress } => transactions::transaction_inserted(
            progress,
            outcome,
        ),
        Pending::BatchBegun { batch_id, waiting } => transactions::batch_begun(
            batch_id,
            waiting,
            outcome,
        ),
        Pending::BatchCommitted { created } => transactions::batch_committed(created, outcome),
        Pending::BatchRolledBack { reply } => transactions::batch_rolled_back(reply, outcome),
        Pending::TransactionsListed => transactions::transactions_listed(outcome),
        Pending::TransactionUpdated { id } => transactions::transaction_updated(id, outcome),
        Pending::TransactionReloaded => transactions::transaction_reloaded(outcome),
        Pending::TransactionDeleted => row_deleted(outcome),
    }
}

/// Goes on from a deletion that the database may refuse.
pub fn row_deleted(outcome: Outcome) -> (step: Step)
    ensures
        deletes(outcome, step),
{
    match outcome {
        Ok(answer) => if answer.changed == 0 {
            Step::Reply(reply::not_found())
        } else {
            Step::Reply(reply::no_content())
        },
        Err(error) => Step::Reply(reply::db_error_response(&error)),
    }
}

} // verus!
