//! What holds of whole conversations, whatever the database answers.

use vstd::prelude::*;

use crate::dates;
use crate::db;
use crate::db::{Cell, DbErrorView, Outcome};
use crate::json;
use crate::protocol;
use crate::protocol::{Pending, Progress, Request, Step};
use crate::records::{
    AccountFacts,
    AccountResponse,
    CategoryResponse,
    CreateTransactionRequest,
    CreateTransactionsBatchRequest,
    CurrencyResponse,
    TransactionResponse,
};
use crate::reply;
use crate::reply::{Body, Reply};
use crate::statements;
use crate::statements::Statement;
use crate::text;
use crate::transactions;
use crate::validation;
use crate::validation::TransactionFault;

verus! {

// Conversations.

/// Whether step `i` asks something, came to `outcomes[i]`, and is followed by what that leads to.
pub open spec fn is_followed(steps: Seq<Step>, outcomes: Seq<Outcome>, i: int) -> bool {
    &&& steps[i] is Ask
    &&& protocol::resumes(steps[i]->pending, outcomes[i], steps[i + 1])
}

/// Whether `steps` is a conversation about `request`, or its beginning, in which the statement of
/// step `i` came to `outcomes[i]`.
pub open spec fn is_run(request: Request, steps: Seq<Step>, outcomes: Seq<Outcome>) -> bool {
    &&& steps.len() == outcomes.len() + 1
    &&& protocol::begins(request, steps[0])
    &&& forall|i: int| 0 <= i < outcomes.len() ==> #[trigger] is_followed(steps, outcomes, i)
}

/// Whether `step` puts a statement to the database that may change a row.
pub open spec fn asks_to_write(step: Step) -> bool {
    step matches Step::Ask { statement, .. } && statements::writes(statement)
}

/// Whether `statement` is the one whose outcome `pending` waits for. A transaction whose date is none
/// is not waited for.
pub open spec fn belongs(statement: Statement, pending: Pending) -> bool {
    match pending {
        Pending::CurrencyInserted => statement is InsertCurrency,
        Pending::CurrenciesListed => statement is ListCurrencies,
        Pending::CategoryInserted => statement is InsertCategory,
        Pending::CategoriesListed => statement is ListCategories,
        Pending::CategoryDeleted => statement is DeleteCategory,
        Pending::AccountInserted => statement is InsertAccount,
        Pending::AccountsListed => statement is ListAccounts,
        Pending::AccountDeleted => statement is DeleteAccount,
        Pending::AccountLookedUp { row, .. } => {
            &&& statement == (Statement::LookupAccount { id: row.account_id })
            &&& validation::date_fault(row.date@) is None
        },
        Pending::OpposingLookedUp { row, .. } => {
            &&& statement == (Statement::LookupAccount { id: row.opposing_account_id })
            &&& validation::date_fault(row.date@) is None
        },
        Pending::TransactionInserted { .. } => statement is InsertTransaction,
        Pending::BatchBegun { .. } => statement is Begin,
        Pending::BatchCommitted { .. } => statement is Commit,
        Pending::BatchRolledBack { .. } => statement is Rollback,
        Pending::TransactionsListed => statement is ListTransactions,
        Pending::TransactionUpdated { id } => {
            statement matches Statement::UpdateTransaction { id: row, .. } && row == id
        },
        Pending::TransactionReloaded => statement is SelectTransaction,
        Pending::TransactionDeleted => statement is DeleteTransaction,
    }
}

/// Whether `reply` turns a request down: it carries a message in the error envelope.
pub open spec fn is_refusal(reply: Reply) -> bool {
    exists|message: Seq<char>| #[trigger]
        reply::is_error(reply, reply.status, message) && (reply.status == 400 || reply.status == 404
            || reply.status == 409)
}

/// Whether `reply` is one of those that `request` may get: 201 with what was created, 200 with what
/// was read or changed, 204 for a deletion, 404 for something unknown, and otherwise 400 or 409 with a
/// message.
pub open spec fn fits(request: Request, reply: Reply) -> bool {
    let refused = is_refusal(reply) && reply.status != 404;
    let deleted = reply.status == 204 && reply.body is Empty;
    match request {
        Request::CreateCurrency(_) => refused || reply.status == 201 && reply.body is Currency,
        Request::CreateCategory(_) => refused || reply.status == 201 && reply.body is Category,
        Request::CreateAccount(_) => refused || reply.status == 201 && reply.body is Account,
        Request::CreateTransaction(_) => refused || reply.status == 201
            && reply.body is Transaction,
        Request::CreateTransactionsBatch(_) => refused || reply.status == 201
            && reply.body is Transactions,
        Request::ListCurrencies => reply.status == 200 && reply.body is Currencies,
        Request::ListCategories => reply.status == 200 && reply.body is Categories,
        Request::ListAccounts => reply.status == 200 && reply.body is Accounts,
        Request::ListTransactions => reply.status == 200 && reply.body is Transactions,
        Request::DeleteCategory { .. } => reply::is_not_found(reply) || deleted,
        Request::DeleteAccount { .. } => refused || reply::is_not_found(reply) || deleted,
        Request::DeleteTransaction { .. } => refused || reply::is_not_found(reply) || deleted,
        Request::PatchTransaction { .. } => refused || reply::is_not_found(reply) || reply.status
            == 200 && reply.body is Transaction,
        Request::NotFound => reply::is_not_found(reply),
    }
}

/// Whether a conversation about `request` may wait for `pending`.
spec fn concerns(request: Request, pending: Pending) -> bool {
    match pending {
        Pending::CurrencyInserted => request is CreateCurrency,
        Pending::CurrenciesListed => request is ListCurrencies,
        Pending::CategoryInserted => request is CreateCategory,
        Pending::CategoriesListed => request is ListCategories,
        Pending::CategoryDeleted => request is DeleteCategory,
        Pending::AccountInserted => request is CreateAccount,
        Pending::AccountsListed => request is ListAccounts,
        Pending::AccountDeleted => request is DeleteAccount,
        Pending::AccountLookedUp { progress, .. } => stores_for(request, progress),
        Pending::OpposingLookedUp { progress, .. } => stores_for(request, progress),
        Pending::TransactionInserted { progress } => stores_for(request, progress),
        Pending::BatchBegun { .. } => request is CreateTransactionsBatch,
        Pending::BatchCommitted { .. } => request is CreateTransactionsBatch,
        Pending::BatchRolledBack { reply } => request is CreateTransactionsBatch && is_refusal(
            reply,
        ) && reply.status != 404,
        Pending::TransactionsListed => request is ListTransactions,
        Pending::TransactionUpdated { .. } => request is PatchTransaction,
        Pending::TransactionReloaded => request is PatchTransaction,
        Pending::TransactionDeleted => request is DeleteTransaction,
    }
}

spec fn stores_for(request: Request, progress: Progress) -> bool {
    match progress {
        Progress::Single => request is CreateTransaction,
        Progress::Batch { .. } => request is CreateTransactionsBatch,
    }
}

spec fn is_sound(request: Request, step: Step) -> bool {
    match step {
        Step::Ask { statement, pending } => belongs(statement, pending) && concerns(
            request,
            pending,
        ),
        Step::Reply(reply) => fits(request, reply),
        Step::Abort { .. } => true,
    }
}

proof fn lemma_begin_is_sound(request: Request, step: Step)
    requires
        protocol::begins(request, step),
    ensures
        is_sound(request, step),
{
}

proof fn lemma_resume_is_sound(request: Request, step: Step, outcome: Outcome, next: Step)
    requires
        is_sound(request, step),
        step is Ask,
        protocol::resumes(step->pending, outcome, next),
    ensures
        is_sound(request, next),
{
}

proof fn lemma_run_is_sound(request: Request, steps: Seq<Step>, outcomes: Seq<Outcome>, i: int)
    requires
        is_run(request, steps, outcomes),
        0 <= i < steps.len(),
    ensures
        is_sound(request, steps[i]),
    decreases i,
{
    if i == 0 {
        lemma_begin_is_sound(request, steps[0]);
    } else {
        lemma_run_is_sound(request, steps, outcomes, i - 1);
        assert(is_followed(steps, outcomes, i - 1));
        lemma_resume_is_sound(request, steps[i - 1], outcomes[i - 1], steps[i]);
    }
}

/// Every step that asks something waits for the outcome of just that.
pub proof fn lemma_statement_belongs(
    request: Request,
    steps: Seq<Step>,
    outcomes: Seq<Outcome>,
    i: int,
)
    requires
        is_run(request, steps, outcomes),
        0 <= i < steps.len(),
        steps[i] is Ask,
    ensures
        belongs(steps[i]->statement, steps[i]->pending),
{
    lemma_run_is_sound(request, steps, outcomes, i);
}

/// Every reply fits the request: its status says what became of it, and it carries what its status
/// says.
pub proof fn law_reply_fits_request(
    request: Request,
    steps: Seq<Step>,
    outcomes: Seq<Outcome>,
    i: int,
)
    requires
        is_run(request, steps, outcomes),
        0 <= i < steps.len(),
        steps[i] is Reply,
    ensures
        fits(request, steps[i]->Reply_0),
{
    lemma_run_is_sound(request, steps, outcomes, i);
}

/// A request for a list, or for something unknown, changes nothing.
pub proof fn law_reading_writes_nothing(
    request: Request,
    steps: Seq<Step>,
    outcomes: Seq<Outcome>,
    i: int,
)
    requires
        is_run(request, steps, outcomes),
        request is ListCurrencies || request is ListCategories || request is ListAccounts
            || request is ListTransactions || request is NotFound,
        0 <= i < steps.len(),
    ensures
        !asks_to_write(steps[i]),
{
    if i > 0 {
        assert(is_followed(steps, outcomes, 0));
        if i > 1 {
            assert(is_followed(steps, outcomes, 1));
        }
    }
}

// Storing transactions.

/// What is wrong with `row`, by its date and by the lookups of its two accounts that came to
/// `outcomes[i]` and `outcomes[i + 1]`.
pub open spec fn fault_of(
    row: CreateTransactionRequest,
    outcomes: Seq<Outcome>,
    i: int,
) -> Option<TransactionFault> {
    match validation::date_fault(row.date@) {
        Some(fault) => Some(fault),
        None => validation::transaction_fault(
            row.account_id,
            transactions::looked_up(outcomes[i]),
            row.opposing_account_id,
            transactions::looked_up(outcomes[i + 1]),
            row.opposing_amount,
        ),
    }
}

/// No transaction goes to the table, alone or in a batch, but with a date, and right after its two
/// accounts were looked up and found to allow it.
pub proof fn law_only_transactions_in_order_are_stored(
    request: Request,
    steps: Seq<Step>,
    outcomes: Seq<Outcome>,
    i: int,
    row: CreateTransactionRequest,
)
    requires
        is_run(request, steps, outcomes),
        0 <= i < steps.len(),
        steps[i] is Ask,
        steps[i]->statement == (Statement::InsertTransaction { row }),
    ensures
        i >= 2,
        steps[i - 2]->statement == (Statement::LookupAccount { id: row.account_id }),
        steps[i - 1]->statement == (Statement::LookupAccount { id: row.opposing_account_id }),
        fault_of(row, outcomes, i - 2) is None,
{
    lemma_run_is_sound(request, steps, outcomes, i);
    assert(i >= 1);
    assert(is_followed(steps, outcomes, i - 1));
    lemma_run_is_sound(request, steps, outcomes, i - 1);
    assert(steps[i - 1]->pending is OpposingLookedUp);
    assert(i >= 2);
    assert(is_followed(steps, outcomes, i - 2));
    lemma_run_is_sound(request, steps, outcomes, i - 2);
    assert(steps[i - 2]->pending is AccountLookedUp);
}

/// A transaction on its own whose date is none, or whose accounts do not allow it, is answered with
/// 400 and the reason, and nothing is written.
pub proof fn law_refused_transaction_writes_nothing(
    request: CreateTransactionRequest,
    steps: Seq<Step>,
    outcomes: Seq<Outcome>,
)
    requires
        is_run(Request::CreateTransaction(Some(request)), steps, outcomes),
        steps.last() is Reply,
        fault_of(request, outcomes, 0) is Some,
    ensures
        reply::is_error(
            steps.last()->Reply_0,
            400,
            validation::fault_message(fault_of(request, outcomes, 0)->0),
        ),
        forall|i: int| 0 <= i < steps.len() ==> !asks_to_write(#[trigger] steps[i]),
{
    if steps.len() > 1 {
        assert(is_followed(steps, outcomes, 0));
        if steps.len() > 2 {
            assert(is_followed(steps, outcomes, 1));
            if steps.len() > 3 {
                assert(is_followed(steps, outcomes, 2));
            }
        }
    }
}

// Batches.

/// The rows that the conversation has put to the table so far, in order.
pub open spec fn rows_sent(steps: Seq<Step>) -> Seq<CreateTransactionRequest>
    decreases steps.len(),
{
    if steps.len() == 0 {
        seq![]
    } else {
        let before = rows_sent(steps.drop_last());
        match steps.last() {
            Step::Ask { statement: Statement::InsertTransaction { row }, .. } => before.push(row),
            _ => before,
        }
    }
}

/// The rows that the table gave back for those put to it so far, in order.
pub open spec fn rows_stored(steps: Seq<Step>, outcomes: Seq<Outcome>) -> Seq<TransactionResponse>
    decreases outcomes.len(),
{
    if outcomes.len() == 0 {
        seq![]
    } else {
        let before = rows_stored(steps.drop_last(), outcomes.drop_last());
        match steps[outcomes.len() - 1] {
            Step::Ask { statement: Statement::InsertTransaction { .. }, .. } => {
                match db::only_record::<TransactionResponse>(outcomes.last()) {
                    Ok(row) => before.push(row),
                    Err(_) => before,
                }
            },
            _ => before,
        }
    }
}

/// A database as far as a conversation can tell: its rows, and, while a transaction of the database
/// is open, the rows that it had before.
pub struct Store<S> {
    pub rows: S,
    pub before: Option<S>,
}

/// What a statement that came to `outcome` does to a store. A statement that fails does nothing;
/// what one that writes does to the rows is up to `effect`.
pub open spec fn performed<S>(
    store: Store<S>,
    effect: spec_fn(S, Statement, Outcome) -> S,
    statement: Statement,
    outcome: Outcome,
) -> Store<S> {
    if outcome is Err {
        store
    } else {
        match statement {
            Statement::Begin => Store { before: Some(store.rows), ..store },
            Statement::Commit => Store { before: None, ..store },
            Statement::Rollback => match store.before {
                Some(rows) => Store { rows, before: None },
                None => store,
            },
            _ => if statements::writes(statement) {
                Store { rows: effect(store.rows, statement, outcome), ..store }
            } else {
                store
            },
        }
    }
}

/// What a conversation does to a store.
pub open spec fn after<S>(
    store: Store<S>,
    effect: spec_fn(S, Statement, Outcome) -> S,
    steps: Seq<Step>,
    outcomes: Seq<Outcome>,
) -> Store<S>
    decreases outcomes.len(),
{
    if outcomes.len() == 0 {
        store
    } else {
        performed(
            after(store, effect, steps.drop_last(), outcomes.drop_last()),
            effect,
            steps[outcomes.len() - 1]->statement,
            outcomes.last(),
        )
    }
}

/// What the rows become by the effects of a conversation's writing statements alone, in order.
pub open spec fn with_effects<S>(
    rows: S,
    effect: spec_fn(S, Statement, Outcome) -> S,
    steps: Seq<Step>,
    outcomes: Seq<Outcome>,
) -> S
    decreases outcomes.len(),
{
    if outcomes.len() == 0 {
        rows
    } else {
        let before = with_effects(rows, effect, steps.drop_last(), outcomes.drop_last());
        let statement = steps[outcomes.len() - 1]->statement;
        if statements::writes(statement) && outcomes.last() is Ok {
            effect(before, statement, outcomes.last())
        } else {
            before
        }
    }
}

/// Whether `row`, with this progress, is the transaction of the batch that comes after the stored ones.
pub open spec fn in_progress(
    request: CreateTransactionsBatchRequest,
    row: CreateTransactionRequest,
    progress: Progress,
    stored: Seq<TransactionResponse>,
) -> bool {
    let items = request.transactions@;
    &&& progress matches Progress::Batch { batch_id, created, waiting }
    &&& batch_id == request.batch_id
    &&& created@ == stored
    &&& stored.len() < items.len()
    &&& row == batch_row(request, stored.len() as int)
    &&& validation::date_fault(row.date@) is None
    &&& waiting@ == items.skip(stored.len() as int + 1).reverse()
}

/// Whether `reply` says why `row` was not stored: its fault, by the lookups from `outcomes[i]` on,
/// or, where it has none, the failure of its insertion that came to `outcomes[i + 2]`.
pub open spec fn says_why(
    reply: Reply,
    row: CreateTransactionRequest,
    outcomes: Seq<Outcome>,
    i: int,
) -> bool {
    match fault_of(row, outcomes, i) {
        Some(fault) => reply::is_error(reply, 400, validation::fault_message(fault)),
        None => {
            &&& db::only_record::<TransactionResponse>(outcomes[i + 2]) matches Err(error)
            &&& reply::is_db_error(reply, error)
        },
    }
}

/// The row that the `j`th transaction of a batch is stored as: the transaction as it was sent, but
/// under the batch id of the batch.
pub open spec fn batch_row(
    request: CreateTransactionsBatchRequest,
    j: int,
) -> CreateTransactionRequest {
    let sent = request.transactions@[j];
    CreateTransactionRequest {
        id: sent.id,
        batch_id: Some(request.batch_id),
        description: sent.description,
        date: sent.date,
        amount: sent.amount,
        opposing_amount: sent.opposing_amount,
        account_id: sent.account_id,
        opposing_account_id: sent.opposing_account_id,
        category_id: sent.category_id,
    }
}

/// Where a conversation about a batch stands at `step`, after these outcomes, with these rows sent
/// and these rows stored; `last` is the statement before `step`.
pub open spec fn batch_stands(
    request: CreateTransactionsBatchRequest,
    sent: Seq<CreateTransactionRequest>,
    stored: Seq<TransactionResponse>,
    outcomes: Seq<Outcome>,
    last: Statement,
    step: Step,
) -> bool {
    let size = request.transactions@.len();
    let count = stored.len() as int;
    &&& sent.len() <= size
    &&& forall|j: int| 0 <= j < sent.len() ==> #[trigger] sent[j] == batch_row(request, j)
    &&& match step {
        Step::Ask { statement, pending } => match pending {
            Pending::BatchBegun { batch_id, waiting } => {
                &&& statement is Begin
                &&& outcomes.len() == 0
                &&& sent.len() == count == 0
                &&& batch_id == request.batch_id
                &&& waiting@ == request.transactions@.reverse()
            },
            Pending::AccountLookedUp { row, progress } => {
                &&& statement is LookupAccount
                &&& in_progress(request, row, progress, stored)
                &&& sent.len() == count
                &&& outcomes.len() == 3 * count + 1
            },
            Pending::OpposingLookedUp { row, account, progress } => {
                &&& statement is LookupAccount
                &&& in_progress(request, row, progress, stored)
                &&& transactions::looked_up(outcomes.last()) == Some(account)
                &&& validation::account_fault(row.account_id, Some(account)) is None
                &&& sent.len() == count
                &&& outcomes.len() == 3 * count + 2
            },
            Pending::TransactionInserted { progress } => {
                &&& statement matches Statement::InsertTransaction { row }
                &&& in_progress(request, row, progress, stored)
                &&& fault_of(row, outcomes, 3 * count + 1) is None
                &&& sent.len() == count + 1
                &&& outcomes.len() == 3 * count + 3
            },
            Pending::BatchCommitted { created } => {
                &&& statement is Commit
                &&& created@ == stored
                &&& sent.len() == count == size
                &&& outcomes.len() == 3 * count + 1
            },
            Pending::BatchRolledBack { reply } => {
                &&& statement is Rollback
                &&& count < size
                &&& 3 * count + 1 <= outcomes.len() <= 3 * count + 4
                &&& outcomes.len() == 3 * count + 1 ==> validation::date_fault(
                    batch_row(request, count).date@,
                ) is Some
                &&& outcomes.len() == 3 * count + 2 ==> validation::account_fault(
                    batch_row(request, count).account_id,
                    transactions::looked_up(outcomes.last()),
                ) is Some
                &&& outcomes.len() == 3 * count + 3 ==> fault_of(
                    batch_row(request, count),
                    outcomes,
                    3 * count + 1,
                ) is Some
                &&& says_why(reply, batch_row(request, count), outcomes, 3 * count + 1)
            },
            _ => false,
        },
        Step::Reply(reply) => {
            &&& outcomes.last() is Ok
            &&& outcomes.len() <= 3 * size + 2
            &&& if last is Commit {
                &&& reply.status == 201
                &&& reply.body matches Body::Transactions(list)
                &&& list@ == stored
                &&& sent.len() == count == size
            } else {
                &&& last is Rollback
                &&& reply.status != 201
                &&& count < size
                &&& says_why(reply, batch_row(request, count), outcomes, 3 * count + 1)
            }
        },
        Step::Abort { .. } => true,
    }
}

spec fn with_sent(sent: Seq<CreateTransactionRequest>, step: Step) -> Seq<CreateTransactionRequest> {
    match step {
        Step::Ask { statement: Statement::InsertTransaction { row }, .. } => sent.push(row),
        _ => sent,
    }
}

spec fn with_stored(
    stored: Seq<TransactionResponse>,
    statement: Statement,
    outcome: Outcome,
) -> Seq<TransactionResponse> {
    match statement {
        Statement::InsertTransaction { .. } => {
            match db::only_record::<TransactionResponse>(outcome) {
                Ok(row) => stored.push(row),
                Err(_) => stored,
            }
        },
        _ => stored,
    }
}

pub proof fn lemma_shorter_run(request: Request, steps: Seq<Step>, outcomes: Seq<Outcome>)
    requires
        is_run(request, steps, outcomes),
        outcomes.len() > 0,
    ensures
        is_run(request, steps.drop_last(), outcomes.drop_last()),
        steps.drop_last().last() == steps[outcomes.len() - 1],
        steps[outcomes.len() - 1] is Ask,
        protocol::resumes(steps[outcomes.len() - 1]->pending, outcomes.last(), steps.last()),
{
    let shorter = steps.drop_last();
    assert forall|i: int| 0 <= i < outcomes.drop_last().len() implies #[trigger] is_followed(
        shorter,
        outcomes.drop_last(),
        i,
    ) by {
        assert(is_followed(steps, outcomes, i));
    }
    assert(is_followed(steps, outcomes, outcomes.len() - 1));
}

proof fn lemma_batch_goes_on(
    request: CreateTransactionsBatchRequest,
    stored: Seq<TransactionResponse>,
    waiting: Seq<CreateTransactionRequest>,
    step: Step,
)
    requires
        stored.len() <= request.transactions@.len(),
        waiting == request.transactions@.skip(stored.len() as int).reverse(),
        transactions::goes_on(request.batch_id, stored, waiting, step),
    ensures
        step is Ask,
        stored.len() == request.transactions@.len() ==> {
            &&& step->statement is Commit
            &&& step->pending matches Pending::BatchCommitted { created }
            &&& created@ == stored
        },
        stored.len() < request.transactions@.len() ==> match validation::date_fault(
            batch_row(request, stored.len() as int).date@,
        ) {
            Some(fault) => transactions::undoes(400, validation::fault_message(fault), step),
            None => {
                &&& step->statement is LookupAccount
                &&& step->pending matches Pending::AccountLookedUp { row, progress }
                &&& in_progress(request, row, progress, stored)
            },
        },
{
    let items = request.transactions@;
    if stored.len() < items.len() {
        assert(waiting.last() == items[stored.len() as int]);
        assert(waiting.drop_last() =~= items.skip(stored.len() as int + 1).reverse());
    }
}

proof fn lemma_batch_step(
    request: CreateTransactionsBatchRequest,
    sent: Seq<CreateTransactionRequest>,
    stored: Seq<TransactionResponse>,
    outcomes: Seq<Outcome>,
    last: Statement,
    step: Step,
    outcome: Outcome,
    next: Step,
)
    requires
        batch_stands(request, sent, stored, outcomes, last, step),
        step is Ask,
        protocol::resumes(step->pending, outcome, next),
    ensures
        batch_stands(
            request,
            with_sent(sent, next),
            with_stored(stored, step->statement, outcome),
            outcomes.push(outcome),
            step->statement,
            next,
        ),
{
    let count = stored.len() as int;
    let longer = outcomes.push(outcome);
    match step->pending {
        Pending::BatchBegun { batch_id, waiting } => {
            if outcome is Ok {
                assert(request.transactions@.skip(0) =~= request.transactions@);
                assert(stored =~= seq![]);
                lemma_batch_goes_on(request, seq![], waiting@, next);
            }
        },
        Pending::AccountLookedUp { row, progress } => {
            assert(longer[3 * count + 1] == outcome);
        },
        Pending::OpposingLookedUp { row, account, progress } => {
            assert(longer[3 * count + 1] == outcomes.last());
            assert(longer[3 * count + 2] == outcome);
        },
        Pending::TransactionInserted { progress } => {
            assert(longer[3 * count + 1] == outcomes[3 * count + 1]);
            assert(longer[3 * count + 2] == outcomes[3 * count + 2]);
            assert(longer[3 * count + 3] == outcome);
            if let Ok(row) = db::only_record::<TransactionResponse>(outcome) {
                lemma_batch_goes_on(request, stored.push(row), progress->waiting@, next);
            }
        },
        Pending::BatchRolledBack { reply } => {
            assert forall|i: int| 0 <= i < outcomes.len() implies longer[i] == outcomes[i] by {}
        },
        _ => {},
    }
}

/// Where a conversation about a batch stands.
pub proof fn lemma_batch(
    request: CreateTransactionsBatchRequest,
    steps: Seq<Step>,
    outcomes: Seq<Outcome>,
)
    requires
        is_run(Request::CreateTransactionsBatch(Some(request)), steps, outcomes),
    ensures
        batch_stands(
            request,
            rows_sent(steps),
            rows_stored(steps, outcomes),
            outcomes,
            steps[outcomes.len() - 1]->statement,
            steps.last(),
        ),
    decreases outcomes.len(),
{
    if outcomes.len() == 0 {
        assert(steps.drop_last() =~= Seq::<Step>::empty());
        assert(rows_sent(steps.drop_last()) =~= seq![]);
        assert(rows_sent(steps) =~= seq![]);
    } else {
        lemma_shorter_run(Request::CreateTransactionsBatch(Some(request)), steps, outcomes);
        lemma_batch(request, steps.drop_last(), outcomes.drop_last());
        lemma_batch_step(
            request,
            rows_sent(steps.drop_last()),
            rows_stored(steps.drop_last(), outcomes.drop_last()),
            outcomes.drop_last(),
            steps.drop_last()[outcomes.len() - 2]->statement,
            steps[outcomes.len() - 1],
            outcomes.last(),
            steps.last(),
        );
        assert(outcomes.drop_last().push(outcomes.last()) =~= outcomes);
    }
}

/// A batch that is answered with 201 was stored whole: its transactions went to the table one after
/// another, each under the batch id of the batch, the statement before the reply kept them, and the
/// reply lists what the table gave back for each of them, in that order.
pub proof fn law_kept_batch_is_stored_whole(
    request: CreateTransactionsBatchRequest,
    steps: Seq<Step>,
    outcomes: Seq<Outcome>,
)
    requires
        is_run(Request::CreateTransactionsBatch(Some(request)), steps, outcomes),
        steps.last() is Reply,
        steps.last()->Reply_0.status == 201,
    ensures
        rows_sent(steps) == Seq::new(
            request.transactions@.len(),
            |j: int| batch_row(request, j),
        ),
        rows_stored(steps, outcomes).len() == request.transactions@.len(),
        steps[outcomes.len() - 1]->statement is Commit,
        steps.last()->Reply_0.body matches Body::Transactions(list) && list@ == rows_stored(
            steps,
            outcomes,
        ),
{
    lemma_batch(request, steps, outcomes);
}

/// A batch that is answered with anything but 201 was undone by the statement before the reply, and
/// the reply says why the first transaction that could not be stored was not.
pub proof fn law_refused_batch_says_why(
    request: CreateTransactionsBatchRequest,
    steps: Seq<Step>,
    outcomes: Seq<Outcome>,
)
    requires
        is_run(Request::CreateTransactionsBatch(Some(request)), steps, outcomes),
        steps.last() is Reply,
        steps.last()->Reply_0.status != 201,
    ensures
        steps[outcomes.len() - 1]->statement is Rollback,
        rows_stored(steps, outcomes).len() < request.transactions@.len(),
        says_why(
            steps.last()->Reply_0,
            batch_row(request, rows_stored(steps, outcomes).len() as int),
            outcomes,
            3 * rows_stored(steps, outcomes).len() as int + 1,
        ),
{
    lemma_batch(request, steps, outcomes);
}

proof fn lemma_batch_store<S>(
    request: CreateTransactionsBatchRequest,
    steps: Seq<Step>,
    outcomes: Seq<Outcome>,
    store: Store<S>,
    effect: spec_fn(S, Statement, Outcome) -> S,
)
    requires
        is_run(Request::CreateTransactionsBatch(Some(request)), steps, outcomes),
        store.before is None,
    ensures
        ({
            let now = after(store, effect, steps, outcomes);
            let rows = with_effects(store.rows, effect, steps, outcomes);
            match steps.last() {
                Step::Ask { pending, .. } => if pending is BatchBegun {
                    now == store && rows == store.rows
                } else {
                    now == (Store { rows, before: Some(store.rows) })
                },
                Step::Reply(reply) => if reply.status == 201 {
                    now == (Store { rows, before: None })
                } else {
                    now == store
                },
                Step::Abort { .. } => true,
            }
        }),
    decreases outcomes.len(),
{
    lemma_batch(request, steps, outcomes);
    if outcomes.len() > 0 {
        lemma_shorter_run(Request::CreateTransactionsBatch(Some(request)), steps, outcomes);
        lemma_batch(request, steps.drop_last(), outcomes.drop_last());
        lemma_batch_store(request, steps.drop_last(), outcomes.drop_last(), store, effect);
    }
}

/// A batch is stored whole or not at all: on 201 the rows have the effects of all its insertions, and
/// on anything else they are what they were. Either way no transaction of the database stays open.
pub proof fn law_batch_is_all_or_nothing<S>(
    request: CreateTransactionsBatchRequest,
    steps: Seq<Step>,
    outcomes: Seq<Outcome>,
    store: Store<S>,
    effect: spec_fn(S, Statement, Outcome) -> S,
)
    requires
        is_run(Request::CreateTransactionsBatch(Some(request)), steps, outcomes),
        steps.last() is Reply,
        store.before is None,
    ensures
        after(store, effect, steps, outcomes).before is None,
        after(store, effect, steps, outcomes).rows == if steps.last()->Reply_0.status == 201 {
            with_effects(store.rows, effect, steps, outcomes)
        } else {
            store.rows
        },
{
    lemma_batch_store(request, steps, outcomes, store, effect);
}

// How long conversations are.

/// How many statements a conversation about `request` takes at most.
pub open spec fn longest(request: Request) -> int {
    match request {
        Request::CreateTransaction(_) => 3,
        Request::CreateTransactionsBatch(Some(request)) => 3 * request.transactions@.len() as int + 2,
        Request::PatchTransaction { .. } => 2,
        _ => 1,
    }
}

spec fn left(pending: Pending) -> int {
    match pending {
        Pending::AccountLookedUp { progress: Progress::Single, .. } => 3,
        Pending::OpposingLookedUp { progress: Progress::Single, .. } => 2,
        Pending::TransactionUpdated { .. } => 2,
        _ => 1,
    }
}

/// Whether a conversation that waits for `pending` is about a batch.
pub open spec fn in_batch(pending: Pending) -> bool {
    match pending {
        Pending::AccountLookedUp { progress, .. } => progress is Batch,
        Pending::OpposingLookedUp { progress, .. } => progress is Batch,
        Pending::TransactionInserted { progress } => progress is Batch,
        Pending::BatchBegun { .. } => true,
        Pending::BatchCommitted { .. } => true,
        Pending::BatchRolledBack { .. } => true,
        _ => false,
    }
}

proof fn lemma_single_step(step: Step, outcome: Outcome, next: Step)
    requires
        step is Ask,
        !in_batch(step->pending),
        protocol::resumes(step->pending, outcome, next),
    ensures
        next is Ask ==> !in_batch(next->pending) && left(next->pending) < left(step->pending),
{
}

proof fn lemma_single_run(request: Request, steps: Seq<Step>, outcomes: Seq<Outcome>)
    requires
        is_run(request, steps, outcomes),
        !(request is CreateTransactionsBatch),
    ensures
        steps.last() is Ask ==> !in_batch(steps.last()->pending) && outcomes.len() + left(
            steps.last()->pending,
        ) <= longest(request),
    decreases outcomes.len(),
{
    if outcomes.len() > 0 {
        lemma_shorter_run(request, steps, outcomes);
        lemma_single_run(request, steps.drop_last(), outcomes.drop_last());
        lemma_single_step(steps[outcomes.len() - 1], outcomes.last(), steps.last());
    }
}

/// Every conversation ends: it takes no more statements than `longest` says.
pub proof fn law_conversations_end(request: Request, steps: Seq<Step>, outcomes: Seq<Outcome>)
    requires
        is_run(request, steps, outcomes),
    ensures
        outcomes.len() <= longest(request),
        steps.last() is Ask ==> outcomes.len() < longest(request),
    decreases outcomes.len(),
{
    if let Request::CreateTransactionsBatch(body) = request {
        if let Some(batch) = body {
            lemma_batch(batch, steps, outcomes);
        }
    } else {
        lemma_single_run(request, steps, outcomes);
    }
    if outcomes.len() > 0 {
        lemma_shorter_run(request, steps, outcomes);
        law_conversations_end(request, steps.drop_last(), outcomes.drop_last());
    }
}

// Requests that are turned down at once.

/// Whether the body of a request could not be read.
pub open spec fn is_unreadable(request: Request) -> bool {
    match request {
        Request::CreateCurrency(body) => body is None,
        Request::CreateAccount(body) => body is None,
        Request::CreateCategory(body) => body is None,
        Request::CreateTransaction(body) => body is None,
        Request::CreateTransactionsBatch(body) => body is None,
        Request::PatchTransaction { body, .. } => json::json_object(body@) is None,
        _ => false,
    }
}

/// A request whose body cannot be read is answered with 400, and the database is not asked anything.
pub proof fn law_unreadable_body_asks_nothing(
    request: Request,
    steps: Seq<Step>,
    outcomes: Seq<Outcome>,
)
    requires
        is_run(request, steps, outcomes),
        is_unreadable(request),
    ensures
        steps.len() == 1,
        steps[0] is Reply,
        is_refusal(steps[0]->Reply_0),
        steps[0]->Reply_0.status == 400,
{
    lemma_run_is_sound(request, steps, outcomes, 0);
    if outcomes.len() > 0 {
        assert(is_followed(steps, outcomes, 0));
    }
}

/// A segment that writes no row id names no account and no category: it is answered with 404, and
/// the database is not asked anything.
pub proof fn law_malformed_id_asks_nothing(
    request: Request,
    steps: Seq<Step>,
    outcomes: Seq<Outcome>,
)
    requires
        is_run(request, steps, outcomes),
        match request {
            Request::DeleteAccount { id } => text::id_value(id@) is None,
            Request::DeleteCategory { id } => text::id_value(id@) is None,
            _ => false,
        },
    ensures
        steps.len() == 1,
        steps[0] is Reply,
        reply::is_not_found(steps[0]->Reply_0),
{
    if outcomes.len() > 0 {
        assert(is_followed(steps, outcomes, 0));
    }
}

// Duplicates.

/// Whether `statement` adds a row.
pub open spec fn inserts(statement: Statement) -> bool {
    statement is InsertCurrency || statement is InsertCategory || statement is InsertAccount
        || statement is InsertTransaction
}

/// A row whose key, or a value that must be unique, is already there is answered with 409, whatever
/// it is a row of; in a batch, once the batch is undone.
pub proof fn law_duplicate_is_conflict(
    request: Request,
    steps: Seq<Step>,
    outcomes: Seq<Outcome>,
    i: int,
)
    requires
        is_run(request, steps, outcomes),
        0 <= i < outcomes.len(),
        inserts(steps[i]->statement),
        outcomes[i] matches Err(error) && reply::is_duplicate(error@),
    ensures
        ({
            let reply = match steps[i + 1] {
                Step::Reply(reply) => Some(reply),
                Step::Ask {
                    statement: Statement::Rollback,
                    pending: Pending::BatchRolledBack { reply },
                } => Some(reply),
                _ => None,
            };
            reply matches Some(reply) && reply::is_error(reply, 409, "duplicate id"@)
        }),
{
    lemma_run_is_sound(request, steps, outcomes, i);
    assert(is_followed(steps, outcomes, i));
}

// Changing a transaction.

/// A change that names anything but the description and the category is turned down whole, and the
/// database is not asked anything.
pub proof fn law_immutable_field_asks_nothing(
    id: String,
    body: String,
    steps: Seq<Step>,
    outcomes: Seq<Outcome>,
)
    requires
        is_run(Request::PatchTransaction { id, body }, steps, outcomes),
        json::json_object(body@) matches Some(members) && exists|i: int|
            0 <= i < members.len() && (#[trigger] members[i]).name != "description"@
                && members[i].name != "category_id"@,
    ensures
        steps.len() == 1,
        steps[0] is Reply,
        reply::is_error(
            steps[0]->Reply_0,
            400,
            "only description and category_id may be updated"@,
        ),
{
    let members = json::json_object(body@)->0;
    let i = choose|i: int|
        0 <= i < members.len() && (#[trigger] members[i]).name != "description"@ && members[i].name
            != "category_id"@;
    assert(transactions::is_immutable(members[i].name));
    if outcomes.len() > 0 {
        assert(is_followed(steps, outcomes, 0));
    }
}

/// Whether one of `members` has this name.
pub open spec fn names(members: Seq<json::JsonMemberView>, name: Seq<char>) -> bool {
    exists|i: int| 0 <= i < members.len() && (#[trigger] members[i]).name == name
}

proof fn lemma_member(members: Seq<json::JsonMemberView>, name: Seq<char>)
    ensures
        transactions::member(members, name) is Some == names(members, name),
        transactions::member(members, name) matches Some(found) ==> members.contains(found)
            && found.name == name,
    decreases members.len(),
{
    if members.len() > 0 {
        if members[0].name == name {
            assert(members.contains(members[0]));
        } else {
            let rest = members.skip(1);
            lemma_member(rest, name);
            if names(rest, name) {
                let i = choose|i: int| 0 <= i < rest.len() && (#[trigger] rest[i]).name == name;
                assert(members[i + 1].name == name);
            }
            if names(members, name) {
                let i = choose|i: int| 0 <= i < members.len() && (#[trigger] members[i]).name == name;
                assert(rest[i - 1].name == name);
            }
            if let Some(found) = transactions::member(rest, name) {
                let i = choose|i: int| 0 <= i < rest.len() && rest[i] == found;
                assert(members[i + 1] == found);
            }
        }
    }
}

/// What a change leaves out stays: without a description the text handed to the database is NULL,
/// and without a category the mark of a given category is 0. A category that is named but is no
/// integer, such as `null`, is cleared: the mark is 1 and the category NULL. One that is an integer
/// is set to it.
pub proof fn law_change_touches_what_it_names(
    id: String,
    body: String,
    steps: Seq<Step>,
    outcomes: Seq<Outcome>,
    i: int,
)
    requires
        is_run(Request::PatchTransaction { id, body }, steps, outcomes),
        json::json_object(body@) matches Some(members) && json::distinct_names(members) && 0 <= i
            < members.len() && forall|j: int|
            0 <= j < members.len() ==> (#[trigger] members[j]).name == "description"@
                || members[j].name == "category_id"@,
    ensures
        steps[0] is Ask,
        steps[0]->statement is UpdateTransaction,
        ({
            let members = json::json_object(body@)->0;
            let cells = statements::parameters_of(steps[0]->statement);
            &&& cells.len() == 4
            &&& cells[3] == Cell::Text(id)
            &&& !names(members, "description"@) ==> cells[0] == Cell::Null
            &&& members[i].name == "description"@ ==> match members[i].text {
                Some(text) => cells[0] matches Cell::Text(given) && given@ == text,
                None => cells[0] == Cell::Null,
            }
            &&& !names(members, "category_id"@) ==> cells[1] == Cell::Integer(0)
            &&& members[i].name == "category_id"@ ==> cells[1] == Cell::Integer(1) && cells[2]
                == db::optional_integer_cell(members[i].integer)
        }),
{
    let members = json::json_object(body@)->0;
    lemma_member(members, "description"@);
    lemma_member(members, "category_id"@);
    assert(members[i].name == "description"@ ==> names(members, "description"@));
    assert(members[i].name == "category_id"@ ==> names(members, "category_id"@));
}

// Rows.

/// What is sent to the table of currencies reads back as it was sent, under the id that the table
/// gave it.
pub proof fn law_currency_reads_back(id: i64, code: String, minor_unit: i64)
    ensures
        db::record_of::<CurrencyResponse>(
            seq![Cell::Integer(id)] + statements::parameters_of(
                Statement::InsertCurrency { code, minor_unit },
            ),
        ) == Ok::<CurrencyResponse, DbErrorView>(CurrencyResponse { id, code, minor_unit }),
{
    reveal_with_fuel(db::row_fault, 4);
}

/// What is sent to the table of categories reads back as it was sent, under the id that the table
/// gave it.
pub proof fn law_category_reads_back(id: i64, name: String)
    ensures
        db::record_of::<CategoryResponse>(
            seq![Cell::Integer(id)] + statements::parameters_of(Statement::InsertCategory { name }),
        ) == Ok::<CategoryResponse, DbErrorView>(CategoryResponse { id, name }),
{
    reveal_with_fuel(db::row_fault, 3);
}

/// What is sent to the table of accounts reads back as it was sent, under the id that the table gave
/// it.
pub proof fn law_account_reads_back(
    id: i64,
    name: String,
    account_type: String,
    currency_id: Option<i64>,
)
    ensures
        db::record_of::<AccountResponse>(
            seq![Cell::Integer(id)] + statements::parameters_of(
                Statement::InsertAccount { name, account_type, currency_id },
            ),
        ) == Ok::<AccountResponse, DbErrorView>(
            AccountResponse { id, name, account_type, currency_id },
        ),
{
    reveal_with_fuel(db::row_fault, 5);
}

/// What is sent to the table of transactions reads back as it was sent, with the two times that the
/// table adds.
pub proof fn law_transaction_reads_back(
    row: CreateTransactionRequest,
    created_at: String,
    updated_at: String,
)
    ensures
        db::record_of::<TransactionResponse>(
            statements::parameters_of(Statement::InsertTransaction { row }) + seq![
                Cell::Text(created_at),
                Cell::Text(updated_at),
            ],
        ) == Ok::<TransactionResponse, DbErrorView>(
            TransactionResponse {
                id: row.id,
                batch_id: row.batch_id,
                description: row.description,
                date: row.date,
                amount: row.amount,
                opposing_amount: row.opposing_amount,
                account_id: row.account_id,
                opposing_account_id: row.opposing_account_id,
                category_id: row.category_id,
                created_at,
                updated_at,
            },
        ),
{
    reveal_with_fuel(db::row_fault, 12);
}

/// A change that writes no object is turned down, and the database is not asked anything; an object
/// without a member asks for a change that leaves the description and the category.
pub proof fn law_change_is_an_object(
    id: String,
    body: String,
    steps: Seq<Step>,
    outcomes: Seq<Outcome>,
)
    requires
        is_run(Request::PatchTransaction { id, body }, steps, outcomes),
    ensures
        json::json_object(body@) is None ==> steps.len() == 1 && protocol::replies_error(
            steps[0],
            400,
            "invalid JSON body"@,
        ),
        json::json_object(body@) matches Some(members) && members.len() == 0 ==> {
            &&& steps[0] is Ask
            &&& steps[0]->statement is UpdateTransaction
            &&& statements::parameters_of(steps[0]->statement)[0] == Cell::Null
            &&& statements::parameters_of(steps[0]->statement)[1] == Cell::Integer(0)
            &&& statements::parameters_of(steps[0]->statement)[3] == Cell::Text(id)
        },
{
    if outcomes.len() > 0 {
        assert(is_followed(steps, outcomes, 0));
    }
}

// What is sent.

/// A transaction on its own goes to its table as it was sent, field by field.
pub proof fn law_transaction_is_sent_as_requested(
    request: CreateTransactionRequest,
    steps: Seq<Step>,
    outcomes: Seq<Outcome>,
    i: int,
    row: CreateTransactionRequest,
)
    requires
        is_run(Request::CreateTransaction(Some(request)), steps, outcomes),
        0 <= i < steps.len(),
        steps[i] is Ask,
        steps[i]->statement == (Statement::InsertTransaction { row }),
    ensures
        row.id == request.id,
        row.batch_id == request.batch_id,
        row.description == request.description,
        row.date == request.date,
        row.amount == request.amount,
        row.opposing_amount == request.opposing_amount,
        row.account_id == request.account_id,
        row.opposing_account_id == request.opposing_account_id,
        row.category_id == request.category_id,
{
    if i > 0 {
        assert(is_followed(steps, outcomes, 0));
        if i > 1 {
            assert(is_followed(steps, outcomes, 1));
            if i > 2 {
                assert(is_followed(steps, outcomes, 2));
                if i > 3 {
                    assert(is_followed(steps, outcomes, 3));
                }
            }
        }
    }
}

/// The transactions of a batch go to their table in the order in which they were sent, each as it was
/// sent, field by field, but under the batch id of the batch.
pub proof fn law_batch_is_sent_as_requested(
    request: CreateTransactionsBatchRequest,
    steps: Seq<Step>,
    outcomes: Seq<Outcome>,
    k: int,
)
    requires
        is_run(Request::CreateTransactionsBatch(Some(request)), steps, outcomes),
        0 <= k < rows_sent(steps).len(),
    ensures
        k < request.transactions@.len(),
        ({
            let sent = rows_sent(steps)[k];
            let requested = request.transactions@[k];
            &&& sent.id == requested.id
            &&& sent.batch_id == Some(request.batch_id)
            &&& sent.description == requested.description
            &&& sent.date == requested.date
            &&& sent.amount == requested.amount
            &&& sent.opposing_amount == requested.opposing_amount
            &&& sent.account_id == requested.account_id
            &&& sent.opposing_account_id == requested.opposing_account_id
            &&& sent.category_id == requested.category_id
        }),
{
    lemma_batch(request, steps, outcomes);
}

/// Every other request asks first for just what it names.
pub proof fn law_request_asks_for_what_it_names(request: Request, step: Step)
    requires
        protocol::begins(request, step),
    ensures
        request matches Request::CreateCurrency(Some(body)) ==> step is Ask && step->statement == (
        Statement::InsertCurrency { code: body.code, minor_unit: body.minor_unit }),
        request matches Request::CreateCategory(Some(body)) ==> step is Ask && step->statement == (
        Statement::InsertCategory { name: body.name }),
        request matches Request::CreateAccount(Some(body)) ==> step is Ask && step->statement == (
        Statement::InsertAccount {
            name: body.name,
            account_type: body.account_type,
            currency_id: body.currency_id,
        }),
        request is ListCurrencies ==> step is Ask && step->statement is ListCurrencies,
        request is ListCategories ==> step is Ask && step->statement is ListCategories,
        request is ListAccounts ==> step is Ask && step->statement is ListAccounts,
        request is ListTransactions ==> step is Ask && step->statement is ListTransactions,
        request matches Request::DeleteTransaction { id } ==> step is Ask && step->statement == (
        Statement::DeleteTransaction { id }),
        request matches Request::DeleteCategory { id } ==> match text::id_value(id@) {
            Some(value) => step is Ask && step->statement == (Statement::DeleteCategory {
                id: value,
            }),
            None => protocol::replies_error(step, 404, "not found"@),
        },
        request matches Request::DeleteAccount { id } ==> match text::id_value(id@) {
            Some(value) => step is Ask && step->statement == (Statement::DeleteAccount {
                id: value,
            }),
            None => protocol::replies_error(step, 404, "not found"@),
        },
        request matches Request::CreateCurrency(None) ==> protocol::replies_error(
            step,
            400,
            "expected {code, minor_unit}"@,
        ),
        request matches Request::CreateCategory(None) ==> protocol::replies_error(
            step,
            400,
            "expected {name}"@,
        ),
        request matches Request::CreateAccount(None) ==> protocol::replies_error(
            step,
            400,
            "expected {name, type}"@,
        ),
        request matches Request::CreateTransaction(None) ==> protocol::replies_error(
            step,
            400,
            "expected {id, description, date, amount, account_id, opposing_account_id}"@,
        ),
        request matches Request::CreateTransactionsBatch(None) ==> protocol::replies_error(
            step,
            400,
            "expected {batch_id, transactions: [...]}"@,
        ),
        request is NotFound ==> protocol::replies_error(step, 404, "not found"@),
        request matches Request::CreateTransactionsBatch(Some(_)) ==> step is Ask
            && step->statement is Begin,
        request matches Request::CreateTransaction(Some(body)) ==> if dates::is_date(
            body.date@,
        ) {
            step is Ask && step->statement == (Statement::LookupAccount { id: body.account_id })
        } else {
            protocol::replies_error(
                step,
                400,
                "date must be a calendar date (YYYY-MM-DD) or an RFC 3339 timestamp"@,
            )
        },
{
}

// What is replied.

/// What a lookup tells of an account is what its one row says, and nothing where there is none or it
/// cannot be read.
pub proof fn law_lookup_is_read(outcome: Outcome)
    ensures
        match db::only_record::<AccountFacts>(outcome) {
            Ok(facts) => transactions::looked_up(outcome) == Some(facts),
            Err(_) => transactions::looked_up(outcome) is None,
        },
{
}

/// A new row is answered with 201 and the record that the table gave back, just as it came, and a
/// failure with 409 where SQLite reported a duplicate and with 400 otherwise.
pub proof fn law_what_follows_an_insertion(pending: Pending, outcome: Outcome, step: Step)
    requires
        protocol::resumes(pending, outcome, step),
    ensures
        pending is CurrencyInserted ==> match db::only_record::<CurrencyResponse>(outcome) {
            Ok(record) => step == Step::Reply(Reply { status: 201, body: Body::Currency(record) }),
            Err(error) => {
                let conflict = error.failure is Some && (error.failure->0.extended_code == 1555
                    || error.failure->0.extended_code == 2067);
                protocol::replies_error(
                    step,
                    if conflict { 409 } else { 400 },
                    reply::failure_message(error),
                )
            },
        },
        pending is CategoryInserted ==> match db::only_record::<CategoryResponse>(outcome) {
            Ok(record) => step == Step::Reply(Reply { status: 201, body: Body::Category(record) }),
            Err(error) => {
                let conflict = error.failure is Some && (error.failure->0.extended_code == 1555
                    || error.failure->0.extended_code == 2067);
                protocol::replies_error(
                    step,
                    if conflict { 409 } else { 400 },
                    reply::failure_message(error),
                )
            },
        },
        pending is AccountInserted ==> match db::only_record::<AccountResponse>(outcome) {
            Ok(record) => step == Step::Reply(Reply { status: 201, body: Body::Account(record) }),
            Err(error) => {
                let conflict = error.failure is Some && (error.failure->0.extended_code == 1555
                    || error.failure->0.extended_code == 2067);
                protocol::replies_error(
                    step,
                    if conflict { 409 } else { 400 },
                    reply::failure_message(error),
                )
            },
        },
        pending matches Pending::TransactionInserted { progress: Progress::Single }
            ==> match db::only_record::<TransactionResponse>(outcome) {
            Ok(record) => step == Step::Reply(
                Reply { status: 201, body: Body::Transaction(record) },
            ),
            Err(error) => {
                let conflict = error.failure is Some && (error.failure->0.extended_code == 1555
                    || error.failure->0.extended_code == 2067);
                protocol::replies_error(
                    step,
                    if conflict { 409 } else { 400 },
                    reply::failure_message(error),
                )
            },
        },
{
}

/// A deletion is answered with 204 and nothing else where it took a row, with 404 where it took none,
/// and with the failure where the database refused it; for a category, which nothing holds back, a
/// failure stops the program.
pub proof fn law_what_follows_a_deletion(pending: Pending, outcome: Outcome, step: Step)
    requires
        protocol::resumes(pending, outcome, step),
        pending is AccountDeleted || pending is TransactionDeleted || pending is CategoryDeleted,
    ensures
        outcome matches Ok(answer) && answer.changed > 0 ==> step == Step::Reply(
            Reply { status: 204, body: Body::Empty },
        ),
        outcome matches Ok(answer) && answer.changed == 0 ==> protocol::replies_error(
            step,
            404,
            "not found"@,
        ),
        outcome matches Err(error) ==> if pending is CategoryDeleted {
            protocol::is_abort(step, "delete category"@, error@)
        } else {
            let conflict = error@.failure is Some && (error@.failure->0.extended_code == 1555
                || error@.failure->0.extended_code == 2067);
            protocol::replies_error(
                step,
                if conflict { 409 } else { 400 },
                reply::failure_message(error@),
            )
        },
{
}

/// A list is answered with 200 and a record for each row of the answer, in its order; where a row
/// cannot be read, or the database fails, the program stops.
pub proof fn law_what_follows_a_list(pending: Pending, outcome: Outcome, step: Step)
    requires
        protocol::resumes(pending, outcome, step),
    ensures
        pending is CurrenciesListed ==> match outcome {
            Ok(answer) => match db::records_of::<CurrencyResponse>(answer.rows@) {
                Ok(records) => step is Reply && step->Reply_0.status == 200
                    && step->Reply_0.body is Currencies && step->Reply_0.body->Currencies_0@
                    == records,
                Err(error) => protocol::is_abort(step, "read currency row"@, error),
            },
            Err(error) => protocol::is_abort(step, "query currencies"@, error@),
        },
        pending is CategoriesListed ==> match outcome {
            Ok(answer) => match db::records_of::<CategoryResponse>(answer.rows@) {
                Ok(records) => step is Reply && step->Reply_0.status == 200
                    && step->Reply_0.body is Categories && step->Reply_0.body->Categories_0@
                    == records,
                Err(error) => protocol::is_abort(step, "read category row"@, error),
            },
            Err(error) => protocol::is_abort(step, "query categories"@, error@),
        },
        pending is AccountsListed ==> match outcome {
            Ok(answer) => match db::records_of::<AccountResponse>(answer.rows@) {
                Ok(records) => step is Reply && step->Reply_0.status == 200
                    && step->Reply_0.body is Accounts && step->Reply_0.body->Accounts_0@ == records,
                Err(error) => protocol::is_abort(step, "failed to read account row"@, error),
            },
            Err(error) => protocol::is_abort(step, "failed to query accounts"@, error@),
        },
        pending is TransactionsListed ==> match outcome {
            Ok(answer) => match db::records_of::<TransactionResponse>(answer.rows@) {
                Ok(records) => step is Reply && step->Reply_0.status == 200
                    && step->Reply_0.body is Transactions && step->Reply_0.body->Transactions_0@
                    == records,
                Err(error) => protocol::is_abort(step, "read transaction row"@, error),
            },
            Err(error) => protocol::is_abort(step, "query transactions"@, error@),
        },
{
}

/// A change that touched a row is followed by reading that same row, and answered with 200 and what
/// came of that; one that touched none is answered with 404, and a failure with 409 or 400.
pub proof fn law_what_follows_a_change(pending: Pending, outcome: Outcome, step: Step)
    requires
        protocol::resumes(pending, outcome, step),
    ensures
        pending matches Pending::TransactionUpdated { id } ==> match outcome {
            Ok(answer) => if answer.changed == 0 {
                protocol::replies_error(step, 404, "not found"@)
            } else {
                step == (Step::Ask {
                    statement: Statement::SelectTransaction { id },
                    pending: Pending::TransactionReloaded,
                })
            },
            Err(error) => {
                let conflict = error@.failure is Some && (error@.failure->0.extended_code == 1555
                    || error@.failure->0.extended_code == 2067);
                protocol::replies_error(
                    step,
                    if conflict { 409 } else { 400 },
                    reply::failure_message(error@),
                )
            },
        },
        pending is TransactionReloaded ==> match db::only_record::<TransactionResponse>(outcome) {
            Ok(record) => step == Step::Reply(
                Reply { status: 200, body: Body::Transaction(record) },
            ),
            Err(error) => {
                let conflict = error.failure is Some && (error.failure->0.extended_code == 1555
                    || error.failure->0.extended_code == 2067);
                protocol::replies_error(
                    step,
                    if conflict { 409 } else { 400 },
                    reply::failure_message(error),
                )
            },
        },
{
}

/// A batch that cannot be begun, kept or undone stops the program; one that was kept is answered with
/// 201 and its records, and one that was undone with the reply that was waiting.
pub proof fn law_what_follows_a_bracket(pending: Pending, outcome: Outcome, step: Step)
    requires
        protocol::resumes(pending, outcome, step),
    ensures
        pending is BatchBegun && outcome is Err ==> protocol::is_abort(
            step,
            "begin batch transaction"@,
            outcome->Err_0@,
        ),
        pending matches Pending::BatchCommitted { created } ==> match outcome {
            Ok(_) => step == Step::Reply(
                Reply { status: 201, body: Body::Transactions(created) },
            ),
            Err(error) => protocol::is_abort(step, "commit batch transaction"@, error@),
        },
        pending matches Pending::BatchRolledBack { reply } ==> match outcome {
            Ok(_) => step == Step::Reply(reply),
            Err(error) => protocol::is_abort(step, "rollback batch transaction"@, error@),
        },
{
}

/// A step that replies carries just that reply, and one that stops the program just that message and
/// that error.
pub proof fn law_steps_carry_what_they_say(
    step: Step,
    status: u16,
    message: Seq<char>,
    error: DbErrorView,
)
    ensures
        protocol::replies_error(step, status, message) <==> step is Reply && reply::is_error(
            step->Reply_0,
            status,
            message,
        ),
        protocol::replies_not_found(step) <==> step is Reply && reply::is_error(
            step->Reply_0,
            404,
            "not found"@,
        ),
        protocol::replies_no_content(step) <==> step is Reply && step->Reply_0.status == 204
            && step->Reply_0.body is Empty,
        protocol::replies_db_error(step, error) <==> step is Reply && reply::is_db_error(
            step->Reply_0,
            error,
        ),
        protocol::is_abort(step, message, error) <==> step is Abort && step->message@ == message
            && step->error@ == error,
{
}

} // verus!
