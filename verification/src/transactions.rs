//! Transactions: one at a time, in batches, changed and deleted.

use vstd::prelude::*;
use vstd::string::*;

use crate::db;
use crate::db::Outcome;
use crate::json;
use crate::json::{JsonMember, JsonMemberView};
use crate::protocol;
use crate::protocol::{Pending, Progress, Step};
use crate::records::{
    AccountFacts,
    CreateTransactionRequest,
    CreateTransactionsBatchRequest,
    TransactionResponse,
};
use crate::reply;
use crate::reply::{Body, Reply};
use crate::statements::Statement;
use crate::text;
use crate::validation;
use crate::validation::TransactionFault;

verus! {

// Storing transactions.

/// A requested transaction as it is stored: with the batch id of its batch, if it comes in one,
/// whatever batch id it names itself.
pub open spec fn stored_row(
    request: CreateTransactionRequest,
    forced_batch_id: Option<String>,
) -> CreateTransactionRequest {
    match forced_batch_id {
        Some(batch_id) => CreateTransactionRequest { batch_id: Some(batch_id), ..request },
        None => request,
    }
}

/// Whether `step` begins to store `row`: it looks up the account of the row, unless the date of the
/// row is none.
pub open spec fn stores(row: CreateTransactionRequest, progress: Progress, step: Step) -> bool {
    match validation::date_fault(row.date@) {
        Some(fault) => not_stored(progress, 400, validation::fault_message(fault), step),
        None => step == (Step::Ask {
            statement: Statement::LookupAccount { id: row.account_id },
            pending: Pending::AccountLookedUp { row, progress },
        }),
    }
}

/// What a lookup told of an account; `None` where it was not found or cannot be read.
pub open spec fn looked_up(outcome: Outcome) -> Option<AccountFacts> {
    match db::only_record::<AccountFacts>(outcome) {
        Ok(account) => Some(account),
        Err(_) => None,
    }
}

/// Whether `step` undoes a batch, to be answered with this error.
pub open spec fn undoes(status: u16, message: Seq<char>, step: Step) -> bool {
    &&& step matches Step::Ask {
        statement: Statement::Rollback,
        pending: Pending::BatchRolledBack { reply },
    }
    &&& reply::is_error(reply, status, message)
}

/// Whether `step` is what follows where a transaction is not stored: the error reply, and for one of
/// a batch first the undoing of those before it.
pub open spec fn not_stored(
    progress: Progress,
    status: u16,
    message: Seq<char>,
    step: Step,
) -> bool {
    match progress {
        Progress::Single => protocol::replies_error(step, status, message),
        Progress::Batch { .. } => undoes(status, message, step),
    }
}

/// Whether `step` goes on with a batch of which `created` are stored and `waiting` are not, the next
/// one last: with that one, unless its date is none, or, where none is left, by keeping them all.
pub open spec fn goes_on(
    batch_id: String,
    created: Seq<TransactionResponse>,
    waiting: Seq<CreateTransactionRequest>,
    step: Step,
) -> bool {
    if waiting.len() == 0 {
        &&& step matches Step::Ask {
            statement: Statement::Commit,
            pending: Pending::BatchCommitted { created: list },
        }
        &&& list@ == created
    } else {
        match validation::date_fault(waiting.last().date@) {
            Some(fault) => undoes(400, validation::fault_message(fault), step),
            None => {
                &&& step matches Step::Ask {
                    statement,
                    pending: Pending::AccountLookedUp {
                        row,
                        progress: Progress::Batch { batch_id: same_id, created: list, waiting: rest },
                    },
                }
                &&& row == stored_row(waiting.last(), Some(batch_id))
                &&& statement == (Statement::LookupAccount { id: row.account_id })
                &&& same_id == batch_id
                &&& list@ == created
                &&& rest@ == waiting.drop_last()
            },
        }
    }
}

/// Whether `step` is what follows where a transaction was stored.
pub open spec fn stored(progress: Progress, row: TransactionResponse, step: Step) -> bool {
    match progress {
        Progress::Single => step == Step::Reply(
            Reply { status: 201, body: Body::Transaction(row) },
        ),
        Progress::Batch { batch_id, created, waiting } => goes_on(
            batch_id,
            created@.push(row),
            waiting@,
            step,
        ),
    }
}

/// Whether `step` is what follows the lookup of the account of `row`.
pub open spec fn account_checked(
    row: CreateTransactionRequest,
    progress: Progress,
    outcome: Outcome,
    step: Step,
) -> bool {
    match validation::account_fault(row.account_id, looked_up(outcome)) {
        Some(fault) => not_stored(progress, 400, validation::fault_message(fault), step),
        None => step == (Step::Ask {
            statement: Statement::LookupAccount { id: row.opposing_account_id },
            pending: Pending::OpposingLookedUp { row, account: looked_up(outcome)->0, progress },
        }),
    }
}

/// Whether `step` is what follows the lookup of the opposing account of `row`: the row goes to the
/// table if and only if it is in order.
pub open spec fn opposing_checked(
    row: CreateTransactionRequest,
    account: AccountFacts,
    progress: Progress,
    outcome: Outcome,
    step: Step,
) -> bool {
    match validation::transaction_fault(
        row.account_id,
        Some(account),
        row.opposing_account_id,
        looked_up(outcome),
        row.opposing_amount,
    ) {
        Some(fault) => not_stored(progress, 400, validation::fault_message(fault), step),
        None => step == (Step::Ask {
            statement: Statement::InsertTransaction { row },
            pending: Pending::TransactionInserted { progress },
        }),
    }
}

/// Whether `step` is what follows the storing of a transaction.
pub open spec fn inserted(progress: Progress, outcome: Outcome, step: Step) -> bool {
    match db::only_record::<TransactionResponse>(outcome) {
        Ok(row) => stored(progress, row, step),
        Err(error) => not_stored(
            progress,
            reply::failure_status(error),
            reply::failure_message(error),
            step,
        ),
    }
}

/// Whether `step` is how a request for a new transaction begins.
pub open spec fn creates(request: Option<CreateTransactionRequest>, step: Step) -> bool {
    match request {
        Some(request) => stores(request, Progress::Single, step),
        None => protocol::replies_error(
            step,
            400,
            "expected {id, description, date, amount, account_id, opposing_account_id}"@,
        ),
    }
}

/// Whether `step` is how a request for several new transactions begins.
pub open spec fn creates_batch(
    request: Option<CreateTransactionsBatchRequest>,
    step: Step,
) -> bool {
    match request {
        Some(request) => {
            &&& step matches Step::Ask {
                statement: Statement::Begin,
                pending: Pending::BatchBegun { batch_id, waiting },
            }
            &&& batch_id == request.batch_id
            &&& waiting@ == request.transactions@.reverse()
        },
        None => protocol::replies_error(
            step,
            400,
            "expected {batch_id, transactions: [...]}"@,
        ),
    }
}

/// Whether `step` is what follows the begin of a batch.
pub open spec fn begun(
    batch_id: String,
    waiting: Seq<CreateTransactionRequest>,
    outcome: Outcome,
    step: Step,
) -> bool {
    match outcome {
        Ok(_) => goes_on(batch_id, seq![], waiting, step),
        Err(error) => protocol::is_abort(step, "begin batch transaction"@, error@),
    }
}

/// Whether `step` is what follows the keeping of a batch.
pub open spec fn committed(created: Vec<TransactionResponse>, outcome: Outcome, step: Step) -> bool {
    match outcome {
        Ok(_) => step == Step::Reply(Reply { status: 201, body: Body::Transactions(created) }),
        Err(error) => protocol::is_abort(step, "commit batch transaction"@, error@),
    }
}

/// Whether `step` is what follows the undoing of a batch: the reply to the transaction that was not
/// stored.
pub open spec fn rolled_back(reply: Reply, outcome: Outcome, step: Step) -> bool {
    match outcome {
        Ok(_) => step == Step::Reply(reply),
        Err(error) => protocol::is_abort(step, "rollback batch transaction"@, error@),
    }
}

/// Begins to store a transaction. Both a transaction on its own and each one of a batch go this way;
/// `forced_batch_id` is the batch id of the batch.
pub fn insert_transaction(
    request: CreateTransactionRequest,
    forced_batch_id: Option<&String>,
    progress: Progress,
) -> (step: Step)
    ensures
        stores(
            stored_row(
                request,
                match forced_batch_id {
                    Some(batch_id) => Some(*batch_id),
                    None => None,
                },
            ),
            progress,
            step,
        ),
        step is Ask && step->pending is AccountLookedUp ==> {
            let row = step->pending->AccountLookedUp_row;
            &&& row.id == request.id
            &&& row.batch_id == (match forced_batch_id {
                Some(batch_id) => Some(*batch_id),
                None => request.batch_id,
            })
            &&& row.description == request.description
            &&& row.date == request.date
            &&& row.amount == request.amount
            &&& row.opposing_amount == request.opposing_amount
            &&& row.account_id == request.account_id
            &&& row.opposing_account_id == request.opposing_account_id
            &&& row.category_id == request.category_id
        },
{
    let row: CreateTransactionRequest = match forced_batch_id {
        Some(batch_id) => CreateTransactionRequest {
            id: request.id,
            batch_id: Some(batch_id.clone()),
            description: request.description,
            date: request.date,
            amount: request.amount,
            opposing_amount: request.opposing_amount,
            account_id: request.account_id,
            opposing_account_id: request.opposing_account_id,
            category_id: request.category_id,
        },
        None => request,
    };
    match validation::validate_date(row.date.as_str()) {
        Ok(_) => Step::Ask {
            statement: Statement::LookupAccount { id: row.account_id },
            pending: Pending::AccountLookedUp { row, progress },
        },
        Err(fault) => refuse(progress, fault),
    }
}

/// Turns a transaction down, and with it the batch that it comes in.
fn give_up(progress: Progress, reply: Reply) -> (step: Step)
    ensures
        forall|status: u16, message: Seq<char>|
            reply::is_error(reply, status, message) ==> not_stored(progress, status, message, step),
{
    match progress {
        Progress::Single => Step::Reply(reply),
        Progress::Batch { .. } => Step::Ask {
            statement: Statement::Rollback,
            pending: Pending::BatchRolledBack { reply },
        },
    }
}

/// Goes on with the next transaction of a batch, or keeps them all.
fn go_on(
    batch_id: String,
    created: Vec<TransactionResponse>,
    waiting: Vec<CreateTransactionRequest>,
) -> (step: Step)
    ensures
        goes_on(batch_id, created@, waiting@, step),
{
    let mut waiting: Vec<CreateTransactionRequest> = waiting;
    match waiting.pop() {
        Some(request) => {
            let forced: String = batch_id.clone();
            insert_transaction(
                request,
                Some(&forced),
                Progress::Batch { batch_id, created, waiting },
            )
        },
        None => Step::Ask {
            statement: Statement::Commit,
            pending: Pending::BatchCommitted { created },
        },
    }
}

/// Reads what a lookup told of an account.
fn read_account(outcome: Outcome) -> (account: Option<AccountFacts>)
    ensures
        account == looked_up(outcome),
{
    match db::fetch_one::<AccountFacts>(outcome) {
        Ok(account) => Some(account),
        Err(_) => None,
    }
}

/// Turns a transaction down for a fault.
fn refuse(progress: Progress, fault: TransactionFault) -> (step: Step)
    ensures
        not_stored(progress, 400, validation::fault_message(fault), step),
{
    let message: String = fault.message();
    give_up(progress, reply::error_response(400, message.as_str()))
}

/// Checks the account of a transaction, and looks up the opposing one.
pub fn account_looked_up(
    row: CreateTransactionRequest,
    progress: Progress,
    outcome: Outcome,
) -> (step: Step)
    ensures
        account_checked(row, progress, outcome, step),
{
    let account: Option<AccountFacts> = read_account(outcome);
    if let Err(fault) = validation::validate_account(row.account_id, &account) {
        return refuse(progress, fault);
    }
    match account {
        Some(account) => Step::Ask {
            statement: Statement::LookupAccount { id: row.opposing_account_id },
            pending: Pending::OpposingLookedUp { row, account, progress },
        },
        None => refuse(progress, TransactionFault::UnknownAccount(row.account_id)),
    }
}

/// Checks a transaction against both its accounts, and stores it if it is in order.
pub fn opposing_looked_up(
    row: CreateTransactionRequest,
    account: AccountFacts,
    progress: Progress,
    outcome: Outcome,
) -> (step: Step)
    ensures
        opposing_checked(row, account, progress, outcome, step),
{
    let opposing: Option<AccountFacts> = read_account(outcome);
    match validation::validate_transaction(
        row.account_id,
        &Some(account),
        row.opposing_account_id,
        &opposing,
        row.opposing_amount,
    ) {
        Ok(_) => Step::Ask {
            statement: Statement::InsertTransaction { row },
            pending: Pending::TransactionInserted { progress },
        },
        Err(fault) => refuse(progress, fault),
    }
}

/// Replies with the transaction that was stored, or goes on with its batch.
pub fn transaction_inserted(progress: Progress, outcome: Outcome) -> (step: Step)
    ensures
        inserted(progress, outcome, step),
{
    match db::fetch_one::<TransactionResponse>(outcome) {
        Ok(row) => match progress {
            Progress::Single => Step::Reply(reply::json_response(201, Body::Transaction(row))),
            Progress::Batch { batch_id, created, waiting } => {
                let mut created: Vec<TransactionResponse> = created;
                created.push(row);
                go_on(batch_id, created, waiting)
            },
        },
        Err(error) => give_up(progress, reply::db_error_response(&error)),
    }
}

/// Begins to create a transaction.
pub fn create_transaction(request: Option<CreateTransactionRequest>) -> (step: Step)
    ensures
        creates(request, step),
{
    match request {
        Some(request) => insert_transaction(request, None, Progress::Single),
        None => Step::Reply(
            reply::error_response(
                400,
                "expected {id, description, date, amount, account_id, opposing_account_id}",
            ),
        ),
    }
}

/// Begins to create several transactions, all of them or none.
pub fn create_transactions_batch(request: Option<CreateTransactionsBatchRequest>) -> (step: Step)
    ensures
        creates_batch(request, step),
{
    match request {
        Some(request) => {
            let ghost requested = request.transactions@;
            let mut transactions: Vec<CreateTransactionRequest> = request.transactions;
            let mut waiting: Vec<CreateTransactionRequest> = Vec::new();
            while transactions.len() > 0
                invariant
                    transactions@.len() <= requested.len(),
                    transactions@ == requested.take(transactions@.len() as int),
                    waiting@ == requested.skip(transactions@.len() as int).reverse(),
                decreases transactions@.len(),
            {
                let ghost count = transactions@.len() as int;
                if let Some(last) = transactions.pop() {
                    waiting.push(last);
                    assert(transactions@ =~= requested.take(count - 1));
                    assert(waiting@ =~= requested.skip(count - 1).reverse());
                }
            }
            assert(requested.skip(0) =~= requested);
            Step::Ask {
                statement: Statement::Begin,
                pending: Pending::BatchBegun { batch_id: request.batch_id, waiting },
            }
        },
        None => Step::Reply(
            reply::error_response(400, "expected {batch_id, transactions: [...]}"),
        ),
    }
}

/// Goes on with a batch that was begun.
pub fn batch_begun(
    batch_id: String,
    waiting: Vec<CreateTransactionRequest>,
    outcome: Outcome,
) -> (step: Step)
    ensures
        begun(batch_id, waiting@, outcome, step),
{
    match outcome {
        Ok(_) => {
            let created: Vec<TransactionResponse> = Vec::new();
            assert(created@ =~= seq![]);
            go_on(batch_id, created, waiting)
        },
        Err(error) => Step::Abort { message: "begin batch transaction".to_owned(), error },
    }
}

/// Replies with the transactions of a batch that was kept.
pub fn batch_committed(created: Vec<TransactionResponse>, outcome: Outcome) -> (step: Step)
    ensures
        committed(created, outcome, step),
{
    match outcome {
        Ok(_) => Step::Reply(reply::json_response(201, Body::Transactions(created))),
        Err(error) => Step::Abort { message: "commit batch transaction".to_owned(), error },
    }
}

/// Replies to a batch that was undone.
pub fn batch_rolled_back(reply: Reply, outcome: Outcome) -> (step: Step)
    ensures
        rolled_back(reply, outcome, step),
{
    match outcome {
        Ok(_) => Step::Reply(reply),
        Err(error) => Step::Abort { message: "rollback batch transaction".to_owned(), error },
    }
}

// Listing transactions.

/// Whether `step` is how a request for all transactions begins.
pub open spec fn lists(step: Step) -> bool {
    step == (Step::Ask {
        statement: Statement::ListTransactions,
        pending: Pending::TransactionsListed,
    })
}

/// Whether `step` is the reply to a request for all transactions, by what came of reading them.
pub open spec fn listed(outcome: Outcome, step: Step) -> bool {
    match outcome {
        Ok(answer) => match db::records_of::<TransactionResponse>(answer.rows@) {
            Ok(transactions) => {
                &&& step matches Step::Reply(reply)
                &&& reply.status == 200
                &&& reply.body matches Body::Transactions(list)
                &&& list@ == transactions
            },
            Err(error) => protocol::is_abort(step, "read transaction row"@, error),
        },
        Err(error) => protocol::is_abort(step, "query transactions"@, error@),
    }
}

/// Begins to list all transactions.
pub fn list_transactions() -> (step: Step)
    ensures
        lists(step),
{
    Step::Ask { statement: Statement::ListTransactions, pending: Pending::TransactionsListed }
}

/// Replies with all transactions.
pub fn transactions_listed(outcome: Outcome) -> (step: Step)
    ensures
        listed(outcome, step),
{
    match outcome {
        Ok(answer) => match db::read_rows::<TransactionResponse>(&answer.rows) {
            Ok(list) => Step::Reply(reply::json_response(200, Body::Transactions(list))),
            Err(error) => Step::Abort { message: "read transaction row".to_owned(), error },
        },
        Err(error) => Step::Abort { message: "query transactions".to_owned(), error },
    }
}

// Changing a transaction.

/// Whether a field of a transaction stays as it was created: every one but the description and the
/// category. Naming one in a change is an error, not a silent no-op.
pub open spec fn is_immutable(name: Seq<char>) -> bool {
    name != "description"@ && name != "category_id"@
}

/// Whether a change names a field that stays as it was created.
pub open spec fn names_immutable(members: Seq<JsonMemberView>) -> bool {
    exists|i: int| 0 <= i < members.len() && is_immutable((#[trigger] members[i]).name)
}

/// The member of this name, if there is one.
pub open spec fn member(members: Seq<JsonMemberView>, name: Seq<char>) -> Option<JsonMemberView>
    decreases members.len(),
{
    if members.len() == 0 {
        None
    } else if members[0].name == name {
        Some(members[0])
    } else {
        member(members.skip(1), name)
    }
}

/// The text that a change gives to the field of this name, if it gives one.
pub open spec fn text_given(members: Seq<JsonMemberView>, name: Seq<char>) -> Option<Seq<char>> {
    match member(members, name) {
        Some(member) => member.text,
        None => None,
    }
}

/// The integer that a change gives to the field of this name, if it gives one.
pub open spec fn integer_given(members: Seq<JsonMemberView>, name: Seq<char>) -> Option<i64> {
    match member(members, name) {
        Some(member) => member.integer,
        None => None,
    }
}

/// Whether `step` is how a change of the transaction `id` begins, `None` standing for a body that
/// writes no object.
pub open spec fn changes(id: String, fields: Option<Seq<JsonMemberView>>, step: Step) -> bool {
    match fields {
        None => protocol::replies_error(step, 400, "invalid JSON body"@),
        Some(members) => if names_immutable(members) {
            protocol::replies_error(step, 400, "only description and category_id may be updated"@)
        } else {
            &&& step matches Step::Ask {
                statement: Statement::UpdateTransaction {
                    id: row,
                    description,
                    category_given,
                    category_id,
                },
                pending: Pending::TransactionUpdated { id: again },
            }
            &&& row == id
            &&& again == id
            &&& db::optional_text(description) == text_given(members, "description"@)
            &&& category_given == (member(members, "category_id"@) is Some)
            &&& category_id == integer_given(members, "category_id"@)
        },
    }
}

/// Whether `step` is how a request to change the transaction `id` begins.
pub open spec fn patches(id: String, body: Seq<char>, step: Step) -> bool {
    changes(id, json::json_object(body), step)
}

/// Whether `step` is what follows the change of a transaction: it is read again, if there is one.
pub open spec fn updated(id: String, outcome: Outcome, step: Step) -> bool {
    match outcome {
        Ok(answer) => if answer.changed == 0 {
            protocol::replies_not_found(step)
        } else {
            step == (Step::Ask {
                statement: Statement::SelectTransaction { id },
                pending: Pending::TransactionReloaded,
            })
        },
        Err(error) => protocol::replies_db_error(step, error@),
    }
}

/// Whether `step` is the reply to a request to change a transaction.
pub open spec fn reloaded(outcome: Outcome, step: Step) -> bool {
    match db::only_record::<TransactionResponse>(outcome) {
        Ok(row) => step == Step::Reply(Reply { status: 200, body: Body::Transaction(row) }),
        Err(error) => protocol::replies_db_error(step, error),
    }
}

fn is_immutable_field(name: &str) -> (immutable: bool)
    ensures
        immutable == is_immutable(name@),
{
    !text::same_text(name, "description") && !text::same_text(name, "category_id")
}

fn names_immutable_field(members: &Vec<JsonMember>) -> (names: bool)
    ensures
        names == names_immutable(json::member_views(members@)),
{
    let ghost views = json::member_views(members@);
    let mut i: usize = 0;
    while i < members.len()
        invariant
            views == json::member_views(members@),
            i <= members@.len(),
            forall|k: int| 0 <= k < i ==> !is_immutable((#[trigger] views[k]).name),
        decreases members@.len() - i,
    {
        if is_immutable_field(members[i].name.as_str()) {
            assert(is_immutable(views[i as int].name));
            return true;
        }
        i = i + 1;
    }
    false
}

fn find_member<'a>(members: &'a Vec<JsonMember>, name: &str) -> (found: Option<&'a JsonMember>)
    ensures
        match found {
            Some(found) => member(json::member_views(members@), name@) == Some(found@),
            None => member(json::member_views(members@), name@) is None,
        },
{
    let ghost views = json::member_views(members@);
    let mut i: usize = 0;
    assert(views.skip(0) =~= views);
    while i < members.len()
        invariant
            views == json::member_views(members@),
            i <= members@.len(),
            member(views, name@) == member(views.skip(i as int), name@),
        decreases members@.len() - i,
    {
        assert(views.skip(i as int)[0] == members@[i as int]@);
        if text::same_text(members[i].name.as_str(), name) {
            return Some(&members[i]);
        }
        assert(views.skip(i as int).skip(1) =~= views.skip(i + 1));
        i = i + 1;
    }
    None
}

/// Begins to change the transaction `id` by the members of an object.
pub fn change_transaction(id: String, fields: Option<Vec<JsonMember>>) -> (step: Step)
    ensures
        changes(
            id,
            match fields {
                Some(members) => Some(json::member_views(members@)),
                None => None,
            },
            step,
        ),
{
    match fields {
        None => Step::Reply(reply::error_response(400, "invalid JSON body")),
        Some(members) => {
            if names_immutable_field(&members) {
                return Step::Reply(
                    reply::error_response(400, "only description and category_id may be updated"),
                );
            }
            let description: Option<String> = match find_member(&members, "description") {
                Some(found) => found.text.clone(),
                None => None,
            };
            let category: Option<&JsonMember> = find_member(&members, "category_id");
            let category_given: bool = category.is_some();
            let category_id: Option<i64> = match category {
                Some(found) => found.integer,
                None => None,
            };
            Step::Ask {
                statement: Statement::UpdateTransaction {
                    id: id.clone(),
                    description,
                    category_given,
                    category_id,
                },
                pending: Pending::TransactionUpdated { id },
            }
        },
    }
}

/// Begins to change a transaction: its description, its category, or both.
pub fn patch_transaction(id: String, body: &str) -> (step: Step)
    ensures
        patches(id, body@, step),
{
    change_transaction(id, json::parse_object(body))
}

/// Reads a transaction that was changed, if there was one to change.
pub fn transaction_updated(id: String, outcome: Outcome) -> (step: Step)
    ensures
        updated(id, outcome, step),
{
    match outcome {
        Ok(answer) => if answer.changed == 0 {
            Step::Reply(reply::not_found())
        } else {
            Step::Ask {
                statement: Statement::SelectTransaction { id },
                pending: Pending::TransactionReloaded,
            }
        },
        Err(error) => Step::Reply(reply::db_error_response(&error)),
    }
}

/// Replies with the transaction that was changed.
pub fn transaction_reloaded(outcome: Outcome) -> (step: Step)
    ensures
        reloaded(outcome, step),
{
    match db::fetch_one::<TransactionResponse>(outcome) {
        Ok(row) => Step::Reply(reply::json_response(200, Body::Transaction(row))),
        Err(error) => Step::Reply(reply::db_error_response(&error)),
    }
}

// Deleting a transaction.

/// Whether `step` is how a request to delete a transaction begins.
pub open spec fn begins_delete(id: String, step: Step) -> bool {
    step == (Step::Ask {
        statement: Statement::DeleteTransaction { id },
        pending: Pending::TransactionDeleted,
    })
}

/// Begins to delete a transaction.
pub fn delete_transaction(id: String) -> (step: Step)
    ensures
        begins_delete(id, step),
{
    Step::Ask {
        statement: Statement::DeleteTransaction { id },
        pending: Pending::TransactionDeleted,
    }
}

} // verus!
