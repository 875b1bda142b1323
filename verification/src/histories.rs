//! What holds of the tables through whole conversations, where the database is in working order.

use vstd::prelude::*;

use crate::dates;
use crate::db;
use crate::db::{Cell, CellView, DbErrorView, Outcome, Record};
use crate::json;
use crate::laws;
use crate::laws::Store;
use crate::protocol;
use crate::protocol::{Pending, Request, Step};
use crate::records::{
    AccountFacts,
    AccountResponse,
    CategoryResponse,
    CreateAccountRequest,
    CreateCategoryRequest,
    CreateCurrencyRequest,
    CreateTransactionRequest,
    CreateTransactionsBatchRequest,
    CurrencyResponse,
    TransactionResponse,
};
use crate::reply::Body;
use crate::statements::Statement;
use crate::tables;
use crate::tables::{Account, Currency, Tables, Transaction};
use crate::text;
use crate::transactions;
use crate::validation;

verus! {

// Histories.

/// Whether `statement`, put to a database in working order that stands at `before`, comes to
/// `outcome` and leaves it at `after`.
pub open spec fn moves(
    before: Store<Tables>,
    statement: Statement,
    outcome: Outcome,
    after: Store<Tables>,
) -> bool {
    match statement {
        Statement::Begin => if before.before is None {
            outcome is Ok && after == (Store { before: Some(before.rows), ..before })
        } else {
            outcome is Err && after == before
        },
        Statement::Commit => if before.before is Some {
            outcome is Ok && after == (Store { before: None, ..before })
        } else {
            outcome is Err && after == before
        },
        Statement::Rollback => if before.before is Some {
            outcome is Ok && after == (Store { rows: before.before->0, before: None })
        } else {
            outcome is Err && after == before
        },
        _ => tables::acts(before.rows, statement, outcome, after.rows) && after.before
            == before.before,
    }
}

/// Whether the statement of step `i` takes the database from `states[i]` to `states[i + 1]`.
pub open spec fn is_moved(
    states: Seq<Store<Tables>>,
    steps: Seq<Step>,
    outcomes: Seq<Outcome>,
    i: int,
) -> bool {
    moves(states[i], steps[i]->statement, outcomes[i], states[i + 1])
}

/// Whether `steps` is a conversation about `request`, or its beginning, with a database in working
/// order that stands at `states[i]` before step `i`, and with no transaction open at first.
pub open spec fn is_history(
    request: Request,
    steps: Seq<Step>,
    outcomes: Seq<Outcome>,
    states: Seq<Store<Tables>>,
) -> bool {
    &&& laws::is_run(request, steps, outcomes)
    &&& states.len() == steps.len()
    &&& states[0].before is None
    &&& forall|i: int| 0 <= i < outcomes.len() ==> #[trigger] is_moved(states, steps, outcomes, i)
}

// Reading rows.

proof fn lemma_one_row(outcome: Outcome, cells: Seq<CellView>)
    requires
        tables::gives(outcome, seq![cells]),
    ensures
        db::only_row(outcome) matches Ok(row) && db::cell_views(row) == cells,
{
    let rows = outcome->Ok_0.rows@;
    assert(db::row_views(rows).len() == 1);
    assert(db::row_views(rows)[0] == cells);
}

proof fn lemma_cells(row: Seq<Cell>, cells: Seq<CellView>)
    requires
        db::cell_views(row) == cells,
    ensures
        row.len() == cells.len(),
        forall|i: int| 0 <= i < cells.len() ==> (#[trigger] row[i])@ == cells[i],
{
    assert(db::cell_views(row).len() == cells.len());
    assert forall|i: int| 0 <= i < cells.len() implies (#[trigger] row[i])@ == cells[i] by {
        assert(db::cell_views(row)[i] == cells[i]);
    }
}

/// A lookup finds the account that is there.
proof fn lemma_looked_up(rows: Tables, id: i64, outcome: Outcome, after: Tables)
    requires
        tables::acts(rows, Statement::LookupAccount { id }, outcome, after),
    ensures
        match transactions::looked_up(outcome) {
            Some(facts) => {
                &&& rows.accounts.contains_key(id)
                &&& facts.account_type@ == rows.accounts[id].account_type
                &&& facts.currency_id == rows.accounts[id].currency_id
            },
            None => !rows.accounts.contains_key(id),
        },
{
    if rows.accounts.contains_key(id) {
        let cells = tables::facts_cells(rows.accounts[id]);
        lemma_one_row(outcome, cells);
        let row = db::only_row(outcome)->Ok_0;
        lemma_cells(row, cells);
        assert(row[0]@ == cells[0] && row[1]@ == cells[1]);
        reveal_with_fuel(db::row_fault, 3);
        assert(db::row_fault(row, AccountFacts::columns()) is None);
    } else {
        assert(db::row_views(outcome->Ok_0.rows@).len() == 0);
    }
}

/// Whether a record shows a stored currency.
pub open spec fn shows_currency(record: CurrencyResponse, id: i64, row: Currency) -> bool {
    record.id == id && record.code@ == row.code && record.minor_unit == row.minor_unit
}

/// Whether a record shows a stored account.
pub open spec fn shows_account(record: AccountResponse, id: i64, row: Account) -> bool {
    &&& record.id == id
    &&& record.name@ == row.name
    &&& record.account_type@ == row.account_type
    &&& record.currency_id == row.currency_id
}

/// Whether a record shows a stored transaction.
pub open spec fn shows_transaction(
    record: TransactionResponse,
    id: Seq<char>,
    row: Transaction,
) -> bool {
    &&& record.id@ == id
    &&& db::optional_text(record.batch_id) == row.batch_id
    &&& record.description@ == row.description
    &&& record.date@ == row.date
    &&& record.amount == row.amount
    &&& record.opposing_amount == row.opposing_amount
    &&& record.account_id == row.account_id
    &&& record.opposing_account_id == row.opposing_account_id
    &&& record.category_id == row.category_id
    &&& record.created_at@ == row.created_at
    &&& record.updated_at@ == row.updated_at
}

proof fn lemma_currency_row(row: Seq<Cell>, id: i64, currency: Currency)
    requires
        db::cell_views(row) == tables::currency_cells(id, currency),
    ensures
        db::row_fault(row, CurrencyResponse::columns()) is None,
        shows_currency(CurrencyResponse::of(row), id, currency),
{
    let cells = tables::currency_cells(id, currency);
    lemma_cells(row, cells);
    assert(row[0]@ == cells[0] && row[1]@ == cells[1] && row[2]@ == cells[2]);
    reveal_with_fuel(db::row_fault, 4);
}

proof fn lemma_category_row(row: Seq<Cell>, id: i64, name: Seq<char>)
    requires
        db::cell_views(row) == tables::category_cells(id, name),
    ensures
        db::row_fault(row, CategoryResponse::columns()) is None,
        CategoryResponse::of(row).id == id,
        CategoryResponse::of(row).name@ == name,
{
    let cells = tables::category_cells(id, name);
    lemma_cells(row, cells);
    assert(row[0]@ == cells[0] && row[1]@ == cells[1]);
    reveal_with_fuel(db::row_fault, 3);
}

proof fn lemma_account_row(row: Seq<Cell>, id: i64, account: Account)
    requires
        db::cell_views(row) == tables::account_cells(id, account),
    ensures
        db::row_fault(row, AccountResponse::columns()) is None,
        shows_account(AccountResponse::of(row), id, account),
{
    let cells = tables::account_cells(id, account);
    lemma_cells(row, cells);
    assert(row[0]@ == cells[0] && row[1]@ == cells[1] && row[2]@ == cells[2] && row[3]@
        == cells[3]);
    reveal_with_fuel(db::row_fault, 5);
}

proof fn lemma_transaction_row(row: Seq<Cell>, id: Seq<char>, transaction: Transaction)
    requires
        db::cell_views(row) == tables::transaction_cells(id, transaction),
    ensures
        db::row_fault(row, TransactionResponse::columns()) is None,
        shows_transaction(TransactionResponse::of(row), id, transaction),
{
    let cells = tables::transaction_cells(id, transaction);
    lemma_cells(row, cells);
    assert(row[0]@ == cells[0] && row[1]@ == cells[1] && row[2]@ == cells[2] && row[3]@ == cells[3]
        && row[4]@ == cells[4] && row[5]@ == cells[5] && row[6]@ == cells[6] && row[7]@ == cells[7]
        && row[8]@ == cells[8] && row[9]@ == cells[9] && row[10]@ == cells[10]);
    reveal_with_fuel(db::row_fault, 12);
}

/// A row that was stored is given back, and can be read; a row that was not stored changes nothing.
proof fn lemma_insertion(before: Tables, statement: Statement, outcome: Outcome, after: Tables)
    requires
        tables::acts(before, statement, outcome, after),
        laws::inserts(statement),
    ensures
        outcome is Err ==> after == before,
        outcome is Ok ==> match statement {
            Statement::InsertCurrency { .. } => db::only_record::<CurrencyResponse>(outcome) is Ok,
            Statement::InsertCategory { .. } => db::only_record::<CategoryResponse>(outcome) is Ok,
            Statement::InsertAccount { .. } => db::only_record::<AccountResponse>(outcome) is Ok,
            _ => db::only_record::<TransactionResponse>(outcome) is Ok,
        },
{
    if outcome is Ok {
        match statement {
            Statement::InsertCurrency { code, minor_unit } => {
                let row = Currency { code: code@, minor_unit };
                let id = choose|id: i64| #[trigger]
                    tables::adds_currency(before, id, row, outcome, after);
                lemma_one_row(outcome, tables::currency_cells(id, row));
                lemma_currency_row(db::only_row(outcome)->Ok_0, id, row);
            },
            Statement::InsertCategory { name } => {
                let id = choose|id: i64| #[trigger]
                    tables::adds_category(before, id, name@, outcome, after);
                lemma_one_row(outcome, tables::category_cells(id, name@));
                lemma_category_row(db::only_row(outcome)->Ok_0, id, name@);
            },
            Statement::InsertAccount { name, account_type, currency_id } => {
                let row = Account { name: name@, account_type: account_type@, currency_id };
                let id = choose|id: i64| #[trigger]
                    tables::adds_account(before, id, row, outcome, after);
                lemma_one_row(outcome, tables::account_cells(id, row));
                lemma_account_row(db::only_row(outcome)->Ok_0, id, row);
            },
            Statement::InsertTransaction { row } => {
                let now = choose|now: Seq<char>| #[trigger]
                    tables::adds_transaction(before, row, now, outcome, after);
                let added = tables::transaction_of(row, now);
                lemma_one_row(outcome, tables::transaction_cells(row.id@, added));
                lemma_transaction_row(db::only_row(outcome)->Ok_0, row.id@, added);
            },
            _ => {},
        }
    }
}

// Refusals.

/// Where the database stands at `step` of a conversation that began at `start`.
spec fn stands(start: Store<Tables>, step: Step, state: Store<Tables>) -> bool {
    match step {
        Step::Ask { statement, pending } => {
            if pending is TransactionReloaded {
                &&& statement matches Statement::SelectTransaction { id }
                &&& state.rows.transactions.contains_key(id@)
            } else if laws::in_batch(pending) && !(pending is BatchBegun) {
                state.before == Some(start.rows)
            } else {
                state == start
            }
        },
        Step::Reply(reply) => reply.status >= 400 ==> state == start,
        Step::Abort { .. } => true,
    }
}

proof fn lemma_stands(
    start: Store<Tables>,
    step: Step,
    state: Store<Tables>,
    outcome: Outcome,
    next: Step,
    after: Store<Tables>,
)
    requires
        start.before is None,
        step is Ask,
        laws::belongs(step->statement, step->pending),
        stands(start, step, state),
        moves(state, step->statement, outcome, after),
        protocol::resumes(step->pending, outcome, next),
    ensures
        stands(start, next, after),
{
    let statement = step->statement;
    if laws::inserts(statement) {
        lemma_insertion(state.rows, statement, outcome, after.rows);
    }
    if let Statement::SelectTransaction { id } = statement {
        let row = state.rows.transactions[id@];
        lemma_one_row(outcome, tables::transaction_cells(id@, row));
        lemma_transaction_row(db::only_row(outcome)->Ok_0, id@, row);
    }
}

proof fn lemma_history_stands(
    request: Request,
    steps: Seq<Step>,
    outcomes: Seq<Outcome>,
    states: Seq<Store<Tables>>,
    i: int,
)
    requires
        is_history(request, steps, outcomes, states),
        0 <= i < steps.len(),
    ensures
        stands(states[0], steps[i], states[i]),
    decreases i,
{
    if i > 0 {
        lemma_history_stands(request, steps, outcomes, states, i - 1);
        assert(laws::is_followed(steps, outcomes, i - 1));
        assert(is_moved(states, steps, outcomes, i - 1));
        laws::lemma_statement_belongs(request, steps, outcomes, i - 1);
        lemma_stands(
            states[0],
            steps[i - 1],
            states[i - 1],
            outcomes[i - 1],
            steps[i],
            states[i],
        );
    }
}

/// A request that is answered with an error, whatever it is, leaves the database as it was.
pub proof fn law_refusal_changes_nothing(
    request: Request,
    steps: Seq<Step>,
    outcomes: Seq<Outcome>,
    states: Seq<Store<Tables>>,
)
    requires
        is_history(request, steps, outcomes, states),
        steps.last() is Reply,
        steps.last()->Reply_0.status >= 400,
    ensures
        states.last() == states[0],
{
    lemma_history_stands(request, steps, outcomes, states, steps.len() - 1);
}

// What every request keeps.

/// A transaction that goes to its table has a date, and is in order with its two accounts.
proof fn lemma_insertion_is_in_order(
    request: Request,
    steps: Seq<Step>,
    outcomes: Seq<Outcome>,
    states: Seq<Store<Tables>>,
    i: int,
    row: CreateTransactionRequest,
)
    requires
        is_history(request, steps, outcomes, states),
        0 <= i < steps.len(),
        steps[i] is Ask,
        steps[i]->statement == (Statement::InsertTransaction { row }),
    ensures
        dates::is_date(row.date@),
        tables::is_in_order(states[i].rows, tables::transaction_of(row, seq![])),
{
    laws::law_only_transactions_in_order_are_stored(request, steps, outcomes, i, row);
    assert(is_moved(states, steps, outcomes, i - 2));
    assert(is_moved(states, steps, outcomes, i - 1));
    lemma_looked_up(states[i - 2].rows, row.account_id, outcomes[i - 2], states[i - 1].rows);
    lemma_looked_up(states[i - 1].rows, row.opposing_account_id, outcomes[i - 1], states[i].rows);
    validation::law_transaction_in_order(
        row.account_id,
        transactions::looked_up(outcomes[i - 2]),
        row.opposing_account_id,
        transactions::looked_up(outcomes[i - 1]),
        row.opposing_amount,
    );
}

proof fn lemma_acts_keeps_order(
    before: Tables,
    statement: Statement,
    outcome: Outcome,
    after: Tables,
)
    requires
        tables::accounts_are_there(before),
        tables::all_in_order(before),
        tables::acts(before, statement, outcome, after),
        statement matches Statement::InsertTransaction { row } ==> tables::is_in_order(
            before,
            tables::transaction_of(row, seq![]),
        ),
    ensures
        tables::accounts_are_there(after),
        tables::all_in_order(after),
{
    assert forall|id: Seq<char>| #[trigger] after.transactions.contains_key(id) implies {
        let row = after.transactions[id];
        &&& after.accounts.contains_key(row.account_id)
        &&& after.accounts.contains_key(row.opposing_account_id)
        &&& tables::is_in_order(after, row)
    } by {
        if before.transactions.contains_key(id) {
            assert(tables::is_in_order(before, before.transactions[id]));
        }
    }
}

proof fn lemma_acts_keeps_dates(
    before: Tables,
    statement: Statement,
    outcome: Outcome,
    after: Tables,
)
    requires
        tables::acts(before, statement, outcome, after),
        statement matches Statement::InsertTransaction { row } ==> dates::is_date(row.date@),
    ensures
        tables::passes_checks(before) ==> tables::passes_checks(after),
        tables::all_dated(before) ==> tables::all_dated(after),
{
    assert forall|id: Seq<char>| #[trigger] after.transactions.contains_key(id) implies {
        let row = after.transactions[id];
        if before.transactions.contains_key(id) {
            let old_row = before.transactions[id];
            &&& row.date == old_row.date
            &&& row.account_id == old_row.account_id
            &&& row.opposing_account_id == old_row.opposing_account_id
        } else {
            dates::is_date(row.date) && tables::row_passes_checks(row)
        }
    } by {}
}

/// What holds of the rows of a database that held the rows `start`.
spec fn keeps(start: Tables, rows: Tables) -> bool {
    &&& tables::meets_schema(start) ==> tables::meets_schema(rows)
    &&& tables::passes_checks(start) ==> tables::passes_checks(rows)
    &&& tables::all_dated(start) ==> tables::all_dated(rows)
    &&& tables::accounts_are_there(start) && tables::all_in_order(start)
        ==> tables::accounts_are_there(rows) && tables::all_in_order(rows)
}

proof fn lemma_keeps(
    request: Request,
    steps: Seq<Step>,
    outcomes: Seq<Outcome>,
    states: Seq<Store<Tables>>,
    i: int,
)
    requires
        is_history(request, steps, outcomes, states),
        0 <= i < states.len(),
    ensures
        keeps(states[0].rows, states[i].rows),
        states[i].before matches Some(rows) ==> keeps(states[0].rows, rows),
    decreases i,
{
    if i > 0 {
        lemma_keeps(request, steps, outcomes, states, i - 1);
        assert(is_moved(states, steps, outcomes, i - 1));
        assert(laws::is_followed(steps, outcomes, i - 1));
        let before = states[i - 1].rows;
        let after = states[i].rows;
        let statement = steps[i - 1]->statement;
        let outcome = outcomes[i - 1];
        if let Statement::InsertTransaction { row } = statement {
            lemma_insertion_is_in_order(request, steps, outcomes, states, i - 1, row);
        }
        if !(statement is Begin || statement is Commit || statement is Rollback) {
            if tables::meets_schema(before) {
                tables::lemma_acts_keeps_schema(before, statement, outcome, after);
            }
            if tables::accounts_are_there(before) && tables::all_in_order(before) {
                lemma_acts_keeps_order(before, statement, outcome, after);
            }
            lemma_acts_keeps_dates(before, statement, outcome, after);
        }
    }
}

/// Whatever is requested, the tables go on to meet their constraints, at every step.
pub proof fn law_requests_keep_the_schema(
    request: Request,
    steps: Seq<Step>,
    outcomes: Seq<Outcome>,
    states: Seq<Store<Tables>>,
    i: int,
)
    requires
        is_history(request, steps, outcomes, states),
        tables::meets_schema(states[0].rows),
        0 <= i < states.len(),
    ensures
        tables::meets_schema(states[i].rows),
{
    lemma_keeps(request, steps, outcomes, states, i);
}

/// Whatever is requested, the stored transactions go on to pass the two checks at the end of their
/// table, and to have dates, at every step.
pub proof fn law_requests_keep_the_checks(
    request: Request,
    steps: Seq<Step>,
    outcomes: Seq<Outcome>,
    states: Seq<Store<Tables>>,
    i: int,
)
    requires
        is_history(request, steps, outcomes, states),
        0 <= i < states.len(),
    ensures
        tables::passes_checks(states[0].rows) ==> tables::passes_checks(states[i].rows),
        tables::all_dated(states[0].rows) ==> tables::all_dated(states[i].rows),
{
    lemma_keeps(request, steps, outcomes, states, i);
}

/// Whatever is requested, every stored transaction stays in order with its two accounts, and these
/// stay there, at every step.
pub proof fn law_stored_transactions_stay_in_order(
    request: Request,
    steps: Seq<Step>,
    outcomes: Seq<Outcome>,
    states: Seq<Store<Tables>>,
    i: int,
)
    requires
        is_history(request, steps, outcomes, states),
        tables::accounts_are_there(states[0].rows),
        tables::all_in_order(states[0].rows),
        0 <= i < states.len(),
    ensures
        tables::accounts_are_there(states[i].rows),
        tables::all_in_order(states[i].rows),
{
    lemma_keeps(request, steps, outcomes, states, i);
}

// Creations.

/// Whether a transaction passes what is looked at before it goes to its table: it has a date, and its
/// two accounts are there, differ, and are in order with it.
pub open spec fn is_validated(rows: Tables, request: CreateTransactionRequest) -> bool {
    &&& dates::is_date(request.date@)
    &&& request.account_id != request.opposing_account_id
    &&& rows.accounts.contains_key(request.account_id)
    &&& rows.accounts.contains_key(request.opposing_account_id)
    &&& tables::is_in_order(rows, tables::transaction_of(request, seq![]))
}

/// Whether nothing but a taken id may keep a transaction from being created: it is validated, and it
/// meets the constraints of its table.
pub open spec fn is_acceptable(rows: Tables, request: CreateTransactionRequest) -> bool {
    &&& is_validated(rows, request)
    &&& tables::transaction_allowed(rows, tables::transaction_of(request, seq![]))
}

/// Whether a transaction may be created: it is acceptable, and its id is free.
pub open spec fn may_be_created(rows: Tables, request: CreateTransactionRequest) -> bool {
    is_acceptable(rows, request) && !rows.transactions.contains_key(request.id@)
}

/// A request for a new transaction is answered with 201 exactly where it may be created, with 409
/// where only its id is in the way, and with 400 where it is not validated, or where its id is free and
/// something else is in the way. Once it is created the table holds it as it was sent, besides what
/// it held before, and the reply shows it.
pub proof fn law_transaction_is_created_where_it_may_be(
    request: CreateTransactionRequest,
    steps: Seq<Step>,
    outcomes: Seq<Outcome>,
    states: Seq<Store<Tables>>,
)
    requires
        is_history(Request::CreateTransaction(Some(request)), steps, outcomes, states),
        !(steps.last() is Ask),
    ensures
        steps.last() is Reply,
        steps.last()->Reply_0.status == 201 <==> may_be_created(states[0].rows, request),
        is_acceptable(states[0].rows, request) && states[0].rows.transactions.contains_key(
            request.id@,
        ) ==> protocol::replies_error(steps.last(), 409, "duplicate id"@),
        !is_validated(states[0].rows, request) ==> steps.last()->Reply_0.status == 400,
        !is_acceptable(states[0].rows, request) && !states[0].rows.transactions.contains_key(
            request.id@,
        ) ==> steps.last()->Reply_0.status == 400,
        steps.last()->Reply_0.status == 201 ==> {
            &&& steps.last()->Reply_0.body matches Body::Transaction(record)
            &&& ({
                let row = tables::transaction_of(request, record.created_at@);
                &&& shows_transaction(record, request.id@, row)
                &&& states.last() == (Store {
                    rows: Tables {
                        transactions: states[0].rows.transactions.insert(request.id@, row),
                        ..states[0].rows
                    },
                    before: None,
                })
            })
        },
{
    let rows = states[0].rows;
    if validation::date_fault(request.date@) is Some {
        if outcomes.len() > 0 {
            assert(laws::is_followed(steps, outcomes, 0));
        }
    } else {
        assert(outcomes.len() > 0);
        assert(laws::is_followed(steps, outcomes, 0));
        assert(is_moved(states, steps, outcomes, 0));
        lemma_looked_up(rows, request.account_id, outcomes[0], states[1].rows);
        if validation::account_fault(
            request.account_id,
            transactions::looked_up(outcomes[0]),
        ) is Some {
            if outcomes.len() > 1 {
                assert(laws::is_followed(steps, outcomes, 1));
            }
        } else {
            assert(outcomes.len() > 1);
            assert(laws::is_followed(steps, outcomes, 1));
            assert(is_moved(states, steps, outcomes, 1));
            lemma_looked_up(rows, request.opposing_account_id, outcomes[1], states[2].rows);
            let fault = validation::transaction_fault(
                request.account_id,
                transactions::looked_up(outcomes[0]),
                request.opposing_account_id,
                transactions::looked_up(outcomes[1]),
                request.opposing_amount,
            );
            if fault is Some {
                if outcomes.len() > 2 {
                    assert(laws::is_followed(steps, outcomes, 2));
                }
            } else {
                assert(outcomes.len() > 2);
                assert(laws::is_followed(steps, outcomes, 2));
                assert(is_moved(states, steps, outcomes, 2));
                if outcomes.len() > 3 {
                    assert(laws::is_followed(steps, outcomes, 3));
                }
                lemma_insertion(
                    rows,
                    Statement::InsertTransaction { row: request },
                    outcomes[2],
                    states[3].rows,
                );
                if outcomes[2] is Ok {
                    let now = choose|now: Seq<char>| #[trigger]
                        tables::adds_transaction(rows, request, now, outcomes[2], states[3].rows);
                    let added = tables::transaction_of(request, now);
                    lemma_one_row(outcomes[2], tables::transaction_cells(request.id@, added));
                    lemma_transaction_row(db::only_row(outcomes[2])->Ok_0, request.id@, added);
                }
            }
        }
    }
}

/// Whether the `k`th transaction of a batch may be created, given the rows before the batch: it is
/// acceptable, its id is free, and none before it in the batch has that id.
pub open spec fn row_may_be_created(
    rows: Tables,
    request: CreateTransactionsBatchRequest,
    k: int,
) -> bool {
    let row = laws::batch_row(request, k);
    &&& may_be_created(rows, row)
    &&& forall|j: int| 0 <= j < k ==> (#[trigger] laws::batch_row(request, j)).id@ != row.id@
}

/// Whether a batch may be created: each of its transactions may.
pub open spec fn batch_may_be_created(
    rows: Tables,
    request: CreateTransactionsBatchRequest,
) -> bool {
    forall|k: int|
        0 <= k < request.transactions@.len() ==> #[trigger] row_may_be_created(rows, request, k)
}

/// Whether `rows` are the rows `start` and besides those exactly the first transactions of a batch,
/// each as it was sent, under the batch id of the batch; `list` shows them.
pub open spec fn adds_batch(
    start: Tables,
    request: CreateTransactionsBatchRequest,
    list: Seq<TransactionResponse>,
    rows: Tables,
) -> bool {
    &&& rows == (Tables { transactions: rows.transactions, ..start })
    &&& forall|id: Seq<char>| #[trigger]
        rows.transactions.contains_key(id) <==> start.transactions.contains_key(id) || exists|k: int|
            0 <= k < list.len() && (#[trigger] laws::batch_row(request, k)).id@ == id
    &&& forall|id: Seq<char>| #[trigger]
        start.transactions.contains_key(id) ==> rows.transactions[id] == start.transactions[id]
    &&& forall|k: int|
        0 <= k < list.len() ==> {
            let row = laws::batch_row(request, k);
            let added = tables::transaction_of(row, list[k].created_at@);
            &&& shows_transaction(#[trigger] list[k], row.id@, added)
            &&& rows.transactions[row.id@] == added
        }
}

/// Where the database stands at `step` of a conversation about a batch of which these are stored.
spec fn batch_holds(
    request: CreateTransactionsBatchRequest,
    start: Tables,
    stored: Seq<TransactionResponse>,
    step: Step,
    state: Store<Tables>,
) -> bool {
    let count = stored.len() as int;
    let row = laws::batch_row(request, count);
    &&& forall|k: int| 0 <= k < count ==> #[trigger] row_may_be_created(start, request, k)
    &&& match step {
        Step::Ask { statement, pending } => match pending {
            Pending::BatchBegun { .. } => state == (Store { rows: start, before: None }),
            Pending::AccountLookedUp { .. } => {
                state.before is Some && adds_batch(start, request, stored, state.rows)
            },
            Pending::OpposingLookedUp { account, .. } => {
                &&& state.before is Some
                &&& adds_batch(start, request, stored, state.rows)
                &&& start.accounts.contains_key(row.account_id)
                &&& account.account_type@ == start.accounts[row.account_id].account_type
                &&& account.currency_id == start.accounts[row.account_id].currency_id
            },
            Pending::TransactionInserted { .. } => {
                &&& state.before is Some
                &&& adds_batch(start, request, stored, state.rows)
                &&& is_validated(start, row)
            },
            Pending::BatchCommitted { .. } => {
                state.before is Some && adds_batch(start, request, stored, state.rows)
            },
            Pending::BatchRolledBack { .. } => {
                state.before is Some && !row_may_be_created(start, request, count)
            },
            _ => false,
        },
        Step::Reply(reply) => if reply.status == 201 {
            state.before is None && adds_batch(start, request, stored, state.rows)
        } else {
            !row_may_be_created(start, request, count)
        },
        Step::Abort { .. } => false,
    }
}

proof fn lemma_adds_row(
    request: CreateTransactionsBatchRequest,
    start: Tables,
    stored: Seq<TransactionResponse>,
    before: Tables,
    now: Seq<char>,
    outcome: Outcome,
    after: Tables,
    record: TransactionResponse,
)
    requires
        adds_batch(start, request, stored, before),
        !before.transactions.contains_key(laws::batch_row(request, stored.len() as int).id@),
        tables::adds_transaction(
            before,
            laws::batch_row(request, stored.len() as int),
            now,
            outcome,
            after,
        ),
        db::only_record::<TransactionResponse>(outcome) == Ok::<TransactionResponse, DbErrorView>(
            record,
        ),
    ensures
        adds_batch(start, request, stored.push(record), after),
{
    let count = stored.len() as int;
    let row = laws::batch_row(request, count);
    let added = tables::transaction_of(row, now);
    let list = stored.push(record);
    lemma_one_row(outcome, tables::transaction_cells(row.id@, added));
    lemma_transaction_row(db::only_row(outcome)->Ok_0, row.id@, added);
    assert forall|id: Seq<char>| #[trigger]
        after.transactions.contains_key(id) <==> start.transactions.contains_key(id) || exists|k: int|
            0 <= k < list.len() && (#[trigger] laws::batch_row(request, k)).id@ == id by {
        if before.transactions.contains_key(id) && !start.transactions.contains_key(id) {
            let k = choose|k: int|
                0 <= k < stored.len() && (#[trigger] laws::batch_row(request, k)).id@ == id;
            assert(0 <= k < list.len() && laws::batch_row(request, k).id@ == id);
        }
        if id == row.id@ {
            assert(0 <= count < list.len() && laws::batch_row(request, count).id@ == id);
        }
        if exists|k: int| 0 <= k < list.len() && (#[trigger] laws::batch_row(request, k)).id@ == id {
            let k = choose|k: int|
                0 <= k < list.len() && (#[trigger] laws::batch_row(request, k)).id@ == id;
            if k < count {
                assert(before.transactions.contains_key(id));
            }
        }
    }
    assert forall|k: int| 0 <= k < list.len() implies {
        let sent = laws::batch_row(request, k);
        let shown = tables::transaction_of(sent, list[k].created_at@);
        &&& shows_transaction(#[trigger] list[k], sent.id@, shown)
        &&& after.transactions[sent.id@] == shown
    } by {
        if k < count {
            let sent = laws::batch_row(request, k);
            assert(list[k] == stored[k]);
            assert(before.transactions.contains_key(sent.id@));
        }
    }
}

proof fn lemma_batch_holds(
    request: CreateTransactionsBatchRequest,
    start: Tables,
    stored: Seq<TransactionResponse>,
    step: Step,
    state: Store<Tables>,
    outcome: Outcome,
    later_stored: Seq<TransactionResponse>,
    next: Step,
    after: Store<Tables>,
    sent: Seq<CreateTransactionRequest>,
    outcomes: Seq<Outcome>,
    last: Statement,
)
    requires
        step is Ask,
        laws::batch_stands(request, sent, stored, outcomes, last, step),
        batch_holds(request, start, stored, step, state),
        moves(state, step->statement, outcome, after),
        protocol::resumes(step->pending, outcome, next),
        laws::belongs(step->statement, step->pending),
        later_stored == match step->statement {
            Statement::InsertTransaction { .. } => match db::only_record::<TransactionResponse>(
                outcome,
            ) {
                Ok(row) => stored.push(row),
                Err(_) => stored,
            },
            _ => stored,
        },
    ensures
        batch_holds(request, start, later_stored, next, after),
{
    let count = stored.len() as int;
    let row = laws::batch_row(request, count);
    match step->pending {
        Pending::AccountLookedUp { .. } => {
            lemma_looked_up(state.rows, row.account_id, outcome, after.rows);
        },
        Pending::OpposingLookedUp { account, .. } => {
            lemma_looked_up(state.rows, row.opposing_account_id, outcome, after.rows);
            validation::law_transaction_in_order(
                row.account_id,
                Some(account),
                row.opposing_account_id,
                transactions::looked_up(outcome),
                row.opposing_amount,
            );
        },
        Pending::TransactionInserted { .. } => {
            lemma_insertion(state.rows, step->statement, outcome, after.rows);
            dates::law_dates_pass_the_check(row.date@);
            if outcome is Ok {
                let record = db::only_record::<TransactionResponse>(outcome)->Ok_0;
                let now = choose|now: Seq<char>| #[trigger]
                    tables::adds_transaction(state.rows, row, now, outcome, after.rows);
                lemma_adds_row(
                    request,
                    start,
                    stored,
                    state.rows,
                    now,
                    outcome,
                    after.rows,
                    record,
                );
                assert(row_may_be_created(start, request, count)) by {
                    assert forall|j: int| 0 <= j < count implies (#[trigger] laws::batch_row(
                        request,
                        j,
                    )).id@ != row.id@ by {
                        if laws::batch_row(request, j).id@ == row.id@ {
                            assert(state.rows.transactions.contains_key(row.id@));
                        }
                    }
                }
            } else if row_may_be_created(start, request, count) {
                assert(!state.rows.transactions.contains_key(row.id@));
            }
        },
        _ => {},
    }
}

proof fn lemma_batch_history(
    request: CreateTransactionsBatchRequest,
    steps: Seq<Step>,
    outcomes: Seq<Outcome>,
    states: Seq<Store<Tables>>,
)
    requires
        is_history(Request::CreateTransactionsBatch(Some(request)), steps, outcomes, states),
    ensures
        batch_holds(
            request,
            states[0].rows,
            laws::rows_stored(steps, outcomes),
            steps.last(),
            states.last(),
        ),
    decreases outcomes.len(),
{
    let asked = Request::CreateTransactionsBatch(Some(request));
    if outcomes.len() > 0 {
        let fewer_steps = steps.drop_last();
        let fewer_outcomes = outcomes.drop_last();
        let fewer_states = states.drop_last();
        laws::lemma_shorter_run(asked, steps, outcomes);
        assert forall|i: int| 0 <= i < fewer_outcomes.len() implies #[trigger] is_moved(
            fewer_states,
            fewer_steps,
            fewer_outcomes,
            i,
        ) by {
            assert(is_moved(states, steps, outcomes, i));
        }
        lemma_batch_history(request, fewer_steps, fewer_outcomes, fewer_states);
        laws::lemma_batch(request, fewer_steps, fewer_outcomes);
        laws::lemma_statement_belongs(asked, steps, outcomes, outcomes.len() - 1);
        assert(is_moved(states, steps, outcomes, outcomes.len() - 1));
        lemma_batch_holds(
            request,
            states[0].rows,
            laws::rows_stored(fewer_steps, fewer_outcomes),
            steps[outcomes.len() - 1],
            states[outcomes.len() - 1],
            outcomes.last(),
            laws::rows_stored(steps, outcomes),
            steps.last(),
            states.last(),
            laws::rows_sent(fewer_steps),
            fewer_outcomes,
            fewer_steps[outcomes.len() - 2]->statement,
        );
    }
}

/// A batch is answered with 201 exactly where each of its transactions may be created. The table then
/// holds what it held before and besides that exactly those transactions, and the reply lists them in
/// the order in which they were sent. Otherwise nothing changes.
pub proof fn law_batch_is_created_where_it_may_be(
    request: CreateTransactionsBatchRequest,
    steps: Seq<Step>,
    outcomes: Seq<Outcome>,
    states: Seq<Store<Tables>>,
)
    requires
        is_history(Request::CreateTransactionsBatch(Some(request)), steps, outcomes, states),
        !(steps.last() is Ask),
    ensures
        ({
            &&& steps.last() matches Step::Reply(reply)
            &&& reply.status == 201 <==> batch_may_be_created(states[0].rows, request)
            &&& reply.status == 201 ==> {
                &&& reply.body matches Body::Transactions(list)
                &&& list@.len() == request.transactions@.len()
                &&& adds_batch(states[0].rows, request, list@, states.last().rows)
                &&& states.last().before is None
            }
            &&& reply.status != 201 ==> states.last() == states[0]
        }),
{
    lemma_batch_history(request, steps, outcomes, states);
    laws::lemma_batch(request, steps, outcomes);
    lemma_history_stands(
        Request::CreateTransactionsBatch(Some(request)),
        steps,
        outcomes,
        states,
        steps.len() - 1,
    );
    laws::law_reply_fits_request(
        Request::CreateTransactionsBatch(Some(request)),
        steps,
        outcomes,
        steps.len() - 1,
    );
    let count = laws::rows_stored(steps, outcomes).len() as int;
    if steps.last()->Reply_0.status != 201 {
        assert(!row_may_be_created(states[0].rows, request, count));
    }
}

/// A request for a new currency is answered with 201 exactly where its decimal places are in range and
/// its code is free, and with 409 where only the code is in the way.
pub proof fn law_currency_is_created_where_it_may_be(
    request: CreateCurrencyRequest,
    steps: Seq<Step>,
    outcomes: Seq<Outcome>,
    states: Seq<Store<Tables>>,
)
    requires
        is_history(Request::CreateCurrency(Some(request)), steps, outcomes, states),
        !(steps.last() is Ask),
    ensures
        ({
            let row = Currency { code: request.code@, minor_unit: request.minor_unit };
            let taken = tables::code_taken(states[0].rows, row.code);
            &&& steps.last() matches Step::Reply(reply)
            &&& reply.status == 201 <==> tables::currency_allowed(row) && !taken
            &&& tables::currency_allowed(row) && taken ==> protocol::replies_error(
                steps.last(),
                409,
                "duplicate id"@,
            )
            &&& !taken && !tables::currency_allowed(row) ==> reply.status == 400
            &&& reply.status == 201 ==> {
                &&& reply.body matches Body::Currency(record)
                &&& !states[0].rows.currencies.contains_key(record.id)
                &&& shows_currency(record, record.id, row)
                &&& states.last().rows == (Tables {
                    currencies: states[0].rows.currencies.insert(record.id, row),
                    ..states[0].rows
                })
            }
        }),
{
    let row = Currency { code: request.code@, minor_unit: request.minor_unit };
    assert(outcomes.len() > 0);
    assert(laws::is_followed(steps, outcomes, 0));
    assert(is_moved(states, steps, outcomes, 0));
    if outcomes.len() > 1 {
        assert(laws::is_followed(steps, outcomes, 1));
    }
    lemma_insertion(states[0].rows, steps[0]->statement, outcomes[0], states[1].rows);
    if outcomes[0] is Ok {
        let id = choose|id: i64| #[trigger]
            tables::adds_currency(states[0].rows, id, row, outcomes[0], states[1].rows);
        lemma_one_row(outcomes[0], tables::currency_cells(id, row));
        lemma_currency_row(db::only_row(outcomes[0])->Ok_0, id, row);
    }
}

/// A request for a new category is answered with 201 exactly where its name is free, and with 409
/// where it is not.
pub proof fn law_category_is_created_where_it_may_be(
    request: CreateCategoryRequest,
    steps: Seq<Step>,
    outcomes: Seq<Outcome>,
    states: Seq<Store<Tables>>,
)
    requires
        is_history(Request::CreateCategory(Some(request)), steps, outcomes, states),
        !(steps.last() is Ask),
    ensures
        ({
            let taken = tables::category_taken(states[0].rows, request.name@);
            &&& steps.last() matches Step::Reply(reply)
            &&& reply.status == 201 <==> !taken
            &&& taken ==> protocol::replies_error(steps.last(), 409, "duplicate id"@)
            &&& reply.status == 201 ==> {
                &&& reply.body matches Body::Category(record)
                &&& !states[0].rows.categories.contains_key(record.id)
                &&& record.name@ == request.name@
                &&& states.last().rows == (Tables {
                    categories: states[0].rows.categories.insert(record.id, request.name@),
                    ..states[0].rows
                })
            }
        }),
{
    assert(outcomes.len() > 0);
    assert(laws::is_followed(steps, outcomes, 0));
    assert(is_moved(states, steps, outcomes, 0));
    if outcomes.len() > 1 {
        assert(laws::is_followed(steps, outcomes, 1));
    }
    lemma_insertion(states[0].rows, steps[0]->statement, outcomes[0], states[1].rows);
    if outcomes[0] is Ok {
        let name = request.name@;
        let id = choose|id: i64| #[trigger]
            tables::adds_category(states[0].rows, id, name, outcomes[0], states[1].rows);
        lemma_one_row(outcomes[0], tables::category_cells(id, name));
        lemma_category_row(db::only_row(outcomes[0])->Ok_0, id, name);
    }
}

/// A request for a new account is answered with 201 exactly where its type and currency go together,
/// the currency is there, and no account of its type has its name; and with 409 where only such an
/// account is in the way.
pub proof fn law_account_is_created_where_it_may_be(
    request: CreateAccountRequest,
    steps: Seq<Step>,
    outcomes: Seq<Outcome>,
    states: Seq<Store<Tables>>,
)
    requires
        is_history(Request::CreateAccount(Some(request)), steps, outcomes, states),
        !(steps.last() is Ask),
    ensures
        ({
            let row = Account {
                name: request.name@,
                account_type: request.account_type@,
                currency_id: request.currency_id,
            };
            let allowed = tables::account_allowed(states[0].rows, row);
            let taken = tables::account_taken(states[0].rows, row);
            &&& steps.last() matches Step::Reply(reply)
            &&& reply.status == 201 <==> allowed && !taken
            &&& allowed && taken ==> protocol::replies_error(steps.last(), 409, "duplicate id"@)
            &&& !taken && !allowed ==> reply.status == 400
            &&& reply.status == 201 ==> {
                &&& reply.body matches Body::Account(record)
                &&& !states[0].rows.accounts.contains_key(record.id)
                &&& shows_account(record, record.id, row)
                &&& states.last().rows == (Tables {
                    accounts: states[0].rows.accounts.insert(record.id, row),
                    ..states[0].rows
                })
            }
        }),
{
    let row = Account {
        name: request.name@,
        account_type: request.account_type@,
        currency_id: request.currency_id,
    };
    assert(outcomes.len() > 0);
    assert(laws::is_followed(steps, outcomes, 0));
    assert(is_moved(states, steps, outcomes, 0));
    if outcomes.len() > 1 {
        assert(laws::is_followed(steps, outcomes, 1));
    }
    lemma_insertion(states[0].rows, steps[0]->statement, outcomes[0], states[1].rows);
    if outcomes[0] is Ok {
        let id = choose|id: i64| #[trigger]
            tables::adds_account(states[0].rows, id, row, outcomes[0], states[1].rows);
        lemma_one_row(outcomes[0], tables::account_cells(id, row));
        lemma_account_row(db::only_row(outcomes[0])->Ok_0, id, row);
    }
}

// Changes.

/// A change that is in order changes the description and the category that it names, and the time of
/// the last change, of the transaction that it is for, and nothing else; the reply shows the result.
/// Where there is no such transaction the reply is 404, and where the category is not there it is 400;
/// either way nothing changes.
pub proof fn law_change_of_a_transaction(
    id: String,
    body: String,
    steps: Seq<Step>,
    outcomes: Seq<Outcome>,
    states: Seq<Store<Tables>>,
)
    requires
        is_history(Request::PatchTransaction { id, body }, steps, outcomes, states),
        !(steps.last() is Ask),
        json::json_object(body@) matches Some(members) && !transactions::names_immutable(members),
    ensures
        ({
            let members = json::json_object(body@)->0;
            let rows = states[0].rows;
            let category_given = transactions::member(members, "category_id"@) is Some;
            let category_id = transactions::integer_given(members, "category_id"@);
            &&& steps.last() matches Step::Reply(reply)
            &&& if !rows.transactions.contains_key(id@) {
                protocol::replies_not_found(steps.last()) && states.last() == states[0]
            } else if category_given && category_id is Some && !rows.categories.contains_key(
                category_id->0,
            ) {
                laws::is_refusal(reply) && reply.status == 400 && states.last() == states[0]
            } else {
                &&& reply.status == 200
                &&& reply.body matches Body::Transaction(record)
                &&& ({
                    let changed = tables::transaction_changed(
                        rows.transactions[id@],
                        transactions::text_given(members, "description"@),
                        category_given,
                        category_id,
                        record.updated_at@,
                    );
                    &&& shows_transaction(record, id@, changed)
                    &&& states.last().rows == (Tables {
                        transactions: rows.transactions.insert(id@, changed),
                        ..rows
                    })
                })
            }
        }),
{
    let members = json::json_object(body@)->0;
    let rows = states[0].rows;
    assert(outcomes.len() > 0);
    assert(laws::is_followed(steps, outcomes, 0));
    assert(is_moved(states, steps, outcomes, 0));
    if outcomes.len() > 1 {
        assert(laws::is_followed(steps, outcomes, 1));
        assert(is_moved(states, steps, outcomes, 1));
        if outcomes.len() > 2 {
            assert(laws::is_followed(steps, outcomes, 2));
        }
        let description = transactions::text_given(members, "description"@);
        let category_given = transactions::member(members, "category_id"@) is Some;
        let category_id = transactions::integer_given(members, "category_id"@);
        let updated_at = choose|updated_at: Seq<char>| #[trigger]
            tables::changes_transaction(
                rows,
                id@,
                description,
                category_given,
                category_id,
                updated_at,
                states[1].rows,
            );
        let changed = states[1].rows.transactions[id@];
        lemma_one_row(outcomes[1], tables::transaction_cells(id@, changed));
        lemma_transaction_row(db::only_row(outcomes[1])->Ok_0, id@, changed);
    }
}

// Deletions.

/// Whether a path segment writes the id of an account that is there.
pub open spec fn names_account(rows: Tables, segment: Seq<char>) -> bool {
    text::id_value(segment) matches Some(id) && rows.accounts.contains_key(id)
}

/// Deleting an account that no transaction names takes it, and nothing else, out of its table. One
/// that a transaction names stays, and the reply is 400; where the id names no account nothing changes
/// either, and the reply is 404.
pub proof fn law_deletion_of_an_account(
    id: String,
    steps: Seq<Step>,
    outcomes: Seq<Outcome>,
    states: Seq<Store<Tables>>,
)
    requires
        is_history(Request::DeleteAccount { id }, steps, outcomes, states),
        !(steps.last() is Ask),
    ensures
        steps.last() is Reply,
        if !names_account(states[0].rows, id@) {
            protocol::replies_not_found(steps.last()) && states.last() == states[0]
        } else if tables::account_used(states[0].rows, text::id_value(id@)->0) {
            &&& laws::is_refusal(steps.last()->Reply_0)
            &&& steps.last()->Reply_0.status == 400
            &&& states.last() == states[0]
        } else {
            &&& protocol::replies_no_content(steps.last())
            &&& states.last() == (Store {
                rows: Tables {
                    accounts: states[0].rows.accounts.remove(text::id_value(id@)->0),
                    ..states[0].rows
                },
                before: None,
            })
        },
{
    if outcomes.len() > 0 {
        assert(laws::is_followed(steps, outcomes, 0));
        assert(is_moved(states, steps, outcomes, 0));
        if outcomes.len() > 1 {
            assert(laws::is_followed(steps, outcomes, 1));
        }
    }
    laws::law_reply_fits_request(
        Request::DeleteAccount { id },
        steps,
        outcomes,
        steps.len() - 1,
    );
}

/// Deleting a transaction takes it, and nothing else, out of the table; where there is none of that
/// id, nothing changes and the reply is 404.
pub proof fn law_deletion_of_a_transaction(
    id: String,
    steps: Seq<Step>,
    outcomes: Seq<Outcome>,
    states: Seq<Store<Tables>>,
)
    requires
        is_history(Request::DeleteTransaction { id }, steps, outcomes, states),
        !(steps.last() is Ask),
    ensures
        steps.last() is Reply,
        if states[0].rows.transactions.contains_key(id@) {
            &&& protocol::replies_no_content(steps.last())
            &&& states.last() == (Store {
                rows: Tables {
                    transactions: states[0].rows.transactions.remove(id@),
                    ..states[0].rows
                },
                before: None,
            })
        } else {
            protocol::replies_not_found(steps.last()) && states.last() == states[0]
        },
{
    assert(outcomes.len() > 0);
    assert(laws::is_followed(steps, outcomes, 0));
    assert(is_moved(states, steps, outcomes, 0));
    if outcomes.len() > 1 {
        assert(laws::is_followed(steps, outcomes, 1));
    }
}

/// Whether a path segment writes the id of a category that is there.
pub open spec fn names_category(rows: Tables, segment: Seq<char>) -> bool {
    text::id_value(segment) matches Some(id) && rows.categories.contains_key(id)
}

/// Deleting a category takes it out of its table and away from the transactions that had it; no
/// transaction is lost, and nothing else changes. Where the id names no category, nothing changes and
/// the reply is 404.
pub proof fn law_deletion_of_a_category(
    id: String,
    steps: Seq<Step>,
    outcomes: Seq<Outcome>,
    states: Seq<Store<Tables>>,
)
    requires
        is_history(Request::DeleteCategory { id }, steps, outcomes, states),
        !(steps.last() is Ask),
    ensures
        steps.last() is Reply,
        if names_category(states[0].rows, id@) {
            &&& protocol::replies_no_content(steps.last())
            &&& states.last() == (Store {
                rows: tables::category_removed(states[0].rows, text::id_value(id@)->0),
                before: None,
            })
        } else {
            protocol::replies_not_found(steps.last()) && states.last() == states[0]
        },
        states.last().rows.transactions.dom() == states[0].rows.transactions.dom(),
{
    if outcomes.len() > 0 {
        assert(laws::is_followed(steps, outcomes, 0));
        assert(is_moved(states, steps, outcomes, 0));
        if outcomes.len() > 1 {
            assert(laws::is_followed(steps, outcomes, 1));
        }
    }
}

/// What was deleted cannot be deleted again: a second request for it is answered with 404.
pub proof fn law_second_deletion_finds_nothing(
    request: Request,
    steps: Seq<Step>,
    outcomes: Seq<Outcome>,
    states: Seq<Store<Tables>>,
    later_steps: Seq<Step>,
    later_outcomes: Seq<Outcome>,
    later_states: Seq<Store<Tables>>,
)
    requires
        request is DeleteTransaction || request is DeleteCategory,
        is_history(request, steps, outcomes, states),
        !(steps.last() is Ask),
        is_history(request, later_steps, later_outcomes, later_states),
        !(later_steps.last() is Ask),
        later_states[0] == states.last(),
    ensures
        protocol::replies_not_found(later_steps.last()),
        later_states.last() == later_states[0],
{
    if let Request::DeleteTransaction { id } = request {
        law_deletion_of_a_transaction(id, steps, outcomes, states);
        law_deletion_of_a_transaction(id, later_steps, later_outcomes, later_states);
    }
    if let Request::DeleteCategory { id } = request {
        law_deletion_of_a_category(id, steps, outcomes, states);
        law_deletion_of_a_category(id, later_steps, later_outcomes, later_states);
    }
}

/// A deletion is not for good: the id of a deleted transaction is free, and the same transaction may
/// be created again.
pub proof fn law_deletion_frees_the_id(
    request: CreateTransactionRequest,
    steps: Seq<Step>,
    outcomes: Seq<Outcome>,
    states: Seq<Store<Tables>>,
    id: String,
    deleting_steps: Seq<Step>,
    deleting_outcomes: Seq<Outcome>,
    deleting_states: Seq<Store<Tables>>,
    later_steps: Seq<Step>,
    later_outcomes: Seq<Outcome>,
    later_states: Seq<Store<Tables>>,
)
    requires
        is_history(Request::CreateTransaction(Some(request)), steps, outcomes, states),
        steps.last() is Reply,
        steps.last()->Reply_0.status == 201,
        id@ == request.id@,
        is_history(
            Request::DeleteTransaction { id },
            deleting_steps,
            deleting_outcomes,
            deleting_states,
        ),
        deleting_states[0] == states.last(),
        !(deleting_steps.last() is Ask),
        is_history(
            Request::CreateTransaction(Some(request)),
            later_steps,
            later_outcomes,
            later_states,
        ),
        later_states[0] == deleting_states.last(),
        !(later_steps.last() is Ask),
    ensures
        protocol::replies_no_content(deleting_steps.last()),
        deleting_states.last() == states[0],
        later_steps.last() is Reply,
        later_steps.last()->Reply_0.status == 201,
        later_steps.last()->Reply_0.body matches Body::Transaction(record)
            && later_states.last().rows.transactions[request.id@] == tables::transaction_of(
            request,
            record.created_at@,
        ),
{
    law_transaction_is_created_where_it_may_be(request, steps, outcomes, states);
    law_deletion_of_a_transaction(id, deleting_steps, deleting_outcomes, deleting_states);
    let rows = states[0].rows;
    assert(deleting_states.last().rows.transactions =~= rows.transactions);
    law_transaction_is_created_where_it_may_be(request, later_steps, later_outcomes, later_states);
}

// Lists.

/// The cells that a record shows.
pub open spec fn shown_currency(record: CurrencyResponse) -> Seq<CellView> {
    tables::currency_cells(
        record.id,
        Currency { code: record.code@, minor_unit: record.minor_unit },
    )
}

/// The cells that a record shows.
pub open spec fn shown_category(record: CategoryResponse) -> Seq<CellView> {
    tables::category_cells(record.id, record.name@)
}

/// The cells that a record shows.
pub open spec fn shown_account(record: AccountResponse) -> Seq<CellView> {
    tables::account_cells(
        record.id,
        Account {
            name: record.name@,
            account_type: record.account_type@,
            currency_id: record.currency_id,
        },
    )
}

/// The cells that a record shows.
pub open spec fn shown_transaction(record: TransactionResponse) -> Seq<CellView> {
    tables::transaction_cells(
        record.id@,
        Transaction {
            batch_id: db::optional_text(record.batch_id),
            description: record.description@,
            date: record.date@,
            amount: record.amount,
            opposing_amount: record.opposing_amount,
            account_id: record.account_id,
            opposing_account_id: record.opposing_account_id,
            category_id: record.category_id,
            created_at: record.created_at@,
            updated_at: record.updated_at@,
        },
    )
}

/// The cells that a list shows, record by record.
pub open spec fn shown_currencies(list: Seq<CurrencyResponse>) -> Seq<Seq<CellView>> {
    list.map_values(|record: CurrencyResponse| shown_currency(record))
}

/// The cells that a list shows, record by record.
pub open spec fn shown_categories(list: Seq<CategoryResponse>) -> Seq<Seq<CellView>> {
    list.map_values(|record: CategoryResponse| shown_category(record))
}

/// The cells that a list shows, record by record.
pub open spec fn shown_accounts(list: Seq<AccountResponse>) -> Seq<Seq<CellView>> {
    list.map_values(|record: AccountResponse| shown_account(record))
}

/// The cells that a list shows, record by record.
pub open spec fn shown_transactions(list: Seq<TransactionResponse>) -> Seq<Seq<CellView>> {
    list.map_values(|record: TransactionResponse| shown_transaction(record))
}

/// Whether `row` holds the stored row of this id.
spec fn holds<K>(
    row: Seq<Cell>,
    id: K,
    ids: Set<K>,
    cells: spec_fn(K) -> Seq<CellView>,
) -> bool {
    ids.contains(id) && db::cell_views(row) == cells(id)
}

proof fn lemma_no_fault<R: Record>(rows: Seq<Vec<Cell>>)
    requires
        forall|i: int|
            0 <= i < rows.len() ==> db::row_fault((#[trigger] rows[i])@, R::columns()) is None,
    ensures
        db::rows_fault::<R>(rows) is None,
    decreases rows.len(),
{
    if rows.len() > 0 {
        lemma_no_fault::<R>(rows.drop_last());
        assert(rows.last() == rows[rows.len() - 1]);
    }
}

/// The records of listed rows show those rows.
proof fn lemma_list<R: Record, K>(
    rows: Seq<Vec<Cell>>,
    ids: Set<K>,
    cells: spec_fn(K) -> Seq<CellView>,
    shown: spec_fn(R) -> Seq<CellView>,
)
    requires
        tables::lists(db::row_views(rows), ids, cells),
        forall|row: Seq<Cell>, id: K| #[trigger]
            holds(row, id, ids, cells) ==> db::row_fault(row, R::columns()) is None && shown(
                R::of(row),
            ) == cells(id),
    ensures
        db::rows_fault::<R>(rows) is None,
        rows.map_values(|row: Vec<Cell>| R::of(row@)).map_values(shown) == db::row_views(rows),
{
    let views = db::row_views(rows);
    assert forall|i: int| 0 <= i < rows.len() implies db::row_fault(
        (#[trigger] rows[i])@,
        R::columns(),
    ) is None && shown(R::of(rows[i]@)) == views[i] by {
        assert(views.contains(views[i]));
        let id = choose|id: K| #[trigger] ids.contains(id) && cells(id) == views[i];
        assert(holds(rows[i]@, id, ids, cells));
    }
    lemma_no_fault::<R>(rows);
    assert(rows.map_values(|row: Vec<Cell>| R::of(row@)).map_values(shown) =~= views);
}

/// A request for all currencies is answered with 200 and every stored currency, each once; nothing
/// changes.
pub proof fn law_list_shows_all_currencies(
    steps: Seq<Step>,
    outcomes: Seq<Outcome>,
    states: Seq<Store<Tables>>,
)
    requires
        is_history(Request::ListCurrencies, steps, outcomes, states),
        !(steps.last() is Ask),
    ensures
        steps.last() is Reply,
        steps.last()->Reply_0.status == 200,
        steps.last()->Reply_0.body matches Body::Currencies(list) && tables::lists(
            shown_currencies(list@),
            states[0].rows.currencies.dom(),
            |id: i64| tables::currency_cells(id, states[0].rows.currencies[id]),
        ),
        states.last() == states[0],
{
    assert(outcomes.len() > 0);
    assert(laws::is_followed(steps, outcomes, 0));
    assert(is_moved(states, steps, outcomes, 0));
    if outcomes.len() > 1 {
        assert(laws::is_followed(steps, outcomes, 1));
    }
    let stored = states[0].rows.currencies;
    let cells = |id: i64| tables::currency_cells(id, stored[id]);
    let shown = |record: CurrencyResponse| shown_currency(record);
    assert forall|row: Seq<Cell>, id: i64| #[trigger]
        holds(row, id, stored.dom(), cells) implies db::row_fault(row, CurrencyResponse::columns()) is None
        && shown(CurrencyResponse::of(row)) == cells(id) by {
        lemma_currency_row(row, id, stored[id]);
    }
    let rows = outcomes[0]->Ok_0.rows@;
    lemma_list::<CurrencyResponse, i64>(rows, stored.dom(), cells, shown);
    let list = rows.map_values(|row: Vec<Cell>| CurrencyResponse::of(row@));
    assert(shown_currencies(list) =~= list.map_values(shown));
}

/// A request for all categories is answered with 200 and every stored category, each once; nothing
/// changes.
pub proof fn law_list_shows_all_categories(
    steps: Seq<Step>,
    outcomes: Seq<Outcome>,
    states: Seq<Store<Tables>>,
)
    requires
        is_history(Request::ListCategories, steps, outcomes, states),
        !(steps.last() is Ask),
    ensures
        steps.last() is Reply,
        steps.last()->Reply_0.status == 200,
        steps.last()->Reply_0.body matches Body::Categories(list) && tables::lists(
            shown_categories(list@),
            states[0].rows.categories.dom(),
            |id: i64| tables::category_cells(id, states[0].rows.categories[id]),
        ),
        states.last() == states[0],
{
    assert(outcomes.len() > 0);
    assert(laws::is_followed(steps, outcomes, 0));
    assert(is_moved(states, steps, outcomes, 0));
    if outcomes.len() > 1 {
        assert(laws::is_followed(steps, outcomes, 1));
    }
    let stored = states[0].rows.categories;
    let cells = |id: i64| tables::category_cells(id, stored[id]);
    let shown = |record: CategoryResponse| shown_category(record);
    assert forall|row: Seq<Cell>, id: i64| #[trigger]
        holds(row, id, stored.dom(), cells) implies db::row_fault(row, CategoryResponse::columns()) is None
        && shown(CategoryResponse::of(row)) == cells(id) by {
        lemma_category_row(row, id, stored[id]);
    }
    let rows = outcomes[0]->Ok_0.rows@;
    lemma_list::<CategoryResponse, i64>(rows, stored.dom(), cells, shown);
    let list = rows.map_values(|row: Vec<Cell>| CategoryResponse::of(row@));
    assert(shown_categories(list) =~= list.map_values(shown));
}

/// A request for all accounts is answered with 200 and every stored account, each once; nothing
/// changes.
pub proof fn law_list_shows_all_accounts(
    steps: Seq<Step>,
    outcomes: Seq<Outcome>,
    states: Seq<Store<Tables>>,
)
    requires
        is_history(Request::ListAccounts, steps, outcomes, states),
        !(steps.last() is Ask),
    ensures
        steps.last() is Reply,
        steps.last()->Reply_0.status == 200,
        steps.last()->Reply_0.body matches Body::Accounts(list) && tables::lists(
            shown_accounts(list@),
            states[0].rows.accounts.dom(),
            |id: i64| tables::account_cells(id, states[0].rows.accounts[id]),
        ),
        states.last() == states[0],
{
    assert(outcomes.len() > 0);
    assert(laws::is_followed(steps, outcomes, 0));
    assert(is_moved(states, steps, outcomes, 0));
    if outcomes.len() > 1 {
        assert(laws::is_followed(steps, outcomes, 1));
    }
    let stored = states[0].rows.accounts;
    let cells = |id: i64| tables::account_cells(id, stored[id]);
    let shown = |record: AccountResponse| shown_account(record);
    assert forall|row: Seq<Cell>, id: i64| #[trigger]
        holds(row, id, stored.dom(), cells) implies db::row_fault(row, AccountResponse::columns()) is None
        && shown(AccountResponse::of(row)) == cells(id) by {
        lemma_account_row(row, id, stored[id]);
    }
    let rows = outcomes[0]->Ok_0.rows@;
    lemma_list::<AccountResponse, i64>(rows, stored.dom(), cells, shown);
    let list = rows.map_values(|row: Vec<Cell>| AccountResponse::of(row@));
    assert(shown_accounts(list) =~= list.map_values(shown));
}

/// A request for all transactions is answered with 200 and every stored transaction, each once, the
/// newest first and by id within a date; nothing changes.
pub proof fn law_list_shows_all_transactions(
    steps: Seq<Step>,
    outcomes: Seq<Outcome>,
    states: Seq<Store<Tables>>,
)
    requires
        is_history(Request::ListTransactions, steps, outcomes, states),
        !(steps.last() is Ask),
    ensures
        steps.last() is Reply,
        steps.last()->Reply_0.status == 200,
        steps.last()->Reply_0.body matches Body::Transactions(list) && tables::lists(
            shown_transactions(list@),
            states[0].rows.transactions.dom(),
            |id: Seq<char>| tables::transaction_cells(id, states[0].rows.transactions[id]),
        ) && forall|i: int, j: int|
            #![trigger list@[i], list@[j]]
            0 <= i < j < list@.len() ==> tables::comes_first(
                list@[i].date@,
                list@[i].id@,
                list@[j].date@,
                list@[j].id@,
            ),
        states.last() == states[0],
{
    assert(outcomes.len() > 0);
    assert(laws::is_followed(steps, outcomes, 0));
    assert(is_moved(states, steps, outcomes, 0));
    if outcomes.len() > 1 {
        assert(laws::is_followed(steps, outcomes, 1));
    }
    let stored = states[0].rows.transactions;
    let cells = |id: Seq<char>| tables::transaction_cells(id, stored[id]);
    let shown = |record: TransactionResponse| shown_transaction(record);
    assert forall|row: Seq<Cell>, id: Seq<char>| #[trigger]
        holds(row, id, stored.dom(), cells) implies db::row_fault(row, TransactionResponse::columns()) is None
        && shown(TransactionResponse::of(row)) == cells(id) by {
        lemma_transaction_row(row, id, stored[id]);
    }
    let rows = outcomes[0]->Ok_0.rows@;
    lemma_list::<TransactionResponse, Seq<char>>(rows, stored.dom(), cells, shown);
    let list = rows.map_values(|row: Vec<Cell>| TransactionResponse::of(row@));
    assert(shown_transactions(list) =~= list.map_values(shown));
    assert forall|i: int| 0 <= i < list.len() implies {
        &&& db::row_views(rows)[i][0] == CellView::Text((#[trigger] list[i]).id@)
        &&& db::row_views(rows)[i][3] == CellView::Text(list[i].date@)
    } by {
        assert(db::row_views(rows)[i] == shown_transaction(list[i]));
    }
    assert forall|i: int, j: int|
        #![trigger list[i], list[j]]
        0 <= i < j < list.len() implies tables::comes_first(
        list[i].date@,
        list[i].id@,
        list[j].date@,
        list[j].id@,
    ) by {
        let views = db::row_views(rows);
        assert(views[i][0] == CellView::Text(list[i].id@) && views[j][0] == CellView::Text(
            list[j].id@,
        ));
    }
}

/// A list of currencies gains the currency that was created since the one before, and nothing else;
/// its id is none of those listed before.
pub proof fn law_list_gains_the_new_currency(
    steps: Seq<Step>,
    outcomes: Seq<Outcome>,
    states: Seq<Store<Tables>>,
    request: CreateCurrencyRequest,
    creating_steps: Seq<Step>,
    creating_outcomes: Seq<Outcome>,
    creating_states: Seq<Store<Tables>>,
    later_steps: Seq<Step>,
    later_outcomes: Seq<Outcome>,
    later_states: Seq<Store<Tables>>,
)
    requires
        is_history(Request::ListCurrencies, steps, outcomes, states),
        !(steps.last() is Ask),
        is_history(
            Request::CreateCurrency(Some(request)),
            creating_steps,
            creating_outcomes,
            creating_states,
        ),
        creating_states[0] == states.last(),
        creating_steps.last() is Reply,
        creating_steps.last()->Reply_0.status == 201,
        is_history(Request::ListCurrencies, later_steps, later_outcomes, later_states),
        later_states[0] == creating_states.last(),
        !(later_steps.last() is Ask),
    ensures
        steps.last()->Reply_0.body is Currencies,
        creating_steps.last()->Reply_0.body is Currency,
        later_steps.last()->Reply_0.status == 200,
        later_steps.last()->Reply_0.body is Currencies,
        ({
            let list = steps.last()->Reply_0.body->Currencies_0@;
            let created = creating_steps.last()->Reply_0.body->Currency_0;
            let later = later_steps.last()->Reply_0.body->Currencies_0@;
            &&& created.code@ == request.code@
            &&& created.minor_unit == request.minor_unit
            &&& forall|i: int| 0 <= i < list.len() ==> (#[trigger] list[i]).id != created.id
            &&& shown_currencies(later).to_multiset() == shown_currencies(list).to_multiset().insert(
                shown_currencies(seq![created])[0],
            )
        }),
{
    law_list_shows_all_currencies(steps, outcomes, states);
    law_list_shows_all_currencies(later_steps, later_outcomes, later_states);
    assert(creating_outcomes.len() > 0);
    assert(laws::is_followed(creating_steps, creating_outcomes, 0));
    assert(is_moved(creating_states, creating_steps, creating_outcomes, 0));
    if creating_outcomes.len() > 1 {
        assert(laws::is_followed(creating_steps, creating_outcomes, 1));
    }
    let stored = states[0].rows.currencies;
    let later_stored = later_states[0].rows.currencies;
    let outcome = creating_outcomes[0];
    let row = Currency { code: request.code@, minor_unit: request.minor_unit };
    let id = choose|id: i64| #[trigger]
        tables::adds_currency(states[0].rows, id, row, outcome, creating_states[1].rows);
    lemma_one_row(outcome, tables::currency_cells(id, row));
    lemma_currency_row(db::only_row(outcome)->Ok_0, id, row);

    let list = steps.last()->Reply_0.body->Currencies_0@;
    let created = creating_steps.last()->Reply_0.body->Currency_0;
    let later = later_steps.last()->Reply_0.body->Currencies_0@;
    let old_rows = shown_currencies(list);
    let new_rows = shown_currencies(later);
    let added = tables::currency_cells(id, row);
    assert(shown_currencies(seq![created])[0] == added);
    let old_cells = |id: i64| tables::currency_cells(id, stored[id]);
    let new_cells = |id: i64| tables::currency_cells(id, later_stored[id]);
    assert forall|i: int| 0 <= i < list.len() implies (#[trigger] list[i]).id != created.id by {
        let shown = old_rows[i];
        assert(old_rows.contains(shown));
        let other = choose|other: i64| #[trigger]
            stored.dom().contains(other) && old_cells(other) == shown;
        assert(shown[0] == CellView::Integer(list[i].id));
        assert(old_cells(other)[0] == CellView::Integer(other));
    }
    assert(!old_rows.contains(added)) by {
        if old_rows.contains(added) {
            let i = choose|i: int| 0 <= i < old_rows.len() && old_rows[i] == added;
            assert(added[0] == CellView::Integer(id));
            assert(old_rows[i][0] == CellView::Integer(list[i].id));
        }
    }
    assert forall|shown: Seq<CellView>| #[trigger]
        new_rows.contains(shown) <==> old_rows.contains(shown) || shown == added by {
        if new_rows.contains(shown) {
            let other = choose|other: i64| #[trigger]
                later_stored.dom().contains(other) && new_cells(other) == shown;
            if other != id {
                assert(stored.dom().contains(other) && old_cells(other) == shown);
            }
        }
        if old_rows.contains(shown) {
            let other = choose|other: i64| #[trigger]
                stored.dom().contains(other) && old_cells(other) == shown;
            assert(later_stored.dom().contains(other) && new_cells(other) == shown);
        }
        assert(later_stored.dom().contains(id) && new_cells(id) == added);
    }
    old_rows.lemma_multiset_has_no_duplicates();
    new_rows.lemma_multiset_has_no_duplicates();
    old_rows.to_multiset_ensures();
    new_rows.to_multiset_ensures();
    assert forall|shown: Seq<CellView>| #[trigger]
        new_rows.to_multiset().count(shown) == old_rows.to_multiset().insert(added).count(shown) by {
        assert(new_rows.contains(shown) <==> old_rows.contains(shown) || shown == added);
    }
    assert(new_rows.to_multiset() =~= old_rows.to_multiset().insert(added));
}

} // verus!
