//! What each statement says to the database, word for word, and what it does there.
//!
//! The words and the effect stand side by side, so that one cannot change without the other.

use vstd::prelude::*;

use crate::dates;
use crate::db;
use crate::db::{Cell, Outcome};
use crate::records::CreateTransactionRequest;
use crate::schema;
use crate::schema::Migration;
use crate::statements;
use crate::statements::Statement;
use crate::tables;
use crate::tables::{File, Tables};

verus! {

// Currencies.

/// A currency goes to its table with its code and its decimal places. It is stored exactly where
/// there are from 0 to 4 of these and no currency has that code, under an id that none had; nothing
/// else changes.
pub proof fn law_insert_currency(
    code: String,
    minor_unit: i64,
    before: Tables,
    outcome: Outcome,
    after: Tables,
)
    requires
        tables::acts(before, Statement::InsertCurrency { code, minor_unit }, outcome, after),
    ensures
        statements::sql_of(Statement::InsertCurrency { code, minor_unit })
            == "INSERT INTO currencies (code, minor_unit) VALUES (?1, ?2) RETURNING id, code, minor_unit"@,
        statements::parameters_of(Statement::InsertCurrency { code, minor_unit }) == seq![
            Cell::Text(code),
            Cell::Integer(minor_unit),
        ],
        outcome is Ok <==> 0 <= minor_unit <= 4 && forall|id: i64| #[trigger]
            before.currencies.contains_key(id) ==> before.currencies[id].code != code@,
        outcome is Err ==> after == before,
        outcome is Ok ==> exists|id: i64|
            !before.currencies.contains_key(id) && #[trigger] after.currencies.contains_key(id)
                && after.currencies[id].code == code@ && after.currencies[id].minor_unit
                == minor_unit && after.currencies.remove(id) == before.currencies,
        after.accounts == before.accounts,
        after.categories == before.categories,
        after.transactions == before.transactions,
{
    let row = tables::Currency { code: code@, minor_unit };
    if tables::currency_allowed(row) && !tables::code_taken(before, code@) {
        let id = choose|id: i64| #[trigger]
            tables::adds_currency(before, id, row, outcome, after);
        assert(after.currencies.contains_key(id));
        assert(after.currencies.remove(id) =~= before.currencies);
    }
}

/// The list of currencies has every stored currency, each once, and changes nothing.
pub proof fn law_list_currencies(before: Tables, outcome: Outcome, after: Tables)
    requires
        tables::acts(before, Statement::ListCurrencies, outcome, after),
    ensures
        statements::sql_of(Statement::ListCurrencies)
            == "SELECT id, code, minor_unit FROM currencies"@,
        statements::parameters_of(Statement::ListCurrencies).len() == 0,
        outcome is Ok,
        db::row_views(outcome->Ok_0.rows@).no_duplicates(),
        forall|id: i64| #[trigger]
            before.currencies.contains_key(id) ==> db::row_views(outcome->Ok_0.rows@).contains(
                tables::currency_cells(id, before.currencies[id]),
            ),
        forall|row: Seq<db::CellView>| #[trigger]
            db::row_views(outcome->Ok_0.rows@).contains(row) ==> exists|id: i64| #[trigger]
                before.currencies.contains_key(id) && row == tables::currency_cells(
                    id,
                    before.currencies[id],
                ),
        after == before,
{
    let cells = |id: i64| tables::currency_cells(id, before.currencies[id]);
    let rows = db::row_views(outcome->Ok_0.rows@);
    assert forall|id: i64| #[trigger] before.currencies.contains_key(id) implies rows.contains(
        tables::currency_cells(id, before.currencies[id]),
    ) by {
        assert(before.currencies.dom().contains(id) && cells(id) == tables::currency_cells(
            id,
            before.currencies[id],
        ));
    }
    assert forall|row: Seq<db::CellView>| #[trigger] rows.contains(row) implies exists|id: i64| #[trigger]
        before.currencies.contains_key(id) && row == tables::currency_cells(
            id,
            before.currencies[id],
        ) by {
        let id = choose|id: i64| #[trigger] before.currencies.dom().contains(id) && cells(id) == row;
        assert(before.currencies.contains_key(id));
    }
}

// Categories.

/// A category goes to its table with its name. It is stored exactly where no category has that name,
/// under an id that none had; nothing else changes.
pub proof fn law_insert_category(name: String, before: Tables, outcome: Outcome, after: Tables)
    requires
        tables::acts(before, Statement::InsertCategory { name }, outcome, after),
    ensures
        statements::sql_of(Statement::InsertCategory { name })
            == "INSERT INTO categories (name) VALUES (?1) RETURNING id, name"@,
        statements::parameters_of(Statement::InsertCategory { name }) == seq![Cell::Text(name)],
        outcome is Ok <==> forall|id: i64| #[trigger]
            before.categories.contains_key(id) ==> before.categories[id] != name@,
        outcome is Err ==> after == before,
        outcome is Ok ==> exists|id: i64|
            !before.categories.contains_key(id) && #[trigger] after.categories.contains_key(id)
                && after.categories[id] == name@ && after.categories.remove(id)
                == before.categories,
        after.currencies == before.currencies,
        after.accounts == before.accounts,
        after.transactions == before.transactions,
{
    if !tables::category_taken(before, name@) {
        let id = choose|id: i64| #[trigger]
            tables::adds_category(before, id, name@, outcome, after);
        assert(after.categories.contains_key(id));
        assert(after.categories.remove(id) =~= before.categories);
    }
}

/// The list of categories has every stored category, each once, and changes nothing.
pub proof fn law_list_categories(before: Tables, outcome: Outcome, after: Tables)
    requires
        tables::acts(before, Statement::ListCategories, outcome, after),
    ensures
        statements::sql_of(Statement::ListCategories)
            == "SELECT id, name FROM categories"@,
        statements::parameters_of(Statement::ListCategories).len() == 0,
        outcome is Ok,
        db::row_views(outcome->Ok_0.rows@).no_duplicates(),
        forall|id: i64| #[trigger]
            before.categories.contains_key(id) ==> db::row_views(outcome->Ok_0.rows@).contains(
                tables::category_cells(id, before.categories[id]),
            ),
        forall|row: Seq<db::CellView>| #[trigger]
            db::row_views(outcome->Ok_0.rows@).contains(row) ==> exists|id: i64| #[trigger]
                before.categories.contains_key(id) && row == tables::category_cells(
                    id,
                    before.categories[id],
                ),
        after == before,
{
    let cells = |id: i64| tables::category_cells(id, before.categories[id]);
    let rows = db::row_views(outcome->Ok_0.rows@);
    assert forall|id: i64| #[trigger] before.categories.contains_key(id) implies rows.contains(
        tables::category_cells(id, before.categories[id]),
    ) by {
        assert(before.categories.dom().contains(id) && cells(id) == tables::category_cells(
            id,
            before.categories[id],
        ));
    }
    assert forall|row: Seq<db::CellView>| #[trigger] rows.contains(row) implies exists|id: i64| #[trigger]
        before.categories.contains_key(id) && row == tables::category_cells(
            id,
            before.categories[id],
        ) by {
        let id = choose|id: i64| #[trigger] before.categories.dom().contains(id) && cells(id) == row;
        assert(before.categories.contains_key(id));
    }
}

/// Deleting a category takes exactly the one of that id, and nothing of a transaction but that
/// category.
pub proof fn law_delete_category(id: i64, before: Tables, outcome: Outcome, after: Tables)
    requires
        tables::acts(before, Statement::DeleteCategory { id }, outcome, after),
    ensures
        statements::sql_of(Statement::DeleteCategory { id })
            == "DELETE FROM categories WHERE id = ?1"@,
        statements::parameters_of(Statement::DeleteCategory { id }) == seq![Cell::Integer(id)],
        outcome is Ok,
        outcome->Ok_0.changed == if before.categories.contains_key(id) { 1int } else { 0int },
        after.categories == before.categories.remove(id),
        after.currencies == before.currencies,
        after.accounts == before.accounts,
        before.categories.contains_key(id) ==> forall|key: Seq<char>| #[trigger]
            after.transactions.contains_key(key) == before.transactions.contains_key(key) && (
            before.transactions.contains_key(key) ==> {
                let row = before.transactions[key];
                after.transactions[key] == if row.category_id == Some(id) {
                    tables::Transaction { category_id: None, ..row }
                } else {
                    row
                }
            }),
        !before.categories.contains_key(id) ==> after == before,
{
    if !before.categories.contains_key(id) {
        assert(before.categories.remove(id) =~= before.categories);
    }
}

// Accounts.

/// An account goes to its table with its name, its type and its currency. It is stored exactly where
/// it is `own` and its currency is there, or `external` and has none, and no account has that name and
/// type, under an id that none had; nothing else changes.
pub proof fn law_insert_account(
    name: String,
    account_type: String,
    currency_id: Option<i64>,
    before: Tables,
    outcome: Outcome,
    after: Tables,
)
    requires
        tables::acts(
            before,
            Statement::InsertAccount { name, account_type, currency_id },
            outcome,
            after,
        ),
    ensures
        statements::sql_of(Statement::InsertAccount { name, account_type, currency_id })
            == "INSERT INTO accounts (name, type, currency_id) VALUES (?1, ?2, ?3) RETURNING id, name, type, currency_id"@,
        statements::parameters_of(Statement::InsertAccount { name, account_type, currency_id })
            == seq![
            Cell::Text(name),
            Cell::Text(account_type),
            (match currency_id {
                Some(value) => Cell::Integer(value),
                None => Cell::Null,
            }),
        ],
        outcome is Ok <==> ((account_type@ == "own"@ && currency_id is Some
            && before.currencies.contains_key(currency_id->0)) || (account_type@ == "external"@
            && currency_id is None)) && forall|id: i64| #[trigger]
            before.accounts.contains_key(id) ==> before.accounts[id].name != name@
                || before.accounts[id].account_type != account_type@,
        outcome is Err ==> after == before,
        outcome is Ok ==> exists|id: i64|
            !before.accounts.contains_key(id) && #[trigger] after.accounts.contains_key(id)
                && after.accounts[id].name == name@ && after.accounts[id].account_type
                == account_type@ && after.accounts[id].currency_id == currency_id
                && after.accounts.remove(id) == before.accounts,
        after.currencies == before.currencies,
        after.categories == before.categories,
        after.transactions == before.transactions,
{
    let row = tables::Account { name: name@, account_type: account_type@, currency_id };
    if tables::account_allowed(before, row) && !tables::account_taken(before, row) {
        let id = choose|id: i64| #[trigger] tables::adds_account(before, id, row, outcome, after);
        assert(after.accounts.contains_key(id));
        assert(after.accounts.remove(id) =~= before.accounts);
    }
}

/// The list of accounts has every stored account, each once, and changes nothing.
pub proof fn law_list_accounts(before: Tables, outcome: Outcome, after: Tables)
    requires
        tables::acts(before, Statement::ListAccounts, outcome, after),
    ensures
        statements::sql_of(Statement::ListAccounts)
            == "SELECT id, name, type, currency_id FROM accounts"@,
        statements::parameters_of(Statement::ListAccounts).len() == 0,
        outcome is Ok,
        db::row_views(outcome->Ok_0.rows@).no_duplicates(),
        forall|id: i64| #[trigger]
            before.accounts.contains_key(id) ==> db::row_views(outcome->Ok_0.rows@).contains(
                tables::account_cells(id, before.accounts[id]),
            ),
        forall|row: Seq<db::CellView>| #[trigger]
            db::row_views(outcome->Ok_0.rows@).contains(row) ==> exists|id: i64| #[trigger]
                before.accounts.contains_key(id) && row == tables::account_cells(
                    id,
                    before.accounts[id],
                ),
        after == before,
{
    let cells = |id: i64| tables::account_cells(id, before.accounts[id]);
    let rows = db::row_views(outcome->Ok_0.rows@);
    assert forall|id: i64| #[trigger] before.accounts.contains_key(id) implies rows.contains(
        tables::account_cells(id, before.accounts[id]),
    ) by {
        assert(before.accounts.dom().contains(id) && cells(id) == tables::account_cells(
            id,
            before.accounts[id],
        ));
    }
    assert forall|row: Seq<db::CellView>| #[trigger] rows.contains(row) implies exists|id: i64| #[trigger]
        before.accounts.contains_key(id) && row == tables::account_cells(
            id,
            before.accounts[id],
        ) by {
        let id = choose|id: i64| #[trigger] before.accounts.dom().contains(id) && cells(id) == row;
        assert(before.accounts.contains_key(id));
    }
}

/// Deleting an account takes exactly the one of that id, unless a transaction names it; nothing else
/// changes.
pub proof fn law_delete_account(id: i64, before: Tables, outcome: Outcome, after: Tables)
    requires
        tables::acts(before, Statement::DeleteAccount { id }, outcome, after),
    ensures
        statements::sql_of(Statement::DeleteAccount { id })
            == "DELETE FROM accounts WHERE id = ?1"@,
        statements::parameters_of(Statement::DeleteAccount { id }) == seq![Cell::Integer(id)],
        outcome is Err <==> before.accounts.contains_key(id) && exists|key: Seq<char>| #[trigger]
            before.transactions.contains_key(key) && (before.transactions[key].account_id == id
                || before.transactions[key].opposing_account_id == id),
        outcome is Err ==> after == before,
        outcome is Ok ==> after.accounts == before.accounts.remove(id) && outcome->Ok_0.changed
            == if before.accounts.contains_key(id) { 1int } else { 0int },
        after.currencies == before.currencies,
        after.categories == before.categories,
        after.transactions == before.transactions,
{
    if !before.accounts.contains_key(id) {
        assert(before.accounts.remove(id) =~= before.accounts);
    }
}

/// A lookup gives the type and the currency of exactly the account of that id, and changes nothing.
pub proof fn law_lookup_account(id: i64, before: Tables, outcome: Outcome, after: Tables)
    requires
        tables::acts(before, Statement::LookupAccount { id }, outcome, after),
    ensures
        statements::sql_of(Statement::LookupAccount { id })
            == "SELECT type, currency_id FROM accounts WHERE id = ?1"@,
        statements::parameters_of(Statement::LookupAccount { id }) == seq![Cell::Integer(id)],
        outcome is Ok,
        !before.accounts.contains_key(id) ==> outcome->Ok_0.rows@.len() == 0,
        before.accounts.contains_key(id) ==> outcome->Ok_0.rows@.len() == 1 && db::row_views(
            outcome->Ok_0.rows@,
        )[0] == tables::facts_cells(before.accounts[id]),
        after == before,
{
    let rows = outcome->Ok_0.rows@;
    assert(db::row_views(rows).len() == rows.len());
}

// Transactions.

/// A transaction goes to its table with all its fields. It is stored exactly where its amount is not
/// zero, what arrives on the other side is above zero if it is said, its accounts are there and
/// differ, its category is there if it has one, its date passes, and no transaction has its id; nothing
/// else changes.
pub proof fn law_insert_transaction(
    row: CreateTransactionRequest,
    before: Tables,
    outcome: Outcome,
    after: Tables,
)
    requires
        tables::acts(before, Statement::InsertTransaction { row }, outcome, after),
    ensures
        statements::sql_of(Statement::InsertTransaction { row })
            == "INSERT INTO transactions (id, batch_id, description, date, amount, opposing_amount, account_id, opposing_account_id, category_id) VALUES (?1, ?2, ?3, ?4, ?5, ?6, ?7, ?8, ?9) RETURNING "@
            + "id, batch_id, description, date, amount, opposing_amount, account_id, opposing_account_id, category_id, created_at, updated_at"@,
        ({
            let cells = statements::parameters_of(Statement::InsertTransaction { row });
            &&& cells.len() == 9
            &&& cells[0] == Cell::Text(row.id)
            &&& cells[1] == (match row.batch_id {
                Some(value) => Cell::Text(value),
                None => Cell::Null,
            })
            &&& cells[2] == Cell::Text(row.description)
            &&& cells[3] == Cell::Text(row.date)
            &&& cells[4] == Cell::Integer(row.amount)
            &&& cells[5] == (match row.opposing_amount {
                Some(value) => Cell::Integer(value),
                None => Cell::Null,
            })
            &&& cells[6] == Cell::Integer(row.account_id)
            &&& cells[7] == Cell::Integer(row.opposing_account_id)
            &&& cells[8] == (match row.category_id {
                Some(value) => Cell::Integer(value),
                None => Cell::Null,
            })
        }),
        outcome is Ok <==> row.amount != 0 && (row.opposing_amount is Some ==> row.opposing_amount->0
            > 0) && row.account_id != row.opposing_account_id && before.accounts.contains_key(
            row.account_id,
        ) && before.accounts.contains_key(row.opposing_account_id) && (row.category_id is Some
            ==> before.categories.contains_key(row.category_id->0)) && dates::passes_check(
            row.date@,
        ) && !before.transactions.contains_key(row.id@),
        outcome is Err ==> after == before,
        outcome is Ok ==> {
            let stored = after.transactions[row.id@];
            &&& after.transactions.contains_key(row.id@)
            &&& after.transactions.remove(row.id@) == before.transactions
            &&& stored.batch_id == db::optional_text(row.batch_id)
            &&& stored.description == row.description@
            &&& stored.date == row.date@
            &&& stored.amount == row.amount
            &&& stored.opposing_amount == row.opposing_amount
            &&& stored.account_id == row.account_id
            &&& stored.opposing_account_id == row.opposing_account_id
            &&& stored.category_id == row.category_id
            &&& stored.created_at == stored.updated_at
        },
        after.currencies == before.currencies,
        after.accounts == before.accounts,
        after.categories == before.categories,
{
    if outcome is Ok {
        let now = choose|now: Seq<char>| #[trigger]
            tables::adds_transaction(before, row, now, outcome, after);
        assert(after.transactions.contains_key(row.id@));
        assert(after.transactions.remove(row.id@) =~= before.transactions);
    }
}

/// The list of transactions has every stored transaction, each once, the newest first and by id within
/// a date, and changes nothing.
pub proof fn law_list_transactions(before: Tables, outcome: Outcome, after: Tables)
    requires
        tables::acts(before, Statement::ListTransactions, outcome, after),
    ensures
        statements::sql_of(Statement::ListTransactions) == "SELECT "@
            + "id, batch_id, description, date, amount, opposing_amount, account_id, opposing_account_id, category_id, created_at, updated_at"@
            + " FROM transactions ORDER BY date DESC, id"@,
        statements::parameters_of(Statement::ListTransactions).len() == 0,
        outcome is Ok,
        db::row_views(outcome->Ok_0.rows@).no_duplicates(),
        forall|id: Seq<char>| #[trigger]
            before.transactions.contains_key(id) ==> db::row_views(outcome->Ok_0.rows@).contains(
                tables::transaction_cells(id, before.transactions[id]),
            ),
        forall|row: Seq<db::CellView>| #[trigger]
            db::row_views(outcome->Ok_0.rows@).contains(row) ==> exists|id: Seq<char>| #[trigger]
                before.transactions.contains_key(id) && row == tables::transaction_cells(
                    id,
                    before.transactions[id],
                ),
        tables::newest_first(db::row_views(outcome->Ok_0.rows@)),
        after == before,
{
    let cells = |id: Seq<char>| tables::transaction_cells(id, before.transactions[id]);
    let rows = db::row_views(outcome->Ok_0.rows@);
    assert forall|id: Seq<char>| #[trigger]
        before.transactions.contains_key(id) implies rows.contains(
        tables::transaction_cells(id, before.transactions[id]),
    ) by {
        assert(before.transactions.dom().contains(id) && cells(id) == tables::transaction_cells(
            id,
            before.transactions[id],
        ));
    }
    assert forall|row: Seq<db::CellView>| #[trigger] rows.contains(row) implies exists|
        id: Seq<char>,
    | #[trigger]
        before.transactions.contains_key(id) && row == tables::transaction_cells(
            id,
            before.transactions[id],
        ) by {
        let id = choose|id: Seq<char>| #[trigger]
            before.transactions.dom().contains(id) && cells(id) == row;
        assert(before.transactions.contains_key(id));
    }
}

/// Reading a transaction gives exactly the one of that id, and changes nothing.
pub proof fn law_select_transaction(id: String, before: Tables, outcome: Outcome, after: Tables)
    requires
        tables::acts(before, Statement::SelectTransaction { id }, outcome, after),
    ensures
        statements::sql_of(Statement::SelectTransaction { id }) == "SELECT "@
            + "id, batch_id, description, date, amount, opposing_amount, account_id, opposing_account_id, category_id, created_at, updated_at"@
            + " FROM transactions WHERE id = ?1"@,
        statements::parameters_of(Statement::SelectTransaction { id }) == seq![Cell::Text(id)],
        outcome is Ok,
        !before.transactions.contains_key(id@) ==> outcome->Ok_0.rows@.len() == 0,
        before.transactions.contains_key(id@) ==> outcome->Ok_0.rows@.len() == 1 && db::row_views(
            outcome->Ok_0.rows@,
        )[0] == tables::transaction_cells(id@, before.transactions[id@]),
        after == before,
{
    let rows = outcome->Ok_0.rows@;
    assert(db::row_views(rows).len() == rows.len());
}

/// A change sets the description of exactly the transaction of that id, if one is given, and its
/// category, if one is given, whatever it was, to that one or to none; but for the time of the last
/// change, every other field stays, and every other row. It fails only where there is no such category.
pub proof fn law_update_transaction(
    id: String,
    description: Option<String>,
    category_given: bool,
    category_id: Option<i64>,
    before: Tables,
    outcome: Outcome,
    after: Tables,
)
    requires
        tables::acts(
            before,
            Statement::UpdateTransaction { id, description, category_given, category_id },
            outcome,
            after,
        ),
    ensures
        ({
            let statement = Statement::UpdateTransaction {
                id,
                description,
                category_given,
                category_id,
            };
            let cells = statements::parameters_of(statement);
            &&& statements::sql_of(statement)
                == "UPDATE transactions SET description = COALESCE(?1, description), category_id = CASE WHEN ?2 THEN ?3 ELSE category_id END, updated_at = datetime('now') WHERE id = ?4"@
            &&& cells.len() == 4
            &&& cells[0] == (match description {
                Some(value) => Cell::Text(value),
                None => Cell::Null,
            })
            &&& cells[1] == Cell::Integer(if category_given { 1 } else { 0 })
            &&& cells[2] == (match category_id {
                Some(value) => Cell::Integer(value),
                None => Cell::Null,
            })
            &&& cells[3] == Cell::Text(id)
        }),
        outcome is Err <==> before.transactions.contains_key(id@) && category_given && category_id is Some
            && !before.categories.contains_key(category_id->0),
        outcome is Err ==> after == before,
        outcome is Ok ==> outcome->Ok_0.changed == if before.transactions.contains_key(id@) {
            1int
        } else {
            0int
        },
        !before.transactions.contains_key(id@) ==> after == before,
        outcome is Ok && before.transactions.contains_key(id@) ==> {
            let old_row = before.transactions[id@];
            let new_row = after.transactions[id@];
            &&& after.transactions.contains_key(id@)
            &&& after.transactions.remove(id@) == before.transactions.remove(id@)
            &&& new_row.description == match description {
                Some(text) => text@,
                None => old_row.description,
            }
            &&& category_given ==> new_row.category_id == category_id
            &&& !category_given ==> new_row.category_id == old_row.category_id
            &&& new_row.batch_id == old_row.batch_id
            &&& new_row.date == old_row.date
            &&& new_row.amount == old_row.amount
            &&& new_row.opposing_amount == old_row.opposing_amount
            &&& new_row.account_id == old_row.account_id
            &&& new_row.opposing_account_id == old_row.opposing_account_id
            &&& new_row.created_at == old_row.created_at
        },
        after.currencies == before.currencies,
        after.accounts == before.accounts,
        after.categories == before.categories,
{
    if outcome is Ok && before.transactions.contains_key(id@) {
        assert(after.transactions.contains_key(id@));
        assert(after.transactions.remove(id@) =~= before.transactions.remove(id@));
    }
}

/// Deleting a transaction takes exactly the one of that id; every other one stays as it is.
pub proof fn law_delete_transaction(id: String, before: Tables, outcome: Outcome, after: Tables)
    requires
        tables::acts(before, Statement::DeleteTransaction { id }, outcome, after),
    ensures
        statements::sql_of(Statement::DeleteTransaction { id })
            == "DELETE FROM transactions WHERE id = ?1"@,
        statements::parameters_of(Statement::DeleteTransaction { id }) == seq![Cell::Text(id)],
        outcome is Ok,
        outcome->Ok_0.changed == if before.transactions.contains_key(id@) { 1int } else { 0int },
        !after.transactions.contains_key(id@),
        forall|key: Seq<char>|
            key != id@ ==> #[trigger] after.transactions.contains_key(key)
                == before.transactions.contains_key(key) && (before.transactions.contains_key(key)
                ==> after.transactions[key] == before.transactions[key]),
        after.currencies == before.currencies,
        after.accounts == before.accounts,
        after.categories == before.categories,
{
}

// Brackets.

/// What begins, keeps and undoes a batch says just that, and takes no parameter.
pub proof fn law_brackets()
    ensures
        statements::sql_of(Statement::Begin) == "BEGIN"@,
        statements::sql_of(Statement::Commit) == "COMMIT"@,
        statements::sql_of(Statement::Rollback) == "ROLLBACK"@,
        statements::parameters_of(Statement::Begin).len() == 0,
        statements::parameters_of(Statement::Commit).len() == 0,
        statements::parameters_of(Statement::Rollback).len() == 0,
{
}

// The tables themselves.

/// A file is brought up to date by the steps of its version, 0, 1 or 2, and by none of another: a new
/// one gets the tables, one of version 1 its new rules, and both the mark of version 2. The words of
/// each step stand here, with what it makes of a file.
pub proof fn law_migration_steps(version: i64, file: File)
    ensures
        schema::migrations(version) is Some <==> version == 0 || version == 1 || version == 2,
        version == 0 ==> schema::migrations(version)->0 == seq![
            Migration::CreateTables,
            Migration::SetVersion,
        ],
        version == 1 ==> schema::migrations(version)->0 == seq![
            Migration::RebuildTransactions,
            Migration::AddAccountsIndex,
            Migration::SetVersion,
        ],
        version == 2 ==> schema::migrations(version)->0.len() == 0,
        schema::sql_of(Migration::CreateTables) == "
CREATE TABLE currencies (
    id         INTEGER PRIMARY KEY,
    code       TEXT NOT NULL UNIQUE,
    minor_unit INTEGER NOT NULL CHECK (minor_unit BETWEEN 0 AND 4)
);

CREATE TABLE accounts (
    id          INTEGER PRIMARY KEY,
    name        TEXT NOT NULL,
    type        TEXT NOT NULL CHECK (type IN ('own','external')),
    currency_id INTEGER REFERENCES currencies(id),
    CHECK (
        (type = 'own'      AND currency_id IS NOT NULL) OR
        (type = 'external' AND currency_id IS NULL)
    )
);

CREATE UNIQUE INDEX accounts_name_type ON accounts (name, type);

CREATE TABLE categories (
    id   INTEGER PRIMARY KEY,
    name TEXT NOT NULL UNIQUE
);

CREATE TABLE transactions (
    id                   TEXT PRIMARY KEY,
    batch_id             TEXT,
    description          TEXT NOT NULL,
    date                 TEXT NOT NULL,
    amount               INTEGER NOT NULL CHECK (amount != 0),
    opposing_amount      INTEGER CHECK (opposing_amount IS NULL OR opposing_amount > 0),
    account_id           INTEGER NOT NULL REFERENCES accounts(id),
    opposing_account_id  INTEGER NOT NULL REFERENCES accounts(id),
    category_id          INTEGER REFERENCES categories(id) ON DELETE SET NULL,
    created_at           TEXT NOT NULL DEFAULT (datetime('now')),
    updated_at           TEXT NOT NULL DEFAULT (datetime('now')),
    CHECK (account_id <> opposing_account_id),
    CHECK (
        (length(date) = 10 AND date IS strftime('%Y-%m-%d', date)) OR
        (substr(date,12,2) < '24' AND
         substr(date,1,19) IS strftime('%Y-%m-%dT%H:%M:%S', substr(date,1,19)))
    )
);
"@,
        file.tables is None ==> tables::stepped(file, Migration::CreateTables) == Some(
            File {
                tables: Some(tables::no_rows()),
                rules: tables::Rules { checks: true, index: true },
                ..file
            },
        ),
        schema::sql_of(Migration::RebuildTransactions) == "
BEGIN;
CREATE TABLE checked_transactions (
    id                   TEXT PRIMARY KEY,
    batch_id             TEXT,
    description          TEXT NOT NULL,
    date                 TEXT NOT NULL,
    amount               INTEGER NOT NULL CHECK (amount != 0),
    opposing_amount      INTEGER CHECK (opposing_amount IS NULL OR opposing_amount > 0),
    account_id           INTEGER NOT NULL REFERENCES accounts(id),
    opposing_account_id  INTEGER NOT NULL REFERENCES accounts(id),
    category_id          INTEGER REFERENCES categories(id) ON DELETE SET NULL,
    created_at           TEXT NOT NULL DEFAULT (datetime('now')),
    updated_at           TEXT NOT NULL DEFAULT (datetime('now')),
    CHECK (account_id <> opposing_account_id),
    CHECK (
        (length(date) = 10 AND date IS strftime('%Y-%m-%d', date)) OR
        (substr(date,12,2) < '24' AND
         substr(date,1,19) IS strftime('%Y-%m-%dT%H:%M:%S', substr(date,1,19)))
    )
);
INSERT INTO checked_transactions
    SELECT id, batch_id, description, date, amount, opposing_amount,
           account_id, opposing_account_id, category_id, created_at, updated_at
    FROM transactions;
DROP TABLE transactions;
ALTER TABLE checked_transactions RENAME TO transactions;
COMMIT;
"@,
        tables::stepped(file, Migration::RebuildTransactions) matches Some(rebuilt)
            ==> rebuilt.tables == file.tables && rebuilt.rules.checks,
        schema::sql_of(Migration::AddAccountsIndex)
            == "CREATE UNIQUE INDEX accounts_name_type ON accounts (name, type);"@,
        tables::stepped(file, Migration::AddAccountsIndex) matches Some(indexed)
            ==> indexed.tables == file.tables && indexed.rules.index,
        schema::sql_of(Migration::SetVersion) == "PRAGMA user_version = 2;"@,
        tables::stepped(file, Migration::SetVersion) == Some(File { version: 2, ..file }),
        schema::failure_of(Migration::CreateTables) == "failed to apply schema"@,
        schema::failure_of(Migration::RebuildTransactions) == "failed to rebuild transactions"@,
        schema::failure_of(Migration::AddAccountsIndex)
            == "failed to add accounts_name_type index"@,
        schema::failure_of(Migration::SetVersion) == "failed to set user_version"@,
        schema::ENABLE_FOREIGN_KEYS@ == "PRAGMA foreign_keys = ON;"@,
        schema::READ_VERSION@ == "PRAGMA user_version;"@,
{
}

} // verus!
