//! Everything the ledger ever says to its database.

use vstd::prelude::*;
use vstd::string::*;

use crate::db;
use crate::db::Cell;
use crate::records::CreateTransactionRequest;

verus! {

/// The columns of a transaction, as a `SELECT` or a `RETURNING` names them.
pub const TRANSACTION_COLUMNS: &'static str = "id, batch_id, description, date, amount, opposing_amount, \
    account_id, opposing_account_id, category_id, created_at, updated_at";

pub const INSERT_CURRENCY: &'static str =
    "INSERT INTO currencies (code, minor_unit) VALUES (?1, ?2) RETURNING id, code, minor_unit";

pub const LIST_CURRENCIES: &'static str = "SELECT id, code, minor_unit FROM currencies";

pub const INSERT_CATEGORY: &'static str = "INSERT INTO categories (name) VALUES (?1) RETURNING id, name";

pub const LIST_CATEGORIES: &'static str = "SELECT id, name FROM categories";

pub const DELETE_CATEGORY: &'static str = "DELETE FROM categories WHERE id = ?1";

pub const INSERT_ACCOUNT: &'static str =
    "INSERT INTO accounts (name, type, currency_id) VALUES (?1, ?2, ?3) RETURNING id, name, type, currency_id";

pub const LIST_ACCOUNTS: &'static str = "SELECT id, name, type, currency_id FROM accounts";

pub const DELETE_ACCOUNT: &'static str = "DELETE FROM accounts WHERE id = ?1";

pub const LOOKUP_ACCOUNT: &'static str = "SELECT type, currency_id FROM accounts WHERE id = ?1";

/// Followed by `TRANSACTION_COLUMNS`.
pub const INSERT_TRANSACTION: &'static str =
    "INSERT INTO transactions (id, batch_id, description, date, amount, opposing_amount, account_id, opposing_account_id, category_id) \
     VALUES (?1, ?2, ?3, ?4, ?5, ?6, ?7, ?8, ?9) \
     RETURNING ";

/// Stands around `TRANSACTION_COLUMNS`.
pub const SELECT: &'static str = "SELECT ";

/// Follows `SELECT` and `TRANSACTION_COLUMNS`: newest first, and by id within a date.
pub const ALL_TRANSACTIONS: &'static str = " FROM transactions ORDER BY date DESC, id";

/// Follows `SELECT` and `TRANSACTION_COLUMNS`.
pub const ONE_TRANSACTION: &'static str = " FROM transactions WHERE id = ?1";

/// A category may be cleared, so whether it was named at all is a parameter of its own: `COALESCE`
/// cannot tell "leave it" from "set it to NULL".
pub const UPDATE_TRANSACTION: &'static str = "UPDATE transactions SET description = COALESCE(?1, description), \
     category_id = CASE WHEN ?2 THEN ?3 ELSE category_id END, \
     updated_at = datetime('now') WHERE id = ?4";

pub const DELETE_TRANSACTION: &'static str = "DELETE FROM transactions WHERE id = ?1";

pub const BEGIN: &'static str = "BEGIN";

pub const COMMIT: &'static str = "COMMIT";

pub const ROLLBACK: &'static str = "ROLLBACK";

/// A statement with its parameters.
#[derive(Debug)]
pub enum Statement {
    InsertCurrency { code: String, minor_unit: i64 },
    ListCurrencies,
    InsertCategory { name: String },
    ListCategories,
    DeleteCategory { id: i64 },
    InsertAccount { name: String, account_type: String, currency_id: Option<i64> },
    ListAccounts,
    DeleteAccount { id: i64 },
    LookupAccount { id: i64 },
    InsertTransaction { row: CreateTransactionRequest },
    ListTransactions,
    SelectTransaction { id: String },
    UpdateTransaction {
        id: String,
        description: Option<String>,
        category_given: bool,
        category_id: Option<i64>,
    },
    DeleteTransaction { id: String },
    Begin,
    Commit,
    Rollback,
}

/// The SQL of a statement.
pub open spec fn sql_of(statement: Statement) -> Seq<char> {
    match statement {
        Statement::InsertCurrency { .. } => INSERT_CURRENCY@,
        Statement::ListCurrencies => LIST_CURRENCIES@,
        Statement::InsertCategory { .. } => INSERT_CATEGORY@,
        Statement::ListCategories => LIST_CATEGORIES@,
        Statement::DeleteCategory { .. } => DELETE_CATEGORY@,
        Statement::InsertAccount { .. } => INSERT_ACCOUNT@,
        Statement::ListAccounts => LIST_ACCOUNTS@,
        Statement::DeleteAccount { .. } => DELETE_ACCOUNT@,
        Statement::LookupAccount { .. } => LOOKUP_ACCOUNT@,
        Statement::InsertTransaction { .. } => INSERT_TRANSACTION@ + TRANSACTION_COLUMNS@,
        Statement::ListTransactions => SELECT@ + TRANSACTION_COLUMNS@ + ALL_TRANSACTIONS@,
        Statement::SelectTransaction { .. } => SELECT@ + TRANSACTION_COLUMNS@ + ONE_TRANSACTION@,
        Statement::UpdateTransaction { .. } => UPDATE_TRANSACTION@,
        Statement::DeleteTransaction { .. } => DELETE_TRANSACTION@,
        Statement::Begin => BEGIN@,
        Statement::Commit => COMMIT@,
        Statement::Rollback => ROLLBACK@,
    }
}

/// The parameters of a statement, from the first on.
pub open spec fn parameters_of(statement: Statement) -> Seq<Cell> {
    match statement {
        Statement::InsertCurrency { code, minor_unit } => seq![
            Cell::Text(code),
            Cell::Integer(minor_unit),
        ],
        Statement::InsertCategory { name } => seq![Cell::Text(name)],
        Statement::DeleteCategory { id } => seq![Cell::Integer(id)],
        Statement::InsertAccount { name, account_type, currency_id } => seq![
            Cell::Text(name),
            Cell::Text(account_type),
            db::optional_integer_cell(currency_id),
        ],
        Statement::DeleteAccount { id } => seq![Cell::Integer(id)],
        Statement::LookupAccount { id } => seq![Cell::Integer(id)],
        Statement::InsertTransaction { row } => seq![
            Cell::Text(row.id),
            db::optional_text_cell(row.batch_id),
            Cell::Text(row.description),
            Cell::Text(row.date),
            Cell::Integer(row.amount),
            db::optional_integer_cell(row.opposing_amount),
            Cell::Integer(row.account_id),
            Cell::Integer(row.opposing_account_id),
            db::optional_integer_cell(row.category_id),
        ],
        Statement::SelectTransaction { id } => seq![Cell::Text(id)],
        Statement::UpdateTransaction { id, description, category_given, category_id } => seq![
            db::optional_text_cell(description),
            Cell::Integer(if category_given { 1 } else { 0 }),
            db::optional_integer_cell(category_id),
            Cell::Text(id),
        ],
        Statement::DeleteTransaction { id } => seq![Cell::Text(id)],
        Statement::ListCurrencies => seq![],
        Statement::ListCategories => seq![],
        Statement::ListAccounts => seq![],
        Statement::ListTransactions => seq![],
        Statement::Begin => seq![],
        Statement::Commit => seq![],
        Statement::Rollback => seq![],
    }
}

/// Whether a statement may change a row.
pub open spec fn writes(statement: Statement) -> bool {
    match statement {
        Statement::InsertCurrency { .. } => true,
        Statement::InsertCategory { .. } => true,
        Statement::DeleteCategory { .. } => true,
        Statement::InsertAccount { .. } => true,
        Statement::DeleteAccount { .. } => true,
        Statement::InsertTransaction { .. } => true,
        Statement::UpdateTransaction { .. } => true,
        Statement::DeleteTransaction { .. } => true,
        _ => false,
    }
}

/// The cell for an integer that may be missing.
fn integer_cell(value: Option<i64>) -> (cell: Cell)
    ensures
        cell == db::optional_integer_cell(value),
{
    match value {
        Some(value) => Cell::Integer(value),
        None => Cell::Null,
    }
}

/// The cell for a text that may be missing.
fn text_cell(value: &Option<String>) -> (cell: Cell)
    ensures
        cell == db::optional_text_cell(*value),
{
    match value {
        Some(value) => Cell::Text(value.clone()),
        None => Cell::Null,
    }
}

impl Statement {
    /// The SQL of this statement.
    pub fn sql(&self) -> (sql: String)
        ensures
            sql@ == sql_of(*self),
    {
        match self {
            Statement::InsertCurrency { .. } => INSERT_CURRENCY.to_owned(),
            Statement::ListCurrencies => LIST_CURRENCIES.to_owned(),
            Statement::InsertCategory { .. } => INSERT_CATEGORY.to_owned(),
            Statement::ListCategories => LIST_CATEGORIES.to_owned(),
            Statement::DeleteCategory { .. } => DELETE_CATEGORY.to_owned(),
            Statement::InsertAccount { .. } => INSERT_ACCOUNT.to_owned(),
            Statement::ListAccounts => LIST_ACCOUNTS.to_owned(),
            Statement::DeleteAccount { .. } => DELETE_ACCOUNT.to_owned(),
            Statement::LookupAccount { .. } => LOOKUP_ACCOUNT.to_owned(),
            Statement::InsertTransaction { .. } => INSERT_TRANSACTION.to_owned().concat(
                TRANSACTION_COLUMNS,
            ),
            Statement::ListTransactions => SELECT.to_owned().concat(TRANSACTION_COLUMNS).concat(
                ALL_TRANSACTIONS,
            ),
            Statement::SelectTransaction { .. } => SELECT.to_owned().concat(
                TRANSACTION_COLUMNS,
            ).concat(ONE_TRANSACTION),
            Statement::UpdateTransaction { .. } => UPDATE_TRANSACTION.to_owned(),
            Statement::DeleteTransaction { .. } => DELETE_TRANSACTION.to_owned(),
            Statement::Begin => BEGIN.to_owned(),
            Statement::Commit => COMMIT.to_owned(),
            Statement::Rollback => ROLLBACK.to_owned(),
        }
    }

    /// The parameters of this statement, from the first on.
    pub fn parameters(&self) -> (cells: Vec<Cell>)
        ensures
            cells@ == parameters_of(*self),
    {
        let cells: Vec<Cell> = match self {
            Statement::InsertCurrency { code, minor_unit } => vec![
                Cell::Text(code.clone()),
                Cell::Integer(*minor_unit),
            ],
            Statement::InsertCategory { name } => vec![Cell::Text(name.clone())],
            Statement::DeleteCategory { id } => vec![Cell::Integer(*id)],
            Statement::InsertAccount { name, account_type, currency_id } => vec![
                Cell::Text(name.clone()),
                Cell::Text(account_type.clone()),
                integer_cell(*currency_id),
            ],
            Statement::DeleteAccount { id } => vec![Cell::Integer(*id)],
            Statement::LookupAccount { id } => vec![Cell::Integer(*id)],
            Statement::InsertTransaction { row } => vec![
                Cell::Text(row.id.clone()),
                text_cell(&row.batch_id),
                Cell::Text(row.description.clone()),
                Cell::Text(row.date.clone()),
                Cell::Integer(row.amount),
                integer_cell(row.opposing_amount),
                Cell::Integer(row.account_id),
                Cell::Integer(row.opposing_account_id),
                integer_cell(row.category_id),
            ],
            Statement::SelectTransaction { id } => vec![Cell::Text(id.clone())],
            Statement::UpdateTransaction { id, description, category_given, category_id } => vec![
                text_cell(description),
                Cell::Integer(if *category_given { 1 } else { 0 }),
                integer_cell(*category_id),
                Cell::Text(id.clone()),
            ],
            Statement::DeleteTransaction { id } => vec![Cell::Text(id.clone())],
            Statement::ListCurrencies => vec![],
            Statement::ListCategories => vec![],
            Statement::ListAccounts => vec![],
            Statement::ListTransactions => vec![],
            Statement::Begin => vec![],
            Statement::Commit => vec![],
            Statement::Rollback => vec![],
        };
        assert(cells@ =~= parameters_of(*self));
        cells
    }
}

} // verus!
