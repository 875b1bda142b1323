//! A model of the tables, and of what each statement does to them and gives back where the database
//! is in working order: it fails only where a constraint of the tables makes it.

use vstd::prelude::*;

use crate::dates;
use crate::db;
use crate::db::{CellView, Outcome};
use crate::records::CreateTransactionRequest;
use crate::reply;
use crate::schema;
use crate::schema::Migration;
use crate::statements::Statement;
use crate::text;

verus! {

/// A row of `currencies`, but for its id.
pub struct Currency {
    pub code: Seq<char>,
    pub minor_unit: i64,
}

/// A row of `accounts`, but for its id.
pub struct Account {
    pub name: Seq<char>,
    pub account_type: Seq<char>,
    pub currency_id: Option<i64>,
}

/// A row of `transactions`, but for its id.
pub struct Transaction {
    pub batch_id: Option<Seq<char>>,
    pub description: Seq<char>,
    pub date: Seq<char>,
    pub amount: i64,
    pub opposing_amount: Option<i64>,
    pub account_id: i64,
    pub opposing_account_id: i64,
    pub category_id: Option<i64>,
    pub created_at: Seq<char>,
    pub updated_at: Seq<char>,
}

/// The four tables, their rows by id. A category is its name.
#[verifier::ext_equal]
pub struct Tables {
    pub currencies: Map<i64, Currency>,
    pub accounts: Map<i64, Account>,
    pub categories: Map<i64, Seq<char>>,
    pub transactions: Map<Seq<char>, Transaction>,
}

// What the tables hold.

/// Whether a currency may stand in its table, leaving aside that its code is unique.
pub open spec fn currency_allowed(row: Currency) -> bool {
    0 <= row.minor_unit <= 4
}

/// Whether an account may stand in its table, leaving aside that its name and type are unique.
pub open spec fn account_allowed(tables: Tables, row: Account) -> bool {
    match row.currency_id {
        Some(currency_id) => row.account_type == "own"@ && tables.currencies.contains_key(
            currency_id,
        ),
        None => row.account_type == "external"@,
    }
}

/// Whether a transaction may stand in its table, leaving aside the two checks at the end of the table
/// and that its id is unique.
pub open spec fn transaction_allowed(tables: Tables, row: Transaction) -> bool {
    &&& row.amount != 0
    &&& row.opposing_amount matches Some(amount) ==> amount > 0
    &&& tables.accounts.contains_key(row.account_id)
    &&& tables.accounts.contains_key(row.opposing_account_id)
    &&& row.category_id matches Some(category_id) ==> tables.categories.contains_key(category_id)
}

/// Whether a transaction passes the two checks at the end of its table: its accounts differ, and it
/// has a date as far as the table looks at it.
pub open spec fn row_passes_checks(row: Transaction) -> bool {
    row.account_id != row.opposing_account_id && dates::passes_check(row.date)
}

/// Whether some currency has this code.
pub open spec fn code_taken(tables: Tables, code: Seq<char>) -> bool {
    exists|id: i64| #[trigger]
        tables.currencies.contains_key(id) && tables.currencies[id].code == code
}

/// Whether some category has this name.
pub open spec fn category_taken(tables: Tables, name: Seq<char>) -> bool {
    exists|id: i64| #[trigger] tables.categories.contains_key(id) && tables.categories[id] == name
}

/// Whether some account has this name and this type.
pub open spec fn account_taken(tables: Tables, row: Account) -> bool {
    exists|id: i64| #[trigger]
        tables.accounts.contains_key(id) && tables.accounts[id].name == row.name
            && tables.accounts[id].account_type == row.account_type
}

/// Whether some transaction names this account.
pub open spec fn account_used(tables: Tables, account_id: i64) -> bool {
    exists|id: Seq<char>| #[trigger]
        tables.transactions.contains_key(id) && (tables.transactions[id].account_id == account_id
            || tables.transactions[id].opposing_account_id == account_id)
}

/// Whether the tables meet the constraints that they were created with, leaving aside the two checks
/// at the end of `transactions`.
pub open spec fn meets_schema(tables: Tables) -> bool {
    &&& forall|id: i64| #[trigger]
        tables.currencies.contains_key(id) ==> currency_allowed(tables.currencies[id])
    &&& forall|a: i64, b: i64|
        #![trigger tables.currencies.contains_key(a), tables.currencies.contains_key(b)]
        tables.currencies.contains_key(a) && tables.currencies.contains_key(b)
            && tables.currencies[a].code == tables.currencies[b].code ==> a == b
    &&& forall|id: i64| #[trigger]
        tables.accounts.contains_key(id) ==> account_allowed(tables, tables.accounts[id])
    &&& forall|a: i64, b: i64|
        #![trigger tables.accounts.contains_key(a), tables.accounts.contains_key(b)]
        tables.accounts.contains_key(a) && tables.accounts.contains_key(b)
            && tables.accounts[a].name == tables.accounts[b].name
            && tables.accounts[a].account_type == tables.accounts[b].account_type ==> a == b
    &&& forall|a: i64, b: i64|
        #![trigger tables.categories.contains_key(a), tables.categories.contains_key(b)]
        tables.categories.contains_key(a) && tables.categories.contains_key(b)
            && tables.categories[a] == tables.categories[b] ==> a == b
    &&& forall|id: Seq<char>| #[trigger]
        tables.transactions.contains_key(id) ==> transaction_allowed(
            tables,
            tables.transactions[id],
        )
}

/// Whether every transaction passes the two checks at the end of its table.
pub open spec fn passes_checks(tables: Tables) -> bool {
    forall|id: Seq<char>| #[trigger]
        tables.transactions.contains_key(id) ==> row_passes_checks(tables.transactions[id])
}

/// Whether every transaction has a date.
pub open spec fn all_dated(tables: Tables) -> bool {
    forall|id: Seq<char>| #[trigger]
        tables.transactions.contains_key(id) ==> dates::is_date(tables.transactions[id].date)
}

/// Whether the two accounts of every transaction are there.
pub open spec fn accounts_are_there(tables: Tables) -> bool {
    forall|id: Seq<char>| #[trigger]
        tables.transactions.contains_key(id) ==> tables.accounts.contains_key(
            tables.transactions[id].account_id,
        ) && tables.accounts.contains_key(tables.transactions[id].opposing_account_id)
}

/// Whether a transaction is in order with its two accounts: its own account is one of the owner's,
/// and it says what arrives on the other side if and only if both are and their currencies differ.
pub open spec fn is_in_order(tables: Tables, row: Transaction) -> bool {
    let account = tables.accounts[row.account_id];
    let opposing = tables.accounts[row.opposing_account_id];
    &&& account.account_type == "own"@
    &&& row.opposing_amount is Some <==> opposing.account_type == "own"@ && account.currency_id
        != opposing.currency_id
}

/// Whether every stored transaction is in order.
pub open spec fn all_in_order(tables: Tables) -> bool {
    forall|id: Seq<char>| #[trigger]
        tables.transactions.contains_key(id) ==> is_in_order(tables, tables.transactions[id])
}

// How rows come out.

/// The cell for an integer that may be missing.
pub open spec fn integer_cell(value: Option<i64>) -> CellView {
    match value {
        Some(value) => CellView::Integer(value),
        None => CellView::Null,
    }
}

/// The cell for a text that may be missing.
pub open spec fn text_cell(value: Option<Seq<char>>) -> CellView {
    match value {
        Some(value) => CellView::Text(value),
        None => CellView::Null,
    }
}

/// A currency as it comes out.
pub open spec fn currency_cells(id: i64, row: Currency) -> Seq<CellView> {
    seq![CellView::Integer(id), CellView::Text(row.code), CellView::Integer(row.minor_unit)]
}

/// A category as it comes out.
pub open spec fn category_cells(id: i64, name: Seq<char>) -> Seq<CellView> {
    seq![CellView::Integer(id), CellView::Text(name)]
}

/// An account as it comes out.
pub open spec fn account_cells(id: i64, row: Account) -> Seq<CellView> {
    seq![
        CellView::Integer(id),
        CellView::Text(row.name),
        CellView::Text(row.account_type),
        integer_cell(row.currency_id),
    ]
}

/// What a lookup tells of an account.
pub open spec fn facts_cells(row: Account) -> Seq<CellView> {
    seq![CellView::Text(row.account_type), integer_cell(row.currency_id)]
}

/// A transaction as it comes out.
pub open spec fn transaction_cells(id: Seq<char>, row: Transaction) -> Seq<CellView> {
    seq![
        CellView::Text(id),
        text_cell(row.batch_id),
        CellView::Text(row.description),
        CellView::Text(row.date),
        CellView::Integer(row.amount),
        integer_cell(row.opposing_amount),
        CellView::Integer(row.account_id),
        CellView::Integer(row.opposing_account_id),
        integer_cell(row.category_id),
        CellView::Text(row.created_at),
        CellView::Text(row.updated_at),
    ]
}

/// Whether a statement gave back exactly these rows.
pub open spec fn gives(outcome: Outcome, rows: Seq<Seq<CellView>>) -> bool {
    outcome matches Ok(answer) && db::row_views(answer.rows@) == rows
}

/// Whether a statement reported that it touched this many rows.
pub open spec fn reports(outcome: Outcome, changed: int) -> bool {
    outcome matches Ok(answer) && answer.changed == changed
}

/// Whether a row was turned down: as a duplicate only where it is one, and certainly where nothing
/// else is wrong with it.
pub open spec fn turned_down(outcome: Outcome, allowed: bool, taken: bool) -> bool {
    &&& outcome matches Err(error)
    &&& allowed ==> reply::is_duplicate(error@)
    &&& !taken ==> !reply::is_duplicate(error@)
}

/// Whether `rows` are the rows of a table, each once, in some order; `cells` makes a row of an id.
pub open spec fn lists<K>(
    rows: Seq<Seq<CellView>>,
    ids: Set<K>,
    cells: spec_fn(K) -> Seq<CellView>,
) -> bool {
    &&& rows.no_duplicates()
    &&& forall|row: Seq<CellView>| #[trigger]
        rows.contains(row) <==> exists|id: K| #[trigger] ids.contains(id) && cells(id) == row
}

/// Whether the transaction of one row comes before that of another in a list: it is of a later date,
/// or of the same date and has the lesser id.
pub open spec fn comes_first(
    date: Seq<char>,
    id: Seq<char>,
    other_date: Seq<char>,
    other_id: Seq<char>,
) -> bool {
    text::precedes(other_date, date) || date == other_date && text::precedes(id, other_id)
}

/// Whether rows of `transactions` stand in the order of a list.
pub open spec fn newest_first(rows: Seq<Seq<CellView>>) -> bool {
    forall|i: int, j: int|
        #![trigger rows[i], rows[j]]
        0 <= i < j < rows.len() ==> comes_first(
            rows[i][3]->Text_0,
            rows[i][0]->Text_0,
            rows[j][3]->Text_0,
            rows[j][0]->Text_0,
        )
}

// What statements do.

/// Which rules the tables of a file have besides those that every file has: the two checks at the end
/// of `transactions`, and the unique index on the name and type of accounts.
pub struct Rules {
    pub checks: bool,
    pub index: bool,
}

/// The rules of `SCHEMA`.
pub open spec fn current_rules() -> Rules {
    Rules { checks: true, index: true }
}

/// The row that a requested transaction becomes at the time `now`.
pub open spec fn transaction_of(row: CreateTransactionRequest, now: Seq<char>) -> Transaction {
    Transaction {
        batch_id: db::optional_text(row.batch_id),
        description: row.description@,
        date: row.date@,
        amount: row.amount,
        opposing_amount: row.opposing_amount,
        account_id: row.account_id,
        opposing_account_id: row.opposing_account_id,
        category_id: row.category_id,
        created_at: now,
        updated_at: now,
    }
}

/// Whether `after` is `before` with a new currency, which was given back.
pub open spec fn adds_currency(
    before: Tables,
    id: i64,
    row: Currency,
    outcome: Outcome,
    after: Tables,
) -> bool {
    &&& !before.currencies.contains_key(id)
    &&& gives(outcome, seq![currency_cells(id, row)])
    &&& after == (Tables { currencies: before.currencies.insert(id, row), ..before })
}

/// Whether `after` is `before` with a new category, which was given back.
pub open spec fn adds_category(
    before: Tables,
    id: i64,
    name: Seq<char>,
    outcome: Outcome,
    after: Tables,
) -> bool {
    &&& !before.categories.contains_key(id)
    &&& gives(outcome, seq![category_cells(id, name)])
    &&& after == (Tables { categories: before.categories.insert(id, name), ..before })
}

/// Whether `after` is `before` with a new account, which was given back.
pub open spec fn adds_account(
    before: Tables,
    id: i64,
    row: Account,
    outcome: Outcome,
    after: Tables,
) -> bool {
    &&& !before.accounts.contains_key(id)
    &&& gives(outcome, seq![account_cells(id, row)])
    &&& after == (Tables { accounts: before.accounts.insert(id, row), ..before })
}

/// Whether `after` is `before` with a new transaction, which was given back.
pub open spec fn adds_transaction(
    before: Tables,
    row: CreateTransactionRequest,
    now: Seq<char>,
    outcome: Outcome,
    after: Tables,
) -> bool {
    let added = transaction_of(row, now);
    &&& gives(outcome, seq![transaction_cells(row.id@, added)])
    &&& after == (Tables { transactions: before.transactions.insert(row.id@, added), ..before })
}

/// A transaction without the category `category_id`, if that was its own.
pub open spec fn without_category(row: Transaction, category_id: i64) -> Transaction {
    if row.category_id == Some(category_id) {
        Transaction { category_id: None, ..row }
    } else {
        row
    }
}

/// The tables without a category, which its transactions lose.
pub open spec fn category_removed(tables: Tables, id: i64) -> Tables {
    Tables {
        categories: tables.categories.remove(id),
        transactions: tables.transactions.map_values(|row: Transaction| without_category(row, id)),
        ..tables
    }
}

/// The transaction after a change.
pub open spec fn transaction_changed(
    row: Transaction,
    description: Option<Seq<char>>,
    category_given: bool,
    category_id: Option<i64>,
    updated_at: Seq<char>,
) -> Transaction {
    Transaction {
        description: match description {
            Some(description) => description,
            None => row.description,
        },
        category_id: if category_given { category_id } else { row.category_id },
        updated_at,
        ..row
    }
}

/// Whether `after` is `before` with the transaction `id` changed.
pub open spec fn changes_transaction(
    before: Tables,
    id: Seq<char>,
    description: Option<Seq<char>>,
    category_given: bool,
    category_id: Option<i64>,
    updated_at: Seq<char>,
    after: Tables,
) -> bool {
    let changed = transaction_changed(
        before.transactions[id],
        description,
        category_given,
        category_id,
        updated_at,
    );
    after == (Tables { transactions: before.transactions.insert(id, changed), ..before })
}

/// Whether a statement other than `BEGIN`, `COMMIT` and `ROLLBACK`, put to the tables `before`, comes
/// to `outcome` and leaves the tables `after`.
pub open spec fn acts(before: Tables, statement: Statement, outcome: Outcome, after: Tables) -> bool {
    acts_under(current_rules(), before, statement, outcome, after)
}

/// The same, for tables that have these rules.
pub open spec fn acts_under(
    rules: Rules,
    before: Tables,
    statement: Statement,
    outcome: Outcome,
    after: Tables,
) -> bool {
    match statement {
        Statement::InsertCurrency { code, minor_unit } => {
            let row = Currency { code: code@, minor_unit };
            let taken = code_taken(before, code@);
            if currency_allowed(row) && !taken {
                exists|id: i64| #[trigger] adds_currency(before, id, row, outcome, after)
            } else {
                turned_down(outcome, currency_allowed(row), taken) && after == before
            }
        },
        Statement::ListCurrencies => {
            &&& outcome matches Ok(answer)
            &&& lists(
                db::row_views(answer.rows@),
                before.currencies.dom(),
                |id: i64| currency_cells(id, before.currencies[id]),
            )
            &&& after == before
        },
        Statement::InsertCategory { name } => {
            if !category_taken(before, name@) {
                exists|id: i64| #[trigger] adds_category(before, id, name@, outcome, after)
            } else {
                turned_down(outcome, true, true) && after == before
            }
        },
        Statement::ListCategories => {
            &&& outcome matches Ok(answer)
            &&& lists(
                db::row_views(answer.rows@),
                before.categories.dom(),
                |id: i64| category_cells(id, before.categories[id]),
            )
            &&& after == before
        },
        Statement::DeleteCategory { id } => {
            if before.categories.contains_key(id) {
                reports(outcome, 1) && after == category_removed(before, id)
            } else {
                reports(outcome, 0) && after == before
            }
        },
        Statement::InsertAccount { name, account_type, currency_id } => {
            let row = Account { name: name@, account_type: account_type@, currency_id };
            let taken = rules.index && account_taken(before, row);
            if account_allowed(before, row) && !taken {
                exists|id: i64| #[trigger] adds_account(before, id, row, outcome, after)
            } else {
                turned_down(outcome, account_allowed(before, row), taken) && after == before
            }
        },
        Statement::ListAccounts => {
            &&& outcome matches Ok(answer)
            &&& lists(
                db::row_views(answer.rows@),
                before.accounts.dom(),
                |id: i64| account_cells(id, before.accounts[id]),
            )
            &&& after == before
        },
        Statement::DeleteAccount { id } => {
            if !before.accounts.contains_key(id) {
                reports(outcome, 0) && after == before
            } else if account_used(before, id) {
                turned_down(outcome, false, false) && after == before
            } else {
                reports(outcome, 1) && after == (Tables {
                    accounts: before.accounts.remove(id),
                    ..before
                })
            }
        },
        Statement::LookupAccount { id } => {
            &&& gives(
                outcome,
                if before.accounts.contains_key(id) {
                    seq![facts_cells(before.accounts[id])]
                } else {
                    seq![]
                },
            )
            &&& after == before
        },
        Statement::InsertTransaction { row } => {
            let added = transaction_of(row, seq![]);
            let allowed = transaction_allowed(before, added) && (rules.checks ==> row_passes_checks(
                added,
            ));
            let taken = before.transactions.contains_key(row.id@);
            if allowed && !taken {
                exists|now: Seq<char>| #[trigger]
                    adds_transaction(before, row, now, outcome, after)
            } else {
                turned_down(outcome, allowed, taken) && after == before
            }
        },
        Statement::ListTransactions => {
            &&& outcome matches Ok(answer)
            &&& lists(
                db::row_views(answer.rows@),
                before.transactions.dom(),
                |id: Seq<char>| transaction_cells(id, before.transactions[id]),
            )
            &&& newest_first(db::row_views(answer.rows@))
            &&& after == before
        },
        Statement::SelectTransaction { id } => {
            &&& gives(
                outcome,
                if before.transactions.contains_key(id@) {
                    seq![transaction_cells(id@, before.transactions[id@])]
                } else {
                    seq![]
                },
            )
            &&& after == before
        },
        Statement::UpdateTransaction { id, description, category_given, category_id } => {
            if !before.transactions.contains_key(id@) {
                reports(outcome, 0) && after == before
            } else if category_given && category_id is Some && !before.categories.contains_key(
                category_id->0,
            ) {
                turned_down(outcome, false, false) && after == before
            } else {
                reports(outcome, 1) && exists|updated_at: Seq<char>| #[trigger]
                    changes_transaction(
                        before,
                        id@,
                        db::optional_text(description),
                        category_given,
                        category_id,
                        updated_at,
                        after,
                    )
            }
        },
        Statement::DeleteTransaction { id } => {
            if before.transactions.contains_key(id@) {
                reports(outcome, 1) && after == (Tables {
                    transactions: before.transactions.remove(id@),
                    ..before
                })
            } else {
                reports(outcome, 0) && after == before
            }
        },
        Statement::Begin => false,
        Statement::Commit => false,
        Statement::Rollback => false,
    }
}

/// Whatever a statement does, the tables go on to meet their constraints.
pub proof fn lemma_acts_keeps_schema(
    before: Tables,
    statement: Statement,
    outcome: Outcome,
    after: Tables,
)
    requires
        meets_schema(before),
        acts(before, statement, outcome, after),
    ensures
        meets_schema(after),
{
    match statement {
        Statement::InsertCurrency { code, minor_unit } => {
            let row = Currency { code: code@, minor_unit };
            if currency_allowed(row) && !code_taken(before, code@) {
                let id = choose|id: i64| #[trigger] adds_currency(before, id, row, outcome, after);
                assert(after.accounts == before.accounts);
            }
        },
        Statement::InsertCategory { name } => {
            if !category_taken(before, name@) {
                let id = choose|id: i64| #[trigger] adds_category(before, id, name@, outcome, after);
                assert(after.accounts == before.accounts);
            }
        },
        Statement::InsertAccount { name, account_type, currency_id } => {
            let row = Account { name: name@, account_type: account_type@, currency_id };
            if account_allowed(before, row) && !account_taken(before, row) {
                let id = choose|id: i64| #[trigger] adds_account(before, id, row, outcome, after);
                assert(after.currencies == before.currencies);
            }
        },
        Statement::DeleteCategory { id } => {
            assert forall|key: Seq<char>| #[trigger]
                after.transactions.contains_key(key) implies transaction_allowed(
                after,
                after.transactions[key],
            ) by {
                assert(before.transactions.contains_key(key));
            }
        },
        Statement::DeleteAccount { id } => {
            assert forall|key: Seq<char>| #[trigger]
                after.transactions.contains_key(key) implies transaction_allowed(
                after,
                after.transactions[key],
            ) by {
                assert(before.transactions.contains_key(key));
            }
        },
        _ => {},
    }
}

// Database files.

/// A database file: the version that it says it has, its tables, if it has them, and their rules.
pub struct File {
    pub version: i64,
    pub tables: Option<Tables>,
    pub rules: Rules,
}

/// Whether a statement put to a file comes to `outcome` and leaves the file `after`.
pub open spec fn file_acts(
    before: File,
    statement: Statement,
    outcome: Outcome,
    after: File,
) -> bool {
    &&& before.tables is Some
    &&& after.tables is Some
    &&& acts_under(before.rules, before.tables->0, statement, outcome, after.tables->0)
    &&& after == (File { tables: after.tables, ..before })
}

/// The tables without a row.
pub open spec fn no_rows() -> Tables {
    Tables {
        currencies: Map::empty(),
        accounts: Map::empty(),
        categories: Map::empty(),
        transactions: Map::empty(),
    }
}

/// Whether no two accounts share their name and their type.
pub open spec fn accounts_differ(tables: Tables) -> bool {
    forall|a: i64, b: i64|
        #![trigger tables.accounts.contains_key(a), tables.accounts.contains_key(b)]
        tables.accounts.contains_key(a) && tables.accounts.contains_key(b)
            && tables.accounts[a].name == tables.accounts[b].name
            && tables.accounts[a].account_type == tables.accounts[b].account_type ==> a == b
}

/// What a step makes of a file; `None` where it may fail.
pub open spec fn stepped(file: File, step: Migration) -> Option<File> {
    match (step, file.tables) {
        (Migration::CreateTables, None) => Some(
            File { tables: Some(no_rows()), rules: current_rules(), ..file },
        ),
        (Migration::RebuildTransactions, Some(tables)) => if passes_checks(tables) {
            Some(File { rules: Rules { checks: true, ..file.rules }, ..file })
        } else {
            None
        },
        (Migration::AddAccountsIndex, Some(tables)) => if !file.rules.index && accounts_differ(
            tables,
        ) {
            Some(File { rules: Rules { index: true, ..file.rules }, ..file })
        } else {
            None
        },
        (Migration::SetVersion, _) => Some(File { version: schema::CURRENT_VERSION, ..file }),
        _ => None,
    }
}

/// What steps, one after another, make of a file; `None` where one of them may fail.
pub open spec fn migrated(file: File, steps: Seq<Migration>) -> Option<File>
    decreases steps.len(),
{
    if steps.len() == 0 {
        Some(file)
    } else {
        match stepped(file, steps[0]) {
            Some(next) => migrated(next, steps.skip(1)),
            None => None,
        }
    }
}

/// Whether a file can be brought up to date: it is new, or of the version before and its rows pass the
/// checks and the index that it will get, or it is up to date already.
pub open spec fn can_be_migrated(file: File) -> bool {
    ||| file.version == 0 && file.tables is None
    ||| file.version == 1 && !file.rules.index && file.tables is Some && passes_checks(
        file.tables->0,
    ) && accounts_differ(file.tables->0)
    ||| file.version == schema::CURRENT_VERSION
}

/// Migrating brings a file to the current version, with the rules of `SCHEMA` in place, and keeps
/// every row as it is; a file that is up to date is left alone. So migrating again changes nothing.
pub proof fn law_migration_keeps_rows(file: File)
    requires
        can_be_migrated(file),
    ensures
        schema::migrations(file.version) is Some,
        migrated(file, schema::migrations(file.version)->0) matches Some(done) && {
            &&& done.version == schema::CURRENT_VERSION
            &&& file.version == schema::CURRENT_VERSION ==> done == file
            &&& file.version != schema::CURRENT_VERSION ==> done.rules == current_rules()
            &&& file.tables is Some ==> done.tables == file.tables
            &&& file.version == 0 ==> done.tables == Some(no_rows())
            &&& migrated(done, schema::migrations(done.version)->0) == Some(done)
        },
{
    let steps = schema::migrations(file.version)->0;
    reveal_with_fuel(migrated, 4);
    if file.version == 0 {
        assert(steps.skip(1) =~= seq![Migration::SetVersion]);
        assert(steps.skip(1).skip(1) =~= seq![]);
    } else if file.version == 1 {
        assert(steps.skip(1) =~= seq![Migration::AddAccountsIndex, Migration::SetVersion]);
        assert(steps.skip(1).skip(1) =~= seq![Migration::SetVersion]);
        assert(steps.skip(1).skip(1).skip(1) =~= seq![]);
    }
}

/// A file that was migrated turns down a transaction between an account and itself, and one whose date
/// does not pass the check, whether it comes by way of the ledger or not.
pub proof fn law_migrated_file_has_the_checks(
    file: File,
    row: CreateTransactionRequest,
    outcome: Outcome,
    after: File,
)
    requires
        can_be_migrated(file),
        file.version != schema::CURRENT_VERSION,
        file_acts(
            migrated(file, schema::migrations(file.version)->0)->0,
            Statement::InsertTransaction { row },
            outcome,
            after,
        ),
        row.account_id == row.opposing_account_id || !dates::passes_check(row.date@),
    ensures
        outcome is Err,
        after == migrated(file, schema::migrations(file.version)->0)->0,
{
    law_migration_keeps_rows(file);
}

} // verus!
