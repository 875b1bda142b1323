//! What callers send and what the ledger gives out.

use vstd::prelude::*;

use crate::db;
use crate::db::{Cell, Column, Kind, Record};

verus! {

/// A request for a new currency.
#[derive(Debug)]
pub struct CreateCurrencyRequest {
    pub code: String,
    pub minor_unit: i64,
}

/// A request for a new category.
#[derive(Debug)]
pub struct CreateCategoryRequest {
    pub name: String,
}

/// A request for a new account.
#[derive(Debug)]
pub struct CreateAccountRequest {
    pub name: String,
    pub account_type: String,
    pub currency_id: Option<i64>,
}

/// A request for a new transaction.
#[derive(Debug)]
pub struct CreateTransactionRequest {
    pub id: String,
    pub batch_id: Option<String>,
    pub description: String,
    pub date: String,
    pub amount: i64,
    pub opposing_amount: Option<i64>,
    pub account_id: i64,
    pub opposing_account_id: i64,
    pub category_id: Option<i64>,
}

/// A request for several new transactions, all of them or none.
#[derive(Debug)]
pub struct CreateTransactionsBatchRequest {
    pub batch_id: String,
    pub transactions: Vec<CreateTransactionRequest>,
}

/// A currency as the API gives it out.
#[derive(Debug, PartialEq)]
pub struct CurrencyResponse {
    pub id: i64,
    pub code: String,
    pub minor_unit: i64,
}

/// A category as the API gives it out.
#[derive(Debug, PartialEq)]
pub struct CategoryResponse {
    pub id: i64,
    pub name: String,
}

/// An account as the API gives it out.
#[derive(Debug, PartialEq)]
pub struct AccountResponse {
    pub id: i64,
    pub name: String,
    pub account_type: String,
    pub currency_id: Option<i64>,
}

/// What a transaction has to know of an account that it names.
#[derive(Debug, PartialEq)]
pub struct AccountFacts {
    pub account_type: String,
    pub currency_id: Option<i64>,
}

/// A transaction as the API gives it out.
#[derive(Debug, PartialEq)]
pub struct TransactionResponse {
    pub id: String,
    pub batch_id: Option<String>,
    pub description: String,
    pub date: String,
    pub amount: i64,
    pub opposing_amount: Option<i64>,
    pub account_id: i64,
    pub opposing_account_id: i64,
    pub category_id: Option<i64>,
    pub created_at: String,
    pub updated_at: String,
}

impl Record for CurrencyResponse {
    open spec fn columns() -> Seq<db::ColumnView> {
        seq![
            db::ColumnView { name: "id"@, kind: Kind::Integer },
            db::ColumnView { name: "code"@, kind: Kind::Text },
            db::ColumnView { name: "minor_unit"@, kind: Kind::Integer },
        ]
    }

    open spec fn of(row: Seq<Cell>) -> Self {
        CurrencyResponse {
            id: db::integer_of(row[0]),
            code: db::text_of(row[1]),
            minor_unit: db::integer_of(row[2]),
        }
    }

    fn layout() -> (columns: Vec<Column>) {
        let columns: Vec<Column> = vec![
            Column { name: "id", kind: Kind::Integer },
            Column { name: "code", kind: Kind::Text },
            Column { name: "minor_unit", kind: Kind::Integer },
        ];
        assert(db::column_views(columns@) =~= Self::columns());
        columns
    }

    fn from_cells(row: &Vec<Cell>) -> (record: Self) {
        proof {
            db::lemma_faultless(row@, Self::columns());
            assert(db::fits(row@[0], Self::columns()[0].kind));
            assert(db::fits(row@[1], Self::columns()[1].kind));
            assert(db::fits(row@[2], Self::columns()[2].kind));
        }
        CurrencyResponse {
            id: db::integer_at(row, 0),
            code: db::text_at(row, 1),
            minor_unit: db::integer_at(row, 2),
        }
    }
}

impl Record for CategoryResponse {
    open spec fn columns() -> Seq<db::ColumnView> {
        seq![
            db::ColumnView { name: "id"@, kind: Kind::Integer },
            db::ColumnView { name: "name"@, kind: Kind::Text },
        ]
    }

    open spec fn of(row: Seq<Cell>) -> Self {
        CategoryResponse {
            id: db::integer_of(row[0]),
            name: db::text_of(row[1]),
        }
    }

    fn layout() -> (columns: Vec<Column>) {
        let columns: Vec<Column> = vec![
            Column { name: "id", kind: Kind::Integer },
            Column { name: "name", kind: Kind::Text },
        ];
        assert(db::column_views(columns@) =~= Self::columns());
        columns
    }

    fn from_cells(row: &Vec<Cell>) -> (record: Self) {
        proof {
            db::lemma_faultless(row@, Self::columns());
            assert(db::fits(row@[0], Self::columns()[0].kind));
            assert(db::fits(row@[1], Self::columns()[1].kind));
        }
        CategoryResponse {
            id: db::integer_at(row, 0),
            name: db::text_at(row, 1),
        }
    }
}

impl Record for AccountResponse {
    open spec fn columns() -> Seq<db::ColumnView> {
        seq![
            db::ColumnView { name: "id"@, kind: Kind::Integer },
            db::ColumnView { name: "name"@, kind: Kind::Text },
            db::ColumnView { name: "type"@, kind: Kind::Text },
            db::ColumnView { name: "currency_id"@, kind: Kind::OptionalInteger },
        ]
    }

    open spec fn of(row: Seq<Cell>) -> Self {
        AccountResponse {
            id: db::integer_of(row[0]),
            name: db::text_of(row[1]),
            account_type: db::text_of(row[2]),
            currency_id: db::optional_integer_of(row[3]),
        }
    }

    fn layout() -> (columns: Vec<Column>) {
        let columns: Vec<Column> = vec![
            Column { name: "id", kind: Kind::Integer },
            Column { name: "name", kind: Kind::Text },
            Column { name: "type", kind: Kind::Text },
            Column { name: "currency_id", kind: Kind::OptionalInteger },
        ];
        assert(db::column_views(columns@) =~= Self::columns());
        columns
    }

    fn from_cells(row: &Vec<Cell>) -> (record: Self) {
        proof {
            db::lemma_faultless(row@, Self::columns());
            assert(db::fits(row@[0], Self::columns()[0].kind));
            assert(db::fits(row@[1], Self::columns()[1].kind));
            assert(db::fits(row@[2], Self::columns()[2].kind));
            assert(db::fits(row@[3], Self::columns()[3].kind));
        }
        AccountResponse {
            id: db::integer_at(row, 0),
            name: db::text_at(row, 1),
            account_type: db::text_at(row, 2),
            currency_id: db::optional_integer_at(row, 3),
        }
    }
}

impl Record for AccountFacts {
    open spec fn columns() -> Seq<db::ColumnView> {
        seq![
            db::ColumnView { name: "type"@, kind: Kind::Text },
            db::ColumnView { name: "currency_id"@, kind: Kind::OptionalInteger },
        ]
    }

    open spec fn of(row: Seq<Cell>) -> Self {
        AccountFacts {
            account_type: db::text_of(row[0]),
            currency_id: db::optional_integer_of(row[1]),
        }
    }

    fn layout() -> (columns: Vec<Column>) {
        let columns: Vec<Column> = vec![
            Column { name: "type", kind: Kind::Text },
            Column { name: "currency_id", kind: Kind::OptionalInteger },
        ];
        assert(db::column_views(columns@) =~= Self::columns());
        columns
    }

    fn from_cells(row: &Vec<Cell>) -> (record: Self) {
        proof {
            db::lemma_faultless(row@, Self::columns());
            assert(db::fits(row@[0], Self::columns()[0].kind));
            assert(db::fits(row@[1], Self::columns()[1].kind));
        }
        AccountFacts {
            account_type: db::text_at(row, 0),
            currency_id: db::optional_integer_at(row, 1),
        }
    }
}

impl Record for TransactionResponse {
    open spec fn columns() -> Seq<db::ColumnView> {
        seq![
            db::ColumnView { name: "id"@, kind: Kind::Text },
            db::ColumnView { name: "batch_id"@, kind: Kind::OptionalText },
            db::ColumnView { name: "description"@, kind: Kind::Text },
            db::ColumnView { name: "date"@, kind: Kind::Text },
            db::ColumnView { name: "amount"@, kind: Kind::Integer },
            db::ColumnView { name: "opposing_amount"@, kind: Kind::OptionalInteger },
            db::ColumnView { name: "account_id"@, kind: Kind::Integer },
            db::ColumnView { name: "opposing_account_id"@, kind: Kind::Integer },
            db::ColumnView { name: "category_id"@, kind: Kind::OptionalInteger },
            db::ColumnView { name: "created_at"@, kind: Kind::Text },
            db::ColumnView { name: "updated_at"@, kind: Kind::Text },
        ]
    }

    open spec fn of(row: Seq<Cell>) -> Self {
        TransactionResponse {
            id: db::text_of(row[0]),
            batch_id: db::optional_text_of(row[1]),
            description: db::text_of(row[2]),
            date: db::text_of(row[3]),
            amount: db::integer_of(row[4]),
            opposing_amount: db::optional_integer_of(row[5]),
            account_id: db::integer_of(row[6]),
            opposing_account_id: db::integer_of(row[7]),
            category_id: db::optional_integer_of(row[8]),
            created_at: db::text_of(row[9]),
            updated_at: db::text_of(row[10]),
        }
    }

    fn layout() -> (columns: Vec<Column>) {
        let columns: Vec<Column> = vec![
            Column { name: "id", kind: Kind::Text },
            Column { name: "batch_id", kind: Kind::OptionalText },
            Column { name: "description", kind: Kind::Text },
            Column { name: "date", kind: Kind::Text },
            Column { name: "amount", kind: Kind::Integer },
            Column { name: "opposing_amount", kind: Kind::OptionalInteger },
            Column { name: "account_id", kind: Kind::Integer },
            Column { name: "opposing_account_id", kind: Kind::Integer },
            Column { name: "category_id", kind: Kind::OptionalInteger },
            Column { name: "created_at", kind: Kind::Text },
            Column { name: "updated_at", kind: Kind::Text },
        ];
        assert(db::column_views(columns@) =~= Self::columns());
        columns
    }

    fn from_cells(row: &Vec<Cell>) -> (record: Self) {
        proof {
            db::lemma_faultless(row@, Self::columns());
            assert(db::fits(row@[0], Self::columns()[0].kind));
            assert(db::fits(row@[1], Self::columns()[1].kind));
            assert(db::fits(row@[2], Self::columns()[2].kind));
            assert(db::fits(row@[3], Self::columns()[3].kind));
            assert(db::fits(row@[4], Self::columns()[4].kind));
            assert(db::fits(row@[5], Self::columns()[5].kind));
            assert(db::fits(row@[6], Self::columns()[6].kind));
            assert(db::fits(row@[7], Self::columns()[7].kind));
            assert(db::fits(row@[8], Self::columns()[8].kind));
            assert(db::fits(row@[9], Self::columns()[9].kind));
            assert(db::fits(row@[10], Self::columns()[10].kind));
        }
        TransactionResponse {
            id: db::text_at(row, 0),
            batch_id: db::optional_text_at(row, 1),
            description: db::text_at(row, 2),
            date: db::text_at(row, 3),
            amount: db::integer_at(row, 4),
            opposing_amount: db::optional_integer_at(row, 5),
            account_id: db::integer_at(row, 6),
            opposing_account_id: db::integer_at(row, 7),
            category_id: db::optional_integer_at(row, 8),
            created_at: db::text_at(row, 9),
            updated_at: db::text_at(row, 10),
        }
    }
}

/// A currency is read from its columns from left to right: each field is the cell of its column, and the
/// columns bear the names of the table.
pub proof fn law_currency_is_read_column_by_column(row: Seq<Cell>)
    ensures
        CurrencyResponse::columns().len() == 3,
        CurrencyResponse::columns()[0].name == "id"@ && CurrencyResponse::columns()[0].kind is Integer,
        CurrencyResponse::columns()[1].name == "code"@ && CurrencyResponse::columns()[1].kind is Text,
        CurrencyResponse::columns()[2].name == "minor_unit"@ && CurrencyResponse::columns()[2].kind is Integer,
        db::row_fault(row, CurrencyResponse::columns()) is None ==> {
            let record = CurrencyResponse::of(row);
            &&& row.len() >= 3
            &&& row[0] == Cell::Integer(record.id)
            &&& row[1] == Cell::Text(record.code)
            &&& row[2] == Cell::Integer(record.minor_unit)
        },
{
    if db::row_fault(row, CurrencyResponse::columns()) is None {
        db::lemma_faultless(row, CurrencyResponse::columns());
        assert(db::fits(row[0], CurrencyResponse::columns()[0].kind));
        assert(db::fits(row[1], CurrencyResponse::columns()[1].kind));
        assert(db::fits(row[2], CurrencyResponse::columns()[2].kind));
    }
}

/// A category is read from its columns from left to right: each field is the cell of its column, and the
/// columns bear the names of the table.
pub proof fn law_category_is_read_column_by_column(row: Seq<Cell>)
    ensures
        CategoryResponse::columns().len() == 2,
        CategoryResponse::columns()[0].name == "id"@ && CategoryResponse::columns()[0].kind is Integer,
        CategoryResponse::columns()[1].name == "name"@ && CategoryResponse::columns()[1].kind is Text,
        db::row_fault(row, CategoryResponse::columns()) is None ==> {
            let record = CategoryResponse::of(row);
            &&& row.len() >= 2
            &&& row[0] == Cell::Integer(record.id)
            &&& row[1] == Cell::Text(record.name)
        },
{
    if db::row_fault(row, CategoryResponse::columns()) is None {
        db::lemma_faultless(row, CategoryResponse::columns());
        assert(db::fits(row[0], CategoryResponse::columns()[0].kind));
        assert(db::fits(row[1], CategoryResponse::columns()[1].kind));
    }
}

/// An account is read from its columns from left to right: each field is the cell of its column, and the
/// columns bear the names of the table.
pub proof fn law_account_is_read_column_by_column(row: Seq<Cell>)
    ensures
        AccountResponse::columns().len() == 4,
        AccountResponse::columns()[0].name == "id"@ && AccountResponse::columns()[0].kind is Integer,
        AccountResponse::columns()[1].name == "name"@ && AccountResponse::columns()[1].kind is Text,
        AccountResponse::columns()[2].name == "type"@ && AccountResponse::columns()[2].kind is Text,
        AccountResponse::columns()[3].name == "currency_id"@ && AccountResponse::columns()[3].kind is OptionalInteger,
        db::row_fault(row, AccountResponse::columns()) is None ==> {
            let record = AccountResponse::of(row);
            &&& row.len() >= 4
            &&& row[0] == Cell::Integer(record.id)
            &&& row[1] == Cell::Text(record.name)
            &&& row[2] == Cell::Text(record.account_type)
            &&& row[3] == (match record.currency_id {
                Some(value) => Cell::Integer(value),
                None => Cell::Null,
            })
        },
{
    if db::row_fault(row, AccountResponse::columns()) is None {
        db::lemma_faultless(row, AccountResponse::columns());
        assert(db::fits(row[0], AccountResponse::columns()[0].kind));
        assert(db::fits(row[1], AccountResponse::columns()[1].kind));
        assert(db::fits(row[2], AccountResponse::columns()[2].kind));
        assert(db::fits(row[3], AccountResponse::columns()[3].kind));
    }
}

/// What is looked up of an account is read from its columns from left to right: each field is the cell of its column, and the
/// columns bear the names of the table.
pub proof fn law_account_facts_is_read_column_by_column(row: Seq<Cell>)
    ensures
        AccountFacts::columns().len() == 2,
        AccountFacts::columns()[0].name == "type"@ && AccountFacts::columns()[0].kind is Text,
        AccountFacts::columns()[1].name == "currency_id"@ && AccountFacts::columns()[1].kind is OptionalInteger,
        db::row_fault(row, AccountFacts::columns()) is None ==> {
            let record = AccountFacts::of(row);
            &&& row.len() >= 2
            &&& row[0] == Cell::Text(record.account_type)
            &&& row[1] == (match record.currency_id {
                Some(value) => Cell::Integer(value),
                None => Cell::Null,
            })
        },
{
    if db::row_fault(row, AccountFacts::columns()) is None {
        db::lemma_faultless(row, AccountFacts::columns());
        assert(db::fits(row[0], AccountFacts::columns()[0].kind));
        assert(db::fits(row[1], AccountFacts::columns()[1].kind));
    }
}

/// A transaction is read from its columns from left to right: each field is the cell of its column, and the
/// columns bear the names of the table.
pub proof fn law_transaction_is_read_column_by_column(row: Seq<Cell>)
    ensures
        TransactionResponse::columns().len() == 11,
        TransactionResponse::columns()[0].name == "id"@ && TransactionResponse::columns()[0].kind is Text,
        TransactionResponse::columns()[1].name == "batch_id"@ && TransactionResponse::columns()[1].kind is OptionalText,
        TransactionResponse::columns()[2].name == "description"@ && TransactionResponse::columns()[2].kind is Text,
        TransactionResponse::columns()[3].name == "date"@ && TransactionResponse::columns()[3].kind is Text,
        TransactionResponse::columns()[4].name == "amount"@ && TransactionResponse::columns()[4].kind is Integer,
        TransactionResponse::columns()[5].name == "opposing_amount"@ && TransactionResponse::columns()[5].kind is OptionalInteger,
        TransactionResponse::columns()[6].name == "account_id"@ && TransactionResponse::columns()[6].kind is Integer,
        TransactionResponse::columns()[7].name == "opposing_account_id"@ && TransactionResponse::columns()[7].kind is Integer,
        TransactionResponse::columns()[8].name == "category_id"@ && TransactionResponse::columns()[8].kind is OptionalInteger,
        TransactionResponse::columns()[9].name == "created_at"@ && TransactionResponse::columns()[9].kind is Text,
        TransactionResponse::columns()[10].name == "updated_at"@ && TransactionResponse::columns()[10].kind is Text,
        db::row_fault(row, TransactionResponse::columns()) is None ==> {
            let record = TransactionResponse::of(row);
            &&& row.len() >= 11
            &&& row[0] == Cell::Text(record.id)
            &&& row[1] == (match record.batch_id {
                Some(value) => Cell::Text(value),
                None => Cell::Null,
            })
            &&& row[2] == Cell::Text(record.description)
            &&& row[3] == Cell::Text(record.date)
            &&& row[4] == Cell::Integer(record.amount)
            &&& row[5] == (match record.opposing_amount {
                Some(value) => Cell::Integer(value),
                None => Cell::Null,
            })
            &&& row[6] == Cell::Integer(record.account_id)
            &&& row[7] == Cell::Integer(record.opposing_account_id)
            &&& row[8] == (match record.category_id {
                Some(value) => Cell::Integer(value),
                None => Cell::Null,
            })
            &&& row[9] == Cell::Text(record.created_at)
            &&& row[10] == Cell::Text(record.updated_at)
        },
{
    if db::row_fault(row, TransactionResponse::columns()) is None {
        db::lemma_faultless(row, TransactionResponse::columns());
        assert(db::fits(row[0], TransactionResponse::columns()[0].kind));
        assert(db::fits(row[1], TransactionResponse::columns()[1].kind));
        assert(db::fits(row[2], TransactionResponse::columns()[2].kind));
        assert(db::fits(row[3], TransactionResponse::columns()[3].kind));
        assert(db::fits(row[4], TransactionResponse::columns()[4].kind));
        assert(db::fits(row[5], TransactionResponse::columns()[5].kind));
        assert(db::fits(row[6], TransactionResponse::columns()[6].kind));
        assert(db::fits(row[7], TransactionResponse::columns()[7].kind));
        assert(db::fits(row[8], TransactionResponse::columns()[8].kind));
        assert(db::fits(row[9], TransactionResponse::columns()[9].kind));
        assert(db::fits(row[10], TransactionResponse::columns()[10].kind));
    }
}

} // verus!
