//! Whole requests, carried out against a SQLite database in memory.

use pennywise::db::{fetch_one, Answer, Cell, DbError, ErrorCode, Outcome, SqliteFailure};
use pennywise::dispatch::{payload_kind, request_of, Payload, PayloadKind};
use pennywise::protocol::{begin, resume, Request, Step};
use pennywise::records::{
    AccountFacts, AccountResponse, CategoryResponse, CreateAccountRequest, CreateCategoryRequest,
    CreateCurrencyRequest, CreateTransactionRequest, CreateTransactionsBatchRequest,
    CurrencyResponse, TransactionResponse,
};
use pennywise::reply::{self, Body, Reply};
use pennywise::routing::{self, Method};
use pennywise::schema;
use pennywise::statements::Statement;
use pennywise::validation::{self, TransactionFault};
use rusqlite::types::{Value as SqlValue, ValueRef};
use rusqlite::Connection;
use serde_json::Value;

// The database.

fn migrate(conn: &Connection) {
    let version: i64 = conn.query_row(schema::READ_VERSION, [], |row| row.get(0)).unwrap();
    for step in schema::migrate(version).expect("unknown database schema version") {
        conn.execute_batch(step.sql()).expect(step.failure());
    }
}

fn setup() -> Connection {
    let conn = Connection::open_in_memory().unwrap();
    conn.execute_batch(schema::ENABLE_FOREIGN_KEYS).unwrap();
    migrate(&conn);
    conn
}

/// Two currencies (SEK id 1, USD id 2) and four accounts: 1 = own/SEK, 2 = own/SEK, 3 = own/USD,
/// 4 = external.
fn test_db() -> Connection {
    let conn = setup();
    conn.execute_batch(
        "
        INSERT INTO currencies (id, code, minor_unit) VALUES (1, 'SEK', 2), (2, 'USD', 2);
        INSERT INTO accounts (id, name, type, currency_id) VALUES
            (1, 'Own SEK A', 'own', 1),
            (2, 'Own SEK B', 'own', 1),
            (3, 'Own USD', 'own', 2),
            (4, 'External', 'external', NULL);
        ",
    )
    .unwrap();
    conn
}

fn db_error(err: &rusqlite::Error) -> DbError {
    let failure = match err {
        rusqlite::Error::SqliteFailure(failure, message) => Some(SqliteFailure {
            code: if failure.code == rusqlite::ErrorCode::ConstraintViolation {
                ErrorCode::ConstraintViolation
            } else {
                ErrorCode::Other
            },
            extended_code: failure.extended_code,
            message: message.clone(),
        }),
        _ => None,
    };
    DbError { failure, text: err.to_string() }
}

fn cell(value: ValueRef) -> Cell {
    match value {
        ValueRef::Null => Cell::Null,
        ValueRef::Integer(value) => Cell::Integer(value),
        ValueRef::Real(_) => Cell::Real,
        ValueRef::Text(value) => Cell::Text(String::from_utf8(value.to_vec()).unwrap()),
        ValueRef::Blob(_) => Cell::Blob,
    }
}

fn parameter(cell: &Cell) -> SqlValue {
    match cell {
        Cell::Null => SqlValue::Null,
        Cell::Integer(value) => SqlValue::Integer(*value),
        Cell::Text(value) => SqlValue::Text(value.clone()),
        Cell::Real | Cell::Blob => panic!("no statement binds such a cell"),
    }
}

fn run(conn: &Connection, statement: &Statement) -> rusqlite::Result<Answer> {
    let parameters: Vec<SqlValue> = statement.parameters().iter().map(parameter).collect();
    let mut prepared = conn.prepare(&statement.sql())?;
    let width = prepared.column_count();
    if width == 0 {
        let changed = prepared.execute(rusqlite::params_from_iter(parameters))?;
        return Ok(Answer { rows: Vec::new(), changed });
    }
    let mut rows = prepared.query(rusqlite::params_from_iter(parameters))?;
    let mut list = Vec::new();
    while let Some(row) = rows.next()? {
        let mut cells = Vec::new();
        for i in 0..width {
            cells.push(cell(row.get_ref(i)?));
        }
        list.push(cells);
    }
    Ok(Answer { rows: list, changed: 0 })
}

fn perform(conn: &Connection, statement: &Statement) -> Outcome {
    run(conn, statement).map_err(|err| db_error(&err))
}

/// Looks up both accounts and checks a transaction between them.
fn validate_transaction(
    conn: &Connection,
    account_id: i64,
    opposing_account_id: i64,
    opposing_amount: Option<i64>,
) -> Result<(), TransactionFault> {
    let lookup = |id: i64| -> Option<AccountFacts> {
        fetch_one::<AccountFacts>(perform(conn, &Statement::LookupAccount { id })).ok()
    };
    validation::validate_transaction(
        account_id,
        &lookup(account_id),
        opposing_account_id,
        &lookup(opposing_account_id),
        opposing_amount,
    )
}

// Bodies.

fn text_field(value: &Value, name: &str) -> Option<String> {
    value.get(name)?.as_str().map(String::from)
}

fn integer_field(value: &Value, name: &str) -> Option<i64> {
    value.get(name)?.as_i64()
}

fn transaction_request(value: &Value) -> Option<CreateTransactionRequest> {
    Some(CreateTransactionRequest {
        id: text_field(value, "id")?,
        batch_id: text_field(value, "batch_id"),
        description: text_field(value, "description")?,
        date: text_field(value, "date")?,
        amount: integer_field(value, "amount")?,
        opposing_amount: integer_field(value, "opposing_amount"),
        account_id: integer_field(value, "account_id")?,
        opposing_account_id: integer_field(value, "opposing_account_id")?,
        category_id: integer_field(value, "category_id"),
    })
}

fn currency_request(value: &Value) -> Option<CreateCurrencyRequest> {
    Some(CreateCurrencyRequest {
        code: text_field(value, "code")?,
        minor_unit: integer_field(value, "minor_unit")?,
    })
}

fn account_request(value: &Value) -> Option<CreateAccountRequest> {
    Some(CreateAccountRequest {
        name: text_field(value, "name")?,
        account_type: text_field(value, "type")?,
        currency_id: integer_field(value, "currency_id"),
    })
}

fn category_request(value: &Value) -> Option<CreateCategoryRequest> {
    Some(CreateCategoryRequest { name: text_field(value, "name")? })
}

fn batch_request(value: &Value) -> Option<CreateTransactionsBatchRequest> {
    let mut transactions = Vec::new();
    for item in value.get("transactions")?.as_array()? {
        transactions.push(transaction_request(item)?);
    }
    Some(CreateTransactionsBatchRequest { batch_id: text_field(value, "batch_id")?, transactions })
}

fn request(method: Method, path: &str, body: &str) -> Request {
    let target = routing::route(method, path);
    let value: Value = serde_json::from_str(body).unwrap_or(Value::Null);
    let payload = match payload_kind(target.route) {
        PayloadKind::Nothing => Payload::Nothing,
        PayloadKind::Text => Payload::Text(body.to_string()),
        PayloadKind::Currency => Payload::Currency(currency_request(&value)),
        PayloadKind::Account => Payload::Account(account_request(&value)),
        PayloadKind::Category => Payload::Category(category_request(&value)),
        PayloadKind::Transaction => Payload::Transaction(transaction_request(&value)),
        PayloadKind::Transactions => Payload::Transactions(batch_request(&value)),
    };
    request_of(target, payload).unwrap()
}

/// Carries a request out, and says which statements that took.
fn converse(conn: &Connection, request: Request) -> (Reply, Vec<String>) {
    let mut asked = Vec::new();
    let mut step = begin(request);
    loop {
        match step {
            Step::Ask { statement, pending } => {
                asked.push(statement.sql());
                step = resume(pending, perform(conn, &statement));
            }
            Step::Reply(reply) => return (reply, asked),
            Step::Abort { message, error } => panic!("{message}: {}", error.text),
        }
    }
}

fn route(conn: &Connection, method: Method, path: &str, body: &str) -> Reply {
    converse(conn, request(method, path, body)).0
}

// Replies.

fn optional_text(value: &Option<String>) -> Value {
    match value {
        Some(value) => Value::from(value.clone()),
        None => Value::Null,
    }
}

fn optional_integer(value: &Option<i64>) -> Value {
    match value {
        Some(value) => Value::from(*value),
        None => Value::Null,
    }
}

fn object(members: Vec<(&str, Value)>) -> Value {
    Value::Object(members.into_iter().map(|(name, value)| (name.to_string(), value)).collect())
}

fn currency_value(row: &CurrencyResponse) -> Value {
    object(vec![
        ("id", Value::from(row.id)),
        ("code", Value::from(row.code.clone())),
        ("minor_unit", Value::from(row.minor_unit)),
    ])
}

fn category_value(row: &CategoryResponse) -> Value {
    object(vec![("id", Value::from(row.id)), ("name", Value::from(row.name.clone()))])
}

fn account_value(row: &AccountResponse) -> Value {
    object(vec![
        ("id", Value::from(row.id)),
        ("name", Value::from(row.name.clone())),
        ("type", Value::from(row.account_type.clone())),
        ("currency_id", optional_integer(&row.currency_id)),
    ])
}

fn transaction_value(row: &TransactionResponse) -> Value {
    object(vec![
        ("id", Value::from(row.id.clone())),
        ("batch_id", optional_text(&row.batch_id)),
        ("description", Value::from(row.description.clone())),
        ("date", Value::from(row.date.clone())),
        ("amount", Value::from(row.amount)),
        ("opposing_amount", optional_integer(&row.opposing_amount)),
        ("account_id", Value::from(row.account_id)),
        ("opposing_account_id", Value::from(row.opposing_account_id)),
        ("category_id", optional_integer(&row.category_id)),
        ("created_at", Value::from(row.created_at.clone())),
        ("updated_at", Value::from(row.updated_at.clone())),
    ])
}

fn response_body(reply: &Reply) -> String {
    match &reply.body {
        Body::Empty => String::new(),
        Body::Error(text) => text.clone(),
        Body::Currency(row) => currency_value(row).to_string(),
        Body::Currencies(rows) => Value::Array(rows.iter().map(currency_value).collect()).to_string(),
        Body::Category(row) => category_value(row).to_string(),
        Body::Categories(rows) => Value::Array(rows.iter().map(category_value).collect()).to_string(),
        Body::Account(row) => account_value(row).to_string(),
        Body::Accounts(rows) => Value::Array(rows.iter().map(account_value).collect()).to_string(),
        Body::Transaction(row) => transaction_value(row).to_string(),
        Body::Transactions(rows) => {
            Value::Array(rows.iter().map(transaction_value).collect()).to_string()
        }
    }
}

fn error_message(reply: &Reply) -> String {
    let value: Value = serde_json::from_str(&response_body(reply)).unwrap();
    value["error"].as_str().unwrap().to_string()
}

fn count(conn: &Connection, table: &str) -> i64 {
    conn.query_row(&format!("SELECT COUNT(*) FROM {table}"), [], |r| r.get(0)).unwrap()
}

// Opening a database.

#[test]
fn setup_applies_schema_through_migrate() {
    let conn = setup();
    let user_version: i64 = conn.query_row("PRAGMA user_version;", [], |row| row.get(0)).unwrap();
    assert_eq!(user_version, 2, "setup() must apply schema via migrate(), not duplicate SCHEMA directly");
}

#[test]
fn migrating_twice_changes_nothing() {
    let conn = test_db();
    migrate(&conn);
    assert_eq!(count(&conn, "accounts"), 4);
}

const OLD_TABLES: &str = "
    CREATE TABLE currencies (
        id INTEGER PRIMARY KEY, code TEXT NOT NULL UNIQUE,
        minor_unit INTEGER NOT NULL CHECK (minor_unit BETWEEN 0 AND 4)
    );
    CREATE TABLE accounts (
        id INTEGER PRIMARY KEY, name TEXT NOT NULL,
        type TEXT NOT NULL CHECK (type IN ('own','external')),
        currency_id INTEGER REFERENCES currencies(id)
    );
    CREATE TABLE categories (id INTEGER PRIMARY KEY, name TEXT NOT NULL UNIQUE);
    CREATE TABLE transactions (
        id TEXT PRIMARY KEY, batch_id TEXT, description TEXT NOT NULL, date TEXT NOT NULL,
        amount INTEGER NOT NULL CHECK (amount != 0),
        opposing_amount INTEGER CHECK (opposing_amount IS NULL OR opposing_amount > 0),
        account_id INTEGER NOT NULL REFERENCES accounts(id),
        opposing_account_id INTEGER NOT NULL REFERENCES accounts(id),
        category_id INTEGER REFERENCES categories(id) ON DELETE SET NULL,
        created_at TEXT NOT NULL DEFAULT (datetime('now')),
        updated_at TEXT NOT NULL DEFAULT (datetime('now'))
    );
    INSERT INTO currencies VALUES (1, 'SEK', 2);
    INSERT INTO accounts VALUES (1, 'Own', 'own', 1), (2, 'Shop', 'external', NULL);
    INSERT INTO categories VALUES (7, 'Food');
    INSERT INTO transactions VALUES
        ('t1', 'b1', 'Lunch', '2024-01-01', -900, NULL, 1, 2, 7, '2024-01-01 12:00:00', '2024-01-02 12:00:00');
    PRAGMA user_version = 1;
";

fn migrated_db() -> Connection {
    let conn = Connection::open_in_memory().unwrap();
    conn.execute_batch(schema::ENABLE_FOREIGN_KEYS).unwrap();
    conn.execute_batch(OLD_TABLES).unwrap();
    migrate(&conn);
    conn
}

#[test]
fn an_older_file_keeps_its_rows_and_gains_the_rules() {
    let conn = migrated_db();
    let user_version: i64 = conn.query_row(schema::READ_VERSION, [], |row| row.get(0)).unwrap();
    assert_eq!(user_version, schema::CURRENT_VERSION);
    let reply = route(&conn, Method::Get, "/transactions", "");
    match reply.body {
        Body::Transactions(rows) => assert_eq!(
            rows,
            vec![TransactionResponse {
                id: "t1".to_string(),
                batch_id: Some("b1".to_string()),
                description: "Lunch".to_string(),
                date: "2024-01-01".to_string(),
                amount: -900,
                opposing_amount: None,
                account_id: 1,
                opposing_account_id: 2,
                category_id: Some(7),
                created_at: "2024-01-01 12:00:00".to_string(),
                updated_at: "2024-01-02 12:00:00".to_string(),
            }]
        ),
        other => panic!("unexpected body: {other:?}"),
    }

    // The unique index on accounts.
    let again = r#"{"name": "Own", "type": "own", "currency_id": 1}"#;
    assert_eq!(route(&conn, Method::Post, "/accounts", again).status, 409);
    // The check on the two accounts, for rows that do not come by way of the API.
    assert!(conn
        .execute(
            "INSERT INTO transactions (id, description, date, amount, account_id, opposing_account_id) \
             VALUES ('t2', 'x', '2024-01-01', 1, 1, 1)",
            [],
        )
        .is_err());
    // The references still hold.
    assert_eq!(route(&conn, Method::Delete, "/accounts/1", "").status, 400);
    assert_eq!(route(&conn, Method::Delete, "/categories/7", "").status, 204);
    let category_id: Option<i64> =
        conn.query_row("SELECT category_id FROM transactions", [], |r| r.get(0)).unwrap();
    assert_eq!(category_id, None);
}

#[test]
fn result_codes_are_those_of_sqlite() {
    assert_eq!(reply::SQLITE_CONSTRAINT_PRIMARYKEY, rusqlite::ffi::SQLITE_CONSTRAINT_PRIMARYKEY);
    assert_eq!(reply::SQLITE_CONSTRAINT_UNIQUE, rusqlite::ffi::SQLITE_CONSTRAINT_UNIQUE);
}

// The rules that span a transaction and its accounts.

#[test]
fn same_currency_own_to_own_rejects_opposing_amount() {
    let conn = test_db();
    assert!(validate_transaction(&conn, 1, 2, None).is_ok());
    assert!(validate_transaction(&conn, 1, 2, Some(500)).is_err());
}

#[test]
fn cross_currency_own_to_own_requires_opposing_amount() {
    let conn = test_db();
    assert!(validate_transaction(&conn, 1, 3, Some(500)).is_ok());
    assert!(validate_transaction(&conn, 1, 3, None).is_err());
}

#[test]
fn own_to_external_rejects_opposing_amount() {
    let conn = test_db();
    assert!(validate_transaction(&conn, 1, 4, None).is_ok());
    assert!(validate_transaction(&conn, 1, 4, Some(500)).is_err());
}

#[test]
fn external_as_account_id_is_rejected() {
    let conn = test_db();
    assert!(validate_transaction(&conn, 4, 1, None).is_err());
}

#[test]
fn nonexistent_account_is_rejected() {
    let conn = test_db();
    assert!(validate_transaction(&conn, 99, 1, None).is_err());
    assert!(validate_transaction(&conn, 1, 99, None).is_err());
}

// Routing and failures.

#[test]
fn unmatched_route_is_404_with_error_envelope() {
    let conn = setup();
    let response = route(&conn, Method::Get, "/nope", "");
    assert_eq!(response.status, 404);
    assert_eq!(response_body(&response), r#"{"error":"not found"}"#);
}

#[test]
fn duplicate_primary_key_maps_to_409() {
    let conn = setup();
    conn.execute("INSERT INTO categories (id, name) VALUES (1, 'Food')", []).unwrap();
    let err = conn
        .execute("INSERT INTO categories (id, name) VALUES (1, 'Drinks')", [])
        .unwrap_err();
    assert_eq!(reply::map_db_error(&db_error(&err)), (409, "duplicate id".to_string()));
}

#[test]
fn check_violation_maps_to_400() {
    let conn = setup();
    let err = conn
        .execute(
            "INSERT INTO accounts (id, name, type, currency_id) VALUES (1, 'Wallet', 'own', NULL)",
            [],
        )
        .unwrap_err();
    let (status, _) = reply::map_db_error(&db_error(&err));
    assert_eq!(status, 400);
}

#[test]
fn db_error_response_uses_error_envelope() {
    let conn = setup();
    conn.execute("INSERT INTO categories (id, name) VALUES (1, 'Food')", []).unwrap();
    let err = conn
        .execute("INSERT INTO categories (id, name) VALUES (1, 'Drinks')", [])
        .unwrap_err();
    let response = reply::db_error_response(&db_error(&err));
    assert_eq!(response.status, 409);
    assert_eq!(response_body(&response), r#"{"error":"duplicate id"}"#);
}

#[test]
fn error_response_with_embedded_newline_is_valid_json() {
    let response = reply::error_response(400, "CHECK constraint failed: (a) OR\n        (b)");
    let body = response_body(&response);
    let parsed: Value = serde_json::from_str(&body).unwrap();
    assert_eq!(parsed["error"], "CHECK constraint failed: (a) OR\n        (b)");
}

#[test]
fn refused_foreign_key_carries_the_words_of_sqlite() {
    let conn = test_db();
    let body = r#"{"name": "New", "type": "own", "currency_id": 77}"#;
    let response = route(&conn, Method::Post, "/accounts", body);
    assert_eq!(response.status, 400);
    assert_eq!(error_message(&response), "FOREIGN KEY constraint failed");
}

// Accounts.

#[test]
fn create_account_returns_201_with_row() {
    let conn = test_db();
    let response = route(
        &conn,
        Method::Post,
        "/accounts",
        r#"{"name": "New", "type": "own", "currency_id": 1}"#,
    );
    assert_eq!(response.status, 201);
    match response.body {
        Body::Account(row) => assert_eq!(
            row,
            AccountResponse {
                id: 5,
                name: "New".to_string(),
                account_type: "own".to_string(),
                currency_id: Some(1),
            }
        ),
        other => panic!("unexpected body: {other:?}"),
    }
}

#[test]
fn create_account_decodes_unicode_escapes_in_name() {
    let conn = test_db();
    let response = route(
        &conn,
        Method::Post,
        "/accounts",
        "{\"name\": \"\\u00f6\\u00e4\\u00e5\", \"type\": \"own\", \"currency_id\": 1}",
    );
    assert_eq!(response.status, 201);
    let body = response_body(&response);
    assert!(
        body.contains('\u{f6}') && body.contains('\u{e4}') && body.contains('\u{e5}'),
        "expected decoded name in {body}"
    );
}

#[test]
fn create_account_handles_escaped_quote_in_name() {
    let conn = test_db();
    let response = route(
        &conn,
        Method::Post,
        "/accounts",
        r#"{"name": "Bob \"Money\" Smith", "type": "own", "currency_id": 1}"#,
    );
    assert_eq!(response.status, 201);
    let body = response_body(&response);
    assert!(body.contains(r#"Bob \"Money\" Smith"#), "expected escaped name in {body}");
}

#[test]
fn duplicate_account_name_and_type_is_409() {
    let conn = test_db();
    let body = r#"{"name": "Dup", "type": "own", "currency_id": 1}"#;
    assert_eq!(route(&conn, Method::Post, "/accounts", body).status, 201);
    assert_eq!(route(&conn, Method::Post, "/accounts", body).status, 409);
}

#[test]
fn same_name_different_account_type_is_allowed() {
    let conn = test_db();
    let own = r#"{"name": "Shared", "type": "own", "currency_id": 1}"#;
    let external = r#"{"name": "Shared", "type": "external"}"#;
    assert_eq!(route(&conn, Method::Post, "/accounts", own).status, 201);
    assert_eq!(route(&conn, Method::Post, "/accounts", external).status, 201);
}

#[test]
fn create_own_account_without_currency_is_400() {
    let conn = test_db();
    let response = route(&conn, Method::Post, "/accounts", r#"{"name": "New", "type": "own"}"#);
    assert_eq!(response.status, 400);
}

#[test]
fn create_external_account_with_currency_is_400() {
    let conn = test_db();
    let response = route(
        &conn,
        Method::Post,
        "/accounts",
        r#"{"name": "New", "type": "external", "currency_id": 1}"#,
    );
    assert_eq!(response.status, 400);
}

#[test]
fn list_accounts_returns_200() {
    let conn = test_db();
    let response = route(&conn, Method::Get, "/accounts", "");
    assert_eq!(response.status, 200);
    match response.body {
        Body::Accounts(rows) => {
            assert_eq!(rows.len(), 4);
            assert_eq!(rows[3].account_type, "external");
            assert_eq!(rows[3].currency_id, None);
        }
        other => panic!("unexpected body: {other:?}"),
    }
}

#[test]
fn delete_account_returns_204() {
    let conn = test_db();
    let response = route(&conn, Method::Delete, "/accounts/4", "");
    assert_eq!(response.status, 204);
    assert_eq!(response_body(&response), "");
    assert!(!response.is_json());
}

#[test]
fn delete_unknown_account_returns_404() {
    let conn = test_db();
    let response = route(&conn, Method::Delete, "/accounts/999", "");
    assert_eq!(response.status, 404);
}

#[test]
fn delete_referenced_account_returns_400() {
    let conn = test_db();
    conn.execute(
        "INSERT INTO transactions (id, description, date, amount, account_id, opposing_account_id) VALUES ('t1', 'x', '2024-01-01', 100, 1, 4)",
        [],
    )
    .unwrap();
    let response = route(&conn, Method::Delete, "/accounts/1", "");
    assert_eq!(response.status, 400);
}

// Currencies.

#[test]
fn create_and_list_currencies() {
    let conn = setup();
    let response =
        route(&conn, Method::Post, "/currencies", r#"{"code": "SEK", "minor_unit": 2}"#);
    assert_eq!(response.status, 201);

    let response = route(&conn, Method::Get, "/currencies", "");
    assert_eq!(response.status, 200);
    match response.body {
        Body::Currencies(rows) => assert_eq!(
            rows,
            vec![CurrencyResponse { id: 1, code: "SEK".to_string(), minor_unit: 2 }]
        ),
        other => panic!("unexpected body: {other:?}"),
    }
}

#[test]
fn duplicate_currency_code_is_409() {
    let conn = setup();
    let body = r#"{"code": "SEK", "minor_unit": 2}"#;
    assert_eq!(route(&conn, Method::Post, "/currencies", body).status, 201);
    assert_eq!(route(&conn, Method::Post, "/currencies", body).status, 409);
}

#[test]
fn currency_with_five_decimal_places_is_400() {
    let conn = setup();
    let body = r#"{"code": "XXX", "minor_unit": 5}"#;
    let response = route(&conn, Method::Post, "/currencies", body);
    assert_eq!(response.status, 400);
    assert!(error_message(&response).starts_with("CHECK constraint failed"));
}

// Categories.

#[test]
fn create_list_and_delete_category() {
    let conn = setup();
    let response = route(&conn, Method::Post, "/categories", r#"{"name": "Food"}"#);
    assert_eq!(response.status, 201);

    let response = route(&conn, Method::Get, "/categories", "");
    assert_eq!(response.status, 200);
    match response.body {
        Body::Categories(rows) => {
            assert_eq!(rows, vec![CategoryResponse { id: 1, name: "Food".to_string() }])
        }
        other => panic!("unexpected body: {other:?}"),
    }

    let response = route(&conn, Method::Delete, "/categories/1", "");
    assert_eq!(response.status, 204);

    let response = route(&conn, Method::Delete, "/categories/1", "");
    assert_eq!(response.status, 404);
}

#[test]
fn deleting_category_nulls_referencing_transactions() {
    let conn = setup();
    conn.execute_batch(
        "
        INSERT INTO currencies (id, code, minor_unit) VALUES (1, 'SEK', 2);
        INSERT INTO accounts (id, name, type, currency_id) VALUES
            (1, 'Own', 'own', 1), (2, 'External', 'external', NULL);
        INSERT INTO categories (id, name) VALUES (1, 'Food');
        INSERT INTO transactions
            (id, description, date, amount, account_id, opposing_account_id, category_id)
            VALUES ('t1', 'lunch', '2024-01-01', -100, 1, 2, 1);
        ",
    )
    .unwrap();

    let response = route(&conn, Method::Delete, "/categories/1", "");
    assert_eq!(response.status, 204);

    let category_id: Option<i64> = conn
        .query_row("SELECT category_id FROM transactions WHERE id = 't1'", [], |r| r.get(0))
        .unwrap();
    assert_eq!(category_id, None);
}

// Transactions.

const TXN_BODY: &str = r#"{"id": "t1", "description": "Coffee", "date": "2024-01-01", "amount": -500, "account_id": 1, "opposing_account_id": 4}"#;

#[test]
fn create_transaction_returns_201_with_row() {
    let conn = test_db();
    let response = route(&conn, Method::Post, "/transactions", TXN_BODY);
    assert_eq!(response.status, 201);
    assert!(response_body(&response).contains(r#""id":"t1""#));
    match response.body {
        Body::Transaction(row) => {
            assert_eq!(row.batch_id, None);
            assert_eq!(row.description, "Coffee");
            assert_eq!(row.date, "2024-01-01");
            assert_eq!(row.amount, -500);
            assert_eq!(row.opposing_amount, None);
            assert_eq!(row.account_id, 1);
            assert_eq!(row.opposing_account_id, 4);
            assert_eq!(row.category_id, None);
            assert_eq!(row.created_at, row.updated_at);
        }
        other => panic!("unexpected body: {other:?}"),
    }
}

#[test]
fn create_transaction_validation_failure_is_400() {
    let conn = test_db();
    // account_id must be 'own'; account 4 is 'external'.
    let body = r#"{"id": "t1", "description": "Coffee", "date": "2024-01-01", "amount": -500, "account_id": 4, "opposing_account_id": 1}"#;
    let response = route(&conn, Method::Post, "/transactions", body);
    assert_eq!(response.status, 400);
    assert_eq!(error_message(&response), "account 4 must be of type 'own'");

    assert_eq!(count(&conn, "transactions"), 0);
}

#[test]
fn duplicate_transaction_id_is_409() {
    let conn = test_db();
    assert_eq!(route(&conn, Method::Post, "/transactions", TXN_BODY).status, 201);
    assert_eq!(route(&conn, Method::Post, "/transactions", TXN_BODY).status, 409);
}

#[test]
fn a_single_transaction_keeps_its_own_batch_id() {
    let conn = test_db();
    let body = r#"{"id": "t1", "batch_id": "import-7", "description": "Rent", "date": "2024-01-01", "amount": -500, "opposing_amount": 50, "account_id": 1, "opposing_account_id": 3}"#;
    let (response, asked) = converse(&conn, request(Method::Post, "/transactions", body));
    assert_eq!(response.status, 201);
    assert_eq!(asked.len(), 3);
    match response.body {
        Body::Transaction(row) => {
            assert_eq!(row.batch_id, Some("import-7".to_string()));
            assert_eq!(row.opposing_amount, Some(50));
        }
        other => panic!("unexpected body: {other:?}"),
    }
}

#[test]
fn a_transaction_from_an_account_to_itself_is_refused() {
    let conn = test_db();
    let body = r#"{"id": "t1", "description": "Loop", "date": "2024-01-01", "amount": -500, "account_id": 1, "opposing_account_id": 1}"#;
    let response = route(&conn, Method::Post, "/transactions", body);
    assert_eq!(response.status, 400);
    assert_eq!(error_message(&response), "account_id and opposing_account_id must differ");
    assert_eq!(count(&conn, "transactions"), 0);
}

fn dated(date: &str) -> String {
    format!(
        r#"{{"id": "{date}", "description": "Coffee", "date": "{date}", "amount": -500, "account_id": 1, "opposing_account_id": 4}}"#
    )
}

#[test]
fn a_transaction_without_a_date_is_400() {
    let conn = test_db();
    for text in ["not-a-date", "", "2024-13-01", "2024-01-01T25:00:00Z", "2024-01-01T12:00:00", "now"] {
        let response = route(&conn, Method::Post, "/transactions", &dated(text));
        assert_eq!(response.status, 400, "{text}");
        assert_eq!(
            error_message(&response),
            "date must be a calendar date (YYYY-MM-DD) or an RFC 3339 timestamp"
        );
    }
    assert_eq!(count(&conn, "transactions"), 0);
}

#[test]
fn every_kind_of_date_is_stored_as_it_was_sent() {
    let conn = test_db();
    for date in [
        "2024-01-01",
        "2024-02-29",
        "0000-01-01",
        "9999-12-31",
        "2024-01-01T00:00:00Z",
        "2024-02-29T23:59:59.25+14:00",
        "0000-01-01T00:00:00-23:59",
        "9999-12-31T23:59:59Z",
        "2024-01-01T00:00:00z",
    ] {
        let response = route(&conn, Method::Post, "/transactions", &dated(date));
        assert_eq!(response.status, 201, "{date}");
        match response.body {
            Body::Transaction(row) => assert_eq!(row.date, date),
            other => panic!("unexpected body: {other:?}"),
        }
    }
}

fn insert_dated(conn: &Connection, date: &str) -> rusqlite::Result<usize> {
    conn.execute(
        "INSERT INTO transactions (id, description, date, amount, account_id, opposing_account_id) \
         VALUES (?1, 'x', ?1, 1, 1, 2)",
        [date],
    )
}

#[test]
fn the_table_itself_turns_down_what_is_no_date() {
    for conn in [test_db(), migrated_db()] {
        for text in [
            "not-a-date", "", "2024-13-01", "2023-02-29", "2024-1-1", "2024-01-01T25:00:00Z",
            "2024-01-01 12:00:00", "2451545", "12:00", "-2000-01-01", "2024-01-01T24:00:00Z",
            "2024-01-01T12:00", "2024-01-01x", "2024-04-31T12:00:00Z", "-200-01-01T12:00:00",
            "2024-01-31T24:00:00Z", "2024-01-01T24:59:59", "2024-01-01T12:60:00", "2024-01-01T12:00:60",
        ] {
            assert!(insert_dated(&conn, text).is_err(), "{text}");
        }
        // What follows the time is left to those who send rows by way of the API.
        for date in [
            "2024-01-02", "2024-01-02T12:00:00Z", "2024-01-02T12:00:00.5+02:00",
            "2024-01-02T12:00:00", "2024-01-02T12:00:00junk",
        ] {
            assert!(insert_dated(&conn, date).is_ok(), "{date}");
        }
    }
}

#[test]
fn a_refused_transaction_asks_for_no_insertion() {
    let conn = test_db();
    let body = r#"{"id": "t1", "description": "x", "date": "2024-01-01", "amount": -500, "account_id": 1, "opposing_account_id": 99}"#;
    let (response, asked) = converse(&conn, request(Method::Post, "/transactions", body));
    assert_eq!(response.status, 400);
    assert_eq!(error_message(&response), "account 99 does not exist");
    assert_eq!(asked, vec![pennywise::statements::LOOKUP_ACCOUNT.to_string(); 2]);
}

#[test]
fn a_transaction_over_nothing_is_400() {
    let conn = test_db();
    let body = r#"{"id": "t1", "description": "x", "date": "2024-01-01", "amount": 0, "account_id": 1, "opposing_account_id": 4}"#;
    let response = route(&conn, Method::Post, "/transactions", body);
    assert_eq!(response.status, 400);
    assert_eq!(error_message(&response), "CHECK constraint failed: amount != 0");
}

#[test]
fn batch_insert_succeeds_and_shares_batch_id() {
    let conn = test_db();
    let body = r#"{
        "batch_id": "b1",
        "transactions": [
            {"id": "t1", "description": "Coffee", "date": "2024-01-01", "amount": -500, "account_id": 1, "opposing_account_id": 4},
            {"id": "t2", "description": "Lunch", "date": "2024-01-02", "amount": -1000, "account_id": 1, "opposing_account_id": 4}
        ]
    }"#;
    let response = route(&conn, Method::Post, "/transactions/batch", body);
    assert_eq!(response.status, 201);

    let count: i64 = conn
        .query_row("SELECT COUNT(*) FROM transactions WHERE batch_id = 'b1'", [], |r| r.get(0))
        .unwrap();
    assert_eq!(count, 2);
}

#[test]
fn batch_id_of_the_batch_wins_over_that_of_a_row() {
    let conn = test_db();
    let body = r#"{
        "batch_id": "b1",
        "transactions": [
            {"id": "t9", "batch_id": "mine", "description": "Coffee", "date": "2024-01-01", "amount": -500, "account_id": 1, "opposing_account_id": 4},
            {"id": "t3", "description": "Lunch", "date": "2024-01-02", "amount": -1000, "account_id": 1, "opposing_account_id": 4}
        ]
    }"#;
    let (response, asked) = converse(&conn, request(Method::Post, "/transactions/batch", body));
    assert_eq!(response.status, 201);
    assert_eq!(asked.len(), 8);
    assert_eq!(asked[0], "BEGIN");
    assert_eq!(asked[7], "COMMIT");
    match response.body {
        Body::Transactions(rows) => {
            let ids: Vec<&str> = rows.iter().map(|row| row.id.as_str()).collect();
            assert_eq!(ids, vec!["t9", "t3"]);
            assert!(rows.iter().all(|row| row.batch_id == Some("b1".to_string())));
        }
        other => panic!("unexpected body: {other:?}"),
    }
}

#[test]
fn an_empty_batch_is_kept() {
    let conn = test_db();
    let body = r#"{"batch_id": "b1", "transactions": []}"#;
    let (response, asked) = converse(&conn, request(Method::Post, "/transactions/batch", body));
    assert_eq!(response.status, 201);
    assert_eq!(response_body(&response), "[]");
    assert_eq!(asked, vec!["BEGIN".to_string(), "COMMIT".to_string()]);
}

#[test]
fn batch_rolls_back_entirely_on_one_invalid_row() {
    let conn = test_db();
    let body = r#"{
        "batch_id": "b1",
        "transactions": [
            {"id": "t1", "description": "Coffee", "date": "2024-01-01", "amount": -500, "account_id": 1, "opposing_account_id": 4},
            {"id": "t2", "description": "Bad", "date": "2024-01-02", "amount": -1000, "account_id": 4, "opposing_account_id": 1}
        ]
    }"#;
    let response = route(&conn, Method::Post, "/transactions/batch", body);
    assert_eq!(response.status, 400);
    assert_eq!(error_message(&response), "account 4 must be of type 'own'");

    assert_eq!(count(&conn, "transactions"), 0, "no row from a rolled-back batch should persist");
}

#[test]
fn batch_rolls_back_entirely_on_duplicate_id() {
    let conn = test_db();
    conn.execute(
        "INSERT INTO transactions (id, description, date, amount, account_id, opposing_account_id) VALUES ('t1', 'x', '2024-01-01', -100, 1, 4)",
        [],
    )
    .unwrap();
    let body = r#"{
        "batch_id": "b1",
        "transactions": [
            {"id": "t2", "description": "Coffee", "date": "2024-01-02", "amount": -500, "account_id": 1, "opposing_account_id": 4},
            {"id": "t1", "description": "Dup", "date": "2024-01-03", "amount": -1000, "account_id": 1, "opposing_account_id": 4}
        ]
    }"#;
    let response = route(&conn, Method::Post, "/transactions/batch", body);
    assert_eq!(response.status, 409);
    assert_eq!(error_message(&response), "duplicate id");

    assert_eq!(
        count(&conn, "transactions"),
        1,
        "only the pre-existing row should remain; t2 must not persist"
    );
    // The database is free for the next batch.
    let next = r#"{"batch_id": "b2", "transactions": []}"#;
    assert_eq!(route(&conn, Method::Post, "/transactions/batch", next).status, 201);
}

#[test]
fn list_transactions_orders_by_date_desc_then_id() {
    let conn = test_db();
    conn.execute_batch(
        "
        INSERT INTO transactions (id, description, date, amount, account_id, opposing_account_id) VALUES
            ('a', 'x', '2024-01-01', -100, 1, 4),
            ('b', 'x', '2024-01-03', -100, 1, 4),
            ('c', 'x', '2024-01-02', -100, 1, 4);
        ",
    )
    .unwrap();

    let response = route(&conn, Method::Get, "/transactions", "");
    assert_eq!(response.status, 200);
    let body = response_body(&response);
    let pos_a = body.find(r#""id":"a""#).unwrap();
    let pos_b = body.find(r#""id":"b""#).unwrap();
    let pos_c = body.find(r#""id":"c""#).unwrap();
    assert!(pos_b < pos_c && pos_c < pos_a, "expected order b, c, a but got: {body}");
}

#[test]
fn transactions_of_one_date_are_listed_by_id() {
    let conn = test_db();
    for (id, date) in [
        ("b", "2024-01-01"),
        ("a", "2024-01-01"),
        ("B", "2024-01-01"),
        ("aa", "2024-01-01"),
        ("\u{e9}", "2024-01-01"),
        ("z", "2024-01-01T10:00:00Z"),
        ("y", "2023-12-31T10:00:00Z"),
    ] {
        let body = dated(date).replacen(&format!(r#""id": "{date}""#), &format!(r#""id": "{id}""#), 1);
        assert_eq!(route(&conn, Method::Post, "/transactions", &body).status, 201, "{body}");
    }
    match route(&conn, Method::Get, "/transactions", "").body {
        Body::Transactions(rows) => {
            let ids: Vec<&str> = rows.iter().map(|row| row.id.as_str()).collect();
            assert_eq!(ids, vec!["z", "B", "a", "aa", "b", "\u{e9}", "y"]);
            assert!(rows.iter().all(|row| row.created_at == row.updated_at));
        }
        other => panic!("unexpected body: {other:?}"),
    }
}

// Changing and deleting transactions.

#[test]
fn patch_updates_description_and_category_id() {
    let conn = test_db();
    conn.execute_batch(
        "
        INSERT INTO categories (id, name) VALUES (1, 'Food');
        INSERT INTO transactions (id, description, date, amount, account_id, opposing_account_id)
            VALUES ('t1', 'Old', '2024-01-01', -100, 1, 4);
        ",
    )
    .unwrap();

    let response = route(
        &conn,
        Method::Patch,
        "/transactions/t1",
        r#"{"description": "New", "category_id": 1}"#,
    );
    assert_eq!(response.status, 200);

    let (description, category_id): (String, Option<i64>) = conn
        .query_row("SELECT description, category_id FROM transactions WHERE id = 't1'", [], |r| {
            Ok((r.get(0)?, r.get(1)?))
        })
        .unwrap();
    assert_eq!(description, "New");
    assert_eq!(category_id, Some(1));
}

#[test]
fn patch_rejecting_immutable_field_is_400() {
    let conn = test_db();
    conn.execute(
        "INSERT INTO transactions (id, description, date, amount, account_id, opposing_account_id) VALUES ('t1', 'Old', '2024-01-01', -100, 1, 4)",
        [],
    )
    .unwrap();

    let response = route(&conn, Method::Patch, "/transactions/t1", r#"{"amount": 500}"#);
    assert_eq!(response.status, 400);

    let description: String = conn
        .query_row("SELECT description FROM transactions WHERE id = 't1'", [], |r| r.get(0))
        .unwrap();
    assert_eq!(description, "Old", "rejected PATCH must not have mutated the row");
}

#[test]
fn patch_can_clear_category_id_to_null() {
    let conn = test_db();
    conn.execute_batch(
        "
        INSERT INTO categories (id, name) VALUES (1, 'Food');
        INSERT INTO transactions (id, description, date, amount, account_id, opposing_account_id, category_id)
            VALUES ('t1', 'Old', '2024-01-01', -100, 1, 4, 1);
        ",
    )
    .unwrap();

    let response =
        route(&conn, Method::Patch, "/transactions/t1", r#"{"category_id": null}"#);
    assert_eq!(response.status, 200);

    let category_id: Option<i64> = conn
        .query_row("SELECT category_id FROM transactions WHERE id = 't1'", [], |r| r.get(0))
        .unwrap();
    assert_eq!(category_id, None);
}

#[test]
fn patch_omitting_category_id_leaves_it_unchanged() {
    let conn = test_db();
    conn.execute_batch(
        "
        INSERT INTO categories (id, name) VALUES (1, 'Food');
        INSERT INTO transactions (id, description, date, amount, account_id, opposing_account_id, category_id)
            VALUES ('t1', 'Old', '2024-01-01', -100, 1, 4, 1);
        ",
    )
    .unwrap();

    let response =
        route(&conn, Method::Patch, "/transactions/t1", r#"{"description": "New"}"#);
    assert_eq!(response.status, 200);

    let category_id: Option<i64> = conn
        .query_row("SELECT category_id FROM transactions WHERE id = 't1'", [], |r| r.get(0))
        .unwrap();
    assert_eq!(category_id, Some(1), "omitting category_id must not clear it");
}

#[test]
fn patch_value_containing_immutable_field_name_is_not_rejected() {
    let conn = test_db();
    conn.execute(
        "INSERT INTO transactions (id, description, date, amount, account_id, opposing_account_id) VALUES ('t1', 'Old', '2024-01-01', -100, 1, 4)",
        [],
    )
    .unwrap();

    // The word "amount" appears in the *value*, not as a JSON key — must not
    // trip the immutable-field check.
    let response =
        route(&conn, Method::Patch, "/transactions/t1", r#"{"description": "amount due"}"#);
    assert_eq!(response.status, 200);
}

#[test]
fn patch_unknown_id_is_404() {
    let conn = test_db();
    let response =
        route(&conn, Method::Patch, "/transactions/nope", r#"{"description": "New"}"#);
    assert_eq!(response.status, 404);
}

#[test]
fn patch_to_an_unknown_category_is_400() {
    let conn = test_db();
    assert_eq!(route(&conn, Method::Post, "/transactions", TXN_BODY).status, 201);
    let response = route(&conn, Method::Patch, "/transactions/t1", r#"{"category_id": 12}"#);
    assert_eq!(response.status, 400);
    assert_eq!(error_message(&response), "FOREIGN KEY constraint failed");
}

#[test]
fn patch_replies_with_the_changed_row() {
    let conn = test_db();
    assert_eq!(route(&conn, Method::Post, "/transactions", TXN_BODY).status, 201);
    let body = r#"{"description": "Tea"}"#;
    let (response, asked) = converse(&conn, request(Method::Patch, "/transactions/t1", body));
    assert_eq!(response.status, 200);
    assert_eq!(asked.len(), 2);
    match response.body {
        Body::Transaction(row) => {
            assert_eq!(row.id, "t1");
            assert_eq!(row.description, "Tea");
            assert_eq!(row.opposing_amount, None);
        }
        other => panic!("unexpected body: {other:?}"),
    }
}

#[test]
fn patch_naming_opposing_amount_is_400() {
    let conn = test_db();
    conn.execute(
        "INSERT INTO transactions (id, description, date, amount, opposing_amount, account_id, opposing_account_id) VALUES ('t1', 'Old', '2024-01-01', -100, 7, 1, 3)",
        [],
    )
    .unwrap();
    let body = r#"{"opposing_amount": 5}"#;
    let (response, asked) = converse(&conn, request(Method::Patch, "/transactions/t1", body));
    assert_eq!(response.status, 400);
    assert_eq!(error_message(&response), "only description and category_id may be updated");
    assert!(asked.is_empty());
    let opposing_amount: i64 =
        conn.query_row("SELECT opposing_amount FROM transactions", [], |r| r.get(0)).unwrap();
    assert_eq!(opposing_amount, 7);
}

#[test]
fn delete_transaction_returns_204() {
    let conn = test_db();
    conn.execute(
        "INSERT INTO transactions (id, description, date, amount, account_id, opposing_account_id) VALUES ('t1', 'x', '2024-01-01', -100, 1, 4)",
        [],
    )
    .unwrap();

    let response = route(&conn, Method::Delete, "/transactions/t1", "");
    assert_eq!(response.status, 204);

    assert_eq!(count(&conn, "transactions"), 0);
}

#[test]
fn delete_unknown_transaction_is_404() {
    let conn = test_db();
    let response = route(&conn, Method::Delete, "/transactions/nope", "");
    assert_eq!(response.status, 404);
}

#[test]
fn a_deleted_id_may_come_again() {
    let conn = test_db();
    assert_eq!(route(&conn, Method::Post, "/transactions", TXN_BODY).status, 201);
    assert_eq!(route(&conn, Method::Delete, "/transactions/t1", "").status, 204);
    assert_eq!(route(&conn, Method::Post, "/transactions", TXN_BODY).status, 201);
}

#[test]
fn every_statement_is_accepted_by_sqlite() {
    let conn = test_db();
    let row = CreateTransactionRequest {
        id: "t1".to_string(),
        batch_id: None,
        description: "x".to_string(),
        date: "2024-01-01".to_string(),
        amount: 1,
        opposing_amount: None,
        account_id: 1,
        opposing_account_id: 4,
        category_id: None,
    };
    let statements = vec![
        Statement::InsertCurrency { code: "EUR".to_string(), minor_unit: 2 },
        Statement::ListCurrencies,
        Statement::InsertCategory { name: "Food".to_string() },
        Statement::ListCategories,
        Statement::DeleteCategory { id: 1 },
        Statement::InsertAccount {
            name: "Shop".to_string(),
            account_type: "external".to_string(),
            currency_id: None,
        },
        Statement::ListAccounts,
        Statement::DeleteAccount { id: 5 },
        Statement::LookupAccount { id: 1 },
        Statement::InsertTransaction { row },
        Statement::ListTransactions,
        Statement::SelectTransaction { id: "t1".to_string() },
        Statement::UpdateTransaction {
            id: "t1".to_string(),
            description: None,
            category_given: false,
            category_id: None,
        },
        Statement::DeleteTransaction { id: "t1".to_string() },
        Statement::Begin,
        Statement::Commit,
        Statement::Begin,
        Statement::Rollback,
    ];
    for statement in statements {
        assert!(perform(&conn, &statement).is_ok(), "{statement:?}");
    }
}

// The tables through whole requests.

/// Every row of every table, as text.
fn dump(conn: &Connection) -> Vec<String> {
    let mut lines = Vec::new();
    for table in ["currencies", "accounts", "categories", "transactions"] {
        let mut prepared = conn.prepare(&format!("SELECT * FROM {table} ORDER BY id")).unwrap();
        let width = prepared.column_count();
        let mut rows = prepared.query([]).unwrap();
        while let Some(row) = rows.next().unwrap() {
            let cells: Vec<Cell> = (0..width).map(|i| cell(row.get_ref(i).unwrap())).collect();
            lines.push(format!("{table} {cells:?}"));
        }
    }
    lines
}

/// The same, without the times that the table adds.
fn dump_without_times(conn: &Connection) -> Vec<String> {
    conn.execute_batch("UPDATE transactions SET created_at = '', updated_at = ''").unwrap();
    dump(conn)
}

#[test]
fn a_refused_request_leaves_every_row_as_it_was() {
    let conn = test_db();
    conn.execute("INSERT INTO categories (id, name) VALUES (1, 'Food')", []).unwrap();
    assert_eq!(route(&conn, Method::Post, "/transactions", TXN_BODY).status, 201);
    let before = dump(&conn);
    let other = TXN_BODY.replace("t1", "t2");
    let requests = [
        (Method::Post, "/currencies", r#"{"code": "SEK", "minor_unit": 2}"#.to_string(), 409),
        (Method::Post, "/currencies", r#"{"code": "XXX", "minor_unit": -1}"#.to_string(), 400),
        (Method::Post, "/currencies", r#"{"code": "XXX"}"#.to_string(), 400),
        (Method::Post, "/categories", r#"{"name": "Food"}"#.to_string(), 409),
        (Method::Post, "/accounts", r#"{"name": "External", "type": "external"}"#.to_string(), 409),
        (Method::Post, "/accounts", r#"{"name": "X", "type": "other"}"#.to_string(), 400),
        (Method::Delete, "/accounts/1", String::new(), 400),
        (Method::Delete, "/accounts/4", String::new(), 400),
        (Method::Delete, "/accounts/99", String::new(), 404),
        (Method::Delete, "/categories/99", String::new(), 404),
        (Method::Delete, "/transactions/nope", String::new(), 404),
        (Method::Post, "/transactions", TXN_BODY.to_string(), 409),
        (Method::Post, "/transactions", other.replace("-500", "0"), 400),
        (Method::Post, "/transactions", other.replace("2024-01-01", "yesterday"), 400),
        (Method::Patch, "/transactions/t1", r#"{"category_id": 99, "description": "x"}"#.to_string(), 400),
        (Method::Patch, "/transactions/t1", r#"{"description": "x", "date": "2024-01-01"}"#.to_string(), 400),
        (
            Method::Post,
            "/transactions/batch",
            format!(r#"{{"batch_id": "b", "transactions": [{other}, {other}]}}"#),
            409,
        ),
    ];
    for (method, path, body, status) in requests {
        let response = route(&conn, method, path, &body);
        assert_eq!(response.status, status, "{path} {body}");
        assert_eq!(dump(&conn), before, "{path} {body}");
    }
}

#[test]
fn a_batch_does_what_its_transactions_do_one_by_one() {
    let item = |id: &str, date: &str, account: i64, amount: i64| -> String {
        format!(
            r#"{{"id": "{id}", "batch_id": "b1", "description": "x", "date": "{date}", "amount": {amount}, "account_id": {account}, "opposing_account_id": 2}}"#
        )
    };
    let good = item("a", "2024-01-01", 1, 5);
    let better = item("b", "2024-01-02T10:00:00Z", 1, 7);
    let batches = [
        vec![],
        vec![good.clone()],
        vec![good.clone(), better.clone()],
        vec![good.clone(), good.clone(), better.clone()],
        vec![good.clone(), item("c", "2024-02-30", 1, 7), better.clone()],
        vec![good.clone(), item("c", "2024-01-01", 4, 7)],
        vec![item("c", "2024-01-01", 99, 7), good.clone()],
        vec![good.clone(), item("c", "2024-01-01", 2, 7)],
        vec![good.clone(), item("c", "2024-01-01", 3, 7)],
        vec![better.clone(), item("c", "2024-01-01", 1, 0)],
    ];
    for items in batches {
        let whole = test_db();
        let start = dump(&whole);
        let body = format!(r#"{{"batch_id": "b1", "transactions": [{}]}}"#, items.join(", "));
        let answer = route(&whole, Method::Post, "/transactions/batch", &body);

        let singly = test_db();
        let mut failed = None;
        for item in &items {
            let response = route(&singly, Method::Post, "/transactions", item);
            if response.status != 201 {
                failed = Some(response);
                break;
            }
        }
        match failed {
            None => {
                assert_eq!(answer.status, 201, "{body}");
                assert_eq!(dump_without_times(&whole), dump_without_times(&singly), "{body}");
            }
            Some(response) => {
                assert_eq!(answer.status, response.status, "{body}");
                assert_eq!(response_body(&answer), response_body(&response), "{body}");
                assert_eq!(dump(&whole), start, "{body}");
            }
        }
    }
}

#[test]
fn two_transactions_of_a_batch_with_one_id_are_409() {
    let conn = test_db();
    let body = format!(r#"{{"batch_id": "b1", "transactions": [{TXN_BODY}, {TXN_BODY}]}}"#);
    let response = route(&conn, Method::Post, "/transactions/batch", &body);
    assert_eq!(response.status, 409);
    assert_eq!(count(&conn, "transactions"), 0);
}

#[test]
fn a_kept_batch_adds_exactly_its_transactions() {
    let conn = test_db();
    assert_eq!(route(&conn, Method::Post, "/transactions", TXN_BODY).status, 201);
    let before = dump(&conn);
    let body = format!(
        r#"{{"batch_id": "b1", "transactions": [{}, {}]}}"#,
        TXN_BODY.replace("t1", "t3"),
        TXN_BODY.replace("t1", "t2"),
    );
    let response = route(&conn, Method::Post, "/transactions/batch", &body);
    assert_eq!(response.status, 201);
    let after = dump(&conn);
    assert_eq!(after.len(), before.len() + 2);
    assert!(before.iter().all(|line| after.contains(line)));
    assert!(after.iter().any(|line| line.starts_with("transactions [Text(\"t2\"), Text(\"b1\")")));
    assert!(after.iter().any(|line| line.starts_with("transactions [Text(\"t3\"), Text(\"b1\")")));
}

#[test]
fn an_older_row_that_the_table_lets_pass_is_migrated() {
    let conn = Connection::open_in_memory().unwrap();
    conn.execute_batch(schema::ENABLE_FOREIGN_KEYS).unwrap();
    conn.execute_batch(OLD_TABLES).unwrap();
    insert_dated(&conn, "2024-01-01T12:00:00").unwrap();
    let before = dump(&conn);
    migrate(&conn);
    assert_eq!(dump(&conn), before);
    assert!(insert_dated(&conn, "not-a-date").is_err());
    assert_eq!(dump(&conn), before);
}

#[test]
fn a_second_deletion_finds_nothing() {
    let conn = test_db();
    assert_eq!(route(&conn, Method::Post, "/transactions", TXN_BODY).status, 201);
    assert_eq!(route(&conn, Method::Delete, "/transactions/t1", "").status, 204);
    let before = dump(&conn);
    assert_eq!(route(&conn, Method::Delete, "/transactions/t1", "").status, 404);
    assert_eq!(dump(&conn), before);
}

#[test]
fn a_list_gains_the_new_currency_and_nothing_else() {
    let conn = test_db();
    let listed = |conn: &Connection| -> Vec<CurrencyResponse> {
        match route(conn, Method::Get, "/currencies", "").body {
            Body::Currencies(rows) => rows,
            other => panic!("unexpected body: {other:?}"),
        }
    };
    let mut before = listed(&conn);
    let response = route(&conn, Method::Post, "/currencies", r#"{"code": "EUR", "minor_unit": 2}"#);
    match response.body {
        Body::Currency(row) => {
            assert!(before.iter().all(|old| old.id != row.id));
            before.push(row);
        }
        other => panic!("unexpected body: {other:?}"),
    }
    let mut after = listed(&conn);
    before.sort_by_key(|row| row.id);
    after.sort_by_key(|row| row.id);
    assert_eq!(after, before);
}

#[test]
fn deleting_a_category_touches_only_its_transactions() {
    let conn = test_db();
    conn.execute_batch(
        "
        INSERT INTO categories (id, name) VALUES (1, 'Food'), (2, 'Rent');
        INSERT INTO transactions (id, description, date, amount, account_id, opposing_account_id, category_id) VALUES
            ('a', 'x', '2024-01-01', -100, 1, 4, 1),
            ('b', 'x', '2024-01-01', -100, 1, 4, 2),
            ('c', 'x', '2024-01-01', -100, 1, 4, NULL);
        ",
    )
    .unwrap();
    let before = dump(&conn);
    assert_eq!(route(&conn, Method::Delete, "/categories/1", "").status, 204);
    let after = dump(&conn);
    let expected: Vec<String> = before
        .iter()
        .filter(|line| !line.starts_with("categories [Integer(1)"))
        .map(|line| match line.starts_with("transactions [Text(\"a\")") {
            true => line.replace("Integer(4), Integer(1)", "Integer(4), Null"),
            false => line.clone(),
        })
        .collect();
    assert_eq!(after, expected);
}

#[test]
fn a_change_touches_only_what_it_names() {
    let conn = test_db();
    conn.execute("INSERT INTO categories (id, name) VALUES (1, 'Food')", []).unwrap();
    assert_eq!(route(&conn, Method::Post, "/transactions", TXN_BODY).status, 201);
    assert_eq!(route(&conn, Method::Post, "/transactions", &TXN_BODY.replace("t1", "t2")).status, 201);
    let before = dump_without_times(&conn);
    let body = r#"{"description": "Tea", "category_id": 1}"#;
    assert_eq!(route(&conn, Method::Patch, "/transactions/t1", body).status, 200);
    let after = dump_without_times(&conn);
    let expected: Vec<String> = before
        .iter()
        .map(|line| match line.starts_with("transactions [Text(\"t1\")") {
            true => line
                .replace("Coffee", "Tea")
                .replace("Integer(4), Null", "Integer(4), Integer(1)"),
            false => line.clone(),
        })
        .collect();
    assert_eq!(after, expected);
}

#[test]
fn migrating_an_older_file_again_changes_nothing() {
    let conn = migrated_db();
    let before = dump(&conn);
    migrate(&conn);
    assert_eq!(dump(&conn), before);
}
