//! The rules by themselves, on chosen values.

use pennywise::config::{ArgumentError, Config};
use pennywise::dates::is_rfc3339;
use pennywise::db::{Answer, Cell, DbError, ErrorCode, SqliteFailure};
use pennywise::dispatch::{payload_kind, request_of, Payload, PayloadKind};
use pennywise::json::JsonMember;
use pennywise::protocol::{begin, resume, Pending, Request, Step};
use pennywise::records::{
    AccountFacts, CategoryResponse, CreateCategoryRequest, CreateTransactionRequest,
    CreateTransactionsBatchRequest, CurrencyResponse, TransactionResponse,
};
use pennywise::reply::{error_response, map_db_error, not_found, Body, Reply};
use pennywise::routing::{path_of, path_segments, route, Method, Route};
use pennywise::schema;
use pennywise::statements::Statement;
use pennywise::text::{parse_id, push_decimal};
use pennywise::transactions::change_transaction;
use pennywise::validation::{
    validate_account, validate_date, validate_transaction, TransactionFault,
};

// Text.

#[test]
fn an_id_is_an_optional_sign_and_digits() {
    assert_eq!(parse_id("12"), Some(12));
    assert_eq!(parse_id("+12"), Some(12));
    assert_eq!(parse_id("-12"), Some(-12));
    assert_eq!(parse_id("007"), Some(7));
    assert_eq!(parse_id("-0"), Some(0));
    assert_eq!(parse_id("9223372036854775807"), Some(i64::MAX));
    assert_eq!(parse_id("-9223372036854775808"), Some(i64::MIN));
}

#[test]
fn what_is_no_id_is_none() {
    for text in [
        "", "+", "-", "--1", "+-1", "1 ", " 1", "1.0", "1e3", "0x1", "abc", "1_000", "\u{661}",
        "9223372036854775808", "-9223372036854775809", "99999999999999999999999999",
    ] {
        assert_eq!(parse_id(text), None, "{text:?}");
        assert!(text.parse::<i64>().is_err(), "{text:?}");
    }
}

#[test]
fn an_id_that_is_written_out_reads_back() {
    for id in [0, 7, -7, 10, 1000, -1000, i64::MAX, i64::MIN, i64::MIN + 1] {
        let mut text = String::from("id ");
        push_decimal(&mut text, id);
        assert_eq!(text, format!("id {id}"));
        assert_eq!(parse_id(&text[3..]), Some(id));
    }
}

// Routing.

#[test]
fn the_path_of_a_url_ends_at_the_query() {
    assert_eq!(path_of("/accounts?limit=1?x"), "/accounts");
    assert_eq!(path_of("/accounts"), "/accounts");
    assert_eq!(path_of("?"), "");
    assert_eq!(path_of(""), "");
}

#[test]
fn slashes_only_separate() {
    assert_eq!(path_segments("/accounts/4"), vec!["accounts", "4"]);
    assert_eq!(path_segments("//accounts///4//"), vec!["accounts", "4"]);
    assert_eq!(path_segments("accounts"), vec!["accounts"]);
    assert!(path_segments("/").is_empty());
    assert!(path_segments("").is_empty());
}

#[test]
fn every_route_is_reached() {
    let table = [
        (Method::Post, "/currencies", Route::CreateCurrency, ""),
        (Method::Get, "/currencies", Route::ListCurrencies, ""),
        (Method::Post, "/accounts", Route::CreateAccount, ""),
        (Method::Get, "/accounts", Route::ListAccounts, ""),
        (Method::Delete, "/accounts/4", Route::DeleteAccount, "4"),
        (Method::Post, "/categories", Route::CreateCategory, ""),
        (Method::Get, "/categories", Route::ListCategories, ""),
        (Method::Delete, "/categories/x", Route::DeleteCategory, "x"),
        (Method::Post, "/transactions/batch", Route::CreateTransactionsBatch, ""),
        (Method::Post, "/transactions", Route::CreateTransaction, ""),
        (Method::Get, "/transactions", Route::ListTransactions, ""),
        (Method::Patch, "/transactions/batch", Route::PatchTransaction, "batch"),
        (Method::Delete, "/transactions/t1", Route::DeleteTransaction, "t1"),
        (Method::Get, "//transactions/", Route::ListTransactions, ""),
    ];
    for (method, path, expected, id) in table {
        let target = route(method, path);
        assert_eq!(target.route, expected, "{path}");
        assert_eq!(target.id, id, "{path}");
    }
}

#[test]
fn nothing_else_is_a_route() {
    let table = [
        (Method::Get, "/"),
        (Method::Get, "/nope"),
        (Method::Get, "/Accounts"),
        (Method::Get, "/accounts/4"),
        (Method::Post, "/accounts/4"),
        (Method::Patch, "/accounts/4"),
        (Method::Delete, "/accounts"),
        (Method::Delete, "/currencies/1"),
        (Method::Get, "/transactions/t1"),
        (Method::Post, "/transactions/other"),
        (Method::Delete, "/transactions/t1/x"),
        (Method::Other, "/transactions"),
    ];
    for (method, path) in table {
        assert_eq!(route(method, path).route, Route::NotFound, "{method:?} {path}");
    }
}

#[test]
fn a_payload_must_be_of_the_kind_that_is_asked_for() {
    let target = route(Method::Patch, "/transactions/t1");
    assert_eq!(payload_kind(target.route), PayloadKind::Text);
    match request_of(target, Payload::Text("{}".to_string())) {
        Some(Request::PatchTransaction { id, body }) => {
            assert_eq!(id, "t1");
            assert_eq!(body, "{}");
        }
        other => panic!("unexpected request: {other:?}"),
    }
    assert!(request_of(route(Method::Patch, "/transactions/t1"), Payload::Nothing).is_none());
    assert!(request_of(route(Method::Get, "/accounts"), Payload::Account(None)).is_none());
    assert!(request_of(route(Method::Post, "/accounts"), Payload::Category(None)).is_none());
    assert!(matches!(
        request_of(route(Method::Post, "//accounts/"), Payload::Account(None)),
        Some(Request::CreateAccount(None))
    ));
    assert!(matches!(
        request_of(route(Method::Delete, "/accounts/7"), Payload::Nothing),
        Some(Request::DeleteAccount { id }) if id == "7"
    ));
    assert!(matches!(
        request_of(route(Method::Get, "/nope"), Payload::Nothing),
        Some(Request::NotFound)
    ));
    assert_eq!(payload_kind(Route::CreateTransactionsBatch), PayloadKind::Transactions);
    assert_eq!(payload_kind(Route::DeleteCategory), PayloadKind::Nothing);
}

// The command line.

fn arguments(list: &[&str]) -> Vec<String> {
    list.iter().map(|argument| argument.to_string()).collect()
}

#[test]
fn without_arguments_the_defaults_hold() {
    let config = Config::from_args(&arguments(&[])).unwrap();
    assert_eq!(config.bind, "127.0.0.1:8080");
    assert_eq!(config.db, "./pennywise.db");
}

#[test]
fn the_last_flag_wins() {
    let config = Config::from_args(&arguments(&[
        "--db", "a.db", "--bind", "0.0.0.0:1", "--db", "--bind",
    ]))
    .unwrap();
    assert_eq!(config.bind, "0.0.0.0:1");
    assert_eq!(config.db, "--bind");
}

#[test]
fn a_flag_without_a_value_is_an_error() {
    let error = Config::from_args(&arguments(&["--bind", "x", "--db"])).unwrap_err();
    assert!(matches!(&error, ArgumentError::MissingValue(flag) if flag == "--db"));
    assert_eq!(error.message(), "--db requires a value");
}

#[test]
fn an_unknown_argument_is_an_error() {
    let error = Config::from_args(&arguments(&["--port", "80"])).unwrap_err();
    assert!(matches!(&error, ArgumentError::Unknown(argument) if argument == "--port"));
    assert_eq!(error.message(), "unknown argument: --port");
}

// Versions of the tables.

#[test]
fn each_known_version_has_its_steps() {
    let sql = |version: i64| -> Vec<&'static str> {
        schema::migrate(version).unwrap().iter().map(|step| step.sql()).collect()
    };
    assert_eq!(sql(0), vec![schema::SCHEMA, schema::SET_VERSION]);
    assert_eq!(
        sql(1),
        vec![schema::REBUILD_TRANSACTIONS, schema::ADD_ACCOUNTS_INDEX, schema::SET_VERSION]
    );
    assert!(sql(2).is_empty());
    let failures: Vec<&str> =
        schema::migrate(1).unwrap().iter().map(|step| step.failure()).collect();
    assert_eq!(
        failures,
        vec![
            "failed to rebuild transactions",
            "failed to add accounts_name_type index",
            "failed to set user_version",
        ]
    );
    assert_eq!(schema::migrate(0).unwrap()[0].failure(), "failed to apply schema");
    assert_eq!(schema::migrate(3).unwrap_err(), 3);
    assert_eq!(schema::migrate(-1).unwrap_err(), -1);
}

// Transactions and their accounts.

fn own(currency_id: i64) -> Option<AccountFacts> {
    Some(AccountFacts { account_type: "own".to_string(), currency_id: Some(currency_id) })
}

fn external() -> Option<AccountFacts> {
    Some(AccountFacts { account_type: "external".to_string(), currency_id: None })
}

#[test]
fn each_fault_comes_with_its_words() {
    let table = [
        (
            validate_transaction(8, &None, 9, &None, None),
            TransactionFault::UnknownAccount(8),
            "account 8 does not exist",
        ),
        (
            validate_transaction(-8, &external(), 9, &None, None),
            TransactionFault::NotOwn(-8),
            "account -8 must be of type 'own'",
        ),
        (
            validate_transaction(8, &own(1), 9, &None, None),
            TransactionFault::UnknownAccount(9),
            "account 9 does not exist",
        ),
        (
            validate_transaction(8, &own(1), 9, &own(2), None),
            TransactionFault::OpposingAmountRequired,
            "opposing_amount is required when both accounts are 'own' with differing currencies",
        ),
        (
            validate_transaction(8, &own(1), 9, &external(), Some(5)),
            TransactionFault::OpposingAmountNotAllowed,
            "opposing_amount must be NULL unless both accounts are 'own' with differing currencies",
        ),
        (
            validate_transaction(8, &own(1), 8, &own(1), None),
            TransactionFault::SameAccount,
            "account_id and opposing_account_id must differ",
        ),
    ];
    for (checked, fault, message) in table {
        assert_eq!(checked, Err(fault));
        assert_eq!(fault.message(), message);
    }
    assert_eq!(validate_transaction(8, &own(1), 9, &own(2), Some(5)), Ok(()));
    assert_eq!(validate_transaction(8, &own(1), 9, &own(1), None), Ok(()));
    assert_eq!(validate_transaction(8, &own(1), 9, &external(), None), Ok(()));
    assert_eq!(validate_account(8, &own(1)), Ok(()));
    assert_eq!(validate_account(8, &external()), Err(TransactionFault::NotOwn(8)));
    assert_eq!(validate_account(8, &None), Err(TransactionFault::UnknownAccount(8)));
}

// Dates.

const DATES: [&str; 16] = [
    "2024-01-01",
    "2024-02-29",
    "2000-02-29",
    "2023-12-31",
    "0000-01-01",
    "9999-12-31",
    "2024-01-01T00:00:00Z",
    "2024-01-01T23:59:59Z",
    "2024-01-01T12:30:00+02:00",
    "2024-01-01T12:30:00-23:59",
    "2024-01-01T12:30:00.5Z",
    "2024-01-01T12:30:00.123456789+00:00",
    "2024-02-29T12:30:00.0-08:00",
    "2024-01-01T12:30:00+00:00",
    "2024-01-01T00:00:00z",
    "2024-01-01T12:30:00.25z",
];

const NO_DATES: [&str; 41] = [
    "",
    "not-a-date",
    "2024-1-01",
    "2024-01-1",
    "24-01-01",
    "2024/01/01",
    "2024-13-01",
    "2024-00-01",
    "2024-01-00",
    "2024-01-32",
    "2024-04-31",
    "2023-02-29",
    "1900-02-29",
    "2024-01-01 ",
    " 2024-01-01",
    "2024-01-01T",
    "2024-01-01Z",
    "2024-01-01 12:30:00Z",
    "2024-01-01t12:30:00Z",
    "2024-01-01T12:30Z",
    "2024-01-01T12:30:00",
    "2024-01-01T24:00:00Z",
    "2024-01-01T25:00:00Z",
    "2024-01-01T12:60:00Z",
    "2024-01-01T12:30:60Z",
    "2024-01-01T1:30:00Z",
    "2024-01-01T12:30:00.Z",
    "2024-01-01T12:30:00,5Z",
    "2024-01-01T12:30:00.5xZ",
    "2024-01-01T12:30:00+0200",
    "2024-01-01T12:30:00+24:00",
    "2024-01-01T12:30:00+02:60",
    "2024-01-01T12:30:00Z02:00",
    "2024-01-01T12:30:00+02:00Z",
    "+024-01-01",
    "2024-01-01T12:30:00ZZ",
    "2024-01-01T12:30:00Zz",
    "2024-01-01z",
    "2024-01-01T12:30:00.z",
    "2024-01-01T12:30:00+02:00z",
    "\u{662}024-01-01",
];

#[test]
fn dates_are_told_from_what_is_none() {
    for date in DATES {
        assert!(is_rfc3339(date), "{date}");
        assert_eq!(validate_date(date), Ok(()));
    }
    for text in NO_DATES {
        assert!(!is_rfc3339(text), "{text}");
        assert_eq!(validate_date(text), Err(TransactionFault::MalformedDate));
    }
    assert_eq!(
        TransactionFault::MalformedDate.message(),
        "date must be a calendar date (YYYY-MM-DD) or an RFC 3339 timestamp"
    );
}

// Failures and replies.

fn failure(code: ErrorCode, extended_code: i32, message: Option<&str>) -> DbError {
    DbError {
        failure: Some(SqliteFailure {
            code,
            extended_code,
            message: message.map(String::from),
        }),
        text: "the whole error".to_string(),
    }
}

#[test]
fn each_failure_has_its_status_and_words() {
    let duplicate = (409, "duplicate id".to_string());
    assert_eq!(map_db_error(&failure(ErrorCode::ConstraintViolation, 1555, Some("x"))), duplicate);
    assert_eq!(map_db_error(&failure(ErrorCode::ConstraintViolation, 2067, None)), duplicate);
    assert_eq!(
        map_db_error(&failure(ErrorCode::ConstraintViolation, 787, Some("no such row"))),
        (400, "no such row".to_string())
    );
    assert_eq!(
        map_db_error(&failure(ErrorCode::ConstraintViolation, 787, None)),
        (400, "constraint violation".to_string())
    );
    assert_eq!(
        map_db_error(&failure(ErrorCode::Other, 5, Some("busy"))),
        (400, "the whole error".to_string())
    );
    let other = DbError { failure: None, text: "Query returned no rows".to_string() };
    assert_eq!(map_db_error(&other), (400, "Query returned no rows".to_string()));
}

fn error_text(reply: &Reply) -> &str {
    match &reply.body {
        Body::Error(text) => text,
        other => panic!("unexpected body: {other:?}"),
    }
}

#[test]
fn the_envelope_escapes_what_json_must_escape() {
    let reply = error_response(400, "a\"b\\c/\u{8}\u{c}\n\r\t\u{0}\u{1f}\u{7f}\u{f6}\u{1f600}");
    assert_eq!(reply.status, 400);
    assert!(reply.is_json());
    assert_eq!(
        error_text(&reply),
        "{\"error\":\"a\\\"b\\\\c/\\b\\f\\n\\r\\t\\u0000\\u001f\u{7f}\u{f6}\u{1f600}\"}"
    );
    assert_eq!(error_text(&error_response(400, "")), r#"{"error":""}"#);
}

#[test]
fn not_found_says_so() {
    let reply = not_found();
    assert_eq!(reply.status, 404);
    assert_eq!(error_text(&reply), r#"{"error":"not found"}"#);
}

// Conversations.

fn replied(step: Step) -> Reply {
    match step {
        Step::Reply(reply) => reply,
        other => panic!("unexpected step: {other:?}"),
    }
}

fn asked(step: Step) -> (Statement, Pending) {
    match step {
        Step::Ask { statement, pending } => (statement, pending),
        other => panic!("unexpected step: {other:?}"),
    }
}

fn aborted(step: Step) -> String {
    match step {
        Step::Abort { message, error } => format!("{message}: {}", error.text),
        other => panic!("unexpected step: {other:?}"),
    }
}

fn text(value: &str) -> Cell {
    Cell::Text(value.to_string())
}

fn rows(rows: Vec<Vec<Cell>>) -> Result<Answer, DbError> {
    Ok(Answer { rows, changed: 0 })
}

fn changed(changed: usize) -> Result<Answer, DbError> {
    Ok(Answer { rows: Vec::new(), changed })
}

fn busy() -> Result<Answer, DbError> {
    Err(DbError { failure: None, text: "database is locked".to_string() })
}

#[test]
fn an_unreadable_body_is_turned_down_at_once() {
    let table = [
        (Request::CreateCurrency(None), r#"{"error":"expected {code, minor_unit}"}"#),
        (Request::CreateAccount(None), r#"{"error":"expected {name, type}"}"#),
        (Request::CreateCategory(None), r#"{"error":"expected {name}"}"#),
        (
            Request::CreateTransaction(None),
            r#"{"error":"expected {id, description, date, amount, account_id, opposing_account_id}"}"#,
        ),
        (
            Request::CreateTransactionsBatch(None),
            r#"{"error":"expected {batch_id, transactions: [...]}"}"#,
        ),
    ];
    for (request, expected) in table {
        let reply = replied(begin(request));
        assert_eq!(reply.status, 400);
        assert_eq!(error_text(&reply), expected);
    }
}

#[test]
fn a_malformed_id_names_nothing() {
    for id in ["x", "", "1.5", "9223372036854775808"] {
        let account = replied(begin(Request::DeleteAccount { id: id.to_string() }));
        assert_eq!(account.status, 404);
        let category = replied(begin(Request::DeleteCategory { id: id.to_string() }));
        assert_eq!(category.status, 404);
    }
    let (statement, _) = asked(begin(Request::DeleteAccount { id: "+4".to_string() }));
    assert!(matches!(statement, Statement::DeleteAccount { id: 4 }));
    let (statement, _) = asked(begin(Request::DeleteTransaction { id: "x".to_string() }));
    assert!(matches!(statement, Statement::DeleteTransaction { id } if id == "x"));
}

#[test]
fn lists_only_read() {
    for request in [
        Request::ListCurrencies,
        Request::ListCategories,
        Request::ListAccounts,
        Request::ListTransactions,
    ] {
        let (statement, pending) = asked(begin(request));
        assert!(statement.sql().starts_with("SELECT "));
        assert_eq!(replied(resume(pending, rows(vec![]))).status, 200);
    }
}

#[test]
fn a_failing_list_stops_the_program() {
    let table = [
        (Request::ListCurrencies, "query currencies"),
        (Request::ListCategories, "query categories"),
        (Request::ListAccounts, "failed to query accounts"),
        (Request::ListTransactions, "query transactions"),
    ];
    for (request, message) in table {
        let (_, pending) = asked(begin(request));
        assert_eq!(aborted(resume(pending, busy())), format!("{message}: database is locked"));
    }
}

#[test]
fn an_unreadable_row_stops_the_program() {
    let table = [
        (Request::ListCurrencies, "read currency row"),
        (Request::ListCategories, "read category row"),
        (Request::ListAccounts, "failed to read account row"),
        (Request::ListTransactions, "read transaction row"),
    ];
    for (request, message) in table {
        let (_, pending) = asked(begin(request));
        let outcome = rows(vec![vec![Cell::Real]]);
        assert_eq!(
            aborted(resume(pending, outcome)),
            format!("{message}: Invalid column type Real at index: 0, name: id")
        );
    }
}

#[test]
fn an_unreadable_column_is_named() {
    let (_, pending) = asked(begin(Request::ListCurrencies));
    let outcome = rows(vec![
        vec![Cell::Integer(1), text("SEK"), Cell::Integer(2)],
        vec![Cell::Integer(2), text("USD"), Cell::Null],
    ]);
    assert_eq!(
        aborted(resume(pending, outcome)),
        "read currency row: Invalid column type Null at index: 2, name: minor_unit"
    );
    let (_, pending) = asked(begin(Request::ListCategories));
    assert_eq!(
        aborted(resume(pending, rows(vec![vec![Cell::Integer(1)]]))),
        "read category row: Invalid column index: 1"
    );
}

#[test]
fn a_list_keeps_the_order_of_its_rows() {
    let (statement, pending) = asked(begin(Request::ListCurrencies));
    assert_eq!(statement.sql(), "SELECT id, code, minor_unit FROM currencies");
    let outcome = rows(vec![
        vec![Cell::Integer(2), text("USD"), Cell::Integer(2)],
        vec![Cell::Integer(1), text("JPY"), Cell::Integer(0)],
    ]);
    let reply = replied(resume(pending, outcome));
    assert_eq!(reply.status, 200);
    match reply.body {
        Body::Currencies(list) => assert_eq!(
            list,
            vec![
                CurrencyResponse { id: 2, code: "USD".to_string(), minor_unit: 2 },
                CurrencyResponse { id: 1, code: "JPY".to_string(), minor_unit: 0 },
            ]
        ),
        other => panic!("unexpected body: {other:?}"),
    }
}

#[test]
fn a_category_is_stored_as_it_was_sent() {
    let request = Request::CreateCategory(Some(CreateCategoryRequest { name: "Food".to_string() }));
    let (statement, pending) = asked(begin(request));
    assert_eq!(statement.parameters(), vec![text("Food")]);
    let mut row = vec![Cell::Integer(3)];
    row.extend(statement.parameters());
    let reply = replied(resume(pending, rows(vec![row])));
    assert_eq!(reply.status, 201);
    match reply.body {
        Body::Category(row) => {
            assert_eq!(row, CategoryResponse { id: 3, name: "Food".to_string() })
        }
        other => panic!("unexpected body: {other:?}"),
    }
}

#[test]
fn an_insertion_without_a_row_is_400() {
    let request = Request::CreateCategory(Some(CreateCategoryRequest { name: "Food".to_string() }));
    let (_, pending) = asked(begin(request));
    let reply = replied(resume(pending, rows(vec![])));
    assert_eq!(reply.status, 400);
    assert_eq!(error_text(&reply), r#"{"error":"Query returned no rows"}"#);
}

#[test]
fn a_deletion_goes_by_the_rows_that_went() {
    let (_, pending) = asked(begin(Request::DeleteCategory { id: "1".to_string() }));
    assert_eq!(replied(resume(pending, changed(1))).status, 204);
    let (_, pending) = asked(begin(Request::DeleteCategory { id: "1".to_string() }));
    assert_eq!(replied(resume(pending, changed(0))).status, 404);
    let (_, pending) = asked(begin(Request::DeleteCategory { id: "1".to_string() }));
    assert_eq!(aborted(resume(pending, busy())), "delete category: database is locked");
    let (_, pending) = asked(begin(Request::DeleteAccount { id: "1".to_string() }));
    let reply = replied(resume(pending, busy()));
    assert_eq!(reply.status, 400);
    assert_eq!(error_text(&reply), r#"{"error":"database is locked"}"#);
    let (_, pending) = asked(begin(Request::DeleteTransaction { id: "t".to_string() }));
    assert_eq!(replied(resume(pending, changed(0))).status, 404);
}

fn transaction(id: &str) -> CreateTransactionRequest {
    CreateTransactionRequest {
        id: id.to_string(),
        batch_id: Some("own".to_string()),
        description: "Coffee".to_string(),
        date: "2024-01-01".to_string(),
        amount: -500,
        opposing_amount: None,
        account_id: 1,
        opposing_account_id: 4,
        category_id: Some(6),
    }
}

fn own_account() -> Result<Answer, DbError> {
    rows(vec![vec![text("own"), Cell::Integer(1)]])
}

fn external_account() -> Result<Answer, DbError> {
    rows(vec![vec![text("external"), Cell::Null]])
}

/// What a table gives back for an insertion.
fn returned(statement: &Statement) -> Result<Answer, DbError> {
    let mut row = statement.parameters();
    row.push(text("2024-01-01 10:00:00"));
    row.push(text("2024-01-01 10:00:00"));
    rows(vec![row])
}

#[test]
fn a_transaction_reads_back_as_it_was_sent() {
    let (statement, pending) = asked(begin(Request::CreateTransaction(Some(transaction("t1")))));
    assert!(matches!(statement, Statement::LookupAccount { id: 1 }));
    let (statement, pending) = asked(resume(pending, own_account()));
    assert!(matches!(statement, Statement::LookupAccount { id: 4 }));
    let (statement, pending) = asked(resume(pending, external_account()));
    assert_eq!(
        statement.parameters(),
        vec![
            text("t1"),
            text("own"),
            text("Coffee"),
            text("2024-01-01"),
            Cell::Integer(-500),
            Cell::Null,
            Cell::Integer(1),
            Cell::Integer(4),
            Cell::Integer(6),
        ]
    );
    let outcome = returned(&statement);
    let reply = replied(resume(pending, outcome));
    assert_eq!(reply.status, 201);
    match reply.body {
        Body::Transaction(row) => assert_eq!(
            row,
            TransactionResponse {
                id: "t1".to_string(),
                batch_id: Some("own".to_string()),
                description: "Coffee".to_string(),
                date: "2024-01-01".to_string(),
                amount: -500,
                opposing_amount: None,
                account_id: 1,
                opposing_account_id: 4,
                category_id: Some(6),
                created_at: "2024-01-01 10:00:00".to_string(),
                updated_at: "2024-01-01 10:00:00".to_string(),
            }
        ),
        other => panic!("unexpected body: {other:?}"),
    }
}

#[test]
fn a_lookup_that_fails_finds_no_account() {
    let (_, pending) = asked(begin(Request::CreateTransaction(Some(transaction("t1")))));
    let reply = replied(resume(pending, busy()));
    assert_eq!(reply.status, 400);
    assert_eq!(error_text(&reply), r#"{"error":"account 1 does not exist"}"#);
}

fn batch(ids: &[&str]) -> Request {
    Request::CreateTransactionsBatch(Some(CreateTransactionsBatchRequest {
        batch_id: "b1".to_string(),
        transactions: ids.iter().map(|id| transaction(id)).collect(),
    }))
}

#[test]
fn a_batch_goes_row_by_row_and_is_kept_at_the_end() {
    let (statement, mut pending) = asked(begin(batch(&["x", "y"])));
    assert!(matches!(statement, Statement::Begin));
    let mut outcome = changed(0);
    for id in ["x", "y"] {
        let (statement, next) = asked(resume(pending, outcome));
        assert!(matches!(statement, Statement::LookupAccount { id: 1 }));
        let (statement, next) = asked(resume(next, own_account()));
        assert!(matches!(statement, Statement::LookupAccount { id: 4 }));
        let (statement, next) = asked(resume(next, external_account()));
        assert_eq!(statement.parameters()[0], text(id));
        assert_eq!(statement.parameters()[1], text("b1"));
        outcome = returned(&statement);
        pending = next;
    }
    let (statement, pending) = asked(resume(pending, outcome));
    assert!(matches!(statement, Statement::Commit));
    let reply = replied(resume(pending, changed(0)));
    assert_eq!(reply.status, 201);
    match reply.body {
        Body::Transactions(list) => {
            assert_eq!(list.len(), 2);
            assert_eq!(list[0].id, "x");
            assert_eq!(list[1].id, "y");
            assert_eq!(list[1].batch_id, Some("b1".to_string()));
        }
        other => panic!("unexpected body: {other:?}"),
    }
}

#[test]
fn a_batch_is_undone_before_its_refusal_goes_out() {
    let (_, pending) = asked(begin(batch(&["x", "y"])));
    let (_, pending) = asked(resume(pending, changed(0)));
    let (statement, pending) = asked(resume(pending, rows(vec![])));
    assert!(matches!(statement, Statement::Rollback));
    let reply = replied(resume(pending, changed(0)));
    assert_eq!(reply.status, 400);
    assert_eq!(error_text(&reply), r#"{"error":"account 1 does not exist"}"#);
}

#[test]
fn a_transaction_without_a_date_is_not_looked_up() {
    let undated = || CreateTransactionRequest { date: "not-a-date".to_string(), ..transaction("y") };
    let expected =
        r#"{"error":"date must be a calendar date (YYYY-MM-DD) or an RFC 3339 timestamp"}"#;
    let reply = replied(begin(Request::CreateTransaction(Some(undated()))));
    assert_eq!(reply.status, 400);
    assert_eq!(error_text(&reply), expected);

    let request = Request::CreateTransactionsBatch(Some(CreateTransactionsBatchRequest {
        batch_id: "b1".to_string(),
        transactions: vec![undated()],
    }));
    let (statement, pending) = asked(begin(request));
    assert!(matches!(statement, Statement::Begin));
    let (statement, pending) = asked(resume(pending, changed(0)));
    assert!(matches!(statement, Statement::Rollback));
    let reply = replied(resume(pending, changed(0)));
    assert_eq!(reply.status, 400);
    assert_eq!(error_text(&reply), expected);
}

#[test]
fn a_batch_that_cannot_be_bracketed_stops_the_program() {
    let (_, pending) = asked(begin(batch(&[])));
    assert_eq!(aborted(resume(pending, busy())), "begin batch transaction: database is locked");

    let (_, pending) = asked(begin(batch(&[])));
    let (_, pending) = asked(resume(pending, changed(0)));
    assert_eq!(aborted(resume(pending, busy())), "commit batch transaction: database is locked");

    let (_, pending) = asked(begin(batch(&["x"])));
    let (_, pending) = asked(resume(pending, changed(0)));
    let (_, pending) = asked(resume(pending, rows(vec![])));
    assert_eq!(aborted(resume(pending, busy())), "rollback batch transaction: database is locked");
}

// Changing a transaction.

fn patch(body: &str) -> Step {
    begin(Request::PatchTransaction { id: "t1".to_string(), body: body.to_string() })
}

#[test]
fn a_change_hands_over_what_it_names() {
    let table = [
        (r#"{}"#, vec![Cell::Null, Cell::Integer(0), Cell::Null]),
        (r#"{"description": "New"}"#, vec![text("New"), Cell::Integer(0), Cell::Null]),
        (r#"{"description": "A", "description": "B"}"#, vec![text("B"), Cell::Integer(0), Cell::Null]),
        (r#"{"description": 7}"#, vec![Cell::Null, Cell::Integer(0), Cell::Null]),
        (r#"{"category_id": 3}"#, vec![Cell::Null, Cell::Integer(1), Cell::Integer(3)]),
        (r#"{"category_id": null}"#, vec![Cell::Null, Cell::Integer(1), Cell::Null]),
        (r#"{"category_id": "3"}"#, vec![Cell::Null, Cell::Integer(1), Cell::Null]),
        (r#"{"category_id": 3.0}"#, vec![Cell::Null, Cell::Integer(1), Cell::Null]),
        (r#"{"category_id": 9223372036854775808}"#, vec![Cell::Null, Cell::Integer(1), Cell::Null]),
        (
            r#" {"category_id": -1, "description": "ö"} "#,
            vec![text("\u{f6}"), Cell::Integer(1), Cell::Integer(-1)],
        ),
    ];
    for (body, mut expected) in table {
        let (statement, _) = asked(patch(body));
        expected.push(text("t1"));
        assert_eq!(statement.parameters(), expected, "{body}");
    }
}

#[test]
fn a_change_must_be_an_object() {
    for body in ["", "nonsense", "[]", "null", "7", "\"text\"", "{", "{} {}"] {
        let reply = replied(patch(body));
        assert_eq!(reply.status, 400, "{body}");
        assert_eq!(error_text(&reply), r#"{"error":"invalid JSON body"}"#, "{body}");
    }
}

#[test]
fn each_immutable_field_is_turned_down() {
    for field in [
        "amount",
        "date",
        "account_id",
        "opposing_account_id",
        "batch_id",
        "id",
        "opposing_amount",
        "created_at",
        "updated_at",
        "unknown",
        "Description",
        "category_id ",
        "",
    ] {
        let reply = replied(patch(&format!("{{\"description\": \"New\", \"{field}\": null}}")));
        assert_eq!(reply.status, 400, "{field}");
        assert_eq!(
            error_text(&reply),
            r#"{"error":"only description and category_id may be updated"}"#
        );
    }
    asked(patch(r#"{"category_id": 1, "description": "amount"}"#));
}

#[test]
fn a_change_by_its_members_is_the_same_change() {
    let members = vec![
        JsonMember { name: "category_id".to_string(), text: None, integer: Some(3) },
        JsonMember { name: "description".to_string(), text: Some("New".to_string()), integer: None },
    ];
    let (statement, pending) = asked(change_transaction("t1".to_string(), Some(members)));
    assert_eq!(
        statement.parameters(),
        vec![text("New"), Cell::Integer(1), Cell::Integer(3), text("t1")]
    );
    let (statement, pending) = asked(resume(pending, changed(1)));
    assert!(matches!(&statement, Statement::SelectTransaction { id } if id == "t1"));
    assert_eq!(replied(resume(pending, rows(vec![]))).status, 400);
    assert_eq!(replied(change_transaction("t1".to_string(), None)).status, 400);
}

#[test]
fn the_sql_of_a_transaction_names_every_column() {
    let (statement, _) = asked(begin(Request::ListTransactions));
    assert_eq!(
        statement.sql(),
        "SELECT id, batch_id, description, date, amount, opposing_amount, account_id, \
         opposing_account_id, category_id, created_at, updated_at FROM transactions \
         ORDER BY date DESC, id"
    );
    assert!(statement.parameters().is_empty());
}
