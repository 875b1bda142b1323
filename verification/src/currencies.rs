//! Currencies.

use vstd::prelude::*;
use vstd::string::*;

use crate::db;
use crate::db::Outcome;
use crate::protocol;
use crate::protocol::{Pending, Step};
use crate::records::{CreateCurrencyRequest, CurrencyResponse};
use crate::reply;
use crate::reply::{Body, Reply};
use crate::statements::Statement;

verus! {

/// Whether `step` is how a request for a new currency begins.
pub open spec fn creates(request: Option<CreateCurrencyRequest>, step: Step) -> bool {
    match request {
        Some(request) => step == (Step::Ask {
            statement: Statement::InsertCurrency {
                code: request.code,
                minor_unit: request.minor_unit,
            },
            pending: Pending::CurrencyInserted,
        }),
        None => protocol::replies_error(step, 400, "expected {code, minor_unit}"@),
    }
}

/// Whether `step` is the reply to a request for a new currency, by what came of storing it.
pub open spec fn inserted(outcome: Outcome, step: Step) -> bool {
    match db::only_record::<CurrencyResponse>(outcome) {
        Ok(currency) => step == Step::Reply(Reply { status: 201, body: Body::Currency(currency) }),
        Err(error) => protocol::replies_db_error(step, error),
    }
}

/// Whether `step` is how a request for all currencies begins.
pub open spec fn lists(step: Step) -> bool {
    step == (Step::Ask {
        statement: Statement::ListCurrencies,
        pending: Pending::CurrenciesListed,
    })
}

/// Whether `step` is the reply to a request for all currencies, by what came of reading them.
pub open spec fn listed(outcome: Outcome, step: Step) -> bool {
    match outcome {
        Ok(answer) => match db::records_of::<CurrencyResponse>(answer.rows@) {
            Ok(currencies) => {
                &&& step matches Step::Reply(reply)
                &&& reply.status == 200
                &&& reply.body matches Body::Currencies(list)
                &&& list@ == currencies
            },
            Err(error) => protocol::is_abort(step, "read currency row"@, error),
        },
        Err(error) => protocol::is_abort(step, "query currencies"@, error@),
    }
}

/// Begins to create a currency.
pub fn create_currency(request: Option<CreateCurrencyRequest>) -> (step: Step)
    ensures
        creates(request, step),
{
    match request {
        Some(request) => Step::Ask {
            statement: Statement::InsertCurrency {
                code: request.code,
                minor_unit: request.minor_unit,
            },
            pending: Pending::CurrencyInserted,
        },
        None => Step::Reply(reply::error_response(400, "expected {code, minor_unit}")),
    }
}

/// Replies with the currency that was stored.
pub fn currency_inserted(outcome: Outcome) -> (step: Step)
    ensures
        inserted(outcome, step),
{
    match db::fetch_one::<CurrencyResponse>(outcome) {
        Ok(currency) => Step::Reply(reply::json_response(201, Body::Currency(currency))),
        Err(error) => Step::Reply(reply::db_error_response(&error)),
    }
}

/// Begins to list all currencies.
pub fn list_currencies() -> (step: Step)
    ensures
        lists(step),
{
    Step::Ask { statement: Statement::ListCurrencies, pending: Pending::CurrenciesListed }
}

/// Replies with all currencies.
pub fn currencies_listed(outcome: Outcome) -> (step: Step)
    ensures
        listed(outcome, step),
{
    match outcome {
        Ok(answer) => match db::read_rows::<CurrencyResponse>(&answer.rows) {
            Ok(list) => Step::Reply(reply::json_response(200, Body::Currencies(list))),
            Err(error) => Step::Abort { message: "read currency row".to_owned(), error },
        },
        Err(error) => Step::Abort { message: "query currencies".to_owned(), error },
    }
}

} // verus!
