//! From what a request asks for, and what came with it, to the request that is carried out.

use vstd::prelude::*;

use crate::accounts;
use crate::categories;
use crate::currencies;
use crate::protocol;
use crate::protocol::{Request, Step};
use crate::records::{
    CreateAccountRequest,
    CreateCategoryRequest,
    CreateCurrencyRequest,
    CreateTransactionRequest,
    CreateTransactionsBatchRequest,
};
use crate::routing;
use crate::routing::{Method, Route, Target};
use crate::transactions;

verus! {

/// What is to be made of the body of a request.
#[derive(Debug, Clone, Copy, PartialEq, Eq, Structural)]
pub enum PayloadKind {
    /// The body is of no concern.
    Nothing,
    /// The body is taken as it is.
    Text,
    Currency,
    Account,
    Category,
    Transaction,
    Transactions,
}

/// The body of a request, as far as it is of concern. `None` stands for one that could not be read.
#[derive(Debug)]
pub enum Payload {
    Nothing,
    Text(String),
    Currency(Option<CreateCurrencyRequest>),
    Account(Option<CreateAccountRequest>),
    Category(Option<CreateCategoryRequest>),
    Transaction(Option<CreateTransactionRequest>),
    Transactions(Option<CreateTransactionsBatchRequest>),
}

/// What was made of a body.
pub open spec fn kind_of(payload: Payload) -> PayloadKind {
    match payload {
        Payload::Nothing => PayloadKind::Nothing,
        Payload::Text(_) => PayloadKind::Text,
        Payload::Currency(_) => PayloadKind::Currency,
        Payload::Account(_) => PayloadKind::Account,
        Payload::Category(_) => PayloadKind::Category,
        Payload::Transaction(_) => PayloadKind::Transaction,
        Payload::Transactions(_) => PayloadKind::Transactions,
    }
}

/// What is to be made of the body of a request for `route`.
pub open spec fn kind_for(route: Route) -> PayloadKind {
    match route {
        Route::CreateCurrency => PayloadKind::Currency,
        Route::CreateAccount => PayloadKind::Account,
        Route::CreateCategory => PayloadKind::Category,
        Route::CreateTransaction => PayloadKind::Transaction,
        Route::CreateTransactionsBatch => PayloadKind::Transactions,
        Route::PatchTransaction => PayloadKind::Text,
        _ => PayloadKind::Nothing,
    }
}

/// Whether `request` is the one for `route`, with this id and this payload.
pub open spec fn is_request(
    route: Route,
    id: Seq<char>,
    payload: Payload,
    request: Request,
) -> bool {
    match request {
        Request::CreateCurrency(body) => route is CreateCurrency && payload == Payload::Currency(
            body,
        ),
        Request::ListCurrencies => route is ListCurrencies,
        Request::CreateAccount(body) => route is CreateAccount && payload == Payload::Account(body),
        Request::ListAccounts => route is ListAccounts,
        Request::DeleteAccount { id: named } => route is DeleteAccount && named@ == id,
        Request::CreateCategory(body) => route is CreateCategory && payload == Payload::Category(
            body,
        ),
        Request::ListCategories => route is ListCategories,
        Request::DeleteCategory { id: named } => route is DeleteCategory && named@ == id,
        Request::CreateTransactionsBatch(body) => route is CreateTransactionsBatch && payload
            == Payload::Transactions(body),
        Request::CreateTransaction(body) => route is CreateTransaction && payload
            == Payload::Transaction(body),
        Request::ListTransactions => route is ListTransactions,
        Request::PatchTransaction { id: named, body } => route is PatchTransaction && named@ == id
            && payload == Payload::Text(body),
        Request::DeleteTransaction { id: named } => route is DeleteTransaction && named@ == id,
        Request::NotFound => route is NotFound,
    }
}

/// Says what is to be made of the body of a request.
pub fn payload_kind(route: Route) -> (kind: PayloadKind)
    ensures
        kind == kind_for(route),
{
    match route {
        Route::CreateCurrency => PayloadKind::Currency,
        Route::CreateAccount => PayloadKind::Account,
        Route::CreateCategory => PayloadKind::Category,
        Route::CreateTransaction => PayloadKind::Transaction,
        Route::CreateTransactionsBatch => PayloadKind::Transactions,
        Route::PatchTransaction => PayloadKind::Text,
        _ => PayloadKind::Nothing,
    }
}

/// Makes the request that is to be carried out; `None` where the payload is of another kind than the
/// route asks for.
pub fn request_of(target: Target, payload: Payload) -> (request: Option<Request>)
    ensures
        match request {
            Some(request) => kind_of(payload) == kind_for(target.route) && is_request(
                target.route,
                target.id@,
                payload,
                request,
            ),
            None => kind_of(payload) != kind_for(target.route),
        },
{
    let id: String = target.id;
    match (target.route, payload) {
        (Route::CreateCurrency, Payload::Currency(body)) => Some(Request::CreateCurrency(body)),
        (Route::ListCurrencies, Payload::Nothing) => Some(Request::ListCurrencies),
        (Route::CreateAccount, Payload::Account(body)) => Some(Request::CreateAccount(body)),
        (Route::ListAccounts, Payload::Nothing) => Some(Request::ListAccounts),
        (Route::DeleteAccount, Payload::Nothing) => Some(Request::DeleteAccount { id }),
        (Route::CreateCategory, Payload::Category(body)) => Some(Request::CreateCategory(body)),
        (Route::ListCategories, Payload::Nothing) => Some(Request::ListCategories),
        (Route::DeleteCategory, Payload::Nothing) => Some(Request::DeleteCategory { id }),
        (Route::CreateTransactionsBatch, Payload::Transactions(body)) => Some(
            Request::CreateTransactionsBatch(body),
        ),
        (Route::CreateTransaction, Payload::Transaction(body)) => Some(
            Request::CreateTransaction(body),
        ),
        (Route::ListTransactions, Payload::Nothing) => Some(Request::ListTransactions),
        (Route::PatchTransaction, Payload::Text(body)) => Some(
            Request::PatchTransaction { id, body },
        ),
        (Route::DeleteTransaction, Payload::Nothing) => Some(Request::DeleteTransaction { id }),
        (Route::NotFound, Payload::Nothing) => Some(Request::NotFound),
        _ => None,
    }
}

/// Whether a request with this method, path and payload is carried out as `request`.
pub open spec fn is_dispatched(
    method: Method,
    path: Seq<char>,
    payload: Payload,
    request: Request,
) -> bool {
    let route = routing::route_of(method, routing::segments(path));
    is_request(route, routing::id_of(route, routing::segments(path)), payload, request)
}

/// Whether `step` begins to delete the transaction of this id.
pub open spec fn deletes_transaction(id: Seq<char>, step: Step) -> bool {
    exists|text: String| text@ == id && #[trigger] transactions::begins_delete(text, step)
}

/// Whether `step` begins to change the transaction of this id by this body.
pub open spec fn patches_transaction(id: Seq<char>, body: Seq<char>, step: Step) -> bool {
    exists|text: String| text@ == id && #[trigger] transactions::patches(text, body, step)
}

/// Whether `step` is how a request with this method and these segments, and with this payload,
/// begins: as the one handler that it is for says, and with 404 where there is none.
pub open spec fn is_handled(
    method: Method,
    names: Seq<Seq<char>>,
    payload: Payload,
    step: Step,
) -> bool {
    if method is Post && names == seq!["currencies"@] {
        payload matches Payload::Currency(body) && currencies::creates(body, step)
    } else if method is Get && names == seq!["currencies"@] {
        currencies::lists(step)
    } else if method is Post && names == seq!["accounts"@] {
        payload matches Payload::Account(body) && accounts::creates(body, step)
    } else if method is Get && names == seq!["accounts"@] {
        accounts::lists(step)
    } else if method is Delete && names.len() == 2 && names[0] == "accounts"@ {
        accounts::begins_delete(names[1], step)
    } else if method is Post && names == seq!["categories"@] {
        payload matches Payload::Category(body) && categories::creates(body, step)
    } else if method is Get && names == seq!["categories"@] {
        categories::lists(step)
    } else if method is Delete && names.len() == 2 && names[0] == "categories"@ {
        categories::begins_delete(names[1], step)
    } else if method is Post && names == seq!["transactions"@, "batch"@] {
        payload matches Payload::Transactions(body) && transactions::creates_batch(body, step)
    } else if method is Post && names == seq!["transactions"@] {
        payload matches Payload::Transaction(body) && transactions::creates(body, step)
    } else if method is Get && names == seq!["transactions"@] {
        transactions::lists(step)
    } else if method is Patch && names.len() == 2 && names[0] == "transactions"@ {
        payload matches Payload::Text(body) && patches_transaction(names[1], body@, step)
    } else if method is Delete && names.len() == 2 && names[0] == "transactions"@ {
        deletes_transaction(names[1], step)
    } else {
        protocol::replies_not_found(step)
    }
}

/// A method and the segments of a path lead to the one handler that is theirs, with the id and the
/// body that came, and to 404 where there is none. So slashes at either end of a path, and doubled
/// ones, make no difference.
pub proof fn law_route_leads_to_its_handler(
    method: Method,
    path: Seq<char>,
    payload: Payload,
    request: Request,
    step: Step,
)
    requires
        is_dispatched(method, path, payload, request),
        protocol::begins(request, step),
    ensures
        is_handled(method, routing::segments(path), payload, step),
{
    let names = routing::segments(path);
    routing::lemma_resource_names();
    if names.len() == 1 {
        assert(names =~= seq![names[0]]);
    }
    if names.len() == 2 {
        assert(names =~= seq![names[0], names[1]]);
    }
}

/// The body of a creation is read as what is created, that of a change is taken as it is, and no other
/// is of concern; a payload is of the kind that its name says.
pub proof fn law_payload_kinds(route: Route, payload: Payload)
    ensures
        kind_for(route) is Currency <==> route is CreateCurrency,
        kind_for(route) is Account <==> route is CreateAccount,
        kind_for(route) is Category <==> route is CreateCategory,
        kind_for(route) is Transaction <==> route is CreateTransaction,
        kind_for(route) is Transactions <==> route is CreateTransactionsBatch,
        kind_for(route) is Text <==> route is PatchTransaction,
        kind_of(payload) is Nothing <==> payload is Nothing,
        kind_of(payload) is Text <==> payload is Text,
        kind_of(payload) is Currency <==> payload is Currency,
        kind_of(payload) is Account <==> payload is Account,
        kind_of(payload) is Category <==> payload is Category,
        kind_of(payload) is Transaction <==> payload is Transaction,
        kind_of(payload) is Transactions <==> payload is Transactions,
{
}

/// Every request that can be made is made by one route alone, from what that route takes.
pub proof fn law_request_comes_from_its_route(
    route: Route,
    id: Seq<char>,
    payload: Payload,
    request: Request,
)
    requires
        is_request(route, id, payload, request),
    ensures
        request is CreateCurrency <==> route is CreateCurrency,
        request is ListCurrencies <==> route is ListCurrencies,
        request is CreateAccount <==> route is CreateAccount,
        request is ListAccounts <==> route is ListAccounts,
        request is DeleteAccount <==> route is DeleteAccount,
        request is CreateCategory <==> route is CreateCategory,
        request is ListCategories <==> route is ListCategories,
        request is DeleteCategory <==> route is DeleteCategory,
        request is CreateTransactionsBatch <==> route is CreateTransactionsBatch,
        request is CreateTransaction <==> route is CreateTransaction,
        request is ListTransactions <==> route is ListTransactions,
        request is PatchTransaction <==> route is PatchTransaction,
        request is DeleteTransaction <==> route is DeleteTransaction,
        request is NotFound <==> route is NotFound,
{
}

} // verus!
