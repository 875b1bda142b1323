//! Categories.

use vstd::prelude::*;
use vstd::string::*;

use crate::db;
use crate::db::Outcome;
use crate::protocol;
use crate::protocol::{Pending, Step};
use crate::records::{CreateCategoryRequest, CategoryResponse};
use crate::reply;
use crate::reply::{Body, Reply};
use crate::statements::Statement;
use crate::text;

verus! {

/// Whether `step` is how a request for a new category begins.
pub open spec fn creates(request: Option<CreateCategoryRequest>, step: Step) -> bool {
    match request {
        Some(request) => step == (Step::Ask {
            statement: Statement::InsertCategory { name: request.name },
            pending: Pending::CategoryInserted,
        }),
        None => protocol::replies_error(step, 400, "expected {name}"@),
    }
}

/// Whether `step` is the reply to a request for a new category, by what came of storing it.
pub open spec fn inserted(outcome: Outcome, step: Step) -> bool {
    match db::only_record::<CategoryResponse>(outcome) {
        Ok(category) => step == Step::Reply(Reply { status: 201, body: Body::Category(category) }),
        Err(error) => protocol::replies_db_error(step, error),
    }
}

/// Whether `step` is how a request for all categories begins.
pub open spec fn lists(step: Step) -> bool {
    step == (Step::Ask {
        statement: Statement::ListCategories,
        pending: Pending::CategoriesListed,
    })
}

/// Whether `step` is the reply to a request for all categories, by what came of reading them.
pub open spec fn listed(outcome: Outcome, step: Step) -> bool {
    match outcome {
        Ok(answer) => match db::records_of::<CategoryResponse>(answer.rows@) {
            Ok(categories) => {
                &&& step matches Step::Reply(reply)
                &&& reply.status == 200
                &&& reply.body matches Body::Categories(list)
                &&& list@ == categories
            },
            Err(error) => protocol::is_abort(step, "read category row"@, error),
        },
        Err(error) => protocol::is_abort(step, "query categories"@, error@),
    }
}

/// Whether `step` is how a request to delete a category begins. A segment that writes no row id names
/// no category.
pub open spec fn begins_delete(id: Seq<char>, step: Step) -> bool {
    match text::id_value(id) {
        Some(id) => step == (Step::Ask {
            statement: Statement::DeleteCategory { id },
            pending: Pending::CategoryDeleted,
        }),
        None => protocol::replies_not_found(step),
    }
}

/// Whether `step` is the reply to a request to delete a category, by what came of deleting it. No
/// row keeps a category from going, so a failure stops the program.
pub open spec fn deleted(outcome: Outcome, step: Step) -> bool {
    match outcome {
        Ok(_) => protocol::deletes(outcome, step),
        Err(error) => protocol::is_abort(step, "delete category"@, error@),
    }
}

/// Begins to create a category.
pub fn create_category(request: Option<CreateCategoryRequest>) -> (step: Step)
    ensures
        creates(request, step),
{
    match request {
        Some(request) => Step::Ask {
            statement: Statement::InsertCategory { name: request.name },
            pending: Pending::CategoryInserted,
        },
        None => Step::Reply(reply::error_response(400, "expected {name}")),
    }
}

/// Replies with the category that was stored.
pub fn category_inserted(outcome: Outcome) -> (step: Step)
    ensures
        inserted(outcome, step),
{
    match db::fetch_one::<CategoryResponse>(outcome) {
        Ok(category) => Step::Reply(reply::json_response(201, Body::Category(category))),
        Err(error) => Step::Reply(reply::db_error_response(&error)),
    }
}

/// Begins to list all categories.
pub fn list_categories() -> (step: Step)
    ensures
        lists(step),
{
    Step::Ask { statement: Statement::ListCategories, pending: Pending::CategoriesListed }
}

/// Replies with all categories.
pub fn categories_listed(outcome: Outcome) -> (step: Step)
    ensures
        listed(outcome, step),
{
    match outcome {
        Ok(answer) => match db::read_rows::<CategoryResponse>(&answer.rows) {
            Ok(list) => Step::Reply(reply::json_response(200, Body::Categories(list))),
            Err(error) => Step::Abort { message: "read category row".to_owned(), error },
        },
        Err(error) => Step::Abort { message: "query categories".to_owned(), error },
    }
}

/// Begins to delete a category.
pub fn delete_category(id: &str) -> (step: Step)
    ensures
        begins_delete(id@, step),
{
    match text::parse_id(id) {
        Some(id) => Step::Ask {
            statement: Statement::DeleteCategory { id },
            pending: Pending::CategoryDeleted,
        },
        None => Step::Reply(reply::not_found()),
    }
}

/// Replies by what came of deleting a category.
pub fn category_deleted(outcome: Outcome) -> (step: Step)
    ensures
        deleted(outcome, step),
{
    match outcome {
        Ok(_) => protocol::row_deleted(outcome),
        Err(error) => Step::Abort { message: "delete category".to_owned(), error },
    }
}

} // verus!
