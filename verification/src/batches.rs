//! A batch, and its transactions created one by one.

use vstd::prelude::*;

use crate::db;
use crate::db::{DbErrorView, Outcome};
use crate::laws;
use crate::laws::Store;
use crate::protocol;
use crate::protocol::{Pending, Request, Step};
use crate::records::{
    CreateTransactionRequest,
    CreateTransactionsBatchRequest,
    TransactionResponse,
};
use crate::reply::{Body, Reply};
use crate::statements::Statement;
use crate::transactions;

verus! {

/// Any database that answers alike where it stands alike: what a statement comes to, and what it
/// makes of the rows, for every statement but `BEGIN`, `COMMIT` and `ROLLBACK`. Its clock stands
/// still.
#[verifier::reject_recursive_types(S)]
pub struct Machine<S> {
    pub answer: spec_fn(S, Statement) -> Outcome,
    pub effect: spec_fn(S, Statement) -> S,
}

/// Whether `statement`, put to the machine that stands at `before`, comes to `outcome` and leaves it
/// at `after`.
pub open spec fn moves<S>(
    machine: Machine<S>,
    before: Store<S>,
    statement: Statement,
    outcome: Outcome,
    after: Store<S>,
) -> bool {
    match statement {
        Statement::Begin => outcome is Ok ==> after == (Store {
            before: Some(before.rows),
            ..before
        }),
        Statement::Commit => outcome is Ok ==> after == (Store { before: None, ..before }),
        Statement::Rollback => outcome is Ok && before.before is Some ==> after == (Store {
            rows: before.before->0,
            before: None,
        }),
        _ => {
            &&& outcome == (machine.answer)(before.rows, statement)
            &&& after == (Store { rows: (machine.effect)(before.rows, statement), ..before })
        },
    }
}

/// A conversation with a machine that stands at `states[i]` before step `i`.
pub struct Run<S> {
    pub steps: Seq<Step>,
    pub outcomes: Seq<Outcome>,
    pub states: Seq<Store<S>>,
}

/// Whether the statement of step `i` takes the machine from `states[i]` to `states[i + 1]`.
pub open spec fn is_moved<S>(machine: Machine<S>, run: Run<S>, i: int) -> bool {
    moves(machine, run.states[i], run.steps[i]->statement, run.outcomes[i], run.states[i + 1])
}

/// Whether `run` is a conversation about `request`, up to a reply, that begins where the machine
/// holds the rows `start`.
pub open spec fn is_run<S>(machine: Machine<S>, request: Request, start: S, run: Run<S>) -> bool {
    &&& laws::is_run(request, run.steps, run.outcomes)
    &&& run.steps.last() is Reply
    &&& run.states.len() == run.steps.len()
    &&& run.states[0] == (Store { rows: start, before: None })
    &&& forall|i: int| 0 <= i < run.outcomes.len() ==> #[trigger] is_moved(machine, run, i)
}

/// The reply that a run ends with.
pub open spec fn reply_of<S>(run: Run<S>) -> Reply {
    run.steps.last()->Reply_0
}

/// The rows that the machine holds at the end of a run.
pub open spec fn end_of<S>(run: Run<S>) -> S {
    run.states.last().rows
}

/// The rows that the machine holds before the `k`th run.
pub open spec fn start_of<S>(start: S, runs: Seq<Run<S>>, k: int) -> S {
    if k == 0 { start } else { end_of(runs[k - 1]) }
}

/// Whether `runs` create the transactions of a batch one by one, each under the batch id of the
/// batch, from the rows `start` on, up to the first that is not answered with 201.
pub open spec fn is_one_by_one<S>(
    machine: Machine<S>,
    request: CreateTransactionsBatchRequest,
    start: S,
    runs: Seq<Run<S>>,
) -> bool {
    &&& runs.len() <= request.transactions@.len()
    &&& forall|k: int|
        0 <= k < runs.len() ==> is_run(
            machine,
            Request::CreateTransaction(Some(laws::batch_row(request, k))),
            start_of(start, runs, k),
            #[trigger] runs[k],
        )
    &&& forall|k: int| 0 <= k < runs.len() - 1 ==> reply_of(#[trigger] runs[k]).status == 201
    &&& runs.len() < request.transactions@.len() ==> runs.len() > 0 && reply_of(runs.last()).status
        != 201
}

/// Whether all of them were created.
pub open spec fn all_created<S>(
    request: CreateTransactionsBatchRequest,
    runs: Seq<Run<S>>,
) -> bool {
    runs.len() == request.transactions@.len() && (runs.len() > 0 ==> reply_of(runs.last()).status
        == 201)
}

/// Whether two replies are the same error.
pub open spec fn same_error(a: Reply, b: Reply) -> bool {
    &&& a.status == b.status
    &&& a.body matches Body::Error(text) && b.body matches Body::Error(other) && text@ == other@
}

// The way of one transaction.

spec fn account_statement(row: CreateTransactionRequest) -> Statement {
    Statement::LookupAccount { id: row.account_id }
}

spec fn opposing_statement(row: CreateTransactionRequest) -> Statement {
    Statement::LookupAccount { id: row.opposing_account_id }
}

spec fn after_account<S>(machine: Machine<S>, rows: S, row: CreateTransactionRequest) -> S {
    (machine.effect)(rows, account_statement(row))
}

spec fn after_opposing<S>(machine: Machine<S>, rows: S, row: CreateTransactionRequest) -> S {
    (machine.effect)(after_account(machine, rows, row), opposing_statement(row))
}

spec fn after_insertion<S>(machine: Machine<S>, rows: S, row: CreateTransactionRequest) -> S {
    (machine.effect)(after_opposing(machine, rows, row), Statement::InsertTransaction { row })
}

/// What the lookups of the two accounts and the insertion come to.
spec fn answers<S>(machine: Machine<S>, rows: S, row: CreateTransactionRequest) -> Seq<Outcome> {
    seq![
        (machine.answer)(rows, account_statement(row)),
        (machine.answer)(after_account(machine, rows, row), opposing_statement(row)),
        (machine.answer)(
            after_opposing(machine, rows, row),
            Statement::InsertTransaction { row },
        ),
    ]
}

/// Whether `row` is stored, and comes back as `record`.
spec fn is_stored<S>(
    machine: Machine<S>,
    rows: S,
    row: CreateTransactionRequest,
    record: TransactionResponse,
) -> bool {
    let outcomes = answers(machine, rows, row);
    &&& laws::fault_of(row, outcomes, 0) is None
    &&& db::only_record::<TransactionResponse>(outcomes[2]) == Ok::<TransactionResponse, DbErrorView>(
        record,
    )
}

proof fn lemma_single<S>(machine: Machine<S>, row: CreateTransactionRequest, rows: S, run: Run<S>)
    requires
        is_run(machine, Request::CreateTransaction(Some(row)), rows, run),
    ensures
        if reply_of(run).status == 201 {
            &&& reply_of(run).body matches Body::Transaction(record)
            &&& is_stored(machine, rows, row, record)
            &&& end_of(run) == after_insertion(machine, rows, row)
        } else {
            laws::says_why(reply_of(run), row, answers(machine, rows, row), 0)
        },
{
    let steps = run.steps;
    let outcomes = run.outcomes;
    if outcomes.len() > 0 {
        assert(laws::is_followed(steps, outcomes, 0));
        assert(is_moved(machine, run, 0));
        if outcomes.len() > 1 {
            assert(laws::is_followed(steps, outcomes, 1));
            assert(is_moved(machine, run, 1));
            if outcomes.len() > 2 {
                assert(laws::is_followed(steps, outcomes, 2));
                assert(is_moved(machine, run, 2));
                if outcomes.len() > 3 {
                    assert(laws::is_followed(steps, outcomes, 3));
                }
            }
        }
    }
}

// The way of a batch.

/// The rows after the first `k` transactions of a batch.
spec fn rows_at<S>(
    machine: Machine<S>,
    request: CreateTransactionsBatchRequest,
    start: S,
    k: int,
) -> S
    decreases k,
{
    if k <= 0 {
        start
    } else {
        after_insertion(
            machine,
            rows_at(machine, request, start, k - 1),
            laws::batch_row(request, k - 1),
        )
    }
}

/// Where the machine stands at `step` of a conversation about a batch of which these are stored.
spec fn keeps_pace<S>(
    machine: Machine<S>,
    request: CreateTransactionsBatchRequest,
    start: S,
    stored: Seq<TransactionResponse>,
    step: Step,
    state: Store<S>,
) -> bool {
    let count = stored.len() as int;
    let row = laws::batch_row(request, count);
    let rows = rows_at(machine, request, start, count);
    let outcomes = answers(machine, rows, row);
    &&& forall|j: int|
        0 <= j < count ==> is_stored(
            machine,
            rows_at(machine, request, start, j),
            laws::batch_row(request, j),
            #[trigger] stored[j],
        )
    &&& match step {
        Step::Ask { pending, .. } => match pending {
            Pending::BatchBegun { .. } => state == (Store { rows: start, before: None }),
            Pending::AccountLookedUp { .. } => state == (Store { rows, before: Some(start) }),
            Pending::OpposingLookedUp { account, .. } => {
                &&& state == (Store {
                    rows: after_account(machine, rows, row),
                    before: Some(start),
                })
                &&& transactions::looked_up(outcomes[0]) == Some(account)
            },
            Pending::TransactionInserted { .. } => {
                &&& state == (Store {
                    rows: after_opposing(machine, rows, row),
                    before: Some(start),
                })
                &&& laws::fault_of(row, outcomes, 0) is None
            },
            Pending::BatchCommitted { .. } => state == (Store { rows, before: Some(start) }),
            Pending::BatchRolledBack { reply } => {
                &&& state.before == Some(start)
                &&& laws::says_why(reply, row, outcomes, 0)
            },
            _ => false,
        },
        Step::Reply(reply) => if reply.status == 201 {
            state == (Store { rows, before: None })
        } else {
            &&& state == (Store { rows: start, before: None })
            &&& laws::says_why(reply, row, outcomes, 0)
        },
        Step::Abort { .. } => true,
    }
}

proof fn lemma_pace<S>(
    machine: Machine<S>,
    request: CreateTransactionsBatchRequest,
    start: S,
    stored: Seq<TransactionResponse>,
    step: Step,
    state: Store<S>,
    outcome: Outcome,
    later_stored: Seq<TransactionResponse>,
    next: Step,
    after: Store<S>,
    sent: Seq<CreateTransactionRequest>,
    outcomes: Seq<Outcome>,
    last: Statement,
)
    requires
        step is Ask,
        laws::batch_stands(request, sent, stored, outcomes, last, step),
        keeps_pace(machine, request, start, stored, step, state),
        moves(machine, state, step->statement, outcome, after),
        protocol::resumes(step->pending, outcome, next),
        laws::belongs(step->statement, step->pending),
        later_stored == match step->statement {
            Statement::InsertTransaction { .. } => match db::only_record::<TransactionResponse>(
                outcome,
            ) {
                Ok(row) => stored.push(row),
                Err(_) => stored,
            },
            _ => stored,
        },
    ensures
        keeps_pace(machine, request, start, later_stored, next, after),
{
    let count = stored.len() as int;
    match step->pending {
        Pending::TransactionInserted { progress } => {
            if let Ok(record) = db::only_record::<TransactionResponse>(outcome) {
                assert forall|j: int| 0 <= j < later_stored.len() implies is_stored(
                    machine,
                    rows_at(machine, request, start, j),
                    laws::batch_row(request, j),
                    #[trigger] later_stored[j],
                ) by {
                    if j < count {
                        assert(later_stored[j] == stored[j]);
                    }
                }
            }
        },
        _ => {},
    }
}

proof fn lemma_batch_pace<S>(
    machine: Machine<S>,
    request: CreateTransactionsBatchRequest,
    start: S,
    steps: Seq<Step>,
    outcomes: Seq<Outcome>,
    states: Seq<Store<S>>,
)
    requires
        laws::is_run(Request::CreateTransactionsBatch(Some(request)), steps, outcomes),
        states.len() == steps.len(),
        states[0] == (Store { rows: start, before: None }),
        forall|i: int|
            0 <= i < outcomes.len() ==> #[trigger] is_moved(
                machine,
                Run { steps, outcomes, states },
                i,
            ),
    ensures
        keeps_pace(
            machine,
            request,
            start,
            laws::rows_stored(steps, outcomes),
            steps.last(),
            states.last(),
        ),
    decreases outcomes.len(),
{
    let asked = Request::CreateTransactionsBatch(Some(request));
    laws::lemma_batch(request, steps, outcomes);
    if outcomes.len() > 0 {
        let fewer_steps = steps.drop_last();
        let fewer_outcomes = outcomes.drop_last();
        let fewer_states = states.drop_last();
        laws::lemma_shorter_run(asked, steps, outcomes);
        let run = Run { steps, outcomes, states };
        let shorter = Run { steps: fewer_steps, outcomes: fewer_outcomes, states: fewer_states };
        assert forall|i: int| 0 <= i < fewer_outcomes.len() implies #[trigger] is_moved(
            machine,
            shorter,
            i,
        ) by {
            assert(is_moved(machine, run, i));
        }
        lemma_batch_pace(machine, request, start, fewer_steps, fewer_outcomes, fewer_states);
        laws::lemma_batch(request, fewer_steps, fewer_outcomes);
        laws::lemma_statement_belongs(asked, steps, outcomes, outcomes.len() - 1);
        assert(is_moved(machine, run, outcomes.len() - 1));
        lemma_pace(
            machine,
            request,
            start,
            laws::rows_stored(fewer_steps, fewer_outcomes),
            steps[outcomes.len() - 1],
            states[outcomes.len() - 1],
            outcomes.last(),
            laws::rows_stored(steps, outcomes),
            steps.last(),
            states.last(),
            laws::rows_sent(fewer_steps),
            fewer_outcomes,
            fewer_steps[outcomes.len() - 2]->statement,
        );
    }
}

proof fn lemma_one_by_one<S>(
    machine: Machine<S>,
    request: CreateTransactionsBatchRequest,
    start: S,
    runs: Seq<Run<S>>,
    k: int,
)
    requires
        is_one_by_one(machine, request, start, runs),
        0 <= k <= runs.len(),
        k == runs.len() && k > 0 ==> reply_of(runs.last()).status == 201,
    ensures
        start_of(start, runs, k) == rows_at(machine, request, start, k),
    decreases k,
{
    if k > 0 {
        lemma_one_by_one(machine, request, start, runs, k - 1);
        lemma_single(
            machine,
            laws::batch_row(request, k - 1),
            start_of(start, runs, k - 1),
            runs[k - 1],
        );
    }
}

proof fn lemma_same_reason(
    a: Reply,
    b: Reply,
    row: CreateTransactionRequest,
    outcomes: Seq<Outcome>,
)
    requires
        laws::says_why(a, row, outcomes, 0),
        laws::says_why(b, row, outcomes, 0),
    ensures
        same_error(a, b),
{
}

/// A batch does what its transactions, created one by one, would do: it is answered with 201 if and
/// only if all of them are, it then leaves the same rows and lists the same records, and otherwise it
/// is answered as the first of them that is not created, and leaves the rows as they were.
pub proof fn law_batch_is_its_transactions_one_by_one<S>(
    machine: Machine<S>,
    request: CreateTransactionsBatchRequest,
    start: S,
    batch: Run<S>,
    runs: Seq<Run<S>>,
)
    requires
        is_run(machine, Request::CreateTransactionsBatch(Some(request)), start, batch),
        is_one_by_one(machine, request, start, runs),
    ensures
        reply_of(batch).status == 201 <==> all_created(request, runs),
        if all_created(request, runs) {
            &&& end_of(batch) == start_of(start, runs, runs.len() as int)
            &&& reply_of(batch).body matches Body::Transactions(list)
            &&& list@.len() == runs.len()
            &&& forall|k: int|
                0 <= k < runs.len() ==> reply_of(#[trigger] runs[k]).body == Body::Transaction(
                    list@[k],
                )
        } else {
            &&& end_of(batch) == start
            &&& same_error(reply_of(batch), reply_of(runs.last()))
        },
{
    let size = request.transactions@.len() as int;
    let stored = laws::rows_stored(batch.steps, batch.outcomes);
    let count = stored.len() as int;
    lemma_batch_pace(machine, request, start, batch.steps, batch.outcomes, batch.states);
    laws::lemma_batch(request, batch.steps, batch.outcomes);
    assert forall|k: int| 0 <= k < runs.len() && k < count implies {
        &&& reply_of(#[trigger] runs[k]).status == 201
        &&& reply_of(runs[k]).body == Body::Transaction(stored[k])
    } by {
        lemma_one_by_one(machine, request, start, runs, k);
        lemma_single(machine, laws::batch_row(request, k), start_of(start, runs, k), runs[k]);
        assert(is_stored(
            machine,
            rows_at(machine, request, start, k),
            laws::batch_row(request, k),
            stored[k],
        ));
    }
    if reply_of(batch).status == 201 {
        if runs.len() < size {
            assert(reply_of(runs[runs.len() - 1]).status == 201);
        }
        if runs.len() > 0 {
            assert(reply_of(runs[runs.len() - 1]).status == 201);
        }
        lemma_one_by_one(machine, request, start, runs, runs.len() as int);
    } else {
        let row = laws::batch_row(request, count);
        if runs.len() <= count {
            assert(reply_of(runs[runs.len() - 1]).status == 201);
        }
        assert(count < runs.len());
        lemma_one_by_one(machine, request, start, runs, count);
        lemma_single(machine, row, start_of(start, runs, count), runs[count]);
        if reply_of(runs[count]).status != 201 {
            assert(count == runs.len() - 1);
            lemma_same_reason(
                reply_of(batch),
                reply_of(runs[count]),
                row,
                answers(machine, rows_at(machine, request, start, count), row),
            );
        }
    }
}

} // verus!
