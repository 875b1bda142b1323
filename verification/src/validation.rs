//! The rules that span a transaction and the two accounts that it names, and the one on its date.

use vstd::prelude::*;
use vstd::string::*;

use crate::dates;
use crate::records::AccountFacts;
use crate::text;

verus! {

/// Why a transaction is refused before it reaches the table.
#[derive(Debug, Clone, Copy, PartialEq, Eq, Structural)]
pub enum TransactionFault {
    /// There is no account with this id.
    UnknownAccount(i64),
    /// The transaction's account, with this id, is not one of the owner's.
    NotOwn(i64),
    /// The accounts' currencies differ, so what arrives on the other side has to be said.
    OpposingAmountRequired,
    /// What arrives on the other side follows from the amount.
    OpposingAmountNotAllowed,
    /// Both sides are the same account.
    SameAccount,
    /// The date is none.
    MalformedDate,
}

/// Whether an account is one of the owner's.
pub open spec fn is_own(account: AccountFacts) -> bool {
    account.account_type@ == "own"@
}

/// Whether a transaction between these two accounts moves money from one currency to another
/// within the owner's own accounts.
pub open spec fn crosses_currencies(account: AccountFacts, opposing: AccountFacts) -> bool {
    is_own(account) && is_own(opposing) && account.currency_id != opposing.currency_id
}

/// What is wrong with the date of a transaction.
pub open spec fn date_fault(date: Seq<char>) -> Option<TransactionFault> {
    if dates::is_date(date) { None } else { Some(TransactionFault::MalformedDate) }
}

/// What is wrong with the account of a transaction, `None` standing for an account that was not
/// found.
pub open spec fn account_fault(account_id: i64, account: Option<AccountFacts>) -> Option<
    TransactionFault,
> {
    match account {
        None => Some(TransactionFault::UnknownAccount(account_id)),
        Some(account) => if is_own(account) {
            None
        } else {
            Some(TransactionFault::NotOwn(account_id))
        },
    }
}

/// What is wrong with a transaction whose own account is in order.
pub open spec fn opposing_fault(
    account_id: i64,
    account: AccountFacts,
    opposing_account_id: i64,
    opposing: Option<AccountFacts>,
    opposing_amount: Option<i64>,
) -> Option<TransactionFault> {
    match opposing {
        None => Some(TransactionFault::UnknownAccount(opposing_account_id)),
        Some(opposing) => {
            let needed = is_own(opposing) && opposing.currency_id != account.currency_id;
            if needed && opposing_amount is None {
                Some(TransactionFault::OpposingAmountRequired)
            } else if !needed && opposing_amount is Some {
                Some(TransactionFault::OpposingAmountNotAllowed)
            } else if account_id == opposing_account_id {
                Some(TransactionFault::SameAccount)
            } else {
                None
            }
        },
    }
}

/// What is wrong with a transaction, given what is known of its accounts.
pub open spec fn transaction_fault(
    account_id: i64,
    account: Option<AccountFacts>,
    opposing_account_id: i64,
    opposing: Option<AccountFacts>,
    opposing_amount: Option<i64>,
) -> Option<TransactionFault> {
    match account_fault(account_id, account) {
        Some(fault) => Some(fault),
        None => opposing_fault(
            account_id,
            account->0,
            opposing_account_id,
            opposing,
            opposing_amount,
        ),
    }
}

/// A fault in words.
pub open spec fn fault_message(fault: TransactionFault) -> Seq<char> {
    match fault {
        TransactionFault::UnknownAccount(id) => "account "@ + text::decimal(id as int)
            + " does not exist"@,
        TransactionFault::NotOwn(id) => "account "@ + text::decimal(id as int)
            + " must be of type 'own'"@,
        TransactionFault::OpposingAmountRequired =>
            "opposing_amount is required when both accounts are 'own' with differing currencies"@,
        TransactionFault::OpposingAmountNotAllowed =>
            "opposing_amount must be NULL unless both accounts are 'own' with differing currencies"@,
        TransactionFault::SameAccount => "account_id and opposing_account_id must differ"@,
        TransactionFault::MalformedDate =>
            "date must be a calendar date (YYYY-MM-DD) or an RFC 3339 timestamp"@,
    }
}

impl TransactionFault {
    /// This fault in words.
    pub fn message(&self) -> (message: String)
        ensures
            message@ == fault_message(*self),
    {
        match self {
            TransactionFault::UnknownAccount(id) => {
                let mut message: String = "account ".to_owned();
                text::push_decimal(&mut message, *id);
                message.append(" does not exist");
                message
            },
            TransactionFault::NotOwn(id) => {
                let mut message: String = "account ".to_owned();
                text::push_decimal(&mut message, *id);
                message.append(" must be of type 'own'");
                message
            },
            TransactionFault::OpposingAmountRequired =>
                "opposing_amount is required when both accounts are 'own' with differing currencies".to_owned(),
            TransactionFault::OpposingAmountNotAllowed =>
                "opposing_amount must be NULL unless both accounts are 'own' with differing currencies".to_owned(),
            TransactionFault::SameAccount =>
                "account_id and opposing_account_id must differ".to_owned(),
            TransactionFault::MalformedDate =>
                "date must be a calendar date (YYYY-MM-DD) or an RFC 3339 timestamp".to_owned(),
        }
    }
}

/// Checks the date of a transaction.
pub fn validate_date(date: &str) -> (checked: Result<(), TransactionFault>)
    ensures
        match checked {
            Ok(_) => date_fault(date@) is None,
            Err(fault) => date_fault(date@) == Some(fault),
        },
{
    if dates::is_rfc3339(date) {
        Ok(())
    } else {
        Err(TransactionFault::MalformedDate)
    }
}

/// Checks the account of a transaction.
pub fn validate_account(account_id: i64, account: &Option<AccountFacts>) -> (checked: Result<
    (),
    TransactionFault,
>)
    ensures
        match checked {
            Ok(_) => account_fault(account_id, *account) is None,
            Err(fault) => account_fault(account_id, *account) == Some(fault),
        },
{
    match account {
        None => Err(TransactionFault::UnknownAccount(account_id)),
        Some(account) => if text::same_text(account.account_type.as_str(), "own") {
            Ok(())
        } else {
            Err(TransactionFault::NotOwn(account_id))
        },
    }
}

/// Checks a transaction against its two accounts. Every transaction that is to be stored passes
/// here; what concerns a single row is left to the table's own constraints.
pub fn validate_transaction(
    account_id: i64,
    account: &Option<AccountFacts>,
    opposing_account_id: i64,
    opposing: &Option<AccountFacts>,
    opposing_amount: Option<i64>,
) -> (checked: Result<(), TransactionFault>)
    ensures
        match checked {
            Ok(_) => transaction_fault(
                account_id,
                *account,
                opposing_account_id,
                *opposing,
                opposing_amount,
            ) is None,
            Err(fault) => transaction_fault(
                account_id,
                *account,
                opposing_account_id,
                *opposing,
                opposing_amount,
            ) == Some(fault),
        },
{
    if let Err(fault) = validate_account(account_id, account) {
        return Err(fault);
    }
    let account_currency: Option<i64> = match account {
        Some(account) => account.currency_id,
        None => None,
    };
    match opposing {
        None => Err(TransactionFault::UnknownAccount(opposing_account_id)),
        Some(opposing) => {
            let needed: bool = text::same_text(opposing.account_type.as_str(), "own")
                && opposing.currency_id != account_currency;
            match (needed, opposing_amount) {
                (true, None) => Err(TransactionFault::OpposingAmountRequired),
                (false, Some(_)) => Err(TransactionFault::OpposingAmountNotAllowed),
                _ => if account_id == opposing_account_id {
                    Err(TransactionFault::SameAccount)
                } else {
                    Ok(())
                },
            }
        },
    }
}

/// A transaction is in order exactly where both its accounts are there and differ, its account is
/// one of the owner's, and it says what arrives on the other side if and only if both accounts are
/// the owner's and their currencies differ.
pub proof fn law_transaction_in_order(
    account_id: i64,
    account: Option<AccountFacts>,
    opposing_account_id: i64,
    opposing: Option<AccountFacts>,
    opposing_amount: Option<i64>,
)
    ensures
        account is Some && opposing is Some ==> (crosses_currencies(account->0, opposing->0)
            <==> account->0.account_type@ == "own"@ && opposing->0.account_type@ == "own"@
            && account->0.currency_id != opposing->0.currency_id),
        transaction_fault(account_id, account, opposing_account_id, opposing, opposing_amount) is None
            <==> {
            &&& account is Some
            &&& opposing is Some
            &&& account_id != opposing_account_id
            &&& account->0.account_type@ == "own"@
            &&& (opposing_amount is Some <==> opposing->0.account_type@ == "own"@
                && account->0.currency_id != opposing->0.currency_id)
        },
{
}

/// A transaction that is refused is refused for the first of these that holds: its account is not
/// there; its account is of another type than `own`; the opposing account is not there; what arrives
/// there is not said though both are `own` and of different currencies; it is said though they are
/// not; both are the same. One of which none holds is not refused.
pub proof fn law_first_fault(
    account_id: i64,
    account: Option<AccountFacts>,
    opposing_account_id: i64,
    opposing: Option<AccountFacts>,
    opposing_amount: Option<i64>,
)
    ensures
        ({
            let fault = transaction_fault(
                account_id,
                account,
                opposing_account_id,
                opposing,
                opposing_amount,
            );
            let own = account is Some && account->0.account_type@ == "own"@;
            let between = opposing is Some && opposing->0.account_type@ == "own"@
                && opposing->0.currency_id != account->0.currency_id;
            &&& account is None ==> fault == Some(TransactionFault::UnknownAccount(account_id))
            &&& account is Some && !own ==> fault == Some(TransactionFault::NotOwn(account_id))
            &&& own && opposing is None ==> fault == Some(
                TransactionFault::UnknownAccount(opposing_account_id),
            )
            &&& own && between && opposing_amount is None ==> fault == Some(
                TransactionFault::OpposingAmountRequired,
            )
            &&& own && opposing is Some && !between && opposing_amount is Some ==> fault == Some(
                TransactionFault::OpposingAmountNotAllowed,
            )
            &&& own && opposing is Some && between == (opposing_amount is Some) ==> fault == if account_id
                == opposing_account_id {
                Some(TransactionFault::SameAccount)
            } else {
                None
            }
        }),
{
}

/// What is looked at first, the account alone, is what the whole says of it.
pub proof fn law_account_is_looked_at_first(
    account_id: i64,
    account: Option<AccountFacts>,
    opposing_account_id: i64,
    opposing: Option<AccountFacts>,
    opposing_amount: Option<i64>,
)
    ensures
        account_fault(account_id, account) is None <==> account is Some
            && account->0.account_type@ == "own"@,
        account_fault(account_id, account) is Some ==> account_fault(account_id, account)
            == transaction_fault(
            account_id,
            account,
            opposing_account_id,
            opposing,
            opposing_amount,
        ),
{
}

/// A date is refused exactly where it is none.
pub proof fn law_date_is_refused_where_it_is_none(date: Seq<char>)
    ensures
        date_fault(date) == if dates::is_date(date) {
            None
        } else {
            Some(TransactionFault::MalformedDate)
        },
{
}

/// Every fault is told in its own words, with the id of the account that it is about.
pub proof fn law_words_of_faults(id: i64)
    ensures
        fault_message(TransactionFault::UnknownAccount(id)) == "account "@ + text::decimal(id as int)
            + " does not exist"@,
        fault_message(TransactionFault::NotOwn(id)) == "account "@ + text::decimal(id as int)
            + " must be of type 'own'"@,
        fault_message(TransactionFault::OpposingAmountRequired)
            == "opposing_amount is required when both accounts are 'own' with differing currencies"@,
        fault_message(TransactionFault::OpposingAmountNotAllowed)
            == "opposing_amount must be NULL unless both accounts are 'own' with differing currencies"@,
        fault_message(TransactionFault::SameAccount)
            == "account_id and opposing_account_id must differ"@,
        fault_message(TransactionFault::MalformedDate)
            == "date must be a calendar date (YYYY-MM-DD) or an RFC 3339 timestamp"@,
{
}

} // verus!
