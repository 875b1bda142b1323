//! Pennywise: the rules of a small personal finance ledger.
//!
//! What a request asks for is found out first (`routing`, `dispatch`). It is carried out as a
//! conversation (`protocol`): the ledger puts one SQL statement after
//! another (`statements`) to a database whose tables are those of `schema`, and goes on by what came
//! of each (`db`), until it replies (`reply`).
//!
//! `laws` states what holds of whole conversations, whatever the database answers. `tables` models the
//! tables and what each statement does to them, `effects` holds the words of each statement against
//! that, `histories` states what then holds of the stored rows, and `batches` how a batch compares with
//! its transactions created one by one.
//!
//! Nothing here opens a file or a socket. What is taken on trust are the contracts of `String::push`
//! (`text`) and of the calls into `serde_json` (`json`).

pub mod accounts;
pub mod batches;
pub mod categories;
pub mod config;
pub mod currencies;
pub mod dates;
pub mod db;
pub mod dispatch;
pub mod effects;
pub mod histories;
pub mod json;
pub mod laws;
pub mod protocol;
pub mod records;
pub mod reply;
pub mod routing;
pub mod schema;
pub mod statements;
pub mod tables;
pub mod text;
pub mod transactions;
pub mod validation;
