//! A bilateral escrow engine.
//!
//! One party deposits a payment and names the only counterparty allowed to
//! complete the trade by depositing an agreed reciprocal payment; until then
//! the depositor may reclaim the deposit. The engine owns the offer store,
//! the id sequence and the two lookup indexes, decides which ledger transfers
//! each operation requires, and hands those transfers back to the host as
//! plain values; the host performs them and guarantees that each operation
//! commits atomically or not at all.

pub mod escrow;
pub mod index;
pub mod laws;
pub mod offer;
