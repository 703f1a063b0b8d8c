//! What holds of the ledger whatever is done with it.

pub mod frame;
pub mod numbering;
pub mod properties;
pub mod sync;
