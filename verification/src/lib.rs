//! A ledger of interpretations: a registry of tags and interpretation types,
//! templates that declare which interpretations their items carry, items
//! minted from templates, and proposals whose change sets evolve a template
//! and are reconciled into the items minted from it.
//!
//! The ledger is a state machine. `state` holds its model and says what each
//! operation makes of a state; `pallet` holds the ledger itself, each of its
//! operations proved to do what the model says, and `call` the one entry
//! through which a caller reaches them all; `template` and `item` hold the
//! two parts that the ledger is made of, with the changes of a template and
//! the acceptance of what is pending on an item; `laws` holds what follows
//! for every state.
//!
//! `table`, `tags`, `ids` and `bytes` are what the ledger is built from:
//! finite maps, sets of names, counters and byte strings.

pub mod bytes;
pub mod table;
pub mod tags;
pub mod types;
pub mod ids;
pub mod item;
pub mod template;
pub mod state;
pub mod pallet;
pub mod genesis;
pub mod call;
pub mod laws;
pub mod game;
