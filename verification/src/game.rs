//! The record of a game in the ticket registry, and the witness that is
//! asked for when a game is destroyed.

use vstd::prelude::*;
use crate::types::{AccountId, TemplateId};

verus! {

/// What is kept of a game.
#[derive(Debug, PartialEq, Eq, Default)]
pub struct GameDetails {
    /// Can change the owner, issuers, admins and freezers.
    pub owner: AccountId,
    /// Can mint tickets.
    pub issuers: Vec<AccountId>,
    /// Can thaw tickets, force transfers and burn tickets from any account.
    pub admins: Vec<AccountId>,
    /// Can freeze tickets.
    pub freezers: Vec<AccountId>,
    /// The price of the game.
    pub price: Option<u128>,
    /// The number of tickets of the game.
    pub instances: u32,
    /// The number of tickets of the game that have metadata.
    pub instance_metadatas: u32,
    /// The number of attributes of the game.
    pub attributes: u32,
    /// Whether the tickets are frozen for transfers by others than admins.
    pub is_frozen: bool,
    /// The templates that the game supports.
    pub templates: Option<Vec<TemplateId>>,
    /// The assets that go with the game.
    pub assets: Option<Vec<u32>>,
    /// Whether an account that is no issuer may mint tickets.
    pub allow_unprivileged_mint: bool,
}

/// The counts that a caller has to know of a game to destroy it.
#[derive(Debug, Clone, Copy, PartialEq, Eq)]
pub struct DestroyWitness {
    /// The number of tickets of the game.
    pub instances: u32,
    /// The number of tickets of the game that have metadata.
    pub instance_metadatas: u32,
    /// The number of attributes of the game.
    pub attributes: u32,
}

impl GameDetails {
    /// The witness that matches the game as it is now.
    pub fn destroy_witness(&self) -> (w: DestroyWitness)
        ensures
            w == (DestroyWitness {
                instances: self.instances,
                instance_metadatas: self.instance_metadatas,
                attributes: self.attributes,
            }),
    {
        DestroyWitness {
            instances: self.instances,
            instance_metadatas: self.instance_metadatas,
            attributes: self.attributes,
        }
    }
}

} // verus!
