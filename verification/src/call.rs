//! The calls that the ledger takes, and the events that it answers with.

use vstd::prelude::*;
use crate::bytes::{bytes_copy, opt_view};
use crate::pallet::Pallet;
use crate::state::State;
use crate::table::views;
use crate::types::{
    meets, AccountId, Change, ChangeView, Error, Interpretation, InterpretationId,
    InterpretationTypeId, InterpretationView, ItemId, ProposalId, ProposalState, TemplateId,
};

verus! {

/// What a call that succeeded has done.
#[derive(Debug, PartialEq, Eq)]
pub enum Event {
    InterpretationTagCreated { tag: Vec<u8> },
    InterpretationTypeCreated { name: Vec<u8>, type_id: InterpretationTypeId },
    InterpretationCreated { name: Vec<u8>, interpretation_id: InterpretationId },
    TemplateCreated { template_name: Vec<u8>, template_id: TemplateId },
    TemplateUpdated { template_id: TemplateId },
    TemplateDestroyed { template_id: TemplateId },
    ItemMinted { template_id: TemplateId, item_id: ItemId },
    ItemBurned { template_id: TemplateId, item_id: ItemId },
    ItemTransfered { template_id: TemplateId, item_id: ItemId, destination: AccountId },
    ItemUpdated { template_id: TemplateId, item_id: ItemId },
    ProposalSubmitted { proposal_id: ProposalId },
    ProposalApproved { proposal_id: ProposalId },
    ProposalRejected { proposal_id: ProposalId },
}

/// The model of an event.
pub enum EventView {
    InterpretationTagCreated { tag: Seq<u8> },
    InterpretationTypeCreated { name: Seq<u8>, type_id: InterpretationTypeId },
    InterpretationCreated { name: Seq<u8>, interpretation_id: InterpretationId },
    TemplateCreated { template_name: Seq<u8>, template_id: TemplateId },
    TemplateUpdated { template_id: TemplateId },
    TemplateDestroyed { template_id: TemplateId },
    ItemMinted { template_id: TemplateId, item_id: ItemId },
    ItemBurned { template_id: TemplateId, item_id: ItemId },
    ItemTransfered { template_id: TemplateId, item_id: ItemId, destination: AccountId },
    ItemUpdated { template_id: TemplateId, item_id: ItemId },
    ProposalSubmitted { proposal_id: ProposalId },
    ProposalApproved { proposal_id: ProposalId },
    ProposalRejected { proposal_id: ProposalId },
}

impl View for Event {
    type V = EventView;

    open spec fn view(&self) -> EventView {
        match *self {
            Event::InterpretationTagCreated { tag } => EventView::InterpretationTagCreated {
                tag: tag@,
            },
            Event::InterpretationTypeCreated {
                name,
                type_id,
            } => EventView::InterpretationTypeCreated { name: name@, type_id },
            Event::InterpretationCreated { name, interpretation_id } => EventView::InterpretationCreated {
                name: name@,
                interpretation_id,
            },
            Event::TemplateCreated { template_name, template_id } => EventView::TemplateCreated {
                template_name: template_name@,
                template_id,
            },
            Event::TemplateUpdated { template_id } => EventView::TemplateUpdated { template_id },
            Event::TemplateDestroyed { template_id } => EventView::TemplateDestroyed {
                template_id,
            },
            Event::ItemMinted { template_id, item_id } => EventView::ItemMinted {
                template_id,
                item_id,
            },
            Event::ItemBurned { template_id, item_id } => EventView::ItemBurned {
                template_id,
                item_id,
            },
            Event::ItemTransfered { template_id, item_id, destination } => EventView::ItemTransfered {
                template_id,
                item_id,
                destination,
            },
            Event::ItemUpdated { template_id, item_id } => EventView::ItemUpdated {
                template_id,
                item_id,
            },
            Event::ProposalSubmitted { proposal_id } => EventView::ProposalSubmitted {
                proposal_id,
            },
            Event::ProposalApproved { proposal_id } => EventView::ProposalApproved {
                proposal_id,
            },
            Event::ProposalRejected { proposal_id } => EventView::ProposalRejected {
                proposal_id,
            },
        }
    }
}

/// A call into the ledger, as its users make it.
#[allow(inconsistent_fields)]
#[derive(Debug, PartialEq, Eq)]
pub enum Call {
    CreateInterpretationTag { tag: Vec<u8>, metadata: Vec<u8> },
    CreateInterpretationType { name: Vec<u8>, metadata: Vec<u8> },
    CreateInterpretation {
        interpretation_type: Vec<u8>,
        name: Vec<u8>,
        src: Option<Vec<u8>>,
        metadata: Option<Vec<u8>>,
    },
    CreateTemplate {
        template_name: Vec<u8>,
        metadata: Vec<u8>,
        max: Option<u32>,
        interpretations: Vec<Interpretation>,
    },
    DestroyTemplate { template_id: TemplateId },
    UpdateTemplate { template_id: TemplateId, proposal_id: ProposalId },
    MintItemFromTemplate { owner: AccountId, template_id: TemplateId, metadata: Vec<u8> },
    BurnItem { template_id: TemplateId, item_id: ItemId },
    TransferItem { template_id: TemplateId, item_id: ItemId, destination: AccountId },
    AcceptItemUpdate { template_id: TemplateId, item_id: ItemId },
    UpdateItem { template_id: TemplateId, item_id: ItemId },
    SubmitTemplateChangeProposal {
        author: AccountId,
        template_id: TemplateId,
        change_set: Vec<Change>,
    },
    ApproveProposal { proposal_id: ProposalId },
    RejectProposal { proposal_id: ProposalId },
}

/// The model of a call.
pub enum CallView {
    CreateInterpretationTag { tag: Seq<u8>, metadata: Seq<u8> },
    CreateInterpretationType { name: Seq<u8>, metadata: Seq<u8> },
    CreateInterpretation {
        interpretation_type: Seq<u8>,
        name: Seq<u8>,
        src: Option<Seq<u8>>,
        content: Option<Seq<u8>>,
    },
    CreateTemplate {
        template_name: Seq<u8>,
        metadata: Seq<u8>,
        max: Option<u32>,
        interpretations: Seq<InterpretationView>,
    },
    DestroyTemplate { template_id: TemplateId },
    UpdateTemplate { template_id: TemplateId, proposal_id: ProposalId },
    MintItemFromTemplate { owner: AccountId, template_id: TemplateId, metadata: Seq<u8> },
    BurnItem { template_id: TemplateId, item_id: ItemId },
    TransferItem { template_id: TemplateId, item_id: ItemId, destination: AccountId },
    AcceptItemUpdate { template_id: TemplateId, item_id: ItemId },
    UpdateItem { template_id: TemplateId, item_id: ItemId },
    SubmitTemplateChangeProposal {
        author: AccountId,
        template_id: TemplateId,
        change_set: Seq<ChangeView>,
    },
    ApproveProposal { proposal_id: ProposalId },
    RejectProposal { proposal_id: ProposalId },
}

impl View for Call {
    type V = CallView;

    open spec fn view(&self) -> CallView {
        match *self {
            Call::CreateInterpretationTag { tag, metadata } => CallView::CreateInterpretationTag {
                tag: tag@,
                metadata: metadata@,
            },
            Call::CreateInterpretationType {
                name,
                metadata,
            } => CallView::CreateInterpretationType { name: name@, metadata: metadata@ },
            Call::CreateInterpretation {
                interpretation_type,
                name,
                src,
                metadata,
            } => CallView::CreateInterpretation {
                interpretation_type: interpretation_type@,
                name: name@,
                src: opt_view(src),
                content: opt_view(metadata),
            },
            Call::CreateTemplate {
                template_name,
                metadata,
                max,
                interpretations,
            } => CallView::CreateTemplate {
                template_name: template_name@,
                metadata: metadata@,
                max,
                interpretations: views(interpretations@),
            },
            Call::DestroyTemplate { template_id } => CallView::DestroyTemplate { template_id },
            Call::UpdateTemplate { template_id, proposal_id } => CallView::UpdateTemplate {
                template_id,
                proposal_id,
            },
            Call::MintItemFromTemplate {
                owner,
                template_id,
                metadata,
            } => CallView::MintItemFromTemplate { owner, template_id, metadata: metadata@ },
            Call::BurnItem { template_id, item_id } => CallView::BurnItem { template_id, item_id },
            Call::TransferItem { template_id, item_id, destination } => CallView::TransferItem {
                template_id,
                item_id,
                destination,
            },
            Call::AcceptItemUpdate { template_id, item_id } => CallView::AcceptItemUpdate {
                template_id,
                item_id,
            },
            Call::UpdateItem { template_id, item_id } => CallView::UpdateItem {
                template_id,
                item_id,
            },
            Call::SubmitTemplateChangeProposal {
                author,
                template_id,
                change_set,
            } => CallView::SubmitTemplateChangeProposal {
                author,
                template_id,
                change_set: views(change_set@),
            },
            Call::ApproveProposal { proposal_id } => CallView::ApproveProposal { proposal_id },
            Call::RejectProposal { proposal_id } => CallView::RejectProposal { proposal_id },
        }
    }
}

impl State {
    /// The ledger after `sender` made a call, or why the call is refused.
    pub open spec fn dispatch(self, sender: AccountId, call: CallView) -> Result<State, Error> {
        match call {
            CallView::CreateInterpretationTag { tag, metadata } => self.create_interpretation_tag(
                tag,
                metadata,
            ),
            CallView::CreateInterpretationType {
                name,
                metadata,
            } => self.create_interpretation_type(name, metadata),
            CallView::CreateInterpretation {
                interpretation_type,
                name,
                src,
                content,
            } => self.create_interpretation(interpretation_type, name, src, content),
            CallView::CreateTemplate {
                template_name,
                metadata,
                max,
                interpretations,
            } => self.create_template(sender, template_name, metadata, max, interpretations),
            CallView::DestroyTemplate { template_id } => self.destroy_template(sender, template_id),
            CallView::UpdateTemplate { template_id, proposal_id } => self.update_template(
                sender,
                template_id,
                proposal_id,
            ),
            CallView::MintItemFromTemplate {
                owner,
                template_id,
                metadata,
            } => self.mint_item_from_template(sender, owner, template_id, metadata),
            CallView::BurnItem { template_id, item_id } => self.burn_item(template_id, item_id),
            CallView::TransferItem { template_id, item_id, destination } => self.transfer_item(
                sender,
                template_id,
                item_id,
                destination,
            ),
            CallView::AcceptItemUpdate { template_id, item_id } => self.accept_item_update(
                sender,
                template_id,
                item_id,
            ),
            CallView::UpdateItem { template_id, item_id } => self.update_item(
                sender,
                template_id,
                item_id,
            ),
            CallView::SubmitTemplateChangeProposal {
                author,
                template_id,
                change_set,
            } => self.submit_proposal(author, template_id, change_set),
            CallView::ApproveProposal { proposal_id } => self.review_proposal(
                sender,
                proposal_id,
                ProposalState::Approved,
            ),
            CallView::RejectProposal { proposal_id } => self.review_proposal(
                sender,
                proposal_id,
                ProposalState::Rejected,
            ),
        }
    }
}

impl State {
    /// What a call that succeeds has done: the event names what was created
    /// with the number that it was given.
    pub open spec fn event(self, call: CallView) -> EventView {
        match call {
            CallView::CreateInterpretationTag { tag, metadata } => EventView::InterpretationTagCreated {
                tag,
            },
            CallView::CreateInterpretationType {
                name,
                metadata,
            } => EventView::InterpretationTypeCreated { name, type_id: self.next_type_id },
            CallView::CreateInterpretation {
                interpretation_type,
                name,
                src,
                content,
            } => EventView::InterpretationCreated {
                name,
                interpretation_id: self.next_interpretation_id,
            },
            CallView::CreateTemplate {
                template_name,
                metadata,
                max,
                interpretations,
            } => EventView::TemplateCreated { template_name, template_id: self.next_template_id },
            CallView::DestroyTemplate { template_id } => EventView::TemplateDestroyed {
                template_id,
            },
            CallView::UpdateTemplate { template_id, proposal_id } => EventView::TemplateUpdated {
                template_id,
            },
            CallView::MintItemFromTemplate { owner, template_id, metadata } => EventView::ItemMinted {
                template_id,
                item_id: self.templates[template_id].next_item_id,
            },
            CallView::BurnItem { template_id, item_id } => EventView::ItemBurned {
                template_id,
                item_id,
            },
            CallView::TransferItem { template_id, item_id, destination } => EventView::ItemTransfered {
                template_id,
                item_id,
                destination,
            },
            CallView::AcceptItemUpdate { template_id, item_id } => EventView::ItemUpdated {
                template_id,
                item_id,
            },
            CallView::UpdateItem { template_id, item_id } => EventView::ItemUpdated {
                template_id,
                item_id,
            },
            CallView::SubmitTemplateChangeProposal {
                author,
                template_id,
                change_set,
            } => EventView::ProposalSubmitted { proposal_id: self.next_proposal_id },
            CallView::ApproveProposal { proposal_id } => EventView::ProposalApproved {
                proposal_id,
            },
            CallView::RejectProposal { proposal_id } => EventView::ProposalRejected {
                proposal_id,
            },
        }
    }
}

impl Pallet {
    /// Makes a call in the name of `sender` and says what it has done.
    pub fn dispatch(&mut self, sender: AccountId, call: Call) -> (r: Result<Event, Error>)
        ensures
            meets(old(self)@.dispatch(sender, call@), old(self)@, final(self)@, r),
            r matches Ok(ev) ==> ev@ == old(self)@.event(call@),
    {
        match call {
            Call::CreateInterpretationTag { tag, metadata } => {
                let named = bytes_copy(&tag);
                match self.create_interpretation_tag(tag, metadata) {
                    Ok(()) => Ok(Event::InterpretationTagCreated { tag: named }),
                    Err(e) => Err(e),
                }
            },
            Call::CreateInterpretationType { name, metadata } => {
                let named = bytes_copy(&name);
                match self.create_interpretation_type(name, metadata) {
                    Ok(type_id) => Ok(Event::InterpretationTypeCreated { name: named, type_id }),
                    Err(e) => Err(e),
                }
            },
            Call::CreateInterpretation { interpretation_type, name, src, metadata } => {
                let named = bytes_copy(&name);
                match self.create_interpretation(&interpretation_type, name, src, metadata) {
                    Ok(interpretation_id) => Ok(
                        Event::InterpretationCreated { name: named, interpretation_id },
                    ),
                    Err(e) => Err(e),
                }
            },
            Call::CreateTemplate { template_name, metadata, max, interpretations } => {
                let named = bytes_copy(&template_name);
                match self.create_template(sender, template_name, metadata, max, interpretations) {
                    Ok(template_id) => Ok(
                        Event::TemplateCreated { template_name: named, template_id },
                    ),
                    Err(e) => Err(e),
                }
            },
            Call::DestroyTemplate { template_id } => {
                match self.destroy_template(sender, template_id) {
                    Ok(()) => Ok(Event::TemplateDestroyed { template_id }),
                    Err(e) => Err(e),
                }
            },
            Call::UpdateTemplate { template_id, proposal_id } => {
                match self.update_template(sender, template_id, proposal_id) {
                    Ok(()) => Ok(Event::TemplateUpdated { template_id }),
                    Err(e) => Err(e),
                }
            },
            Call::MintItemFromTemplate { owner, template_id, metadata } => {
                match self.mint_item_from_template(sender, owner, template_id, metadata) {
                    Ok(item_id) => Ok(Event::ItemMinted { template_id, item_id }),
                    Err(e) => Err(e),
                }
            },
            Call::BurnItem { template_id, item_id } => {
                match self.burn_item(template_id, item_id) {
                    Ok(()) => Ok(Event::ItemBurned { template_id, item_id }),
                    Err(e) => Err(e),
                }
            },
            Call::TransferItem { template_id, item_id, destination } => {
                match self.transfer_item(sender, template_id, item_id, destination) {
                    Ok(()) => Ok(Event::ItemTransfered { template_id, item_id, destination }),
                    Err(e) => Err(e),
                }
            },
            Call::AcceptItemUpdate { template_id, item_id } => {
                match self.accept_item_update(sender, template_id, item_id) {
                    Ok(()) => Ok(Event::ItemUpdated { template_id, item_id }),
                    Err(e) => Err(e),
                }
            },
            Call::UpdateItem { template_id, item_id } => {
                match self.update_item(sender, template_id, item_id) {
                    Ok(()) => Ok(Event::ItemUpdated { template_id, item_id }),
                    Err(e) => Err(e),
                }
            },
            Call::SubmitTemplateChangeProposal { author, template_id, change_set } => {
                match self.submit_template_change_proposal(author, template_id, change_set) {
                    Ok(proposal_id) => Ok(Event::ProposalSubmitted { proposal_id }),
                    Err(e) => Err(e),
                }
            },
            Call::ApproveProposal { proposal_id } => {
                match self.approve_proposal(sender, proposal_id) {
                    Ok(()) => Ok(Event::ProposalApproved { proposal_id }),
                    Err(e) => Err(e),
                }
            },
            Call::RejectProposal { proposal_id } => {
                match self.reject_proposal(sender, proposal_id) {
                    Ok(()) => Ok(Event::ProposalRejected { proposal_id }),
                    Err(e) => Err(e),
                }
            },
        }
    }
}

} // verus!
