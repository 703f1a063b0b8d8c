//! The numbers that the ledger hands out are handed out once.

use vstd::prelude::*;
use crate::call::CallView;
use crate::item::ItemView;
use crate::laws::frame::{law_change_frame, law_change_set_frame, lemma_bind_all_frame};
use crate::state::{Config, State};
use crate::template::TemplateView;
use crate::types::{AccountId, ChangeView, EntryView, ItemId, ProposalId, TemplateId};

verus! {

/// Whether the items of a template have numbers that the template has
/// handed out, and the template has handed out no number beyond `limit` or
/// beyond its own maximum.
pub open spec fn numbered(t: TemplateView, limit: u32) -> bool {
    &&& forall|i: ItemId| #[trigger] t.items.contains_key(i) ==> i < t.next_item_id
    &&& t.next_item_id <= limit
    &&& t.max matches Some(m) ==> t.next_item_id <= m
}

/// Whether everything that the ledger numbers has a number that the ledger
/// has handed out.
pub open spec fn well_numbered(s: State) -> bool {
    &&& forall|t: TemplateId| #[trigger]
        s.templates.contains_key(t) ==> t < s.next_template_id && numbered(
            s.templates[t],
            s.config.item_limit,
        )
    &&& forall|p: ProposalId| #[trigger] s.proposals.contains_key(p) ==> p < s.next_proposal_id
    &&& forall|n: Seq<u8>| #[trigger] s.types.contains_key(n) ==> s.types[n].id < s.next_type_id
    &&& forall|n: Seq<u8>| #[trigger]
        s.interpretations.contains_key(n) ==> s.interpretations[n].id < s.next_interpretation_id
}

/// A new ledger is well numbered.
pub proof fn law_initial_numbering(config: Config)
    ensures
        well_numbered(State::initial(config)),
{
}

/// In a well-numbered ledger the next numbers are free: what is created
/// next takes the place of nothing, and no two interpretation types, nor two
/// registered interpretations, have the same number.
pub proof fn law_next_numbers_are_free(s: State)
    requires
        well_numbered(s),
    ensures
        !s.templates.contains_key(s.next_template_id),
        !s.proposals.contains_key(s.next_proposal_id),
        forall|t: TemplateId| #[trigger]
            s.templates.contains_key(t) ==> !s.templates[t].items.contains_key(
                s.templates[t].next_item_id,
            ),
        forall|n: Seq<u8>| #[trigger] s.types.contains_key(n) ==> s.types[n].id != s.next_type_id,
        forall|n: Seq<u8>| #[trigger]
            s.interpretations.contains_key(n) ==> s.interpretations[n].id
                != s.next_interpretation_id,
        forall|t: TemplateId, i: ItemId|
            s.templates.contains_key(t) && #[trigger] s.templates[t].items.contains_key(i) ==> i
                < s.config.item_limit,
{
}

/// A change keeps a template's items numbered as they were.
pub proof fn law_change_keeps_numbering(
    s: State,
    sender: AccountId,
    template_id: TemplateId,
    change: ChangeView,
)
    requires
        well_numbered(s),
        s.apply_changes(sender, template_id, change) is Ok,
    ensures
        well_numbered(s.apply_changes(sender, template_id, change).unwrap()),
{
    law_change_frame(s.templates[template_id], sender, s.pushes(), change);
}

/// Every call keeps the ledger well numbered.
pub proof fn law_calls_keep_numbering(s: State, sender: AccountId, call: CallView)
    requires
        well_numbered(s),
        s.dispatch(sender, call) is Ok,
    ensures
        well_numbered(s.dispatch(sender, call).unwrap()),
{
    let after = s.dispatch(sender, call).unwrap();
    match call {
        CallView::UpdateTemplate { template_id, proposal_id } => {
            law_change_set_frame(
                s.templates[template_id],
                sender,
                s.pushes(),
                s.proposals[proposal_id].change_set,
            );
        },
        CallView::CreateTemplate { template_name, metadata, max, interpretations } => {
            lemma_bind_all_frame(
                TemplateView {
                    issuer: sender,
                    name: template_name,
                    metadata,
                    max,
                    next_item_id: 0,
                    interpretations: Map::<Seq<u8>, EntryView>::empty(),
                    items: Map::<ItemId, ItemView>::empty(),
                },
                interpretations,
            );
        },
        _ => {},
    }
}

} // verus!
