//! What a change leaves alone.

use vstd::prelude::*;
use crate::template::TemplateView;
use crate::types::{AccountId, ChangeView, InfoView, InterpretationView, ItemId};

verus! {

/// Whether two templates differ in nothing but what they and their items
/// hold: the issuer, the numbering and the owners of the items are the same.
pub open spec fn same_frame(a: TemplateView, b: TemplateView) -> bool {
    &&& a.issuer == b.issuer
    &&& a.name == b.name
    &&& a.metadata == b.metadata
    &&& a.max == b.max
    &&& a.next_item_id == b.next_item_id
    &&& a.items.dom() == b.items.dom()
    &&& forall|i: ItemId| #[trigger]
        a.items.contains_key(i) ==> a.items[i].owner == b.items[i].owner && a.items[i].metadata
            == b.items[i].metadata
}

pub(crate) proof fn lemma_add_all_frame(
    t: TemplateView,
    sender: AccountId,
    push: bool,
    xs: Seq<(InfoView, Set<Seq<u8>>)>,
)
    ensures
        same_frame(t, t.add_all(sender, push, xs)),
    decreases xs.len(),
{
    if xs.len() > 0 {
        lemma_add_all_frame(t, sender, push, xs.drop_last());
        let q = t.add_all(sender, push, xs.drop_last());
        let r = t.add_all(sender, push, xs);
        assert(r.items.dom() =~= q.items.dom());
    }
}

pub(crate) proof fn lemma_modify_all_frame(t: TemplateView, sender: AccountId, push: bool, xs: Seq<InfoView>)
    ensures
        same_frame(t, t.modify_all(sender, push, xs)),
    decreases xs.len(),
{
    if xs.len() > 0 {
        lemma_modify_all_frame(t, sender, push, xs.drop_last());
        let q = t.modify_all(sender, push, xs.drop_last());
        let r = t.modify_all(sender, push, xs);
        assert(r.items.dom() =~= q.items.dom());
    }
}

/// A change touches what a template and its items hold, and nothing else:
/// not the issuer, not the numbering, not which items there are nor whose
/// they are.
pub proof fn law_change_frame(t: TemplateView, sender: AccountId, push: bool, change: ChangeView)
    requires
        t.apply(sender, push, change) is Ok,
    ensures
        same_frame(t, t.apply(sender, push, change).unwrap()),
{
    let r = t.apply(sender, push, change).unwrap();
    match change {
        ChangeView::Add { interpretations } => {
            lemma_add_all_frame(t, sender, push, interpretations);
        },
        ChangeView::Modify { interpretations } => {
            lemma_modify_all_frame(t, sender, push, interpretations);
        },
        _ => {
            assert(r.items.dom() =~= t.items.dom());
        },
    }
}

/// A change set touches what a template and its items hold, and nothing
/// else.
pub proof fn law_change_set_frame(
    t: TemplateView,
    sender: AccountId,
    push: bool,
    changes: Seq<ChangeView>,
)
    requires
        t.apply_all(sender, push, changes) is Ok,
    ensures
        same_frame(t, t.apply_all(sender, push, changes).unwrap()),
    decreases changes.len(),
{
    if changes.len() > 0 {
        let q = t.apply_all(sender, push, changes.drop_last());
        law_change_set_frame(t, sender, push, changes.drop_last());
        law_change_frame(q.unwrap(), sender, push, changes.last());
    }
}

pub(crate) proof fn lemma_bind_all_frame(t: TemplateView, xs: Seq<InterpretationView>)
    ensures
        t.bind_all(xs).items == t.items,
        t.bind_all(xs).next_item_id == t.next_item_id,
        t.bind_all(xs).issuer == t.issuer,
    decreases xs.len(),
{
    if xs.len() > 0 {
        lemma_bind_all_frame(t, xs.drop_last());
    }
}

} // verus!
