//! How the items follow their template: where changes are pushed they hold
//! what the template holds after every change, where changes are pulled they
//! do so once their owners have reconciled them, and for an item of the
//! issuer the two come to the same.

use vstd::prelude::*;
use crate::call::CallView;
use crate::item::ItemView;
use crate::laws::frame::{
    law_change_set_frame, lemma_add_all_frame, lemma_bind_all_frame, lemma_modify_all_frame,
};
use crate::state::{Config, State};
use crate::template::TemplateView;
use crate::types::{AccountId, ChangeView, EntryView, InfoView, ItemId, TemplateId};

verus! {

/// Whether an item holds what `entries` holds, and no resource that awaits
/// removal is among what the item holds.
pub open spec fn item_in_sync(it: ItemView, entries: Map<Seq<u8>, EntryView>) -> bool {
    &&& it.snapshot() =~= entries
    &&& forall|id: Seq<u8>| #[trigger]
        it.resources.contains_key(id) && it.resources[id].pending_removal
            ==> !it.tags.contains_key(id)
}

/// Whether every item of a template holds what the template holds.
pub open spec fn in_sync(t: TemplateView) -> bool {
    forall|i: ItemId| #[trigger] t.items.contains_key(i) ==> item_in_sync(
        t.items[i],
        t.interpretations,
    )
}

proof fn lemma_add_all_sync(
    t: TemplateView,
    sender: AccountId,
    xs: Seq<(InfoView, Set<Seq<u8>>)>,
)
    requires
        in_sync(t),
    ensures
        in_sync(t.add_all(sender, true, xs)),
    decreases xs.len(),
{
    if xs.len() > 0 {
        lemma_add_all_sync(t, sender, xs.drop_last());
        let q = t.add_all(sender, true, xs.drop_last());
        let r = t.add_all(sender, true, xs);
        assert forall|i: ItemId| #[trigger] r.items.contains_key(i) implies item_in_sync(
            r.items[i],
            r.interpretations,
        ) by {
            assert(q.items.contains_key(i));
            assert(item_in_sync(q.items[i], q.interpretations));
        }
    }
}

proof fn lemma_modify_all_sync(t: TemplateView, sender: AccountId, xs: Seq<InfoView>)
    requires
        in_sync(t),
        forall|i: int| 0 <= i < xs.len() ==> t.interpretations.contains_key((#[trigger] xs[i]).id),
    ensures
        in_sync(t.modify_all(sender, true, xs)),
        t.modify_all(sender, true, xs).interpretations.dom() == t.interpretations.dom(),
    decreases xs.len(),
{
    if xs.len() > 0 {
        let ys = xs.drop_last();
        assert forall|i: int| 0 <= i < ys.len() implies t.interpretations.contains_key(
            (#[trigger] ys[i]).id,
        ) by {
            assert(ys[i] == xs[i]);
        }
        lemma_modify_all_sync(t, sender, ys);
        let q = t.modify_all(sender, true, ys);
        let r = t.modify_all(sender, true, xs);
        let info = xs.last();
        assert(t.interpretations.contains_key(xs[xs.len() - 1].id));
        assert(q.interpretations.dom().contains(info.id));
        assert(r.interpretations.dom() =~= q.interpretations.dom());
        assert forall|i: ItemId| #[trigger] r.items.contains_key(i) implies item_in_sync(
            r.items[i],
            r.interpretations,
        ) by {
            assert(q.items.contains_key(i));
            assert(item_in_sync(q.items[i], q.interpretations));
            assert(q.items[i].snapshot().contains_key(info.id));
        }
    } else {
        assert(t.modify_all(sender, true, xs).interpretations.dom() =~= t.interpretations.dom());
    }
}

/// Where changes are pushed, a change leaves every item holding what the
/// template holds, if the items did so before.
pub proof fn law_push_keeps_items_in_sync(t: TemplateView, sender: AccountId, change: ChangeView)
    requires
        in_sync(t),
        t.apply(sender, true, change) is Ok,
    ensures
        in_sync(t.apply(sender, true, change).unwrap()),
{
    let r = t.apply(sender, true, change).unwrap();
    match change {
        ChangeView::Add { interpretations } => {
            lemma_add_all_sync(t, sender, interpretations);
        },
        ChangeView::Modify { interpretations } => {
            lemma_modify_all_sync(t, sender, interpretations);
        },
        ChangeView::ModifyTags { interpretation_id, tags } => {
            assert forall|i: ItemId| #[trigger] r.items.contains_key(i) implies item_in_sync(
                r.items[i],
                r.interpretations,
            ) by {
                assert(t.items.contains_key(i));
                assert(item_in_sync(t.items[i], t.interpretations));
                assert(t.items[i].snapshot().contains_key(interpretation_id));
            }
        },
        ChangeView::RemoveInterpretation { interpretation_id } => {
            assert forall|i: ItemId| #[trigger] r.items.contains_key(i) implies item_in_sync(
                r.items[i],
                r.interpretations,
            ) by {
                assert(t.items.contains_key(i));
                assert(item_in_sync(t.items[i], t.interpretations));
            }
        },
        ChangeView::RemoveInterpretationType { interpretation_type } => {
            assert forall|i: ItemId| #[trigger] r.items.contains_key(i) implies item_in_sync(
                r.items[i],
                r.interpretations,
            ) by {
                assert(t.items.contains_key(i));
                assert(item_in_sync(t.items[i], t.interpretations));
            }
        },
    }
}

/// Where changes are pushed, a change set leaves every item holding what the
/// template holds, if the items did so before.
pub proof fn law_push_keeps_items_in_sync_over_sets(
    t: TemplateView,
    sender: AccountId,
    changes: Seq<ChangeView>,
)
    requires
        in_sync(t),
        t.apply_all(sender, true, changes) is Ok,
    ensures
        in_sync(t.apply_all(sender, true, changes).unwrap()),
    decreases changes.len(),
{
    if changes.len() > 0 {
        law_push_keeps_items_in_sync_over_sets(t, sender, changes.drop_last());
        law_push_keeps_items_in_sync(
            t.apply_all(sender, true, changes.drop_last()).unwrap(),
            sender,
            changes.last(),
        );
    }
}

/// What is done to the items themselves keeps them holding what their
/// template holds: minting, burning, handing on, accepting, reconciling.
pub proof fn law_item_calls_keep_sync(
    t: TemplateView,
    sender: AccountId,
    owner: AccountId,
    metadata: Seq<u8>,
    item_id: ItemId,
    destination: AccountId,
    limit: u32,
)
    requires
        in_sync(t),
    ensures
        t.minted(sender, owner, metadata, limit) is Ok ==> in_sync(
            t.minted(sender, owner, metadata, limit).unwrap(),
        ),
        t.burned(item_id) is Ok ==> in_sync(t.burned(item_id).unwrap()),
        t.transferred(sender, item_id, destination) is Ok ==> in_sync(
            t.transferred(sender, item_id, destination).unwrap(),
        ),
        t.accepted(sender, item_id) is Ok ==> in_sync(t.accepted(sender, item_id).unwrap()),
        t.item_updated(sender, item_id) is Ok ==> in_sync(t.item_updated(sender, item_id).unwrap()),
{
    if t.minted(sender, owner, metadata, limit) is Ok {
        let r = t.minted(sender, owner, metadata, limit).unwrap();
        assert forall|i: ItemId| #[trigger] r.items.contains_key(i) implies item_in_sync(
            r.items[i],
            r.interpretations,
        ) by {
            if i != t.next_item_id {
                assert(t.items.contains_key(i));
            }
        }
    }
    if t.burned(item_id) is Ok {
        let r = t.burned(item_id).unwrap();
        assert forall|i: ItemId| #[trigger] r.items.contains_key(i) implies item_in_sync(
            r.items[i],
            r.interpretations,
        ) by {
            assert(t.items.contains_key(i));
        }
    }
    if t.transferred(sender, item_id, destination) is Ok {
        let r = t.transferred(sender, item_id, destination).unwrap();
        assert forall|i: ItemId| #[trigger] r.items.contains_key(i) implies item_in_sync(
            r.items[i],
            r.interpretations,
        ) by {
            assert(t.items.contains_key(i));
            assert(item_in_sync(t.items[i], t.interpretations));
            assert(r.items[i].snapshot() =~= t.items[i].snapshot());
        }
    }
    if t.accepted(sender, item_id) is Ok {
        let r = t.accepted(sender, item_id).unwrap();
        assert forall|i: ItemId| #[trigger] r.items.contains_key(i) implies item_in_sync(
            r.items[i],
            r.interpretations,
        ) by {
            assert(t.items.contains_key(i));
            assert(item_in_sync(t.items[i], t.interpretations));
            if i == item_id {
                assert(r.items[i].snapshot() =~= t.items[i].snapshot());
            }
        }
    }
    if t.item_updated(sender, item_id) is Ok {
        let r = t.item_updated(sender, item_id).unwrap();
        assert forall|i: ItemId| #[trigger] r.items.contains_key(i) implies item_in_sync(
            r.items[i],
            r.interpretations,
        ) by {
            assert(t.items.contains_key(i));
            assert(item_in_sync(t.items[i], t.interpretations));
        }
    }
}

/// Where changes are not pushed, an item holds what its template holds once
/// its owner has reconciled it, whatever it held before.
pub proof fn law_reconcile_brings_in_sync(t: TemplateView, sender: AccountId, item_id: ItemId)
    requires
        t.item_updated(sender, item_id) is Ok,
    ensures
        item_in_sync(
            t.item_updated(sender, item_id).unwrap().items[item_id],
            t.item_updated(sender, item_id).unwrap().interpretations,
        ),
        t.item_updated(sender, item_id).unwrap().items[item_id].settled(),
        t.item_updated(sender, item_id).unwrap().interpretations == t.interpretations,
{
}

/// Whether every item of the ledger holds what its template holds.
pub open spec fn all_in_sync(s: State) -> bool {
    forall|t: TemplateId| #[trigger] s.templates.contains_key(t) ==> in_sync(s.templates[t])
}

/// A new ledger has no item that is out of step.
pub proof fn law_initial_sync(config: Config)
    ensures
        all_in_sync(State::initial(config)),
{
}

/// Where changes are pushed, every call leaves every item holding what its
/// template holds, if the items did so before.
pub proof fn law_calls_keep_items_in_sync(s: State, sender: AccountId, call: CallView)
    requires
        s.pushes(),
        all_in_sync(s),
        s.dispatch(sender, call) is Ok,
    ensures
        all_in_sync(s.dispatch(sender, call).unwrap()),
{
    let after = s.dispatch(sender, call).unwrap();
    match call {
        CallView::UpdateTemplate { template_id, proposal_id } => {
            law_push_keeps_items_in_sync_over_sets(
                s.templates[template_id],
                sender,
                s.proposals[proposal_id].change_set,
            );
        },
        CallView::CreateTemplate { template_name, metadata, max, interpretations } => {
            lemma_bind_all_frame(
                TemplateView {
                    issuer: sender,
                    name: template_name,
                    metadata,
                    max,
                    next_item_id: 0,
                    interpretations: Map::<Seq<u8>, EntryView>::empty(),
                    items: Map::<ItemId, ItemView>::empty(),
                },
                interpretations,
            );
        },
        CallView::MintItemFromTemplate { owner, template_id, metadata } => {
            law_item_calls_keep_sync(
                s.templates[template_id],
                sender,
                owner,
                metadata,
                0,
                sender,
                s.config.item_limit,
            );
        },
        CallView::BurnItem { template_id, item_id } => {
            law_item_calls_keep_sync(
                s.templates[template_id],
                sender,
                sender,
                Seq::empty(),
                item_id,
                sender,
                0,
            );
        },
        CallView::TransferItem { template_id, item_id, destination } => {
            law_item_calls_keep_sync(
                s.templates[template_id],
                sender,
                sender,
                Seq::empty(),
                item_id,
                destination,
                0,
            );
        },
        CallView::AcceptItemUpdate { template_id, item_id } => {
            law_item_calls_keep_sync(
                s.templates[template_id],
                sender,
                sender,
                Seq::empty(),
                item_id,
                sender,
                0,
            );
        },
        CallView::UpdateItem { template_id, item_id } => {
            law_item_calls_keep_sync(
                s.templates[template_id],
                sender,
                sender,
                Seq::empty(),
                item_id,
                sender,
                0,
            );
        },
        _ => {},
    }
}

/// Whether an item is what reconciling it, in its owner's name, would make
/// of it: it holds what `entries` holds, and all of it is accepted.
pub open spec fn reconciled_with(it: ItemView, entries: Map<Seq<u8>, EntryView>) -> bool {
    it == it.reconciled(it.owner, entries)
}

/// Whether the items that the issuer of a template owns are reconciled with
/// the template.
pub open spec fn own_items_reconciled(t: TemplateView) -> bool {
    forall|i: ItemId| #[trigger]
        t.items.contains_key(i) && t.items[i].owner == t.issuer ==> reconciled_with(
            t.items[i],
            t.interpretations,
        )
}

proof fn lemma_add_all_reconciled(t: TemplateView, xs: Seq<(InfoView, Set<Seq<u8>>)>)
    requires
        own_items_reconciled(t),
    ensures
        own_items_reconciled(t.add_all(t.issuer, true, xs)),
    decreases xs.len(),
{
    if xs.len() > 0 {
        lemma_add_all_reconciled(t, xs.drop_last());
        lemma_add_all_frame(t, t.issuer, true, xs.drop_last());
        let q = t.add_all(t.issuer, true, xs.drop_last());
        let r = t.add_all(t.issuer, true, xs);
        assert forall|i: ItemId| #[trigger]
            r.items.contains_key(i) && r.items[i].owner == r.issuer implies reconciled_with(
            r.items[i],
            r.interpretations,
        ) by {
            assert(q.items.contains_key(i));
            assert(reconciled_with(q.items[i], q.interpretations));
            let it = r.items[i];
            let goal = it.reconciled(it.owner, r.interpretations);
            assert(it.tags =~= goal.tags);
            assert(it.resources =~= goal.resources);
        }
    }
}

proof fn lemma_modify_all_reconciled(t: TemplateView, xs: Seq<InfoView>)
    requires
        own_items_reconciled(t),
        forall|i: int| 0 <= i < xs.len() ==> t.interpretations.contains_key((#[trigger] xs[i]).id),
    ensures
        own_items_reconciled(t.modify_all(t.issuer, true, xs)),
        t.modify_all(t.issuer, true, xs).interpretations.dom() == t.interpretations.dom(),
    decreases xs.len(),
{
    if xs.len() > 0 {
        let ys = xs.drop_last();
        assert forall|i: int| 0 <= i < ys.len() implies t.interpretations.contains_key(
            (#[trigger] ys[i]).id,
        ) by {
            assert(ys[i] == xs[i]);
        }
        lemma_modify_all_reconciled(t, ys);
        lemma_modify_all_frame(t, t.issuer, true, ys);
        let q = t.modify_all(t.issuer, true, ys);
        let r = t.modify_all(t.issuer, true, xs);
        let info = xs.last();
        assert(t.interpretations.contains_key(xs[xs.len() - 1].id));
        assert(q.interpretations.dom().contains(info.id));
        assert(r.interpretations.dom() =~= q.interpretations.dom());
        assert forall|i: ItemId| #[trigger]
            r.items.contains_key(i) && r.items[i].owner == r.issuer implies reconciled_with(
            r.items[i],
            r.interpretations,
        ) by {
            assert(q.items.contains_key(i));
            assert(reconciled_with(q.items[i], q.interpretations));
            let it = r.items[i];
            let goal = it.reconciled(it.owner, r.interpretations);
            assert(q.items[i].tags.contains_key(info.id));
            assert(it.tags =~= goal.tags);
            assert(it.resources =~= goal.resources);
        }
    } else {
        assert(t.modify_all(t.issuer, true, xs).interpretations.dom() =~= t.interpretations.dom());
    }
}

proof fn lemma_apply_reconciled(t: TemplateView, change: ChangeView)
    requires
        own_items_reconciled(t),
        t.apply(t.issuer, true, change) is Ok,
    ensures
        own_items_reconciled(t.apply(t.issuer, true, change).unwrap()),
{
    let r = t.apply(t.issuer, true, change).unwrap();
    match change {
        ChangeView::Add { interpretations } => {
            lemma_add_all_reconciled(t, interpretations);
        },
        ChangeView::Modify { interpretations } => {
            lemma_modify_all_reconciled(t, interpretations);
        },
        _ => {
            assert forall|i: ItemId| #[trigger]
                r.items.contains_key(i) && r.items[i].owner == r.issuer implies reconciled_with(
                r.items[i],
                r.interpretations,
            ) by {
                assert(t.items.contains_key(i));
                assert(reconciled_with(t.items[i], t.interpretations));
                let it = r.items[i];
                let goal = it.reconciled(it.owner, r.interpretations);
                assert(it.tags =~= goal.tags);
                assert(it.resources =~= goal.resources);
            }
        },
    }
}

proof fn lemma_apply_all_reconciled(t: TemplateView, changes: Seq<ChangeView>)
    requires
        own_items_reconciled(t),
        t.apply_all(t.issuer, true, changes) is Ok,
    ensures
        own_items_reconciled(t.apply_all(t.issuer, true, changes).unwrap()),
    decreases changes.len(),
{
    if changes.len() > 0 {
        lemma_apply_all_reconciled(t, changes.drop_last());
        law_change_set_frame(t, t.issuer, true, changes.drop_last());
        lemma_apply_reconciled(
            t.apply_all(t.issuer, true, changes.drop_last()).unwrap(),
            changes.last(),
        );
    }
}

proof fn lemma_apply_all_same_map(
    t: TemplateView,
    u: TemplateView,
    sender: AccountId,
    changes: Seq<ChangeView>,
)
    requires
        t.interpretations == u.interpretations,
    ensures
        t.apply_all(sender, true, changes) is Ok <==> u.apply_all(sender, false, changes) is Ok,
        t.apply_all(sender, true, changes) is Ok ==> t.apply_all(
            sender,
            true,
            changes,
        ).unwrap().interpretations == u.apply_all(sender, false, changes).unwrap().interpretations,
        t.apply_all(sender, true, changes) is Err ==> t.apply_all(sender, true, changes)->Err_0
            == u.apply_all(sender, false, changes)->Err_0,
    decreases changes.len(),
{
    if changes.len() > 0 {
        lemma_apply_all_same_map(t, u, sender, changes.drop_last());
        let a = t.apply_all(sender, true, changes.drop_last());
        let b = u.apply_all(sender, false, changes.drop_last());
        if a is Ok {
            lemma_apply_same_map(a.unwrap(), b.unwrap(), sender, changes.last());
        }
    }
}

proof fn lemma_add_all_same_map(
    t: TemplateView,
    u: TemplateView,
    sender: AccountId,
    xs: Seq<(InfoView, Set<Seq<u8>>)>,
)
    requires
        t.interpretations == u.interpretations,
    ensures
        t.add_all(sender, true, xs).interpretations == u.add_all(sender, false, xs).interpretations,
    decreases xs.len(),
{
    if xs.len() > 0 {
        lemma_add_all_same_map(t, u, sender, xs.drop_last());
    }
}

proof fn lemma_modify_all_same_map(
    t: TemplateView,
    u: TemplateView,
    sender: AccountId,
    xs: Seq<InfoView>,
)
    requires
        t.interpretations == u.interpretations,
    ensures
        t.modify_all(sender, true, xs).interpretations == u.modify_all(
            sender,
            false,
            xs,
        ).interpretations,
    decreases xs.len(),
{
    if xs.len() > 0 {
        lemma_modify_all_same_map(t, u, sender, xs.drop_last());
    }
}

proof fn lemma_apply_same_map(
    t: TemplateView,
    u: TemplateView,
    sender: AccountId,
    change: ChangeView,
)
    requires
        t.interpretations == u.interpretations,
    ensures
        t.apply(sender, true, change) is Ok <==> u.apply(sender, false, change) is Ok,
        t.apply(sender, true, change) is Ok ==> t.apply(sender, true, change).unwrap().interpretations
            == u.apply(sender, false, change).unwrap().interpretations,
        t.apply(sender, true, change) is Err ==> t.apply(sender, true, change)->Err_0 == u.apply(
            sender,
            false,
            change,
        )->Err_0,
{
    match change {
        ChangeView::Add { interpretations } => {
            lemma_add_all_same_map(t, u, sender, interpretations);
        },
        ChangeView::Modify { interpretations } => {
            lemma_modify_all_same_map(t, u, sender, interpretations);
        },
        _ => {},
    }
}

/// What a change set makes of a template's own map does not depend on how
/// changes reach the items: it is refused or applied alike where changes are
/// pushed and where they are pulled, and leaves the same map.
pub proof fn law_propagation_leaves_the_template_alone(
    t: TemplateView,
    sender: AccountId,
    changes: Seq<ChangeView>,
)
    ensures
        t.apply_all(sender, true, changes) is Ok <==> t.apply_all(sender, false, changes) is Ok,
        t.apply_all(sender, true, changes) is Ok ==> t.apply_all(
            sender,
            true,
            changes,
        ).unwrap().interpretations == t.apply_all(sender, false, changes).unwrap().interpretations,
        t.apply_all(sender, true, changes) is Err ==> t.apply_all(sender, true, changes)->Err_0
            == t.apply_all(sender, false, changes)->Err_0,
{
    lemma_apply_all_same_map(t, t, sender, changes);
}

/// For an item that the issuer owns, pushing a change set and pulling it
/// come to the same: the item that the push leaves is the item that its
/// owner gets by reconciling after the template alone was changed.
pub proof fn law_push_is_pull_then_reconcile(
    t: TemplateView,
    changes: Seq<ChangeView>,
    item_id: ItemId,
)
    requires
        own_items_reconciled(t),
        t.items.contains_key(item_id),
        t.items[item_id].owner == t.issuer,
        t.apply_all(t.issuer, true, changes) is Ok,
    ensures
        t.apply_all(t.issuer, false, changes) is Ok,
        t.apply_all(t.issuer, false, changes).unwrap().item_updated(t.issuer, item_id) is Ok,
        t.apply_all(t.issuer, true, changes).unwrap().items[item_id] == t.apply_all(
            t.issuer,
            false,
            changes,
        ).unwrap().item_updated(t.issuer, item_id).unwrap().items[item_id],
{
    let pushed = t.apply_all(t.issuer, true, changes).unwrap();
    lemma_apply_all_same_map(t, t, t.issuer, changes);
    let pulled = t.apply_all(t.issuer, false, changes).unwrap();
    lemma_apply_all_reconciled(t, changes);
    law_change_set_frame(t, t.issuer, true, changes);
    law_change_set_frame(t, t.issuer, false, changes);
    assert(pushed.items.contains_key(item_id));
    assert(reconciled_with(pushed.items[item_id], pushed.interpretations));
    let a = pushed.items[item_id];
    let b = pulled.items[item_id].reconciled(t.issuer, pulled.interpretations);
    assert(a.tags =~= b.tags);
    assert(a.resources =~= b.resources);
}

} // verus!
