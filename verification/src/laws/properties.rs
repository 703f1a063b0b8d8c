//! What the operations of the ledger promise each other.

use vstd::prelude::*;
use crate::call::CallView;
use crate::item::{ItemOpView, ItemView};
use crate::laws::frame::{
    law_change_set_frame, lemma_add_all_frame, lemma_bind_all_frame, lemma_modify_all_frame,
};
use crate::state::State;
use crate::template::{no_tags, TemplateView};
use crate::types::{
    AccountId, ChangeView, EntryView, Error, ErrorKind, InfoView, InterpretationView, ItemId,
    ProposalId, ProposalState, TemplateId,
};

verus! {

/// A name of the registry is given once: a tag, an interpretation type or an
/// interpretation whose name is in use is refused.
pub proof fn law_registry_uniqueness(
    s: State,
    name: Seq<u8>,
    metadata: Seq<u8>,
    of_type: Seq<u8>,
    src: Option<Seq<u8>>,
    content: Option<Seq<u8>>,
)
    ensures
        s.tags.contains_key(name) <==> s.create_interpretation_tag(name, metadata) == Err::<
            State,
            Error,
        >(Error::TagAlreadyExists),
        s.types.contains_key(name) <==> s.create_interpretation_type(name, metadata) == Err::<
            State,
            Error,
        >(Error::InterpretationTypeAlreadyExist),
        s.interpretations.contains_key(name) ==> s.create_interpretation(
            of_type,
            name,
            src,
            content,
        ) is Err,
        s.interpretations.contains_key(name) && s.types.contains_key(of_type)
            <==> s.create_interpretation(of_type, name, src, content) == Err::<State, Error>(
            Error::InterpretationAlreadyExist,
        ),
        Error::TagAlreadyExists.spec_kind() == ErrorKind::AlreadyExists,
        Error::InterpretationTypeAlreadyExist.spec_kind() == ErrorKind::AlreadyExists,
        Error::InterpretationAlreadyExist.spec_kind() == ErrorKind::AlreadyExists,
{
}

/// An item that was just minted holds what its template holds.
pub proof fn law_snapshot_at_mint(
    s: State,
    sender: AccountId,
    owner: AccountId,
    template_id: TemplateId,
    metadata: Seq<u8>,
)
    requires
        s.mint_item_from_template(sender, owner, template_id, metadata) is Ok,
    ensures
        ({
            let after = s.mint_item_from_template(sender, owner, template_id, metadata).unwrap();
            let item_id = s.templates[template_id].next_item_id;
            &&& after.item(template_id, item_id) is Some
            &&& after.item(template_id, item_id).unwrap().owner == owner
            &&& after.item(template_id, item_id).unwrap().snapshot()
                == after.templates[template_id].interpretations
            &&& after.templates[template_id].interpretations
                == s.templates[template_id].interpretations
        }),
{
    let after = s.mint_item_from_template(sender, owner, template_id, metadata).unwrap();
    let item_id = s.templates[template_id].next_item_id;
    let item = after.item(template_id, item_id).unwrap();
    assert(item.snapshot() =~= after.templates[template_id].interpretations);
}

/// Bringing an item to its template is idempotent: done a second time, with
/// no change of the template between, it leaves the item as it is.
pub proof fn law_reconcile_idempotent(
    s: State,
    sender: AccountId,
    template_id: TemplateId,
    item_id: ItemId,
)
    requires
        s.update_item(sender, template_id, item_id) is Ok,
    ensures
        ({
            let once = s.update_item(sender, template_id, item_id).unwrap();
            once.update_item(sender, template_id, item_id) == Ok::<State, Error>(once)
        }),
{
    let once = s.update_item(sender, template_id, item_id).unwrap();
    let t = s.templates[template_id];
    let t1 = once.templates[template_id];
    let it1 = t1.items[item_id];
    let it2 = it1.reconciled(sender, t1.interpretations);
    assert(it2.tags =~= it1.tags);
    assert(it2.resources =~= it1.resources);
    assert(t1.items.insert(item_id, it2) =~= t1.items);
    assert(once.templates.insert(template_id, t1) =~= once.templates);
}

/// Reconciling is idempotent for whoever writes: the item is the same after
/// one run and after two.
pub proof fn law_reconciled_twice(it: ItemView, sender: AccountId, entries: Map<Seq<u8>, EntryView>)
    ensures
        it.reconciled(sender, entries).reconciled(sender, entries) == it.reconciled(
            sender,
            entries,
        ),
{
    let once = it.reconciled(sender, entries);
    let twice = once.reconciled(sender, entries);
    assert(twice.tags =~= once.tags);
    assert(twice.resources =~= once.resources);
}

/// Whether a list of interpretations names `id`.
pub open spec fn lists(xs: Seq<(InfoView, Set<Seq<u8>>)>, id: Seq<u8>) -> bool {
    exists|i: int| 0 <= i < xs.len() && (#[trigger] xs[i]).0.id == id
}

/// What `add_all` leaves in a template's map: the interpretations of the
/// list, each with tags that the list gives it, and the others as before.
pub proof fn lemma_add_all(
    t: TemplateView,
    sender: AccountId,
    push: bool,
    xs: Seq<(InfoView, Set<Seq<u8>>)>,
)
    ensures
        ({
            let r = t.add_all(sender, push, xs).interpretations;
            &&& forall|id: Seq<u8>| #[trigger]
                r.contains_key(id) <==> (t.interpretations.contains_key(id) || lists(xs, id))
            &&& forall|id: Seq<u8>| #[trigger]
                r.contains_key(id) && !lists(xs, id) ==> r[id] == t.interpretations[id]
            &&& forall|id: Seq<u8>| #[trigger]
                lists(xs, id) ==> exists|i: int|
                    0 <= i < xs.len() && (#[trigger] xs[i]).0.id == id && r[id].tags == xs[i].1
        }),
    decreases xs.len(),
{
    if xs.len() > 0 {
        let ys = xs.drop_last();
        lemma_add_all(t, sender, push, ys);
        let q = t.add_all(sender, push, ys).interpretations;
        let r = t.add_all(sender, push, xs).interpretations;
        let last = xs.last();
        assert(r == q.insert(last.0.id, EntryView { resource: last.0.resource(), tags: last.1 }));
        assert forall|id: Seq<u8>| lists(xs, id) <==> (lists(ys, id) || id == last.0.id) by {
            if lists(xs, id) {
                let i = choose|i: int| 0 <= i < xs.len() && (#[trigger] xs[i]).0.id == id;
                if i < ys.len() {
                    assert(ys[i].0.id == id);
                }
            }
            if lists(ys, id) {
                let i = choose|i: int| 0 <= i < ys.len() && (#[trigger] ys[i]).0.id == id;
                assert(xs[i].0.id == id);
            }
            if id == last.0.id {
                assert(xs[xs.len() - 1].0.id == id);
            }
        }
        assert forall|id: Seq<u8>| #[trigger] lists(xs, id) implies exists|i: int|
            0 <= i < xs.len() && (#[trigger] xs[i]).0.id == id && r[id].tags == xs[i].1 by {
            if id == last.0.id {
                assert(xs[xs.len() - 1].0.id == id && r[id].tags == xs[xs.len() - 1].1);
            } else {
                assert(lists(ys, id));
                let j = choose|j: int|
                    0 <= j < ys.len() && (#[trigger] ys[j]).0.id == id && q[id].tags == ys[j].1;
                assert(xs[j].0.id == id && r[id].tags == xs[j].1);
            }
        }
    }
}

/// Adding interpretations under a tag or type and then taking that tag or
/// type from the template leaves the template's map as it was before: if the
/// template had nothing under it and none of the added interpretations.
pub proof fn law_add_then_remove_type(
    t: TemplateView,
    sender: AccountId,
    push: bool,
    key: Seq<u8>,
    xs: Seq<(InfoView, Set<Seq<u8>>)>,
)
    requires
        xs.len() > 0,
        forall|i: int| 0 <= i < xs.len() ==> (#[trigger] xs[i]).1.contains(key),
        forall|i: int|
            0 <= i < xs.len() ==> !t.interpretations.contains_key((#[trigger] xs[i]).0.id),
        forall|id: Seq<u8>| !t.under(key).contains(id),
    ensures
        t.apply(sender, push, ChangeView::Add { interpretations: xs }) is Ok,
        ({
            let added = t.apply(sender, push, ChangeView::Add { interpretations: xs }).unwrap();
            let back = added.apply(
                sender,
                push,
                ChangeView::RemoveInterpretationType { interpretation_type: key },
            );
            back is Ok && back.unwrap().interpretations == t.interpretations
        }),
{
    assert forall|i: int| 0 <= i < xs.len() implies !no_tags(#[trigger] xs[i].1) by {
        assert(xs[i].1.contains(key));
    }
    let added = t.add_all(sender, push, xs);
    lemma_add_all(t, sender, push, xs);
    let r = added.interpretations;
    assert(lists(xs, xs[0].0.id));
    assert forall|id: Seq<u8>| added.under(key).contains(id) <==> lists(xs, id) by {
        if lists(xs, id) {
            let i = choose|i: int|
                0 <= i < xs.len() && (#[trigger] xs[i]).0.id == id && r[id].tags == xs[i].1;
            assert(xs[i].1.contains(key));
            assert(r.contains_key(id));
        } else {
            if added.under(key).contains(id) {
                assert(r.contains_key(id));
                assert(r[id] == t.interpretations[id]);
                assert(t.under(key).contains(id));
            }
        }
    }
    assert(added.under(key).contains(xs[0].0.id));
    assert(!(added.under(key) =~= Set::<Seq<u8>>::empty()));
    assert forall|id: Seq<u8>| t.interpretations.contains_key(id) implies !lists(xs, id) by {
        if lists(xs, id) {
            let i = choose|i: int| 0 <= i < xs.len() && (#[trigger] xs[i]).0.id == id;
            assert(!t.interpretations.contains_key(xs[i].0.id));
        }
    }
    assert forall|id: Seq<u8>| t.interpretations.contains_key(id) implies r.contains_key(id)
        && r[id] == t.interpretations[id] by {}
    let back = r.remove_keys(added.under(key));
    assert forall|id: Seq<u8>| back.contains_key(id) <==> t.interpretations.contains_key(id) by {
        if t.interpretations.contains_key(id) {
            assert(!lists(xs, id));
            assert(!added.under(key).contains(id));
            assert(r.contains_key(id));
        }
        if back.contains_key(id) {
            assert(r.contains_key(id));
            assert(!added.under(key).contains(id));
            assert(!lists(xs, id));
        }
    }
    assert forall|id: Seq<u8>| back.contains_key(id) implies back[id]
        == t.interpretations[id] by {
        assert(r.contains_key(id));
    }
    assert(back =~= t.interpretations);
}

/// A proposal is bound to its template: with another template it is refused.
pub proof fn law_proposal_binding(
    s: State,
    sender: AccountId,
    template_id: TemplateId,
    proposal_id: ProposalId,
)
    requires
        s.proposals.contains_key(proposal_id),
        s.proposals[proposal_id].template_id != template_id,
    ensures
        s.update_template(sender, template_id, proposal_id) is Err,
        s.issuer_of(template_id) == Some(sender) && s.proposals[proposal_id].state
            == ProposalState::Approved ==> s.update_template(sender, template_id, proposal_id)
            == Err::<State, Error>(Error::ProposalInappropriateTemplate),
        s.issuer_of(template_id) == Some(sender) ==> s.update_template(
            sender,
            template_id,
            proposal_id,
        )->Err_0.spec_kind() == ErrorKind::InvalidProposalState,
{
}

/// A proposal is applied once: after it was applied, it is unknown.
pub proof fn law_proposal_consumed(
    s: State,
    sender: AccountId,
    template_id: TemplateId,
    proposal_id: ProposalId,
)
    requires
        s.update_template(sender, template_id, proposal_id) is Ok,
    ensures
        s.update_template(sender, template_id, proposal_id).unwrap().update_template(
            sender,
            template_id,
            proposal_id,
        ) == Err::<State, Error>(Error::ProposalNotExist),
{
    law_change_set_frame(
        s.templates[template_id],
        sender,
        s.pushes(),
        s.proposals[proposal_id].change_set,
    );
}

/// Taking a tag or type from a template reaches the items: an item that held
/// what the template held holds nothing under that tag or type afterwards.
pub proof fn law_cascading_removal(
    t: TemplateView,
    sender: AccountId,
    key: Seq<u8>,
    item_id: ItemId,
)
    requires
        t.remove_type(sender, key) is Ok,
        t.items.contains_key(item_id),
        t.items[item_id].snapshot() == t.interpretations,
    ensures
        ({
            let after = t.remove_type(sender, key).unwrap();
            &&& after.items.contains_key(item_id)
            &&& forall|id: Seq<u8>| #[trigger]
                after.items[item_id].snapshot().contains_key(id)
                    ==> !after.items[item_id].snapshot()[id].tags.contains(key)
            &&& after.items[item_id].snapshot() == after.interpretations
        }),
{
    let after = t.remove_type(sender, key).unwrap();
    let before = t.items[item_id];
    let item = after.items[item_id];
    assert(item == before.without(sender, t.under(key)));
    assert forall|id: Seq<u8>| #[trigger] item.snapshot().contains_key(id) implies !item.snapshot()[id].tags.contains(
        key,
    ) by {
        assert(before.snapshot().contains_key(id));
        assert(t.interpretations.contains_key(id));
        assert(!t.under(key).contains(id));
        assert(before.snapshot()[id].tags == t.interpretations[id].tags);
    }
    assert forall|id: Seq<u8>| after.interpretations.contains_key(id) implies #[trigger] item.snapshot().contains_key(
        id,
    ) && item.snapshot()[id] == after.interpretations[id] by {
        assert(t.interpretations.contains_key(id));
        assert(before.snapshot().contains_key(id));
        assert(before.snapshot()[id] == t.interpretations[id]);
    }
    assert forall|id: Seq<u8>| #[trigger] item.snapshot().contains_key(id) implies after.interpretations.contains_key(
        id,
    ) by {
        assert(before.snapshot().contains_key(id));
    }
    assert(item.snapshot() =~= after.interpretations);
}

/// What the owner of an item has accepted is not changed by what another
/// does to the item.
pub proof fn law_accepted_stays(it: ItemView, sender: AccountId, op: ItemOpView)
    requires
        sender != it.owner,
    ensures
        it.applied(sender, op).visible() == it.visible(),
        it.applied(sender, op).owner == it.owner,
{
    assert(it.applied(sender, op).visible() =~= it.visible());
}

/// When the owner accepts, what was written last becomes the accepted
/// content of each resource that stays, and nothing is pending any more.
pub proof fn law_accept_settles(it: ItemView)
    ensures
        it.accepted().settled(),
        forall|id: Seq<u8>| #[trigger]
            it.resources.contains_key(id) && it.resources[id].pending
                && !it.resources[id].pending_removal ==> it.accepted().visible().contains_key(id)
                && it.accepted().visible()[id] == it.resources[id].content,
        forall|id: Seq<u8>| #[trigger]
            it.resources.contains_key(id) && it.resources[id].pending_removal
                ==> !it.accepted().resources.contains_key(id),
        it.settled() ==> it.accepted() == it,
{
    if it.settled() {
        assert(it.accepted().resources =~= it.resources);
    }
}

/// A change that the issuer pushes into an item of another owner leaves what
/// that owner accepted as it was, until the owner accepts: then the pushed
/// content is the accepted one. Nobody but the owner can accept.
pub proof fn law_pending_gating(
    t: TemplateView,
    sender: AccountId,
    info: InfoView,
    item_id: ItemId,
    other: AccountId,
)
    requires
        t.items.contains_key(item_id),
        t.items[item_id].owner != sender,
        t.apply(sender, true, ChangeView::Modify { interpretations: seq![info] }) is Ok,
    ensures
        ({
            let pushed = t.apply(
                sender,
                true,
                ChangeView::Modify { interpretations: seq![info] },
            ).unwrap();
            let owner = t.items[item_id].owner;
            &&& pushed.items.contains_key(item_id)
            &&& pushed.items[item_id].visible() == t.items[item_id].visible()
            &&& pushed.items[item_id].resources.contains_key(info.id)
            &&& pushed.items[item_id].resources[info.id].pending
            &&& pushed.items[item_id].resources[info.id].content == info.resource()
            &&& other != owner ==> pushed.accepted(other, item_id) == Err::<TemplateView, Error>(
                Error::NoPermission,
            )
            &&& pushed.accepted(owner, item_id) is Ok
            &&& pushed.accepted(owner, item_id).unwrap().items[item_id].visible()[info.id]
                == info.resource()
        }),
{
    let list = seq![info];
    assert(list.drop_last() =~= Seq::<InfoView>::empty());
    assert(list.last() == info);
    let pushed = t.modify_all(sender, true, list);
    assert(t.modify_all(sender, true, list.drop_last()) == t);
    assert(pushed == t.modify_one(sender, true, info));
    let op = ItemOpView::Put { id: info.id, content: info.resource(), tags: None };
    law_accepted_stays(t.items[item_id], sender, op);
    assert(pushed.items[item_id] == t.items[item_id].applied(sender, op));
    law_accept_settles(pushed.items[item_id]);
}

/// A template is destroyed only when it has no item: with an item it is
/// refused, and once the items are burned its issuer can destroy it.
pub proof fn law_destroy_guard(s: State, sender: AccountId, template_id: TemplateId, item_id: ItemId)
    requires
        s.templates.contains_key(template_id),
    ensures
        s.templates[template_id].items.contains_key(item_id) ==> s.destroy_template(
            sender,
            template_id,
        ) == Err::<State, Error>(Error::TemplateNotEmpty),
        s.templates[template_id].items =~= Map::<ItemId, ItemView>::empty()
            && s.templates[template_id].issuer == sender ==> s.destroy_template(
            sender,
            template_id,
        ) is Ok && !s.destroy_template(sender, template_id).unwrap().templates.contains_key(
            template_id,
        ),
        s.templates[template_id].items.dom() =~= set![item_id] ==> s.burn_item(
            template_id,
            item_id,
        ) is Ok && s.burn_item(template_id, item_id).unwrap().templates[template_id].items
            =~= Map::<ItemId, ItemView>::empty(),
        Error::TemplateNotEmpty.spec_kind() == ErrorKind::NonEmptyTemplate,
{
    if s.templates[template_id].items.contains_key(item_id) {
        assert(!(s.templates[template_id].items =~= Map::<ItemId, ItemView>::empty()));
    }
    if s.templates[template_id].items.dom() =~= set![item_id] {
        assert(s.templates[template_id].items.contains_key(item_id));
    }
}

/// Who may do what: a call that changes a template, mints from it, destroys
/// it or judges a proposal for it succeeds only for the template's issuer; a
/// call that accepts, reconciles or hands on an item succeeds only for the
/// item's owner. One that comes from another is refused as unauthorized.
pub proof fn law_authorization(s: State, sender: AccountId, call: CallView)
    requires
        s.dispatch(sender, call) is Ok,
    ensures
        match call {
            CallView::UpdateTemplate { template_id, proposal_id } => s.issuer_of(template_id)
                == Some(sender),
            CallView::DestroyTemplate { template_id } => s.issuer_of(template_id) == Some(sender),
            CallView::MintItemFromTemplate { owner, template_id, metadata } => s.issuer_of(
                template_id,
            ) == Some(sender),
            CallView::ApproveProposal { proposal_id } => s.issuer_of(
                s.proposals[proposal_id].template_id,
            ) == Some(sender),
            CallView::RejectProposal { proposal_id } => s.issuer_of(
                s.proposals[proposal_id].template_id,
            ) == Some(sender),
            CallView::AcceptItemUpdate { template_id, item_id } => s.owner_of(template_id, item_id)
                == Some(sender),
            CallView::UpdateItem { template_id, item_id } => s.owner_of(template_id, item_id)
                == Some(sender),
            CallView::TransferItem { template_id, item_id, destination } => s.owner_of(
                template_id,
                item_id,
            ) == Some(sender),
            _ => true,
        },
        Error::NoPermission.spec_kind() == ErrorKind::Unauthorized,
{
}

proof fn lemma_bind_all_known(s: State, t: TemplateView, xs: Seq<InterpretationView>)
    requires
        s.first_fault(xs) is None,
        forall|id: Seq<u8>, tag: Seq<u8>|
            t.interpretations.contains_key(id) && #[trigger] t.interpretations[id].tags.contains(
                tag,
            ) ==> s.known(tag),
    ensures
        forall|id: Seq<u8>, tag: Seq<u8>|
            t.bind_all(xs).interpretations.contains_key(id) && #[trigger] t.bind_all(
                xs,
            ).interpretations[id].tags.contains(tag) ==> s.known(tag),
        forall|id: Seq<u8>| #[trigger]
            t.bind_all(xs).interpretations.contains_key(id) ==> (t.interpretations.contains_key(id)
                && t.bind_all(xs).interpretations[id].tags == t.interpretations[id].tags)
                || !no_tags(t.bind_all(xs).interpretations[id].tags),
    decreases xs.len(),
{
    if xs.len() > 0 {
        lemma_bind_all_known(s, t, xs.drop_last());
        assert(s.fault(xs.last()) is None);
    }
}

/// A template is created with tags of the registry only: each of its
/// interpretations has a tag, and each tag names a tag or an interpretation
/// type that the registry holds.
pub proof fn law_created_template_is_resolved(
    s: State,
    sender: AccountId,
    name: Seq<u8>,
    metadata: Seq<u8>,
    max: Option<u32>,
    interpretations: Seq<InterpretationView>,
)
    requires
        s.create_template(sender, name, metadata, max, interpretations) is Ok,
    ensures
        ({
            let after = s.create_template(sender, name, metadata, max, interpretations).unwrap();
            let t = after.templates[s.next_template_id];
            &&& after.templates.contains_key(s.next_template_id)
            &&& t.issuer == sender
            &&& t.items == Map::<ItemId, ItemView>::empty()
            &&& forall|id: Seq<u8>| #[trigger]
                t.interpretations.contains_key(id) ==> !no_tags(t.interpretations[id].tags)
            &&& forall|id: Seq<u8>, tag: Seq<u8>|
                t.interpretations.contains_key(id) && #[trigger] t.interpretations[id].tags.contains(
                    tag,
                ) ==> after.known(tag)
        }),
{
    let empty = TemplateView {
        issuer: sender,
        name,
        metadata,
        max,
        next_item_id: 0,
        interpretations: Map::<Seq<u8>, EntryView>::empty(),
        items: Map::<ItemId, ItemView>::empty(),
    };
    lemma_bind_all_known(s, empty, interpretations);
    lemma_bind_all_frame(empty, interpretations);
}

proof fn lemma_add_all_awaits(
    t: TemplateView,
    sender: AccountId,
    push: bool,
    xs: Seq<(InfoView, Set<Seq<u8>>)>,
    item_id: ItemId,
)
    requires
        t.items.contains_key(item_id),
        t.items[item_id].owner != sender,
    ensures
        t.add_all(sender, push, xs).items.contains_key(item_id),
        t.add_all(sender, push, xs).items[item_id].visible() == t.items[item_id].visible(),
        t.add_all(sender, push, xs).items[item_id].owner == t.items[item_id].owner,
    decreases xs.len(),
{
    if xs.len() > 0 {
        lemma_add_all_awaits(t, sender, push, xs.drop_last(), item_id);
        let q = t.add_all(sender, push, xs.drop_last());
        let op = ItemOpView::Put {
            id: xs.last().0.id,
            content: xs.last().0.resource(),
            tags: Some(xs.last().1),
        };
        law_accepted_stays(q.items[item_id], sender, op);
    }
}

proof fn lemma_modify_all_awaits(
    t: TemplateView,
    sender: AccountId,
    push: bool,
    xs: Seq<InfoView>,
    item_id: ItemId,
)
    requires
        t.items.contains_key(item_id),
        t.items[item_id].owner != sender,
    ensures
        t.modify_all(sender, push, xs).items.contains_key(item_id),
        t.modify_all(sender, push, xs).items[item_id].visible() == t.items[item_id].visible(),
        t.modify_all(sender, push, xs).items[item_id].owner == t.items[item_id].owner,
    decreases xs.len(),
{
    if xs.len() > 0 {
        lemma_modify_all_awaits(t, sender, push, xs.drop_last(), item_id);
        let q = t.modify_all(sender, push, xs.drop_last());
        let op = ItemOpView::Put { id: xs.last().id, content: xs.last().resource(), tags: None };
        law_accepted_stays(q.items[item_id], sender, op);
    }
}

/// Whatever change another applies to a template, an item keeps what its
/// owner has accepted.
pub proof fn law_changes_await_the_owner(
    t: TemplateView,
    sender: AccountId,
    push: bool,
    change: ChangeView,
    item_id: ItemId,
)
    requires
        t.items.contains_key(item_id),
        t.items[item_id].owner != sender,
        t.apply(sender, push, change) is Ok,
    ensures
        t.apply(sender, push, change).unwrap().items.contains_key(item_id),
        t.apply(sender, push, change).unwrap().items[item_id].visible()
            == t.items[item_id].visible(),
        t.apply(sender, push, change).unwrap().items[item_id].owner == t.items[item_id].owner,
        t.apply(sender, push, change).unwrap().issuer == t.issuer,
{
    let it = t.items[item_id];
    match change {
        ChangeView::Add { interpretations } => {
            lemma_add_all_awaits(t, sender, push, interpretations, item_id);
            lemma_add_all_frame(t, sender, push, interpretations);
        },
        ChangeView::Modify { interpretations } => {
            lemma_modify_all_awaits(t, sender, push, interpretations, item_id);
            lemma_modify_all_frame(t, sender, push, interpretations);
        },
        ChangeView::ModifyTags { interpretation_id, tags } => {
            assert(it.with_tags(interpretation_id, tags).visible() =~= it.visible());
        },
        ChangeView::RemoveInterpretation { interpretation_id } => {
            law_accepted_stays(it, sender, ItemOpView::Remove { ids: set![interpretation_id] });
        },
        ChangeView::RemoveInterpretationType { interpretation_type } => {
            law_accepted_stays(
                it,
                sender,
                ItemOpView::Remove { ids: t.under(interpretation_type) },
            );
        },
    }
}

/// Whatever change set another applies to a template, an item keeps what its
/// owner has accepted, until the owner accepts.
pub proof fn law_change_sets_await_the_owner(
    t: TemplateView,
    sender: AccountId,
    push: bool,
    changes: Seq<ChangeView>,
    item_id: ItemId,
)
    requires
        t.items.contains_key(item_id),
        t.items[item_id].owner != sender,
        t.apply_all(sender, push, changes) is Ok,
    ensures
        t.apply_all(sender, push, changes).unwrap().items.contains_key(item_id),
        t.apply_all(sender, push, changes).unwrap().items[item_id].visible()
            == t.items[item_id].visible(),
        t.apply_all(sender, push, changes).unwrap().items[item_id].owner
            == t.items[item_id].owner,
        t.apply_all(sender, push, changes).unwrap().issuer == t.issuer,
    decreases changes.len(),
{
    if changes.len() > 0 {
        law_change_sets_await_the_owner(t, sender, push, changes.drop_last(), item_id);
        law_changes_await_the_owner(
            t.apply_all(sender, push, changes.drop_last()).unwrap(),
            sender,
            push,
            changes.last(),
            item_id,
        );
    }
}

} // verus!
