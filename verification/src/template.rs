//! Templates and the changes that are applied to them.
//!
//! A template holds the interpretations that its items are to carry, and the
//! items minted from it. A change to the template is handed on to the items
//! at once where the ledger pushes changes; where it does not, an item takes
//! the template's state when its owner asks for it. Taking a whole tag or
//! type from a template always reaches the items.

use vstd::prelude::*;
use crate::bytes::bytes_copy;
use crate::ids::IdAllocator;
use crate::item::{Item, ItemOp, ItemOpView, ItemView, ResourceStateView};
use crate::table::{views, Dup, Table};
use crate::types::{
    lemma_names_take, meets, names, AccountId, Change, ChangeView, EntryView, Error, InfoView,
    IntepretationInfo, Interpretation, InterpretationView, ItemId, Tags, TemplateEntry,
    TemplateInfo,
};

verus! {

/// A template: who issued it, what it holds, and the items minted from it.
#[derive(Debug, PartialEq, Eq)]
pub struct Template {
    issuer: AccountId,
    name: Vec<u8>,
    metadata: Vec<u8>,
    max: Option<u32>,
    item_ids: IdAllocator,
    interpretations: Table<Vec<u8>, TemplateEntry>,
    items: Table<ItemId, Item>,
}

/// The model of a template.
pub struct TemplateView {
    /// Who may change the template and mint from it.
    pub issuer: AccountId,
    pub name: Seq<u8>,
    pub metadata: Seq<u8>,
    /// The bound on the numbers that the template's items are given.
    pub max: Option<u32>,
    /// The number that the next item is given.
    pub next_item_id: ItemId,
    /// The interpretations that the template holds now.
    pub interpretations: Map<Seq<u8>, EntryView>,
    /// The items minted from the template and not burned.
    pub items: Map<ItemId, ItemView>,
}

/// Whether a set of tags is empty.
pub open spec fn no_tags(tags: Set<Seq<u8>>) -> bool {
    tags =~= Set::<Seq<u8>>::empty()
}

impl TemplateView {
    /// The template with `interpretations` and `items` in place of its own.
    pub open spec fn with(
        self,
        interpretations: Map<Seq<u8>, EntryView>,
        items: Map<ItemId, ItemView>,
    ) -> TemplateView {
        TemplateView {
            issuer: self.issuer,
            name: self.name,
            metadata: self.metadata,
            max: self.max,
            next_item_id: self.next_item_id,
            interpretations,
            items,
        }
    }

    /// The items after `sender` did `op` to each of them.
    pub open spec fn pushed(self, sender: AccountId, op: ItemOpView) -> Map<ItemId, ItemView> {
        self.items.map_values(|it: ItemView| it.applied(sender, op))
    }

    /// The items after a change: `op` done to each where changes are pushed.
    pub open spec fn items_after(
        self,
        sender: AccountId,
        push: bool,
        op: ItemOpView,
    ) -> Map<ItemId, ItemView> {
        if push {
            self.pushed(sender, op)
        } else {
            self.items
        }
    }

    /// The template after one interpretation was bound to it.
    pub open spec fn add_one(
        self,
        sender: AccountId,
        push: bool,
        info: InfoView,
        tags: Set<Seq<u8>>,
    ) -> TemplateView {
        self.with(
            self.interpretations.insert(info.id, EntryView { resource: info.resource(), tags }),
            self.items_after(
                sender,
                push,
                ItemOpView::Put { id: info.id, content: info.resource(), tags: Some(tags) },
            ),
        )
    }

    /// The template after interpretations were bound to it, in their order.
    pub open spec fn add_all(
        self,
        sender: AccountId,
        push: bool,
        interpretations: Seq<(InfoView, Set<Seq<u8>>)>,
    ) -> TemplateView
        decreases interpretations.len(),
    {
        if interpretations.len() == 0 {
            self
        } else {
            self.add_all(sender, push, interpretations.drop_last()).add_one(
                sender,
                push,
                interpretations.last().0,
                interpretations.last().1,
            )
        }
    }

    /// `Add`: refused if one of the interpretations has no tag.
    pub open spec fn add(
        self,
        sender: AccountId,
        push: bool,
        interpretations: Seq<(InfoView, Set<Seq<u8>>)>,
    ) -> Result<TemplateView, Error> {
        if exists|i: int| 0 <= i < interpretations.len() && no_tags(#[trigger] interpretations[i].1) {
            Err(Error::EmptyTags)
        } else {
            Ok(self.add_all(sender, push, interpretations))
        }
    }

    /// The template after the content of one interpretation was replaced;
    /// its tags stay.
    pub open spec fn modify_one(self, sender: AccountId, push: bool, info: InfoView) -> TemplateView {
        self.with(
            self.interpretations.insert(
                info.id,
                EntryView { resource: info.resource(), tags: self.interpretations[info.id].tags },
            ),
            self.items_after(
                sender,
                push,
                ItemOpView::Put { id: info.id, content: info.resource(), tags: None },
            ),
        )
    }

    /// The template after the content of interpretations was replaced, in
    /// their order.
    pub open spec fn modify_all(
        self,
        sender: AccountId,
        push: bool,
        interpretations: Seq<InfoView>,
    ) -> TemplateView
        decreases interpretations.len(),
    {
        if interpretations.len() == 0 {
            self
        } else {
            self.modify_all(sender, push, interpretations.drop_last()).modify_one(
                sender,
                push,
                interpretations.last(),
            )
        }
    }

    /// `Modify`: refused if the template lacks one of the interpretations.
    pub open spec fn modify(
        self,
        sender: AccountId,
        push: bool,
        interpretations: Seq<InfoView>,
    ) -> Result<TemplateView, Error> {
        if exists|i: int|
            0 <= i < interpretations.len() && !self.interpretations.contains_key(
                #[trigger] interpretations[i].id,
            ) {
            Err(Error::TemplateDoesntSupportThisInterpretation)
        } else {
            Ok(self.modify_all(sender, push, interpretations))
        }
    }

    /// `ModifyTags`: refused if the template lacks the interpretation. An
    /// item that holds the interpretation gets the new tags; its resource is
    /// not touched.
    pub open spec fn modify_tags(self, push: bool, id: Seq<u8>, tags: Set<Seq<u8>>) -> Result<
        TemplateView,
        Error,
    > {
        if !self.interpretations.contains_key(id) {
            Err(Error::TemplateDoesntSupportThisInterpretation)
        } else {
            Ok(
                self.with(
                    self.interpretations.insert(
                        id,
                        EntryView { resource: self.interpretations[id].resource, tags },
                    ),
                    self.items_after(self.issuer, push, ItemOpView::SetTags { id, tags }),
                ),
            )
        }
    }

    /// `RemoveInterpretation`: refused if the template lacks the interpretation.
    pub open spec fn remove(self, sender: AccountId, push: bool, id: Seq<u8>) -> Result<
        TemplateView,
        Error,
    > {
        if !self.interpretations.contains_key(id) {
            Err(Error::TemplateDoesntSupportThisInterpretation)
        } else {
            Ok(
                self.with(
                    self.interpretations.remove(id),
                    self.items_after(sender, push, ItemOpView::Remove { ids: set![id] }),
                ),
            )
        }
    }

    /// The interpretations of the template that are found under `key`.
    pub open spec fn under(self, key: Seq<u8>) -> Set<Seq<u8>> {
        Set::new(
            |id: Seq<u8>|
                self.interpretations.contains_key(id) && self.interpretations[id].tags.contains(
                    key,
                ),
        )
    }

    /// `RemoveInterpretationType`: refused if the template has nothing under
    /// `key`; else all that is under it goes, from the items too.
    pub open spec fn remove_type(self, sender: AccountId, key: Seq<u8>) -> Result<
        TemplateView,
        Error,
    > {
        if self.under(key) =~= Set::<Seq<u8>>::empty() {
            Err(Error::TemplateNotSupportThisType)
        } else {
            Ok(
                self.with(
                    self.interpretations.remove_keys(self.under(key)),
                    self.pushed(sender, ItemOpView::Remove { ids: self.under(key) }),
                ),
            )
        }
    }

    /// The template after one change, or why the change is refused.
    pub open spec fn apply(self, sender: AccountId, push: bool, change: ChangeView) -> Result<
        TemplateView,
        Error,
    > {
        match change {
            ChangeView::Add { interpretations } => self.add(sender, push, interpretations),
            ChangeView::Modify { interpretations } => self.modify(sender, push, interpretations),
            ChangeView::ModifyTags { interpretation_id, tags } => self.modify_tags(
                push,
                interpretation_id,
                tags,
            ),
            ChangeView::RemoveInterpretation { interpretation_id } => self.remove(
                sender,
                push,
                interpretation_id,
            ),
            ChangeView::RemoveInterpretationType { interpretation_type } => self.remove_type(
                sender,
                interpretation_type,
            ),
        }
    }

    /// The template after a change set, each change applied to what the ones
    /// before it left; or why the first change that fails is refused.
    pub open spec fn apply_all(
        self,
        sender: AccountId,
        push: bool,
        changes: Seq<ChangeView>,
    ) -> Result<TemplateView, Error>
        decreases changes.len(),
    {
        if changes.len() == 0 {
            Ok(self)
        } else {
            match self.apply_all(sender, push, changes.drop_last()) {
                Ok(t) => t.apply(sender, push, changes.last()),
                Err(e) => Err(e),
            }
        }
    }
}

impl TemplateView {
    /// The template after interpretations were bound to it at its creation,
    /// in their order; the items are not touched.
    pub open spec fn bind_all(self, interpretations: Seq<InterpretationView>) -> TemplateView
        decreases interpretations.len(),
    {
        if interpretations.len() == 0 {
            self
        } else {
            let t = self.bind_all(interpretations.drop_last());
            let it = interpretations.last();
            t.with(
                t.interpretations.insert(
                    it.interpretation.id,
                    EntryView { resource: it.interpretation.resource(), tags: it.tags },
                ),
                t.items,
            )
        }
    }

    /// The item that `sender` mints for `owner`: it holds what the template
    /// holds, written in the name of `sender`.
    pub open spec fn fresh_item(self, sender: AccountId, owner: AccountId, metadata: Seq<u8>) -> ItemView {
        (ItemView {
            owner,
            metadata,
            tags: Map::<Seq<u8>, Set<Seq<u8>>>::empty(),
            resources: Map::<Seq<u8>, ResourceStateView>::empty(),
        }).reconciled(sender, self.interpretations)
    }

    /// Whether the template can number one more item: its numbers stay below
    /// the ledger's `limit` and below its own maximum, if it has one.
    pub open spec fn has_room(self, limit: u32) -> bool {
        &&& self.next_item_id < limit
        &&& self.max matches Some(m) ==> self.next_item_id < m
    }

    /// Minting: only the issuer mints, and only while the template can
    /// number one more item. The item is given the template's next number.
    pub open spec fn minted(
        self,
        sender: AccountId,
        owner: AccountId,
        metadata: Seq<u8>,
        limit: u32,
    ) -> Result<TemplateView, Error> {
        if sender != self.issuer {
            Err(Error::NoPermission)
        } else if !self.has_room(limit) {
            Err(Error::NoAvailableId)
        } else {
            Ok(
                TemplateView {
                    issuer: self.issuer,
                    name: self.name,
                    metadata: self.metadata,
                    max: self.max,
                    next_item_id: (self.next_item_id + 1) as u32,
                    interpretations: self.interpretations,
                    items: self.items.insert(
                        self.next_item_id,
                        self.fresh_item(sender, owner, metadata),
                    ),
                },
            )
        }
    }

    /// Burning: the item goes, with all it holds.
    pub open spec fn burned(self, item_id: ItemId) -> Result<TemplateView, Error> {
        if !self.items.contains_key(item_id) {
            Err(Error::ItemNotExist)
        } else {
            Ok(self.with(self.interpretations, self.items.remove(item_id)))
        }
    }

    /// The owner of an item, if the template has the item.
    pub open spec fn owner_of(self, item_id: ItemId) -> Option<AccountId> {
        if self.items.contains_key(item_id) {
            Some(self.items[item_id].owner)
        } else {
            None
        }
    }

    /// Transfer: only the owner hands an item on.
    pub open spec fn transferred(
        self,
        sender: AccountId,
        item_id: ItemId,
        destination: AccountId,
    ) -> Result<TemplateView, Error> {
        if !self.items.contains_key(item_id) {
            Err(Error::ItemNotExist)
        } else if self.items[item_id].owner != sender {
            Err(Error::NoPermission)
        } else {
            Ok(
                self.with(
                    self.interpretations,
                    self.items.insert(
                        item_id,
                        ItemView {
                            owner: destination,
                            metadata: self.items[item_id].metadata,
                            tags: self.items[item_id].tags,
                            resources: self.items[item_id].resources,
                        },
                    ),
                ),
            )
        }
    }

    /// Acceptance: only the owner of an item accepts what is pending on it.
    pub open spec fn accepted(self, sender: AccountId, item_id: ItemId) -> Result<
        TemplateView,
        Error,
    > {
        if self.owner_of(item_id) != Some(sender) {
            Err(Error::NoPermission)
        } else {
            Ok(
                self.with(
                    self.interpretations,
                    self.items.insert(item_id, self.items[item_id].accepted()),
                ),
            )
        }
    }

    /// Reconciliation: the owner of an item brings it to what the template
    /// holds now.
    pub open spec fn item_updated(self, sender: AccountId, item_id: ItemId) -> Result<
        TemplateView,
        Error,
    > {
        if self.owner_of(item_id) != Some(sender) {
            Err(Error::NoPermission)
        } else {
            Ok(
                self.with(
                    self.interpretations,
                    self.items.insert(
                        item_id,
                        self.items[item_id].reconciled(sender, self.interpretations),
                    ),
                ),
            )
        }
    }
}

/// If a change set is refused after some of its changes, it is refused as a
/// whole, with the same error.
pub proof fn lemma_apply_all_refused(
    t: TemplateView,
    sender: AccountId,
    push: bool,
    changes: Seq<ChangeView>,
    k: int,
    e: Error,
)
    requires
        0 <= k <= changes.len(),
        t.apply_all(sender, push, changes.take(k)) == Err::<TemplateView, Error>(e),
    ensures
        t.apply_all(sender, push, changes) == Err::<TemplateView, Error>(e),
    decreases changes.len() - k,
{
    if k == changes.len() {
        assert(changes.take(k) =~= changes);
    } else {
        assert(changes.take(k + 1).drop_last() =~= changes.take(k));
        lemma_apply_all_refused(t, sender, push, changes, k + 1, e);
    }
}

impl View for Template {
    type V = TemplateView;

    closed spec fn view(&self) -> TemplateView {
        TemplateView {
            issuer: self.issuer,
            name: self.name@,
            metadata: self.metadata@,
            max: self.max,
            next_item_id: self.item_ids@,
            interpretations: self.interpretations@,
            items: self.items@,
        }
    }
}

impl Dup for Template {
    fn dup(&self) -> (r: Self) {
        Template {
            issuer: self.issuer,
            name: bytes_copy(&self.name),
            metadata: bytes_copy(&self.metadata),
            max: self.max,
            item_ids: self.item_ids,
            interpretations: self.interpretations.dup(),
            items: self.items.dup(),
        }
    }
}

impl Clone for Template {
    fn clone(&self) -> (r: Self)
        ensures
            r@ == self@,
    {
        self.dup()
    }
}

impl Template {
    /// A template without interpretations and without items.
    pub fn new(issuer: AccountId, name: Vec<u8>, metadata: Vec<u8>, max: Option<u32>) -> (r: Self)
        ensures
            r@ == (TemplateView {
                issuer,
                name: name@,
                metadata: metadata@,
                max,
                next_item_id: 0,
                interpretations: Map::<Seq<u8>, EntryView>::empty(),
                items: Map::<ItemId, ItemView>::empty(),
            }),
    {
        Template {
            issuer,
            name,
            metadata,
            max,
            item_ids: IdAllocator::new(),
            interpretations: Table::new(),
            items: Table::new(),
        }
    }

    /// What is kept of the template besides what it holds.
    pub fn info(&self) -> (r: TemplateInfo)
        ensures
            r.issuer == self@.issuer,
            r.name@ == self@.name,
            r.metadata@ == self@.metadata,
            r.max == self@.max,
            r.next_item_id == self@.next_item_id,
    {
        TemplateInfo {
            issuer: self.issuer,
            name: bytes_copy(&self.name),
            metadata: bytes_copy(&self.metadata),
            max: self.max,
            next_item_id: self.item_ids.next(),
        }
    }

    /// Who issued the template.
    pub fn issuer(&self) -> (r: AccountId)
        ensures
            r == self@.issuer,
    {
        self.issuer
    }

    /// Does `op` to each item in the name of `sender`.
    fn push(&mut self, sender: AccountId, op: &ItemOp)
        ensures
            final(self)@ == old(self)@.with(
                old(self)@.interpretations,
                old(self)@.pushed(sender, op@),
            ),
    {
        let mut items: Table<ItemId, Item> = Table::new();
        std::mem::swap(&mut items, &mut self.items);
        let ghost before = items;
        let n = items.len();
        let mut i: usize = 0;
        while i < n
            invariant
                before.wf(),
                items.wf(),
                items.count() == n,
                before.count() == n,
                i <= n,
                forall|j: int| 0 <= j < n ==> #[trigger] items.key_at(j) == before.key_at(j),
                forall|j: int|
                    0 <= j < i ==> #[trigger] items.value_at(j) == before.value_at(j).applied(
                        sender,
                        op@,
                    ),
                forall|j: int| i <= j < n ==> #[trigger] items.value_at(j) == before.value_at(j),
            decreases n - i,
        {
            let item = items.value_mut(i);
            item.apply(sender, op);
            i += 1;
        }
        proof {
            before.lemma_positions();
            items.lemma_positions();
            let goal = old(self)@.pushed(sender, op@);
            assert forall|k: ItemId| items@.contains_key(k) <==> goal.contains_key(k) by {
                if items@.contains_key(k) {
                    let j = choose|j: int| 0 <= j < items.count() && items.key_at(j) == k;
                    assert(before.key_at(j) == k);
                }
                if goal.contains_key(k) {
                    let j = choose|j: int| 0 <= j < before.count() && before.key_at(j) == k;
                    assert(items.key_at(j) == k);
                }
            }
            assert forall|k: ItemId| items@.contains_key(k) implies items@[k] == goal[k] by {
                let j = choose|j: int| 0 <= j < items.count() && items.key_at(j) == k;
                assert(before.key_at(j) == k);
                assert(items.value_at(j) == before.value_at(j).applied(sender, op@));
            }
            assert(items@ =~= goal);
        }
        self.items = items;
    }
}

impl Template {
    /// Binds interpretations to the template, each with its tags; one that
    /// the template has already is replaced.
    pub fn add_interpretation(
        &mut self,
        sender: AccountId,
        push: bool,
        interpretations: &Vec<(IntepretationInfo, Tags)>,
    ) -> (r: Result<(), Error>)
        ensures
            meets(
                old(self)@.add(sender, push, views(interpretations@)),
                old(self)@,
                final(self)@,
                r,
            ),
    {
        let ghost list = views(interpretations@);
        let n = interpretations.len();
        let mut i: usize = 0;
        while i < n
            invariant
                n == interpretations.len(),
                list == views(interpretations@),
                i <= n,
                forall|j: int| 0 <= j < i ==> !no_tags(#[trigger] list[j].1),
            decreases n - i,
        {
            if interpretations[i].1.is_empty() {
                assert(no_tags(list[i as int].1));
                return Err(Error::EmptyTags);
            }
            i += 1;
        }
        let mut i: usize = 0;
        assert(list.take(0).len() == 0);
        while i < n
            invariant
                n == interpretations.len(),
                list == views(interpretations@),
                i <= n,
                self@ == old(self)@.add_all(sender, push, list.take(i as int)),
            decreases n - i,
        {
            let info = &interpretations[i].0;
            let tags = &interpretations[i].1;
            self.interpretations.insert(
                bytes_copy(&info.id),
                TemplateEntry { resource: info.to_resource(), tags: tags.dup() },
            );
            if push {
                let op = ItemOp::Put {
                    id: bytes_copy(&info.id),
                    content: info.to_resource(),
                    tags: Some(tags.dup()),
                };
                self.push(sender, &op);
            }
            proof {
                assert(list.take(i + 1).drop_last() =~= list.take(i as int));
                assert(list.take(i + 1).last() == list[i as int]);
            }
            i += 1;
        }
        assert(list.take(n as int) =~= list);
        Ok(())
    }

    /// Replaces the content of interpretations that the template has.
    pub fn modify_interpretation(
        &mut self,
        sender: AccountId,
        push: bool,
        interpretations: &Vec<IntepretationInfo>,
    ) -> (r: Result<(), Error>)
        ensures
            meets(
                old(self)@.modify(sender, push, views(interpretations@)),
                old(self)@,
                final(self)@,
                r,
            ),
    {
        let ghost list = views(interpretations@);
        let n = interpretations.len();
        let mut i: usize = 0;
        while i < n
            invariant
                n == interpretations.len(),
                list == views(interpretations@),
                i <= n,
                self@ == old(self)@,
                forall|j: int|
                    0 <= j < i ==> self@.interpretations.contains_key(#[trigger] list[j].id),
            decreases n - i,
        {
            if !self.interpretations.contains_key(&interpretations[i].id) {
                assert(!self@.interpretations.contains_key(list[i as int].id));
                return Err(Error::TemplateDoesntSupportThisInterpretation);
            }
            i += 1;
        }
        let mut i: usize = 0;
        assert(list.take(0).len() == 0);
        while i < n
            invariant
                n == interpretations.len(),
                list == views(interpretations@),
                i <= n,
                self@ == old(self)@.modify_all(sender, push, list.take(i as int)),
                forall|j: int|
                    0 <= j < n ==> self@.interpretations.contains_key(#[trigger] list[j].id),
            decreases n - i,
        {
            let info = &interpretations[i];
            assert(self@.interpretations.contains_key(list[i as int].id));
            let tags = match self.interpretations.get(&info.id) {
                Some(e) => e.tags.dup(),
                None => Tags::new(),
            };
            self.interpretations.insert(
                bytes_copy(&info.id),
                TemplateEntry { resource: info.to_resource(), tags },
            );
            if push {
                let op = ItemOp::Put {
                    id: bytes_copy(&info.id),
                    content: info.to_resource(),
                    tags: None,
                };
                self.push(sender, &op);
            }
            proof {
                assert(list.take(i + 1).drop_last() =~= list.take(i as int));
                assert(list.take(i + 1).last() == list[i as int]);
            }
            i += 1;
        }
        assert(list.take(n as int) =~= list);
        Ok(())
    }

    /// Replaces the tags of an interpretation that the template has.
    pub fn modify_interpretation_tags(
        &mut self,
        push: bool,
        interpretation_id: &Vec<u8>,
        tags: &Tags,
    ) -> (r: Result<(), Error>)
        ensures
            meets(
                old(self)@.modify_tags(push, interpretation_id@, tags@),
                old(self)@,
                final(self)@,
                r,
            ),
    {
        let resource = match self.interpretations.get(interpretation_id) {
            Some(e) => e.resource.dup(),
            None => {
                return Err(Error::TemplateDoesntSupportThisInterpretation);
            },
        };
        self.interpretations.insert(
            bytes_copy(interpretation_id),
            TemplateEntry { resource, tags: tags.dup() },
        );
        if push {
            let op = ItemOp::SetTags { id: bytes_copy(interpretation_id), tags: tags.dup() };
            let issuer = self.issuer;
            self.push(issuer, &op);
        }
        Ok(())
    }

    /// Takes one interpretation from the template.
    pub fn remove_interpretation(
        &mut self,
        sender: AccountId,
        push: bool,
        interpretation_id: &Vec<u8>,
    ) -> (r: Result<(), Error>)
        ensures
            meets(
                old(self)@.remove(sender, push, interpretation_id@),
                old(self)@,
                final(self)@,
                r,
            ),
    {
        if !self.interpretations.contains_key(interpretation_id) {
            return Err(Error::TemplateDoesntSupportThisInterpretation);
        }
        self.interpretations.remove(interpretation_id);
        if push {
            let mut ids: Vec<Vec<u8>> = Vec::new();
            ids.push(bytes_copy(interpretation_id));
            assert(names(ids@) =~= set![interpretation_id@]) by {
                assert(ids@[0]@ == interpretation_id@);
            }
            let op = ItemOp::Remove { ids };
            self.push(sender, &op);
        }
        Ok(())
    }

    /// Takes from the template, and from its items, every interpretation
    /// found under the tag or type `key`.
    pub fn remove_interpretation_type(&mut self, sender: AccountId, key: &Vec<u8>) -> (r: Result<
        (),
        Error,
    >)
        ensures
            meets(old(self)@.remove_type(sender, key@), old(self)@, final(self)@, r),
    {
        let mut ids: Vec<Vec<u8>> = Vec::new();
        let n = self.interpretations.len();
        let mut i: usize = 0;
        while i < n
            invariant
                self.interpretations.wf(),
                n == self.interpretations.count(),
                i <= n,
                forall|t: Seq<u8>|
                    names(ids@).contains(t) <==> (exists|j: int|
                        0 <= j < i && #[trigger] self.interpretations.key_at(j) == t
                            && self.interpretations.value_at(j).tags.contains(key@)),
            decreases n - i,
        {
            let ghost before = ids@;
            let ghost id = self.interpretations.key_at(i as int);
            let hit = self.interpretations.value(i).tags.contains(key);
            if hit {
                ids.push(self.interpretations.key(i).dup());
            }
            proof {
                if hit {
                    assert(ids@[before.len() as int]@ == id);
                }
                assert forall|t: Seq<u8>| names(ids@).contains(t) <==> (names(before).contains(t)
                    || (hit && t == id)) by {
                    if names(ids@).contains(t) {
                        let a = choose|a: int| 0 <= a < ids@.len() && (#[trigger] ids@[a])@ == t;
                        if a < before.len() {
                            assert(before[a]@ == t);
                        }
                    }
                    if names(before).contains(t) {
                        let a = choose|a: int| 0 <= a < before.len() && (#[trigger] before[a])@ == t;
                        assert(ids@[a]@ == t);
                    }
                }
                assert forall|t: Seq<u8>| names(ids@).contains(t) <==> (exists|j: int|
                    0 <= j < i + 1 && #[trigger] self.interpretations.key_at(j) == t
                        && self.interpretations.value_at(j).tags.contains(key@)) by {
                    if names(before).contains(t) {
                        let j = choose|j: int|
                            0 <= j < i && #[trigger] self.interpretations.key_at(j) == t
                                && self.interpretations.value_at(j).tags.contains(key@);
                        assert(0 <= j < i + 1 && self.interpretations.key_at(j) == t);
                    }
                    if hit && t == id {
                        assert(self.interpretations.key_at(i as int) == t);
                    }
                    if exists|j: int|
                        0 <= j < i + 1 && #[trigger] self.interpretations.key_at(j) == t
                            && self.interpretations.value_at(j).tags.contains(key@) {
                        let j = choose|j: int|
                            0 <= j < i + 1 && #[trigger] self.interpretations.key_at(j) == t
                                && self.interpretations.value_at(j).tags.contains(key@);
                        if j < i {
                            assert(names(before).contains(t));
                        }
                    }
                }
            }
            i += 1;
        }
        proof {
            self.interpretations.lemma_positions();
            assert forall|t: Seq<u8>| names(ids@).contains(t) <==> self@.under(key@).contains(
                t,
            ) by {
                if self@.under(key@).contains(t) {
                    let j = choose|j: int|
                        0 <= j < self.interpretations.count() && self.interpretations.key_at(j)
                            == t;
                    assert(self.interpretations.key_at(j) == t);
                }
            }
            assert(names(ids@) =~= self@.under(key@));
        }
        if ids.len() == 0 {
            return Err(Error::TemplateNotSupportThisType);
        }
        assert(names(ids@).contains(ids@[0]@));
        let mut k: usize = 0;
        proof {
            lemma_names_take(ids@, 0);
            assert(self.interpretations@ =~= old(self)@.interpretations.remove_keys(
                names(ids@.take(0)),
            ));
        }
        while k < ids.len()
            invariant
                k <= ids.len(),
                self@ == old(self)@.with(
                    old(self)@.interpretations.remove_keys(names(ids@.take(k as int))),
                    old(self)@.items,
                ),
            decreases ids.len() - k,
        {
            self.interpretations.remove(&ids[k]);
            proof {
                lemma_names_take(ids@, k as int);
                assert(self.interpretations@ =~= old(self)@.interpretations.remove_keys(
                    names(ids@.take(k + 1)),
                ));
            }
            k += 1;
        }
        proof {
            lemma_names_take(ids@, 0);
        }
        let op = ItemOp::Remove { ids };
        self.push(sender, &op);
        Ok(())
    }

    /// Applies one change to the template.
    pub fn apply_changes(&mut self, sender: AccountId, push: bool, change: &Change) -> (r: Result<
        (),
        Error,
    >)
        ensures
            meets(old(self)@.apply(sender, push, change@), old(self)@, final(self)@, r),
    {
        match change {
            Change::Add { interpretations } => self.add_interpretation(
                sender,
                push,
                interpretations,
            ),
            Change::Modify { interpretations } => self.modify_interpretation(
                sender,
                push,
                interpretations,
            ),
            Change::ModifyTags { interpretation_id, tags } => self.modify_interpretation_tags(
                push,
                interpretation_id,
                tags,
            ),
            Change::RemoveInterpretation { interpretation_id } => self.remove_interpretation(
                sender,
                push,
                interpretation_id,
            ),
            Change::RemoveInterpretationType {
                interpretation_type,
            } => self.remove_interpretation_type(sender, interpretation_type),
        }
    }
}

impl Template {
    /// Applies a change set, each change to what the ones before it left.
    /// If one of them is refused, none is applied.
    pub fn apply_all(&mut self, sender: AccountId, push: bool, changes: &Vec<Change>) -> (r: Result<
        (),
        Error,
    >)
        ensures
            meets(
                old(self)@.apply_all(sender, push, views(changes@)),
                old(self)@,
                final(self)@,
                r,
            ),
    {
        let ghost list = views(changes@);
        let mut staged = self.dup();
        let mut i: usize = 0;
        assert(list.take(0).len() == 0);
        while i < changes.len()
            invariant
                list == views(changes@),
                i <= changes.len(),
                self@ == old(self)@,
                old(self)@.apply_all(sender, push, list.take(i as int)) == Ok::<
                    TemplateView,
                    Error,
                >(staged@),
            decreases changes.len() - i,
        {
            let step = staged.apply_changes(sender, push, &changes[i]);
            proof {
                assert(list.take(i + 1).drop_last() =~= list.take(i as int));
                assert(list.take(i + 1).last() == list[i as int]);
            }
            match step {
                Ok(()) => {},
                Err(e) => {
                    proof {
                        lemma_apply_all_refused(old(self)@, sender, push, list, i + 1, e);
                    }
                    return Err(e);
                },
            }
            i += 1;
        }
        assert(list.take(changes.len() as int) =~= list);
        *self = staged;
        Ok(())
    }

    /// Binds the interpretations that a template is created with.
    pub fn bind(&mut self, interpretations: &Vec<Interpretation>)
        ensures
            final(self)@ == old(self)@.bind_all(views(interpretations@)),
    {
        let ghost list = views(interpretations@);
        let n = interpretations.len();
        let mut i: usize = 0;
        assert(list.take(0).len() == 0);
        while i < n
            invariant
                n == interpretations.len(),
                list == views(interpretations@),
                i <= n,
                self@ == old(self)@.bind_all(list.take(i as int)),
            decreases n - i,
        {
            let it = &interpretations[i];
            self.interpretations.insert(
                bytes_copy(&it.interpretation.id),
                TemplateEntry { resource: it.interpretation.to_resource(), tags: it.tags.dup() },
            );
            proof {
                assert(list.take(i + 1).drop_last() =~= list.take(i as int));
                assert(list.take(i + 1).last() == list[i as int]);
            }
            i += 1;
        }
        assert(list.take(n as int) =~= list);
    }

    /// Whether the template has no item.
    pub fn is_empty(&self) -> (r: bool)
        ensures
            r == (self@.items == Map::<ItemId, ItemView>::empty()),
    {
        self.items.is_empty()
    }

    /// What the template holds of the interpretation `id`.
    pub fn interpretation(&self, id: &Vec<u8>) -> (r: Option<(IntepretationInfo, Tags)>)
        ensures
            match r {
                Some(p) => self@.interpretations.contains_key(id@) && p.0@.id == id@
                    && p.0@.resource() == self@.interpretations[id@].resource && p.1@
                    == self@.interpretations[id@].tags,
                None => !self@.interpretations.contains_key(id@),
            },
    {
        match self.interpretations.get(id) {
            Some(e) => {
                let r = e.resource.dup();
                Some(
                    (
                        IntepretationInfo { id: bytes_copy(id), src: r.src, metadata: r.metadata },
                        e.tags.dup(),
                    ),
                )
            },
            None => None,
        }
    }

    /// The item `item_id`, if the template has it.
    pub fn item(&self, item_id: ItemId) -> (r: Option<&Item>)
        ensures
            match r {
                Some(it) => self@.items.contains_key(item_id) && it@ == self@.items[item_id],
                None => !self@.items.contains_key(item_id),
            },
    {
        self.items.get(&item_id)
    }

    /// Mints an item for `owner`: it is given the template's next number and
    /// what the template holds, written in the name of `sender`.
    pub fn mint(&mut self, sender: AccountId, owner: AccountId, metadata: Vec<u8>, limit: u32) -> (r:
        Result<ItemId, Error>)
        ensures
            meets(
                old(self)@.minted(sender, owner, metadata@, limit),
                old(self)@,
                final(self)@,
                r,
            ),
            r matches Ok(id) ==> id == old(self)@.next_item_id,
    {
        if sender != self.issuer {
            return Err(Error::NoPermission);
        }
        let bound = match self.max {
            Some(m) => if m < limit {
                m
            } else {
                limit
            },
            None => limit,
        };
        let id = match self.item_ids.allocate(bound) {
            Ok(id) => id,
            Err(e) => {
                return Err(e);
            },
        };
        let mut item = Item::new(owner, metadata);
        item.reconcile(sender, &self.interpretations);
        self.items.insert(id, item);
        Ok(id)
    }

    /// Burns an item.
    pub fn burn(&mut self, item_id: ItemId) -> (r: Result<(), Error>)
        ensures
            meets(old(self)@.burned(item_id), old(self)@, final(self)@, r),
    {
        match self.items.remove(&item_id) {
            Some(_) => Ok(()),
            None => {
                assert(self@.items =~= old(self)@.items);
                Err(Error::ItemNotExist)
            },
        }
    }

    /// The owner of an item, if the template has the item.
    pub fn owner(&self, item_id: ItemId) -> (r: Option<AccountId>)
        ensures
            r == self@.owner_of(item_id),
    {
        match self.items.get(&item_id) {
            Some(it) => Some(it.owner()),
            None => None,
        }
    }

    /// Hands an item on to `destination`.
    pub fn transfer(&mut self, sender: AccountId, item_id: ItemId, destination: AccountId) -> (r:
        Result<(), Error>)
        ensures
            meets(
                old(self)@.transferred(sender, item_id, destination),
                old(self)@,
                final(self)@,
                r,
            ),
    {
        match self.items.find(&item_id) {
            Some(i) => {
                if self.items.value(i).owner() != sender {
                    return Err(Error::NoPermission);
                }
                let item = self.items.value_mut(i);
                item.set_owner(destination);
                Ok(())
            },
            None => Err(Error::ItemNotExist),
        }
    }

    /// Accepts, for its owner, what is pending on an item.
    pub fn accept(&mut self, sender: AccountId, item_id: ItemId) -> (r: Result<(), Error>)
        ensures
            meets(old(self)@.accepted(sender, item_id), old(self)@, final(self)@, r),
    {
        match self.items.find(&item_id) {
            Some(i) => {
                if self.items.value(i).owner() != sender {
                    return Err(Error::NoPermission);
                }
                let item = self.items.value_mut(i);
                item.accept_update();
                Ok(())
            },
            None => Err(Error::NoPermission),
        }
    }

    /// Brings an item, for its owner, to what the template holds now.
    pub fn update_item(&mut self, sender: AccountId, item_id: ItemId) -> (r: Result<(), Error>)
        ensures
            meets(old(self)@.item_updated(sender, item_id), old(self)@, final(self)@, r),
    {
        match self.items.find(&item_id) {
            Some(i) => {
                if self.items.value(i).owner() != sender {
                    return Err(Error::NoPermission);
                }
                let item = self.items.value_mut(i);
                item.reconcile(sender, &self.interpretations);
                Ok(())
            },
            None => Err(Error::NoPermission),
        }
    }
}

} // verus!
