//! Items and the resources they carry.
//!
//! An item holds, for the interpretations it was given, their tags and a
//! resource each. A resource written by someone other than the item's owner
//! is pending until the owner accepts it; until then the content that the
//! owner accepted last stays the accepted one. A removal asked for by someone
//! other than the owner is pending in the same way.

use vstd::prelude::*;
use crate::bytes::{bytes_copy, opt_copy, opt_view};
use crate::table::{Dup, Table};
use crate::types::{
    lemma_names_take, names, AccountId, EntryView, ItemInfo, ResourceInfo, ResourceView, Tags,
    TemplateEntry,
};

verus! {

/// A resource of an item, as the item keeps it.
#[derive(Debug, PartialEq, Eq)]
pub struct ResourceState {
    pub content: ResourceInfo,
    pub pending: bool,
    pub pending_removal: bool,
    pub accepted: Option<ResourceInfo>,
}

/// The model of a resource of an item.
pub struct ResourceStateView {
    /// What was written last.
    pub content: ResourceView,
    /// Whether what was written last awaits the owner's consent.
    pub pending: bool,
    /// Whether a removal awaits the owner's consent.
    pub pending_removal: bool,
    /// What the owner accepted last, if anything.
    pub accepted: Option<ResourceView>,
}

impl ResourceStateView {
    /// The resource once its owner has accepted what was written.
    pub open spec fn after_accept(self) -> ResourceStateView {
        if self.pending {
            ResourceStateView {
                content: self.content,
                pending: false,
                pending_removal: self.pending_removal,
                accepted: Some(self.content),
            }
        } else {
            self
        }
    }
}

/// The model of an optional content.
pub open spec fn opt_resource_view(o: Option<ResourceInfo>) -> Option<ResourceView> {
    match o {
        Some(r) => Some(r@),
        None => None,
    }
}

impl View for ResourceState {
    type V = ResourceStateView;

    open spec fn view(&self) -> ResourceStateView {
        ResourceStateView {
            content: self.content@,
            pending: self.pending,
            pending_removal: self.pending_removal,
            accepted: opt_resource_view(self.accepted),
        }
    }
}

impl Dup for ResourceState {
    fn dup(&self) -> (r: Self) {
        ResourceState {
            content: self.content.dup(),
            pending: self.pending,
            pending_removal: self.pending_removal,
            accepted: match &self.accepted {
                Some(a) => Some(a.dup()),
                None => None,
            },
        }
    }
}

impl Clone for ResourceState {
    fn clone(&self) -> (r: Self)
        ensures
            r@ == self@,
    {
        self.dup()
    }
}

/// A resource of an item, as a reader is shown it.
#[derive(Debug, PartialEq, Eq)]
pub struct Resource {
    pub id: Vec<u8>,
    pub pending: bool,
    pub pending_removal: bool,
    pub src: Option<Vec<u8>>,
    pub metadata: Option<Vec<u8>>,
    pub accepted: Option<ResourceInfo>,
}

impl Resource {
    /// The resource `id` in the state `state`.
    pub open spec fn shows(&self, id: Seq<u8>, state: ResourceStateView) -> bool {
        &&& self.id@ == id
        &&& self.pending == state.pending
        &&& self.pending_removal == state.pending_removal
        &&& opt_view(self.src) == state.content.src
        &&& opt_view(self.metadata) == state.content.metadata
        &&& opt_resource_view(self.accepted) == state.accepted
    }
}

/// What is done to an item when its template changes.
#[allow(inconsistent_fields)]
pub enum ItemOp {
    /// Write a resource and, with `tags`, bind the interpretation's tags.
    Put { id: Vec<u8>, content: ResourceInfo, tags: Option<Tags> },
    /// Replace the tags of an interpretation that the item holds.
    SetTags { id: Vec<u8>, tags: Tags },
    /// Take interpretations from the item.
    Remove { ids: Vec<Vec<u8>> },
}

/// The model of what is done to an item.
#[allow(inconsistent_fields)]
pub enum ItemOpView {
    Put { id: Seq<u8>, content: ResourceView, tags: Option<Set<Seq<u8>>> },
    SetTags { id: Seq<u8>, tags: Set<Seq<u8>> },
    Remove { ids: Set<Seq<u8>> },
}

/// The model of an optional set of tags.
pub open spec fn opt_tags_view(o: Option<Tags>) -> Option<Set<Seq<u8>>> {
    match o {
        Some(t) => Some(t@),
        None => None,
    }
}

impl View for ItemOp {
    type V = ItemOpView;

    open spec fn view(&self) -> ItemOpView {
        match *self {
            ItemOp::Put { id, content, tags } => ItemOpView::Put {
                id: id@,
                content: content@,
                tags: opt_tags_view(tags),
            },
            ItemOp::SetTags { id, tags } => ItemOpView::SetTags { id: id@, tags: tags@ },
            ItemOp::Remove { ids } => ItemOpView::Remove { ids: names(ids@) },
        }
    }
}

/// An item: who owns it and what it holds.
#[derive(Debug, PartialEq, Eq)]
pub struct Item {
    owner: AccountId,
    metadata: Vec<u8>,
    tags: Table<Vec<u8>, Tags>,
    resources: Table<Vec<u8>, ResourceState>,
}

/// The model of an item.
pub struct ItemView {
    pub owner: AccountId,
    pub metadata: Seq<u8>,
    /// The tags of the interpretations that the item holds.
    pub tags: Map<Seq<u8>, Set<Seq<u8>>>,
    /// The resources of the item.
    pub resources: Map<Seq<u8>, ResourceStateView>,
}

impl ItemView {
    /// What `sender` leaves under `id` by writing `content`: the owner's own
    /// writing is accepted at once, another's is pending and leaves what was
    /// accepted before as it was.
    pub open spec fn written(
        self,
        sender: AccountId,
        id: Seq<u8>,
        content: ResourceView,
    ) -> ResourceStateView {
        if sender == self.owner {
            ResourceStateView {
                content,
                pending: false,
                pending_removal: false,
                accepted: Some(content),
            }
        } else {
            ResourceStateView {
                content,
                pending: true,
                pending_removal: false,
                accepted: if self.resources.contains_key(id) {
                    self.resources[id].accepted
                } else {
                    None
                },
            }
        }
    }

    /// The item after `sender` wrote `content` under `id`, with `tags` if any.
    pub open spec fn put(
        self,
        sender: AccountId,
        id: Seq<u8>,
        content: ResourceView,
        tags: Option<Set<Seq<u8>>>,
    ) -> ItemView {
        ItemView {
            owner: self.owner,
            metadata: self.metadata,
            tags: match tags {
                Some(t) => self.tags.insert(id, t),
                None => self.tags,
            },
            resources: self.resources.insert(id, self.written(sender, id, content)),
        }
    }

    /// The item after the tags of `id` were replaced, if it holds `id`.
    pub open spec fn with_tags(self, id: Seq<u8>, tags: Set<Seq<u8>>) -> ItemView {
        ItemView {
            owner: self.owner,
            metadata: self.metadata,
            tags: if self.tags.contains_key(id) {
                self.tags.insert(id, tags)
            } else {
                self.tags
            },
            resources: self.resources,
        }
    }

    /// The item after `sender` took `ids` from it: their tags are gone; their
    /// resources are gone if `sender` owns the item, and await removal if not.
    pub open spec fn without(self, sender: AccountId, ids: Set<Seq<u8>>) -> ItemView {
        ItemView {
            owner: self.owner,
            metadata: self.metadata,
            tags: self.tags.remove_keys(ids),
            resources: if sender == self.owner {
                self.resources.remove_keys(ids)
            } else {
                Map::new(
                    |id: Seq<u8>| self.resources.contains_key(id),
                    |id: Seq<u8>|
                        if ids.contains(id) {
                            ResourceStateView {
                                content: self.resources[id].content,
                                pending: self.resources[id].pending,
                                pending_removal: true,
                                accepted: self.resources[id].accepted,
                            }
                        } else {
                            self.resources[id]
                        },
                )
            },
        }
    }

    /// The item after its owner accepted what was pending: resources that
    /// awaited removal are gone, the others are accepted.
    pub open spec fn accepted(self) -> ItemView {
        ItemView {
            owner: self.owner,
            metadata: self.metadata,
            tags: self.tags,
            resources: Map::new(
                |id: Seq<u8>| self.resources.contains_key(id) && !self.resources[id].pending_removal,
                |id: Seq<u8>| self.resources[id].after_accept(),
            ),
        }
    }

    /// The item brought to what a template holds, the writing done by
    /// `sender`: it has the template's interpretations and no others.
    pub open spec fn reconciled(
        self,
        sender: AccountId,
        entries: Map<Seq<u8>, EntryView>,
    ) -> ItemView {
        ItemView {
            owner: self.owner,
            metadata: self.metadata,
            tags: Map::new(|id: Seq<u8>| entries.contains_key(id), |id: Seq<u8>| entries[id].tags),
            resources: Map::new(
                |id: Seq<u8>| entries.contains_key(id),
                |id: Seq<u8>| self.written(sender, id, entries[id].resource),
            ),
        }
    }

    /// The item after `sender` did `op` to it.
    pub open spec fn applied(self, sender: AccountId, op: ItemOpView) -> ItemView {
        match op {
            ItemOpView::Put { id, content, tags } => self.put(sender, id, content, tags),
            ItemOpView::SetTags { id, tags } => self.with_tags(id, tags),
            ItemOpView::Remove { ids } => self.without(sender, ids),
        }
    }

    /// What the item holds of each interpretation: the content written last
    /// and the tags.
    pub open spec fn snapshot(self) -> Map<Seq<u8>, EntryView> {
        Map::new(
            |id: Seq<u8>| self.tags.contains_key(id) && self.resources.contains_key(id),
            |id: Seq<u8>| EntryView { resource: self.resources[id].content, tags: self.tags[id] },
        )
    }

    /// The content that the owner has accepted, by interpretation.
    pub open spec fn visible(self) -> Map<Seq<u8>, ResourceView> {
        Map::new(
            |id: Seq<u8>| self.resources.contains_key(id) && self.resources[id].accepted is Some,
            |id: Seq<u8>| self.resources[id].accepted.unwrap(),
        )
    }

    /// Whether nothing awaits the owner's consent.
    pub open spec fn settled(self) -> bool {
        forall|id: Seq<u8>| #[trigger]
            self.resources.contains_key(id) ==> !self.resources[id].pending
                && !self.resources[id].pending_removal
    }
}

impl View for Item {
    type V = ItemView;

    closed spec fn view(&self) -> ItemView {
        ItemView {
            owner: self.owner,
            metadata: self.metadata@,
            tags: self.tags@,
            resources: self.resources@,
        }
    }
}

impl Dup for Item {
    fn dup(&self) -> (r: Self) {
        Item {
            owner: self.owner,
            metadata: bytes_copy(&self.metadata),
            tags: self.tags.dup(),
            resources: self.resources.dup(),
        }
    }
}

impl Clone for Item {
    fn clone(&self) -> (r: Self)
        ensures
            r@ == self@,
    {
        self.dup()
    }
}

impl Item {
    /// An item that holds nothing yet.
    pub fn new(owner: AccountId, metadata: Vec<u8>) -> (r: Self)
        ensures
            r@ == (ItemView {
                owner,
                metadata: metadata@,
                tags: Map::<Seq<u8>, Set<Seq<u8>>>::empty(),
                resources: Map::<Seq<u8>, ResourceStateView>::empty(),
            }),
    {
        Item { owner, metadata, tags: Table::new(), resources: Table::new() }
    }

    /// Who owns the item.
    pub fn owner(&self) -> (r: AccountId)
        ensures
            r == self@.owner,
    {
        self.owner
    }

    /// Who owns the item, and its metadata.
    pub fn info(&self) -> (r: ItemInfo)
        ensures
            r.owner == self@.owner,
            r.metadata@ == self@.metadata,
    {
        ItemInfo { owner: self.owner, metadata: bytes_copy(&self.metadata) }
    }

    /// Hands the item to a new owner.
    pub fn set_owner(&mut self, owner: AccountId)
        ensures
            final(self)@ == (ItemView {
                owner,
                metadata: old(self)@.metadata,
                tags: old(self)@.tags,
                resources: old(self)@.resources,
            }),
    {
        self.owner = owner;
    }

    /// The tags of the interpretation `id`, if the item holds it.
    pub fn tags_of(&self, id: &Vec<u8>) -> (r: Option<Tags>)
        ensures
            match r {
                Some(t) => self@.tags.contains_key(id@) && t@ == self@.tags[id@],
                None => !self@.tags.contains_key(id@),
            },
    {
        match self.tags.get(id) {
            Some(t) => Some(t.dup()),
            None => None,
        }
    }

    /// The resource `id`, if the item has it.
    pub fn resource(&self, id: &Vec<u8>) -> (r: Option<Resource>)
        ensures
            match r {
                Some(x) => self@.resources.contains_key(id@) && x.shows(id@, self@.resources[id@]),
                None => !self@.resources.contains_key(id@),
            },
    {
        match self.resources.get(id) {
            Some(s) => Some(
                Resource {
                    id: bytes_copy(id),
                    pending: s.pending,
                    pending_removal: s.pending_removal,
                    src: opt_copy(&s.content.src),
                    metadata: opt_copy(&s.content.metadata),
                    accepted: match &s.accepted {
                        Some(a) => Some(a.dup()),
                        None => None,
                    },
                },
            ),
            None => None,
        }
    }

    /// Writes `content` under `id` in the name of `sender` and, with `tags`,
    /// binds the tags of `id`.
    pub fn put(&mut self, sender: AccountId, id: &Vec<u8>, content: &ResourceInfo, tags: &Option<Tags>)
        ensures
            final(self)@ == old(self)@.put(sender, id@, content@, opt_tags_view(*tags)),
    {
        let by_owner = sender == self.owner;
        let accepted = if by_owner {
            Some(content.dup())
        } else {
            match self.resources.get(id) {
                Some(s) => match &s.accepted {
                    Some(a) => Some(a.dup()),
                    None => None,
                },
                None => None,
            }
        };
        let state = ResourceState {
            content: content.dup(),
            pending: !by_owner,
            pending_removal: false,
            accepted,
        };
        assert(state@ == old(self)@.written(sender, id@, content@));
        self.resources.insert(bytes_copy(id), state);
        match tags {
            Some(t) => {
                self.tags.insert(bytes_copy(id), t.dup());
            },
            None => {},
        }
    }

    /// Replaces the tags of `id`, if the item holds `id`.
    pub fn set_tags(&mut self, id: &Vec<u8>, tags: &Tags)
        ensures
            final(self)@ == old(self)@.with_tags(id@, tags@),
    {
        if self.tags.contains_key(id) {
            self.tags.insert(bytes_copy(id), tags.dup());
        }
    }

    /// Takes the interpretations `ids` from the item in the name of `sender`.
    pub fn remove(&mut self, sender: AccountId, ids: &Vec<Vec<u8>>)
        ensures
            final(self)@ == old(self)@.without(sender, names(ids@)),
    {
        let by_owner = sender == self.owner;
        let mut k: usize = 0;
        assert(self@.tags =~= old(self)@.without(sender, names(ids@.take(0))).tags);
        assert(self@.resources =~= old(self)@.without(sender, names(ids@.take(0))).resources);
        while k < ids.len()
            invariant
                k <= ids.len(),
                by_owner == (sender == old(self)@.owner),
                self@ == old(self)@.without(sender, names(ids@.take(k as int))),
            decreases ids.len() - k,
        {
            let ghost before = self@;
            let ghost done = names(ids@.take(k as int));
            let id = &ids[k];
            self.tags.remove(id);
            if by_owner {
                self.resources.remove(id);
            } else {
                match self.resources.find(id) {
                    Some(i) => {
                        let s = self.resources.value_mut(i);
                        s.pending_removal = true;
                    },
                    None => {},
                }
            }
            proof {
                lemma_names_take(ids@, k as int);
                let goal = old(self)@.without(sender, names(ids@.take(k + 1)));
                assert(self@.tags =~= goal.tags);
                assert(self@.resources =~= goal.resources);
            }
            k += 1;
        }
        assert(ids@.take(ids.len() as int) =~= ids@);
    }

    /// Accepts what is pending: resources that await removal go, the others
    /// become accepted as they were written last.
    pub fn accept_update(&mut self)
        ensures
            final(self)@ == old(self)@.accepted(),
    {
        let mut kept: Table<Vec<u8>, ResourceState> = Table::new();
        let n = self.resources.len();
        let mut i: usize = 0;
        while i < n
            invariant
                self.resources.wf(),
                n == self.resources.count(),
                i <= n,
                forall|k: Seq<u8>|
                    kept@.contains_key(k) <==> (exists|j: int|
                        0 <= j < i && #[trigger] self.resources.key_at(j) == k
                            && !self.resources.value_at(j).pending_removal),
                forall|j: int|
                    0 <= j < i && !self.resources.value_at(j).pending_removal ==> kept@[#[trigger] self.resources.key_at(
                        j,
                    )] == self.resources.value_at(j).after_accept(),
            decreases n - i,
        {
            let s = self.resources.value(i);
            if !s.pending_removal {
                let key = self.resources.key(i).dup();
                let state = if s.pending {
                    ResourceState {
                        content: s.content.dup(),
                        pending: false,
                        pending_removal: false,
                        accepted: Some(s.content.dup()),
                    }
                } else {
                    s.dup()
                };
                proof {
                    self.resources.lemma_positions();
                }
                kept.push_fresh(key, state);
            }
            proof {
                self.resources.lemma_positions();
            }
            i += 1;
        }
        proof {
            self.resources.lemma_positions();
            let goal = old(self)@.accepted().resources;
            assert forall|k: Seq<u8>| kept@.contains_key(k) <==> goal.contains_key(k) by {
                if goal.contains_key(k) {
                    let j = choose|j: int|
                        0 <= j < self.resources.count() && self.resources.key_at(j) == k;
                    assert(self.resources.key_at(j) == k);
                }
            }
            assert(kept@ =~= goal);
        }
        self.resources = kept;
    }

    /// Brings the item to what a template holds, the writing done in the
    /// name of `sender`.
    pub fn reconcile(&mut self, sender: AccountId, entries: &Table<Vec<u8>, TemplateEntry>)
        ensures
            final(self)@ == old(self)@.reconciled(sender, entries@),
    {
        let by_owner = sender == self.owner;
        let mut tags: Table<Vec<u8>, Tags> = Table::new();
        let mut resources: Table<Vec<u8>, ResourceState> = Table::new();
        let n = entries.len();
        let mut i: usize = 0;
        while i < n
            invariant
                entries.wf(),
                n == entries.count(),
                i <= n,
                by_owner == (sender == self@.owner),
                forall|k: Seq<u8>|
                    tags@.contains_key(k) <==> (exists|j: int|
                        0 <= j < i && #[trigger] entries.key_at(j) == k),
                forall|k: Seq<u8>|
                    resources@.contains_key(k) <==> (exists|j: int|
                        0 <= j < i && #[trigger] entries.key_at(j) == k),
                forall|j: int|
                    0 <= j < i ==> tags@[#[trigger] entries.key_at(j)] == entries.value_at(j).tags,
                forall|j: int|
                    0 <= j < i ==> resources@[#[trigger] entries.key_at(j)] == self@.written(
                        sender,
                        entries.key_at(j),
                        entries.value_at(j).resource,
                    ),
            decreases n - i,
        {
            let id = entries.key(i);
            let e = entries.value(i);
            let accepted = if by_owner {
                Some(e.resource.dup())
            } else {
                match self.resources.get(id) {
                    Some(s) => match &s.accepted {
                        Some(a) => Some(a.dup()),
                        None => None,
                    },
                    None => None,
                }
            };
            let state = ResourceState {
                content: e.resource.dup(),
                pending: !by_owner,
                pending_removal: false,
                accepted,
            };
            proof {
                entries.lemma_positions();
                assert(state@ == self@.written(sender, id@, e@.resource));
            }
            resources.push_fresh(id.dup(), state);
            tags.push_fresh(id.dup(), e.tags.dup());
            i += 1;
        }
        proof {
            entries.lemma_positions();
            let goal = old(self)@.reconciled(sender, entries@);
            assert forall|k: Seq<u8>| entries@.contains_key(k) implies tags@.contains_key(k)
                && resources@.contains_key(k) && tags@[k] == goal.tags[k] && resources@[k]
                == goal.resources[k] by {
                let j = choose|j: int| 0 <= j < entries.count() && entries.key_at(j) == k;
                assert(entries.key_at(j) == k);
            }
            assert(tags@ =~= goal.tags);
            assert(resources@ =~= goal.resources);
        }
        self.tags = tags;
        self.resources = resources;
    }

    /// Does `op` to the item in the name of `sender`.
    pub fn apply(&mut self, sender: AccountId, op: &ItemOp)
        ensures
            final(self)@ == old(self)@.applied(sender, op@),
    {
        match op {
            ItemOp::Put { id, content, tags } => self.put(sender, id, content, tags),
            ItemOp::SetTags { id, tags } => self.set_tags(id, tags),
            ItemOp::Remove { ids } => self.remove(sender, ids),
        }
    }
}

} // verus!
