//! The model of the ledger: what it holds, and what each operation makes of
//! it.
//!
//! An operation either gives a new state or is refused with an error. The
//! functions here say which, for every state and every argument; the ledger
//! itself is held to them.

use vstd::prelude::*;
use crate::item::{ItemView, ResourceStateView};
use crate::template::{no_tags, TemplateView};
use crate::types::{
    AccountId, ChangeView, EntryView, Error, InfoView, InterpretationId, InterpretationTypeId,
    InterpretationTypeView, InterpretationView, ItemId, ProposalId, ProposalState, ProposalView,
    RegisteredView, TagInfoView, TemplateId,
};

verus! {

/// How a change of a template reaches the items minted from it.
#[derive(Debug, Clone, Copy, PartialEq, Eq)]
pub enum Propagation {
    /// Each change is handed on to every item when it is applied.
    Push,
    /// An item takes the template's state when its owner asks for it.
    Pull,
}

/// The choices that a ledger is made with.
#[derive(Debug, Clone, Copy, PartialEq, Eq)]
pub struct Config {
    pub propagation: Propagation,
    /// The state that a proposal is submitted in.
    pub initial_state: ProposalState,
    /// The bound on the numbers that a template gives its items, and so on
    /// the items that a change of the template can reach.
    pub item_limit: u32,
}

impl Default for Config {
    fn default() -> (r: Self)
        ensures
            r == (Config {
                propagation: Propagation::Push,
                initial_state: ProposalState::Approved,
                item_limit: u32::MAX,
            }),
    {
        Config {
            propagation: Propagation::Push,
            initial_state: ProposalState::Approved,
            item_limit: u32::MAX,
        }
    }
}

/// The model of the ledger.
pub struct State {
    pub config: Config,
    pub next_proposal_id: ProposalId,
    pub next_template_id: TemplateId,
    pub next_type_id: InterpretationTypeId,
    pub next_interpretation_id: InterpretationId,
    /// The tags, by name.
    pub tags: Map<Seq<u8>, TagInfoView>,
    /// The interpretation types, by name.
    pub types: Map<Seq<u8>, InterpretationTypeView>,
    /// The registered interpretations, by name.
    pub interpretations: Map<Seq<u8>, RegisteredView>,
    pub templates: Map<TemplateId, TemplateView>,
    pub proposals: Map<ProposalId, ProposalView>,
}

impl State {
    /// The ledger that nothing was done to yet.
    pub open spec fn initial(config: Config) -> State {
        State {
            config,
            next_proposal_id: 0,
            next_template_id: 0,
            next_type_id: 0,
            next_interpretation_id: 0,
            tags: Map::empty(),
            types: Map::empty(),
            interpretations: Map::empty(),
            templates: Map::empty(),
            proposals: Map::empty(),
        }
    }

    /// Whether changes of templates are handed on to the items at once.
    pub open spec fn pushes(self) -> bool {
        self.config.propagation == Propagation::Push
    }

    /// `create_interpretation_tag`: refused if the name is taken.
    pub open spec fn create_interpretation_tag(self, tag: Seq<u8>, metadata: Seq<u8>) -> Result<
        State,
        Error,
    > {
        if self.tags.contains_key(tag) {
            Err(Error::TagAlreadyExists)
        } else {
            Ok(State { tags: self.tags.insert(tag, TagInfoView { metadata }), ..self })
        }
    }

    /// `create_interpretation_type`: refused if the name is taken, or if no
    /// number is left for the type.
    pub open spec fn create_interpretation_type(self, name: Seq<u8>, metadata: Seq<u8>) -> Result<
        State,
        Error,
    > {
        if self.types.contains_key(name) {
            Err(Error::InterpretationTypeAlreadyExist)
        } else if self.next_type_id == u32::MAX {
            Err(Error::NoAvailableId)
        } else {
            Ok(
                State {
                    types: self.types.insert(
                        name,
                        InterpretationTypeView { id: self.next_type_id, metadata },
                    ),
                    next_type_id: (self.next_type_id + 1) as u32,
                    ..self
                },
            )
        }
    }

    /// `create_interpretation`: refused if the type is unknown, if the name
    /// is taken, or if no number is left for the interpretation.
    pub open spec fn create_interpretation(
        self,
        of_type: Seq<u8>,
        name: Seq<u8>,
        src: Option<Seq<u8>>,
        metadata: Option<Seq<u8>>,
    ) -> Result<State, Error> {
        if !self.types.contains_key(of_type) {
            Err(Error::InterpretationTypeNotExist)
        } else if self.interpretations.contains_key(name) {
            Err(Error::InterpretationAlreadyExist)
        } else if self.next_interpretation_id == u32::MAX {
            Err(Error::NoAvailableId)
        } else {
            Ok(
                State {
                    interpretations: self.interpretations.insert(
                        name,
                        RegisteredView {
                            id: self.next_interpretation_id,
                            interpretation_type: self.types[of_type].id,
                            src,
                            metadata,
                        },
                    ),
                    next_interpretation_id: (self.next_interpretation_id + 1) as u32,
                    ..self
                },
            )
        }
    }

    /// Whether `tag` names a tag or an interpretation type of the registry.
    pub open spec fn known(self, tag: Seq<u8>) -> bool {
        self.tags.contains_key(tag) || self.types.contains_key(tag)
    }

    /// Why an interpretation cannot be bound at a template's creation: it has
    /// no tag, or one of its tags is not in the registry.
    pub open spec fn fault(self, it: InterpretationView) -> Option<Error> {
        if no_tags(it.tags) {
            Some(Error::EmptyTags)
        } else if exists|t: Seq<u8>| it.tags.contains(t) && !self.known(t) {
            Some(Error::UnknownTag)
        } else {
            None
        }
    }

    /// The fault of the first interpretation that has one.
    pub open spec fn first_fault(self, interpretations: Seq<InterpretationView>) -> Option<Error>
        decreases interpretations.len(),
    {
        if interpretations.len() == 0 {
            None
        } else {
            match self.first_fault(interpretations.drop_last()) {
                Some(e) => Some(e),
                None => self.fault(interpretations.last()),
            }
        }
    }

    /// The template that `sender` creates.
    pub open spec fn new_template(
        sender: AccountId,
        name: Seq<u8>,
        metadata: Seq<u8>,
        max: Option<u32>,
        interpretations: Seq<InterpretationView>,
    ) -> TemplateView {
        (TemplateView {
            issuer: sender,
            name,
            metadata,
            max,
            next_item_id: 0,
            interpretations: Map::<Seq<u8>, EntryView>::empty(),
            items: Map::<ItemId, ItemView>::empty(),
        }).bind_all(interpretations)
    }

    /// `create_template`: refused if no number is left for the template, or
    /// if one of the interpretations has a fault. The template is given the
    /// ledger's next number and `sender` as its issuer.
    pub open spec fn create_template(
        self,
        sender: AccountId,
        name: Seq<u8>,
        metadata: Seq<u8>,
        max: Option<u32>,
        interpretations: Seq<InterpretationView>,
    ) -> Result<State, Error> {
        if self.next_template_id == u32::MAX {
            Err(Error::NoAvailableId)
        } else if self.first_fault(interpretations) is Some {
            Err(self.first_fault(interpretations).unwrap())
        } else {
            Ok(
                State {
                    templates: self.templates.insert(
                        self.next_template_id,
                        Self::new_template(sender, name, metadata, max, interpretations),
                    ),
                    next_template_id: (self.next_template_id + 1) as u32,
                    ..self
                },
            )
        }
    }

    /// The issuer of a template, if the ledger has the template.
    pub open spec fn issuer_of(self, template_id: TemplateId) -> Option<AccountId> {
        if self.templates.contains_key(template_id) {
            Some(self.templates[template_id].issuer)
        } else {
            None
        }
    }

    /// The owner of an item, if the ledger has the item.
    pub open spec fn owner_of(self, template_id: TemplateId, item_id: ItemId) -> Option<AccountId> {
        if self.templates.contains_key(template_id) {
            self.templates[template_id].owner_of(item_id)
        } else {
            None
        }
    }

    /// `destroy_template`: refused if the template is unknown, if it has an
    /// item, or if `sender` is not its issuer.
    pub open spec fn destroy_template(self, sender: AccountId, template_id: TemplateId) -> Result<
        State,
        Error,
    > {
        if !self.templates.contains_key(template_id) {
            Err(Error::TemplateNotExist)
        } else if !(self.templates[template_id].items =~= Map::<ItemId, ItemView>::empty()) {
            Err(Error::TemplateNotEmpty)
        } else if self.templates[template_id].issuer != sender {
            Err(Error::NoPermission)
        } else {
            Ok(State { templates: self.templates.remove(template_id), ..self })
        }
    }

    /// The ledger with the outcome of an operation on one of its templates.
    pub open spec fn on_template(
        self,
        template_id: TemplateId,
        outcome: Result<TemplateView, Error>,
    ) -> Result<State, Error> {
        match outcome {
            Ok(t) => Ok(State { templates: self.templates.insert(template_id, t), ..self }),
            Err(e) => Err(e),
        }
    }

    /// `add_interpretation`: refused if the template is unknown, or as the
    /// template refuses the `Add`.
    pub open spec fn add_interpretation(
        self,
        sender: AccountId,
        template_id: TemplateId,
        interpretations: Seq<(InfoView, Set<Seq<u8>>)>,
    ) -> Result<State, Error> {
        if !self.templates.contains_key(template_id) {
            Err(Error::TemplateNotExist)
        } else {
            self.on_template(
                template_id,
                self.templates[template_id].add(sender, self.pushes(), interpretations),
            )
        }
    }

    /// `modify_interpretation`: refused if the template is unknown, or as the
    /// template refuses the `Modify`.
    pub open spec fn modify_interpretation(
        self,
        sender: AccountId,
        template_id: TemplateId,
        interpretations: Seq<InfoView>,
    ) -> Result<State, Error> {
        if !self.templates.contains_key(template_id) {
            Err(Error::TemplateNotExist)
        } else {
            self.on_template(
                template_id,
                self.templates[template_id].modify(sender, self.pushes(), interpretations),
            )
        }
    }

    /// `modify_interpretation_tags`: refused if the template is unknown, or as
    /// the template refuses the `ModifyTags`.
    pub open spec fn modify_interpretation_tags(
        self,
        template_id: TemplateId,
        interpretation_id: Seq<u8>,
        tags: Set<Seq<u8>>,
    ) -> Result<State, Error> {
        if !self.templates.contains_key(template_id) {
            Err(Error::TemplateNotExist)
        } else {
            self.on_template(
                template_id,
                self.templates[template_id].modify_tags(self.pushes(), interpretation_id, tags),
            )
        }
    }

    /// `remove_interpretation`: refused if the template is unknown, or as the
    /// template refuses the `RemoveInterpretation`.
    pub open spec fn remove_interpretation(
        self,
        sender: AccountId,
        template_id: TemplateId,
        interpretation_id: Seq<u8>,
    ) -> Result<State, Error> {
        if !self.templates.contains_key(template_id) {
            Err(Error::TemplateNotExist)
        } else {
            self.on_template(
                template_id,
                self.templates[template_id].remove(sender, self.pushes(), interpretation_id),
            )
        }
    }

    /// `remove_interpretation_type`: refused if the template is unknown, or as
    /// the template refuses the `RemoveInterpretationType`.
    pub open spec fn remove_interpretation_type(
        self,
        sender: AccountId,
        template_id: TemplateId,
        interpretation_type: Seq<u8>,
    ) -> Result<State, Error> {
        if !self.templates.contains_key(template_id) {
            Err(Error::TemplateNotExist)
        } else {
            self.on_template(
                template_id,
                self.templates[template_id].remove_type(sender, interpretation_type),
            )
        }
    }

    /// `apply_changes`: one change applied to a template, whoever asks.
    pub open spec fn apply_changes(
        self,
        sender: AccountId,
        template_id: TemplateId,
        change: ChangeView,
    ) -> Result<State, Error> {
        if !self.templates.contains_key(template_id) {
            Err(Error::TemplateNotExist)
        } else {
            self.on_template(
                template_id,
                self.templates[template_id].apply(sender, self.pushes(), change),
            )
        }
    }

    /// `get_next_proposal_id`: refused if no number is left.
    pub open spec fn next_proposal(self) -> Result<State, Error> {
        if self.next_proposal_id == u32::MAX {
            Err(Error::NoAvailableId)
        } else {
            Ok(State { next_proposal_id: (self.next_proposal_id + 1) as u32, ..self })
        }
    }

    /// `submit_template_change_proposal`: refused if no number is left for
    /// the proposal. The proposal is given the ledger's next number and the
    /// state that the ledger submits proposals in.
    pub open spec fn submit_proposal(
        self,
        author: AccountId,
        template_id: TemplateId,
        change_set: Seq<ChangeView>,
    ) -> Result<State, Error> {
        match self.next_proposal() {
            Err(e) => Err(e),
            Ok(s) => Ok(
                State {
                    proposals: s.proposals.insert(
                        self.next_proposal_id,
                        ProposalView {
                            author,
                            state: self.config.initial_state,
                            template_id,
                            change_set,
                        },
                    ),
                    ..s
                },
            ),
        }
    }

    /// Approval and rejection: refused if the proposal is unknown, or if
    /// `sender` is not the issuer of the template that it is for.
    pub open spec fn review_proposal(
        self,
        sender: AccountId,
        proposal_id: ProposalId,
        verdict: ProposalState,
    ) -> Result<State, Error> {
        if !self.proposals.contains_key(proposal_id) {
            Err(Error::ProposalNotExist)
        } else if self.issuer_of(self.proposals[proposal_id].template_id) != Some(sender) {
            Err(Error::NoPermission)
        } else {
            Ok(
                State {
                    proposals: self.proposals.insert(
                        proposal_id,
                        ProposalView {
                            author: self.proposals[proposal_id].author,
                            state: verdict,
                            template_id: self.proposals[proposal_id].template_id,
                            change_set: self.proposals[proposal_id].change_set,
                        },
                    ),
                    ..self
                },
            )
        }
    }

    /// `update_template`: refused if `sender` is not the issuer of the
    /// template, if the proposal is unknown, not approved or for another
    /// template, or if one of its changes is refused. Else the change set is
    /// applied and the proposal is gone.
    pub open spec fn update_template(
        self,
        sender: AccountId,
        template_id: TemplateId,
        proposal_id: ProposalId,
    ) -> Result<State, Error> {
        if self.issuer_of(template_id) != Some(sender) {
            Err(Error::NoPermission)
        } else if !self.proposals.contains_key(proposal_id) {
            Err(Error::ProposalNotExist)
        } else if self.proposals[proposal_id].state != ProposalState::Approved {
            Err(Error::ProposalNotApproved)
        } else if self.proposals[proposal_id].template_id != template_id {
            Err(Error::ProposalInappropriateTemplate)
        } else {
            match self.templates[template_id].apply_all(
                sender,
                self.pushes(),
                self.proposals[proposal_id].change_set,
            ) {
                Err(e) => Err(e),
                Ok(t) => Ok(
                    State {
                        templates: self.templates.insert(template_id, t),
                        proposals: self.proposals.remove(proposal_id),
                        ..self
                    },
                ),
            }
        }
    }

    /// `mint_item_from_template`: refused if the template is unknown, or as
    /// the template refuses to mint.
    pub open spec fn mint_item_from_template(
        self,
        sender: AccountId,
        owner: AccountId,
        template_id: TemplateId,
        metadata: Seq<u8>,
    ) -> Result<State, Error> {
        if !self.templates.contains_key(template_id) {
            Err(Error::TemplateNotExist)
        } else {
            self.on_template(
                template_id,
                self.templates[template_id].minted(
                    sender,
                    owner,
                    metadata,
                    self.config.item_limit,
                ),
            )
        }
    }

    /// `burn_item`: refused if the template or the item is unknown.
    pub open spec fn burn_item(self, template_id: TemplateId, item_id: ItemId) -> Result<
        State,
        Error,
    > {
        if !self.templates.contains_key(template_id) {
            Err(Error::TemplateNotExist)
        } else {
            self.on_template(template_id, self.templates[template_id].burned(item_id))
        }
    }

    /// `transfer_item`: refused if the item is unknown, or if `sender` does not
    /// own it.
    pub open spec fn transfer_item(
        self,
        sender: AccountId,
        template_id: TemplateId,
        item_id: ItemId,
        destination: AccountId,
    ) -> Result<State, Error> {
        if !self.templates.contains_key(template_id) {
            Err(Error::ItemNotExist)
        } else {
            self.on_template(
                template_id,
                self.templates[template_id].transferred(sender, item_id, destination),
            )
        }
    }

    /// `accept_item_update`: refused if `sender` does not own the item.
    pub open spec fn accept_item_update(
        self,
        sender: AccountId,
        template_id: TemplateId,
        item_id: ItemId,
    ) -> Result<State, Error> {
        if !self.templates.contains_key(template_id) {
            Err(Error::NoPermission)
        } else {
            self.on_template(template_id, self.templates[template_id].accepted(sender, item_id))
        }
    }

    /// `update_item`: refused if `sender` does not own the item.
    pub open spec fn update_item(
        self,
        sender: AccountId,
        template_id: TemplateId,
        item_id: ItemId,
    ) -> Result<State, Error> {
        if !self.templates.contains_key(template_id) {
            Err(Error::NoPermission)
        } else {
            self.on_template(
                template_id,
                self.templates[template_id].item_updated(sender, item_id),
            )
        }
    }

    /// What a template holds of an interpretation, if it holds it.
    pub open spec fn entry(self, template_id: TemplateId, id: Seq<u8>) -> Option<EntryView> {
        if self.templates.contains_key(template_id)
            && self.templates[template_id].interpretations.contains_key(id) {
            Some(self.templates[template_id].interpretations[id])
        } else {
            None
        }
    }

    /// An item, if the ledger has it.
    pub open spec fn item(self, template_id: TemplateId, item_id: ItemId) -> Option<ItemView> {
        if self.templates.contains_key(template_id) && self.templates[template_id].items.contains_key(
            item_id,
        ) {
            Some(self.templates[template_id].items[item_id])
        } else {
            None
        }
    }

    /// The tags that an item holds for an interpretation, if it holds it.
    pub open spec fn item_tags(self, template_id: TemplateId, item_id: ItemId, id: Seq<u8>) -> Option<
        Set<Seq<u8>>,
    > {
        match self.item(template_id, item_id) {
            Some(it) => if it.tags.contains_key(id) {
                Some(it.tags[id])
            } else {
                None
            },
            None => None,
        }
    }

    /// A resource of an item, if the item has it.
    pub open spec fn item_resource(self, template_id: TemplateId, item_id: ItemId, id: Seq<u8>) -> Option<
        ResourceStateView,
    > {
        match self.item(template_id, item_id) {
            Some(it) => if it.resources.contains_key(id) {
                Some(it.resources[id])
            } else {
                None
            },
            None => None,
        }
    }

    /// The ledger with a tag registered, in place of one of the same name.
    pub open spec fn with_tag(self, tag: Seq<u8>, metadata: Seq<u8>) -> State {
        State { tags: self.tags.insert(tag, TagInfoView { metadata }), ..self }
    }

    /// The ledger with the tags of a list registered, in their order; a tag
    /// named twice keeps what was said of it last.
    pub open spec fn with_tags(self, tags: Seq<(Seq<u8>, Seq<u8>)>) -> State
        decreases tags.len(),
    {
        if tags.len() == 0 {
            self
        } else {
            self.with_tags(tags.drop_last()).with_tag(tags.last().0, tags.last().1)
        }
    }
}

/// If an interpretation among the first `k` has a fault, the list has one:
/// the fault of its first faulty interpretation.
pub proof fn lemma_first_fault(s: State, list: Seq<InterpretationView>, k: int, e: Error)
    requires
        0 <= k <= list.len(),
        s.first_fault(list.take(k)) == Some(e),
    ensures
        s.first_fault(list) == Some(e),
    decreases list.len() - k,
{
    if k == list.len() {
        assert(list.take(k) =~= list);
    } else {
        assert(list.take(k + 1).drop_last() =~= list.take(k));
        lemma_first_fault(s, list, k + 1, e);
    }
}

} // verus!
