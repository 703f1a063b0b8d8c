//! The ledger: the registry of tags, interpretation types and
//! interpretations, the templates with their items, and the proposals.
//!
//! Every operation either succeeds or is refused with an error and leaves
//! the ledger as it was. What an operation does is said by the function of
//! the same name on the ledger's model, `State`.

use vstd::prelude::*;
use crate::bytes::opt_view;
use crate::ids::IdAllocator;
use crate::item::Resource;
use crate::state::{lemma_first_fault, Config, Propagation, State};
use crate::table::{views, Dup, Table};
use crate::template::Template;
use crate::types::{
    meets, AccountId, Change, EntryView, Error, IntepretationInfo, Interpretation,
    InterpretationId, InterpretationTypeId, InterpretationTypeInfo, ItemId, ItemInfo, ProposalId,
    ProposalInfo, ProposalState, RegisteredInterpretation, TagInfo, Tags, TemplateId, TemplateInfo,
};

verus! {

/// The ledger.
#[derive(Debug, PartialEq, Eq)]
pub struct Pallet {
    config: Config,
    proposal_ids: IdAllocator,
    template_ids: IdAllocator,
    type_ids: IdAllocator,
    interpretation_ids: IdAllocator,
    tags: Table<Vec<u8>, TagInfo>,
    types: Table<Vec<u8>, InterpretationTypeInfo>,
    interpretations: Table<Vec<u8>, RegisteredInterpretation>,
    templates: Table<TemplateId, Template>,
    proposals: Table<ProposalId, ProposalInfo>,
}

impl View for Pallet {
    type V = State;

    closed spec fn view(&self) -> State {
        State {
            config: self.config,
            next_proposal_id: self.proposal_ids@,
            next_template_id: self.template_ids@,
            next_type_id: self.type_ids@,
            next_interpretation_id: self.interpretation_ids@,
            tags: self.tags@,
            types: self.types@,
            interpretations: self.interpretations@,
            templates: self.templates@,
            proposals: self.proposals@,
        }
    }
}

impl Dup for Pallet {
    fn dup(&self) -> (r: Self) {
        Pallet {
            config: self.config,
            proposal_ids: self.proposal_ids,
            template_ids: self.template_ids,
            type_ids: self.type_ids,
            interpretation_ids: self.interpretation_ids,
            tags: self.tags.dup(),
            types: self.types.dup(),
            interpretations: self.interpretations.dup(),
            templates: self.templates.dup(),
            proposals: self.proposals.dup(),
        }
    }
}

impl Clone for Pallet {
    fn clone(&self) -> (r: Self)
        ensures
            r@ == self@,
    {
        self.dup()
    }
}

impl Default for Pallet {
    fn default() -> (r: Self)
        ensures
            r@ == State::initial(
                Config {
                    propagation: Propagation::Push,
                    initial_state: ProposalState::Approved,
                    item_limit: u32::MAX,
                },
            ),
    {
        Pallet::new(Config::default())
    }
}

impl Pallet {
    /// A ledger that nothing was done to yet.
    pub fn new(config: Config) -> (r: Self)
        ensures
            r@ == State::initial(config),
    {
        Pallet {
            config,
            proposal_ids: IdAllocator::new(),
            template_ids: IdAllocator::new(),
            type_ids: IdAllocator::new(),
            interpretation_ids: IdAllocator::new(),
            tags: Table::new(),
            types: Table::new(),
            interpretations: Table::new(),
            templates: Table::new(),
            proposals: Table::new(),
        }
    }

    /// Registers a tag.
    pub fn create_interpretation_tag(&mut self, tag: Vec<u8>, metadata: Vec<u8>) -> (r: Result<
        (),
        Error,
    >)
        ensures
            meets(
                old(self)@.create_interpretation_tag(tag@, metadata@),
                old(self)@,
                final(self)@,
                r,
            ),
    {
        if self.tags.contains_key(&tag) {
            return Err(Error::TagAlreadyExists);
        }
        self.tags.insert(tag, TagInfo { metadata });
        Ok(())
    }

    /// Registers an interpretation type and hands back its number.
    pub fn create_interpretation_type(&mut self, name: Vec<u8>, metadata: Vec<u8>) -> (r: Result<
        InterpretationTypeId,
        Error,
    >)
        ensures
            meets(
                old(self)@.create_interpretation_type(name@, metadata@),
                old(self)@,
                final(self)@,
                r,
            ),
            r matches Ok(id) ==> id == old(self)@.next_type_id,
    {
        if self.types.contains_key(&name) {
            return Err(Error::InterpretationTypeAlreadyExist);
        }
        let id = match self.type_ids.allocate(u32::MAX) {
            Ok(id) => id,
            Err(e) => {
                return Err(e);
            },
        };
        self.types.insert(name, InterpretationTypeInfo { id, metadata });
        Ok(id)
    }

    /// Registers an interpretation under a type and hands back its number.
    pub fn create_interpretation(
        &mut self,
        of_type: &Vec<u8>,
        name: Vec<u8>,
        src: Option<Vec<u8>>,
        metadata: Option<Vec<u8>>,
    ) -> (r: Result<InterpretationId, Error>)
        ensures
            meets(
                old(self)@.create_interpretation(
                    of_type@,
                    name@,
                    opt_view(src),
                    opt_view(metadata),
                ),
                old(self)@,
                final(self)@,
                r,
            ),
            r matches Ok(id) ==> id == old(self)@.next_interpretation_id,
    {
        let interpretation_type = match self.types.get(of_type) {
            Some(t) => t.id,
            None => {
                return Err(Error::InterpretationTypeNotExist);
            },
        };
        if self.interpretations.contains_key(&name) {
            return Err(Error::InterpretationAlreadyExist);
        }
        let id = match self.interpretation_ids.allocate(u32::MAX) {
            Ok(id) => id,
            Err(e) => {
                return Err(e);
            },
        };
        self.interpretations.insert(
            name,
            RegisteredInterpretation { id, interpretation_type, src, metadata },
        );
        Ok(id)
    }

    /// Registers a tag, in place of one of the same name.
    pub(crate) fn put_tag(&mut self, tag: Vec<u8>, metadata: Vec<u8>)
        ensures
            final(self)@ == old(self)@.with_tag(tag@, metadata@),
    {
        self.tags.insert(tag, TagInfo { metadata });
    }

    /// What is known of the tag `name`.
    pub fn tags(&self, name: &Vec<u8>) -> (r: Option<TagInfo>)
        ensures
            match r {
                Some(t) => self@.tags.contains_key(name@) && t@ == self@.tags[name@],
                None => !self@.tags.contains_key(name@),
            },
    {
        match self.tags.get(name) {
            Some(t) => Some(t.dup()),
            None => None,
        }
    }

    /// What is known of the interpretation type `name`.
    pub fn interpretation_types(&self, name: &Vec<u8>) -> (r: Option<InterpretationTypeInfo>)
        ensures
            match r {
                Some(t) => self@.types.contains_key(name@) && t@ == self@.types[name@],
                None => !self@.types.contains_key(name@),
            },
    {
        match self.types.get(name) {
            Some(t) => Some(t.dup()),
            None => None,
        }
    }

    /// What is known of the registered interpretation `name`.
    pub fn interpretations(&self, name: &Vec<u8>) -> (r: Option<RegisteredInterpretation>)
        ensures
            match r {
                Some(t) => self@.interpretations.contains_key(name@) && t@
                    == self@.interpretations[name@],
                None => !self@.interpretations.contains_key(name@),
            },
    {
        match self.interpretations.get(name) {
            Some(t) => Some(t.dup()),
            None => None,
        }
    }

    /// Whether changes of templates are handed on to the items at once.
    pub fn pushes(&self) -> (r: bool)
        ensures
            r == self@.pushes(),
    {
        match self.config.propagation {
            Propagation::Push => true,
            Propagation::Pull => false,
        }
    }

    /// Whether `tag` names a tag or an interpretation type of the registry.
    pub fn known(&self, tag: &Vec<u8>) -> (r: bool)
        ensures
            r == self@.known(tag@),
    {
        self.tags.contains_key(tag) || self.types.contains_key(tag)
    }

    /// Why an interpretation cannot be bound at a template's creation.
    pub fn fault(&self, it: &Interpretation) -> (r: Option<Error>)
        ensures
            r == self@.fault(it@),
    {
        if it.tags.is_empty() {
            return Some(Error::EmptyTags);
        }
        let n = it.tags.len();
        let mut i: usize = 0;
        while i < n
            invariant
                it.tags.wf(),
                n == it.tags.count(),
                i <= n,
                forall|j: int| 0 <= j < i ==> self@.known(#[trigger] it.tags.name_at(j)),
            decreases n - i,
        {
            if !self.known(it.tags.name(i)) {
                proof {
                    it.tags.lemma_names();
                    assert(it@.tags.contains(it.tags.name_at(i as int)));
                }
                return Some(Error::UnknownTag);
            }
            i += 1;
        }
        proof {
            it.tags.lemma_names();
            assert forall|t: Seq<u8>| it@.tags.contains(t) implies self@.known(t) by {
                let j = choose|j: int| 0 <= j < it.tags.count() && it.tags.name_at(j) == t;
                assert(self@.known(it.tags.name_at(j)));
            }
        }
        None
    }

    /// Creates a template with `sender` as its issuer and hands back its
    /// number.
    pub fn create_template(
        &mut self,
        sender: AccountId,
        template_name: Vec<u8>,
        metadata: Vec<u8>,
        max: Option<u32>,
        interpretations: Vec<Interpretation>,
    ) -> (r: Result<TemplateId, Error>)
        ensures
            meets(
                old(self)@.create_template(
                    sender,
                    template_name@,
                    metadata@,
                    max,
                    views(interpretations@),
                ),
                old(self)@,
                final(self)@,
                r,
            ),
            r matches Ok(id) ==> id == old(self)@.next_template_id,
    {
        let id = match self.template_ids.peek(u32::MAX) {
            Some(id) => id,
            None => {
                return Err(Error::NoAvailableId);
            },
        };
        let ghost list = views(interpretations@);
        let n = interpretations.len();
        let mut i: usize = 0;
        assert(list.take(0).len() == 0);
        while i < n
            invariant
                n == interpretations.len(),
                list == views(interpretations@),
                i <= n,
                self@ == old(self)@,
                self@.next_template_id < u32::MAX,
                self@.first_fault(list.take(i as int)) is None,
            decreases n - i,
        {
            let fault = self.fault(&interpretations[i]);
            proof {
                assert(list.take(i + 1).drop_last() =~= list.take(i as int));
                assert(list.take(i + 1).last() == list[i as int]);
            }
            match fault {
                Some(e) => {
                    proof {
                        assert(self@.first_fault(list.take(i + 1)) == Some(e));
                        lemma_first_fault(self@, list, i + 1, e);
                    }
                    return Err(e);
                },
                None => {},
            }
            i += 1;
        }
        assert(list.take(n as int) =~= list);
        let mut template = Template::new(sender, template_name, metadata, max);
        template.bind(&interpretations);
        self.templates.insert(id, template);
        let _ = self.template_ids.allocate(u32::MAX);
        Ok(id)
    }

    /// Destroys a template that has no item.
    pub fn destroy_template(&mut self, sender: AccountId, template_id: TemplateId) -> (r: Result<
        (),
        Error,
    >)
        ensures
            meets(
                old(self)@.destroy_template(sender, template_id),
                old(self)@,
                final(self)@,
                r,
            ),
    {
        match self.templates.get(&template_id) {
            Some(t) => {
                if !t.is_empty() {
                    return Err(Error::TemplateNotEmpty);
                }
                if t.issuer() != sender {
                    return Err(Error::NoPermission);
                }
            },
            None => {
                return Err(Error::TemplateNotExist);
            },
        }
        self.templates.remove(&template_id);
        Ok(())
    }

    /// Binds interpretations to a template.
    pub fn add_interpretation(
        &mut self,
        sender: AccountId,
        template_id: TemplateId,
        interpretations: Vec<(IntepretationInfo, Tags)>,
    ) -> (r: Result<(), Error>)
        ensures
            meets(
                old(self)@.add_interpretation(sender, template_id, views(interpretations@)),
                old(self)@,
                final(self)@,
                r,
            ),
    {
        let push = self.pushes();
        match self.templates.find(&template_id) {
            Some(i) => {
                let t = self.templates.value_mut(i);
                let r = t.add_interpretation(sender, push, &interpretations);
                assert(self.templates@ =~= old(self)@.templates.insert(template_id, self.templates@[template_id]));
                if r.is_err() {
                    assert(self.templates@ =~= old(self)@.templates);
                }
                r
            },
            None => Err(Error::TemplateNotExist),
        }
    }

    /// Replaces the content of interpretations of a template.
    pub fn modify_interpretation(
        &mut self,
        sender: AccountId,
        template_id: TemplateId,
        interpretations: Vec<IntepretationInfo>,
    ) -> (r: Result<(), Error>)
        ensures
            meets(
                old(self)@.modify_interpretation(sender, template_id, views(interpretations@)),
                old(self)@,
                final(self)@,
                r,
            ),
    {
        let push = self.pushes();
        match self.templates.find(&template_id) {
            Some(i) => {
                let t = self.templates.value_mut(i);
                let r = t.modify_interpretation(sender, push, &interpretations);
                if r.is_err() {
                    assert(self.templates@ =~= old(self)@.templates);
                }
                r
            },
            None => Err(Error::TemplateNotExist),
        }
    }

    /// Replaces the tags of an interpretation of a template.
    pub fn modify_interpretation_tags(
        &mut self,
        template_id: TemplateId,
        interpretation_id: Vec<u8>,
        tags: Tags,
    ) -> (r: Result<(), Error>)
        ensures
            meets(
                old(self)@.modify_interpretation_tags(template_id, interpretation_id@, tags@),
                old(self)@,
                final(self)@,
                r,
            ),
    {
        let push = self.pushes();
        match self.templates.find(&template_id) {
            Some(i) => {
                let t = self.templates.value_mut(i);
                let r = t.modify_interpretation_tags(push, &interpretation_id, &tags);
                if r.is_err() {
                    assert(self.templates@ =~= old(self)@.templates);
                }
                r
            },
            None => Err(Error::TemplateNotExist),
        }
    }

    /// Takes one interpretation from a template.
    pub fn remove_interpretation(
        &mut self,
        sender: AccountId,
        template_id: TemplateId,
        interpretation_id: Vec<u8>,
    ) -> (r: Result<(), Error>)
        ensures
            meets(
                old(self)@.remove_interpretation(sender, template_id, interpretation_id@),
                old(self)@,
                final(self)@,
                r,
            ),
    {
        let push = self.pushes();
        match self.templates.find(&template_id) {
            Some(i) => {
                let t = self.templates.value_mut(i);
                let r = t.remove_interpretation(sender, push, &interpretation_id);
                if r.is_err() {
                    assert(self.templates@ =~= old(self)@.templates);
                }
                r
            },
            None => Err(Error::TemplateNotExist),
        }
    }

    /// Takes from a template, and from its items, every interpretation found
    /// under a tag or type.
    pub fn remove_interpretation_type(
        &mut self,
        sender: AccountId,
        template_id: TemplateId,
        interpretation_type: Vec<u8>,
    ) -> (r: Result<(), Error>)
        ensures
            meets(
                old(self)@.remove_interpretation_type(sender, template_id, interpretation_type@),
                old(self)@,
                final(self)@,
                r,
            ),
    {
        match self.templates.find(&template_id) {
            Some(i) => {
                let t = self.templates.value_mut(i);
                let r = t.remove_interpretation_type(sender, &interpretation_type);
                if r.is_err() {
                    assert(self.templates@ =~= old(self)@.templates);
                }
                r
            },
            None => Err(Error::TemplateNotExist),
        }
    }

    /// Applies one change to a template.
    pub fn apply_changes(&mut self, sender: AccountId, template_id: TemplateId, change: Change) -> (r:
        Result<(), Error>)
        ensures
            meets(
                old(self)@.apply_changes(sender, template_id, change@),
                old(self)@,
                final(self)@,
                r,
            ),
    {
        let push = self.pushes();
        match self.templates.find(&template_id) {
            Some(i) => {
                let t = self.templates.value_mut(i);
                let r = t.apply_changes(sender, push, &change);
                if r.is_err() {
                    assert(self.templates@ =~= old(self)@.templates);
                }
                r
            },
            None => Err(Error::TemplateNotExist),
        }
    }

    /// Hands out the number for the next proposal.
    pub fn get_next_proposal_id(&mut self) -> (r: Result<ProposalId, Error>)
        ensures
            meets(old(self)@.next_proposal(), old(self)@, final(self)@, r),
            r matches Ok(id) ==> id == old(self)@.next_proposal_id,
    {
        self.proposal_ids.allocate(u32::MAX)
    }

    /// Submits a change set for a template and hands back the proposal's
    /// number.
    pub fn submit_template_change_proposal(
        &mut self,
        author: AccountId,
        template_id: TemplateId,
        change_set: Vec<Change>,
    ) -> (r: Result<ProposalId, Error>)
        ensures
            meets(
                old(self)@.submit_proposal(author, template_id, views(change_set@)),
                old(self)@,
                final(self)@,
                r,
            ),
            r matches Ok(id) ==> id == old(self)@.next_proposal_id,
    {
        let id = match self.get_next_proposal_id() {
            Ok(id) => id,
            Err(e) => {
                return Err(e);
            },
        };
        let state = self.config.initial_state;
        self.proposals.insert(id, ProposalInfo { author, state, template_id, change_set });
        Ok(id)
    }

    fn review_proposal(&mut self, sender: AccountId, proposal_id: ProposalId, verdict: ProposalState) -> (r:
        Result<(), Error>)
        ensures
            meets(
                old(self)@.review_proposal(sender, proposal_id, verdict),
                old(self)@,
                final(self)@,
                r,
            ),
    {
        let i = match self.proposals.find(&proposal_id) {
            Some(i) => i,
            None => {
                return Err(Error::ProposalNotExist);
            },
        };
        let template_id = self.proposals.value(i).template_id;
        match self.templates.get(&template_id) {
            Some(t) => {
                if t.issuer() != sender {
                    return Err(Error::NoPermission);
                }
            },
            None => {
                return Err(Error::NoPermission);
            },
        }
        let p = self.proposals.value_mut(i);
        p.state = verdict;
        Ok(())
    }

    /// Approves a proposal, for the issuer of the template that it is for.
    pub fn approve_proposal(&mut self, sender: AccountId, proposal_id: ProposalId) -> (r: Result<
        (),
        Error,
    >)
        ensures
            meets(
                old(self)@.review_proposal(sender, proposal_id, ProposalState::Approved),
                old(self)@,
                final(self)@,
                r,
            ),
    {
        self.review_proposal(sender, proposal_id, ProposalState::Approved)
    }

    /// Rejects a proposal, for the issuer of the template that it is for.
    pub fn reject_proposal(&mut self, sender: AccountId, proposal_id: ProposalId) -> (r: Result<
        (),
        Error,
    >)
        ensures
            meets(
                old(self)@.review_proposal(sender, proposal_id, ProposalState::Rejected),
                old(self)@,
                final(self)@,
                r,
            ),
    {
        self.review_proposal(sender, proposal_id, ProposalState::Rejected)
    }

    /// Applies an approved proposal to the template that it is for.
    pub fn update_template(
        &mut self,
        sender: AccountId,
        template_id: TemplateId,
        proposal_id: ProposalId,
    ) -> (r: Result<(), Error>)
        ensures
            meets(
                old(self)@.update_template(sender, template_id, proposal_id),
                old(self)@,
                final(self)@,
                r,
            ),
    {
        let push = self.pushes();
        let i = match self.templates.find(&template_id) {
            Some(i) => i,
            None => {
                return Err(Error::NoPermission);
            },
        };
        if self.templates.value(i).issuer() != sender {
            return Err(Error::NoPermission);
        }
        let proposal = match self.proposals.get(&proposal_id) {
            Some(p) => p,
            None => {
                return Err(Error::ProposalNotExist);
            },
        };
        match proposal.state {
            ProposalState::Approved => {},
            _ => {
                return Err(Error::ProposalNotApproved);
            },
        }
        if proposal.template_id != template_id {
            return Err(Error::ProposalInappropriateTemplate);
        }
        let t = self.templates.value_mut(i);
        let r = t.apply_all(sender, push, &proposal.change_set);
        match r {
            Ok(()) => {
                self.proposals.remove(&proposal_id);
                Ok(())
            },
            Err(e) => {
                assert(self.templates@ =~= old(self)@.templates);
                Err(e)
            },
        }
    }

    /// Mints an item of a template for `owner` and hands back its number.
    pub fn mint_item_from_template(
        &mut self,
        sender: AccountId,
        owner: AccountId,
        template_id: TemplateId,
        metadata: Vec<u8>,
    ) -> (r: Result<ItemId, Error>)
        ensures
            meets(
                old(self)@.mint_item_from_template(sender, owner, template_id, metadata@),
                old(self)@,
                final(self)@,
                r,
            ),
            r matches Ok(id) ==> id == old(self)@.templates[template_id].next_item_id,
    {
        let limit = self.config.item_limit;
        match self.templates.find(&template_id) {
            Some(i) => {
                let t = self.templates.value_mut(i);
                let r = t.mint(sender, owner, metadata, limit);
                if r.is_err() {
                    assert(self.templates@ =~= old(self)@.templates);
                }
                r
            },
            None => Err(Error::TemplateNotExist),
        }
    }

    /// Burns an item.
    pub fn burn_item(&mut self, template_id: TemplateId, item_id: ItemId) -> (r: Result<(), Error>)
        ensures
            meets(old(self)@.burn_item(template_id, item_id), old(self)@, final(self)@, r),
    {
        match self.templates.find(&template_id) {
            Some(i) => {
                let t = self.templates.value_mut(i);
                let r = t.burn(item_id);
                if r.is_err() {
                    assert(self.templates@ =~= old(self)@.templates);
                }
                r
            },
            None => Err(Error::TemplateNotExist),
        }
    }

    /// Hands an item on to `destination`, for its owner.
    pub fn transfer_item(
        &mut self,
        sender: AccountId,
        template_id: TemplateId,
        item_id: ItemId,
        destination: AccountId,
    ) -> (r: Result<(), Error>)
        ensures
            meets(
                old(self)@.transfer_item(sender, template_id, item_id, destination),
                old(self)@,
                final(self)@,
                r,
            ),
    {
        match self.templates.find(&template_id) {
            Some(i) => {
                let t = self.templates.value_mut(i);
                let r = t.transfer(sender, item_id, destination);
                if r.is_err() {
                    assert(self.templates@ =~= old(self)@.templates);
                }
                r
            },
            None => Err(Error::ItemNotExist),
        }
    }

    /// Accepts, for its owner, what is pending on an item.
    pub fn accept_item_update(&mut self, sender: AccountId, template_id: TemplateId, item_id: ItemId) -> (r:
        Result<(), Error>)
        ensures
            meets(
                old(self)@.accept_item_update(sender, template_id, item_id),
                old(self)@,
                final(self)@,
                r,
            ),
    {
        match self.templates.find(&template_id) {
            Some(i) => {
                let t = self.templates.value_mut(i);
                let r = t.accept(sender, item_id);
                if r.is_err() {
                    assert(self.templates@ =~= old(self)@.templates);
                }
                r
            },
            None => Err(Error::NoPermission),
        }
    }

    /// Brings an item, for its owner, to what its template holds now.
    pub fn update_item(&mut self, sender: AccountId, template_id: TemplateId, item_id: ItemId) -> (r:
        Result<(), Error>)
        ensures
            meets(
                old(self)@.update_item(sender, template_id, item_id),
                old(self)@,
                final(self)@,
                r,
            ),
    {
        match self.templates.find(&template_id) {
            Some(i) => {
                let t = self.templates.value_mut(i);
                let r = t.update_item(sender, item_id);
                if r.is_err() {
                    assert(self.templates@ =~= old(self)@.templates);
                }
                r
            },
            None => Err(Error::NoPermission),
        }
    }

    /// What a template holds of an interpretation.
    pub fn template_interpretations(&self, template_id: TemplateId, interpretation_id: &Vec<u8>) -> (r:
        Option<(IntepretationInfo, Tags)>)
        ensures
            match r {
                Some(p) => self@.entry(template_id, interpretation_id@) == Some(
                    EntryView { resource: p.0@.resource(), tags: p.1@ },
                ) && p.0@.id == interpretation_id@,
                None => self@.entry(template_id, interpretation_id@) is None,
            },
    {
        match self.templates.get(&template_id) {
            Some(t) => t.interpretation(interpretation_id),
            None => None,
        }
    }

    /// The tags that an item holds for an interpretation.
    pub fn item_interpretation_tags(
        &self,
        template_id: TemplateId,
        item_id: ItemId,
        interpretation_id: &Vec<u8>,
    ) -> (r: Option<Tags>)
        ensures
            match r {
                Some(t) => self@.item_tags(template_id, item_id, interpretation_id@) == Some(t@),
                None => self@.item_tags(template_id, item_id, interpretation_id@) is None,
            },
    {
        match self.templates.get(&template_id) {
            Some(t) => match t.item(item_id) {
                Some(it) => it.tags_of(interpretation_id),
                None => None,
            },
            None => None,
        }
    }

    /// A resource of an item.
    pub fn resources(&self, template_id: TemplateId, item_id: ItemId, interpretation_id: &Vec<u8>) -> (r:
        Option<Resource>)
        ensures
            match r {
                Some(x) => self@.item_resource(template_id, item_id, interpretation_id@) matches Some(
                    state,
                ) && x.shows(interpretation_id@, state),
                None => self@.item_resource(template_id, item_id, interpretation_id@) is None,
            },
    {
        match self.templates.get(&template_id) {
            Some(t) => match t.item(item_id) {
                Some(it) => it.resource(interpretation_id),
                None => None,
            },
            None => None,
        }
    }

    /// What is kept of a template besides what it holds.
    pub fn templates(&self, template_id: TemplateId) -> (r: Option<TemplateInfo>)
        ensures
            r is Some == self@.templates.contains_key(template_id),
            r matches Some(info) ==> {
                let t = self@.templates[template_id];
                &&& info.issuer == t.issuer
                &&& info.name@ == t.name
                &&& info.metadata@ == t.metadata
                &&& info.max == t.max
                &&& info.next_item_id == t.next_item_id
            },
    {
        match self.templates.get(&template_id) {
            Some(t) => Some(t.info()),
            None => None,
        }
    }

    /// What is kept of an item besides what it holds.
    pub fn items(&self, template_id: TemplateId, item_id: ItemId) -> (r: Option<ItemInfo>)
        ensures
            r is Some == self@.item(template_id, item_id) is Some,
            r matches Some(info) ==> {
                let it = self@.item(template_id, item_id).unwrap();
                &&& info.owner == it.owner
                &&& info.metadata@ == it.metadata
            },
    {
        match self.templates.get(&template_id) {
            Some(t) => match t.item(item_id) {
                Some(it) => Some(it.info()),
                None => None,
            },
            None => None,
        }
    }

    /// The owner of an item.
    pub fn owner(&self, template_id: TemplateId, item_id: ItemId) -> (r: Option<AccountId>)
        ensures
            r == self@.owner_of(template_id, item_id),
    {
        match self.templates.get(&template_id) {
            Some(t) => t.owner(item_id),
            None => None,
        }
    }

    /// The issuer of a template.
    pub fn issuer(&self, template_id: TemplateId) -> (r: Option<AccountId>)
        ensures
            r == self@.issuer_of(template_id),
    {
        match self.templates.get(&template_id) {
            Some(t) => Some(t.issuer()),
            None => None,
        }
    }

    /// A proposal that was submitted and not applied yet.
    pub fn proposals(&self, proposal_id: ProposalId) -> (r: Option<ProposalInfo>)
        ensures
            match r {
                Some(p) => self@.proposals.contains_key(proposal_id) && p@
                    == self@.proposals[proposal_id],
                None => !self@.proposals.contains_key(proposal_id),
            },
    {
        match self.proposals.get(&proposal_id) {
            Some(p) => Some(p.dup()),
            None => None,
        }
    }
}

} // verus!
