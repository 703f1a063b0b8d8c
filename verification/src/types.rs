//! The data of the ledger and their models.
//!
//! Names, identifiers and metadata are byte strings. Each type has a view
//! made of `Seq`, `Set` and `Map`; the contracts of the ledger speak of the
//! views only.

use vstd::prelude::*;
use crate::bytes::{bytes_copy, opt_copy, opt_view};
use crate::table::{dup_vec, views, Dup};
pub use crate::tags::Tags;

verus! {

pub type AccountId = u64;

pub type TemplateId = u32;

pub type ItemId = u32;

pub type ProposalId = u32;

pub type InterpretationTypeId = u32;

pub type InterpretationId = u32;

/// Why an operation was refused. A refused operation changes nothing.
#[derive(Debug, Clone, Copy, PartialEq, Eq)]
pub enum Error {
    TagAlreadyExists,
    UnknownTag,
    TemplateDoesntSupportThisInterpretation,
    EmptyTags,
    ProposalNotExist,
    ProposalNotApproved,
    ProposalInappropriateTemplate,
    NoAvailableId,
    NoPermission,
    InterpretationTypeAlreadyExist,
    InterpretationTypeNotExist,
    InterpretationAlreadyExist,
    TemplateNotExist,
    TemplateNotEmpty,
    TemplateNotSupportThisType,
    ItemNotExist,
}

/// The kinds that the errors fall into.
#[derive(Debug, Clone, Copy, PartialEq, Eq)]
pub enum ErrorKind {
    NotFound,
    AlreadyExists,
    Unauthorized,
    InvalidProposalState,
    NonEmptyTemplate,
    EmptyTagSet,
    IdExhausted,
}

impl Error {
    /// The kind of this error.
    pub open spec fn spec_kind(self) -> ErrorKind {
        match self {
            Error::TagAlreadyExists => ErrorKind::AlreadyExists,
            Error::UnknownTag => ErrorKind::NotFound,
            Error::TemplateDoesntSupportThisInterpretation => ErrorKind::NotFound,
            Error::EmptyTags => ErrorKind::EmptyTagSet,
            Error::ProposalNotExist => ErrorKind::NotFound,
            Error::ProposalNotApproved => ErrorKind::InvalidProposalState,
            Error::ProposalInappropriateTemplate => ErrorKind::InvalidProposalState,
            Error::NoAvailableId => ErrorKind::IdExhausted,
            Error::NoPermission => ErrorKind::Unauthorized,
            Error::InterpretationTypeAlreadyExist => ErrorKind::AlreadyExists,
            Error::InterpretationTypeNotExist => ErrorKind::NotFound,
            Error::InterpretationAlreadyExist => ErrorKind::AlreadyExists,
            Error::TemplateNotExist => ErrorKind::NotFound,
            Error::TemplateNotEmpty => ErrorKind::NonEmptyTemplate,
            Error::TemplateNotSupportThisType => ErrorKind::NotFound,
            Error::ItemNotExist => ErrorKind::NotFound,
        }
    }

    /// The kind of this error.
    #[verifier::when_used_as_spec(spec_kind)]
    pub fn kind(self) -> (k: ErrorKind)
        ensures
            k == self.spec_kind(),
    {
        match self {
            Error::TagAlreadyExists => ErrorKind::AlreadyExists,
            Error::UnknownTag => ErrorKind::NotFound,
            Error::TemplateDoesntSupportThisInterpretation => ErrorKind::NotFound,
            Error::EmptyTags => ErrorKind::EmptyTagSet,
            Error::ProposalNotExist => ErrorKind::NotFound,
            Error::ProposalNotApproved => ErrorKind::InvalidProposalState,
            Error::ProposalInappropriateTemplate => ErrorKind::InvalidProposalState,
            Error::NoAvailableId => ErrorKind::IdExhausted,
            Error::NoPermission => ErrorKind::Unauthorized,
            Error::InterpretationTypeAlreadyExist => ErrorKind::AlreadyExists,
            Error::InterpretationTypeNotExist => ErrorKind::NotFound,
            Error::InterpretationAlreadyExist => ErrorKind::AlreadyExists,
            Error::TemplateNotExist => ErrorKind::NotFound,
            Error::TemplateNotEmpty => ErrorKind::NonEmptyTemplate,
            Error::TemplateNotSupportThisType => ErrorKind::NotFound,
            Error::ItemNotExist => ErrorKind::NotFound,
        }
    }
}

/// What is kept of a tag: a link to its description.
#[derive(Debug, PartialEq, Eq, Default)]
pub struct TagInfo {
    pub metadata: Vec<u8>,
}

/// The model of what is kept of a tag.
pub struct TagInfoView {
    pub metadata: Seq<u8>,
}

impl View for TagInfo {
    type V = TagInfoView;

    open spec fn view(&self) -> TagInfoView {
        TagInfoView { metadata: self.metadata@ }
    }
}

impl Dup for TagInfo {
    fn dup(&self) -> (r: Self) {
        TagInfo { metadata: bytes_copy(&self.metadata) }
    }
}

impl Clone for TagInfo {
    fn clone(&self) -> (r: Self)
        ensures
            r@ == self@,
    {
        self.dup()
    }
}

/// The content of a resource: where it lies and a link to its description.
#[derive(Debug, PartialEq, Eq, Default)]
pub struct ResourceInfo {
    pub src: Option<Vec<u8>>,
    pub metadata: Option<Vec<u8>>,
}

/// The model of the content of a resource.
pub struct ResourceView {
    pub src: Option<Seq<u8>>,
    pub metadata: Option<Seq<u8>>,
}

impl View for ResourceInfo {
    type V = ResourceView;

    open spec fn view(&self) -> ResourceView {
        ResourceView { src: opt_view(self.src), metadata: opt_view(self.metadata) }
    }
}

impl Dup for ResourceInfo {
    fn dup(&self) -> (r: Self) {
        ResourceInfo { src: opt_copy(&self.src), metadata: opt_copy(&self.metadata) }
    }
}

impl Clone for ResourceInfo {
    fn clone(&self) -> (r: Self)
        ensures
            r@ == self@,
    {
        self.dup()
    }
}

/// An interpretation: its identifier within a template and its content.
#[derive(Debug, PartialEq, Eq, Default)]
pub struct IntepretationInfo {
    pub id: Vec<u8>,
    pub src: Option<Vec<u8>>,
    pub metadata: Option<Vec<u8>>,
}

/// The model of an interpretation.
pub struct InfoView {
    pub id: Seq<u8>,
    pub src: Option<Seq<u8>>,
    pub metadata: Option<Seq<u8>>,
}

impl InfoView {
    /// The content of the interpretation, without its identifier.
    pub open spec fn resource(self) -> ResourceView {
        ResourceView { src: self.src, metadata: self.metadata }
    }
}

impl View for IntepretationInfo {
    type V = InfoView;

    open spec fn view(&self) -> InfoView {
        InfoView { id: self.id@, src: opt_view(self.src), metadata: opt_view(self.metadata) }
    }
}

impl Dup for IntepretationInfo {
    fn dup(&self) -> (r: Self) {
        IntepretationInfo {
            id: bytes_copy(&self.id),
            src: opt_copy(&self.src),
            metadata: opt_copy(&self.metadata),
        }
    }
}

impl Clone for IntepretationInfo {
    fn clone(&self) -> (r: Self)
        ensures
            r@ == self@,
    {
        self.dup()
    }
}

impl IntepretationInfo {
    /// A copy of the content.
    pub fn to_resource(&self) -> (r: ResourceInfo)
        ensures
            r@ == self@.resource(),
    {
        ResourceInfo { src: opt_copy(&self.src), metadata: opt_copy(&self.metadata) }
    }
}

/// An interpretation with the tags it is found under.
#[derive(Debug, PartialEq, Eq)]
pub struct Interpretation {
    pub tags: Tags,
    pub interpretation: IntepretationInfo,
}

/// The model of an interpretation with its tags.
pub struct InterpretationView {
    pub tags: Set<Seq<u8>>,
    pub interpretation: InfoView,
}

impl View for Interpretation {
    type V = InterpretationView;

    open spec fn view(&self) -> InterpretationView {
        InterpretationView { tags: self.tags@, interpretation: self.interpretation@ }
    }
}

impl Dup for Interpretation {
    fn dup(&self) -> (r: Self) {
        Interpretation { tags: self.tags.dup(), interpretation: self.interpretation.dup() }
    }
}

impl Clone for Interpretation {
    fn clone(&self) -> (r: Self)
        ensures
            r@ == self@,
    {
        self.dup()
    }
}

/// What a template holds of one interpretation: its content and its tags.
#[derive(Debug, PartialEq, Eq)]
pub struct TemplateEntry {
    pub resource: ResourceInfo,
    pub tags: Tags,
}

/// The model of what a template holds of one interpretation.
pub struct EntryView {
    pub resource: ResourceView,
    pub tags: Set<Seq<u8>>,
}

impl View for TemplateEntry {
    type V = EntryView;

    open spec fn view(&self) -> EntryView {
        EntryView { resource: self.resource@, tags: self.tags@ }
    }
}

impl Dup for TemplateEntry {
    fn dup(&self) -> (r: Self) {
        TemplateEntry { resource: self.resource.dup(), tags: self.tags.dup() }
    }
}

impl Clone for TemplateEntry {
    fn clone(&self) -> (r: Self)
        ensures
            r@ == self@,
    {
        self.dup()
    }
}

/// The names that a list holds.
pub open spec fn names(ids: Seq<Vec<u8>>) -> Set<Seq<u8>> {
    Set::new(|t: Seq<u8>| exists|i: int| 0 <= i < ids.len() && (#[trigger] ids[i])@ == t)
}

/// The names of a list with one more element are those of the list and the
/// name of that element.
pub proof fn lemma_names_take(ids: Seq<Vec<u8>>, k: int)
    requires
        0 <= k < ids.len(),
    ensures
        names(ids.take(k + 1)) == names(ids.take(k)).insert(ids[k]@),
        names(ids.take(0)) == Set::<Seq<u8>>::empty(),
        names(ids.take(ids.len() as int)) == names(ids),
{
    let next = names(ids.take(k + 1));
    let done = names(ids.take(k));
    assert(ids.take(k + 1)[k] == ids[k]);
    assert forall|t: Seq<u8>| next.contains(t) <==> (done.contains(t) || t == ids[k]@) by {
        if next.contains(t) {
            let i = choose|i: int| 0 <= i < ids.take(k + 1).len() && (#[trigger] ids.take(k + 1)[i])@ == t;
            if i < k {
                assert(ids.take(k)[i]@ == t);
            }
        }
        if done.contains(t) {
            let i = choose|i: int| 0 <= i < ids.take(k).len() && (#[trigger] ids.take(k)[i])@ == t;
            assert(ids.take(k + 1)[i]@ == t);
        }
    }
    assert(next =~= done.insert(ids[k]@));
    assert(names(ids.take(0)) =~= Set::<Seq<u8>>::empty());
    assert(ids.take(ids.len() as int) =~= ids);
}

/// Whether an operation did what is asked of it: where `expected` is a new
/// state, it succeeded and left that state; where `expected` is an error, it
/// was refused with that error and left the state as it was.
pub open spec fn meets<S, T>(
    expected: Result<S, Error>,
    before: S,
    after: S,
    r: Result<T, Error>,
) -> bool {
    match expected {
        Ok(s) => r is Ok && after == s,
        Err(e) => r matches Err(x) && x == e && after == before,
    }
}

/// One step of a change set.
#[allow(inconsistent_fields)]
#[derive(Debug, PartialEq, Eq)]
pub enum Change {
    /// Binds interpretations, each with its tags, to the template.
    Add { interpretations: Vec<(IntepretationInfo, Tags)> },
    /// Replaces the content of interpretations that the template has.
    Modify { interpretations: Vec<IntepretationInfo> },
    /// Replaces the tags of an interpretation that the template has.
    ModifyTags { interpretation_id: Vec<u8>, tags: Tags },
    /// Takes one interpretation from the template.
    RemoveInterpretation { interpretation_id: Vec<u8> },
    /// Takes from the template every interpretation found under a tag or type.
    RemoveInterpretationType { interpretation_type: Vec<u8> },
}

/// The model of a change.
#[allow(inconsistent_fields)]
pub enum ChangeView {
    Add { interpretations: Seq<(InfoView, Set<Seq<u8>>)> },
    Modify { interpretations: Seq<InfoView> },
    ModifyTags { interpretation_id: Seq<u8>, tags: Set<Seq<u8>> },
    RemoveInterpretation { interpretation_id: Seq<u8> },
    RemoveInterpretationType { interpretation_type: Seq<u8> },
}

impl View for Change {
    type V = ChangeView;

    open spec fn view(&self) -> ChangeView {
        match *self {
            Change::Add { interpretations } => ChangeView::Add {
                interpretations: views(interpretations@),
            },
            Change::Modify { interpretations } => ChangeView::Modify {
                interpretations: views(interpretations@),
            },
            Change::ModifyTags { interpretation_id, tags } => ChangeView::ModifyTags {
                interpretation_id: interpretation_id@,
                tags: tags@,
            },
            Change::RemoveInterpretation { interpretation_id } => ChangeView::RemoveInterpretation {
                interpretation_id: interpretation_id@,
            },
            Change::RemoveInterpretationType {
                interpretation_type,
            } => ChangeView::RemoveInterpretationType { interpretation_type: interpretation_type@ },
        }
    }
}

impl Dup for Change {
    fn dup(&self) -> (r: Self) {
        match self {
            Change::Add { interpretations } => Change::Add {
                interpretations: dup_vec(interpretations),
            },
            Change::Modify { interpretations } => Change::Modify {
                interpretations: dup_vec(interpretations),
            },
            Change::ModifyTags { interpretation_id, tags } => Change::ModifyTags {
                interpretation_id: bytes_copy(interpretation_id),
                tags: tags.dup(),
            },
            Change::RemoveInterpretation { interpretation_id } => Change::RemoveInterpretation {
                interpretation_id: bytes_copy(interpretation_id),
            },
            Change::RemoveInterpretationType {
                interpretation_type,
            } => Change::RemoveInterpretationType {
                interpretation_type: bytes_copy(interpretation_type),
            },
        }
    }
}

impl Clone for Change {
    fn clone(&self) -> (r: Self)
        ensures
            r@ == self@,
    {
        self.dup()
    }
}

/// Where a proposal stands. Only an approved proposal can be applied.
#[derive(Debug, Clone, Copy, PartialEq, Eq)]
pub enum ProposalState {
    Pending,
    Approved,
    Rejected,
}

impl Default for ProposalState {
    fn default() -> (r: Self)
        ensures
            r == ProposalState::Approved,
    {
        ProposalState::Approved
    }
}

/// A change set that its author proposes for one template.
#[derive(Debug, PartialEq, Eq)]
pub struct ProposalInfo {
    pub author: AccountId,
    pub state: ProposalState,
    pub template_id: TemplateId,
    pub change_set: Vec<Change>,
}

/// The model of a proposal.
pub struct ProposalView {
    pub author: AccountId,
    pub state: ProposalState,
    pub template_id: TemplateId,
    pub change_set: Seq<ChangeView>,
}

impl View for ProposalInfo {
    type V = ProposalView;

    open spec fn view(&self) -> ProposalView {
        ProposalView {
            author: self.author,
            state: self.state,
            template_id: self.template_id,
            change_set: views(self.change_set@),
        }
    }
}

impl Dup for ProposalInfo {
    fn dup(&self) -> (r: Self) {
        ProposalInfo {
            author: self.author,
            state: self.state,
            template_id: self.template_id,
            change_set: dup_vec(&self.change_set),
        }
    }
}

impl Clone for ProposalInfo {
    fn clone(&self) -> (r: Self)
        ensures
            r@ == self@,
    {
        self.dup()
    }
}

/// An interpretation type of the registry.
#[derive(Debug, PartialEq, Eq)]
pub struct InterpretationTypeInfo {
    pub id: InterpretationTypeId,
    pub metadata: Vec<u8>,
}

/// The model of an interpretation type.
pub struct InterpretationTypeView {
    pub id: InterpretationTypeId,
    pub metadata: Seq<u8>,
}

impl View for InterpretationTypeInfo {
    type V = InterpretationTypeView;

    open spec fn view(&self) -> InterpretationTypeView {
        InterpretationTypeView { id: self.id, metadata: self.metadata@ }
    }
}

impl Dup for InterpretationTypeInfo {
    fn dup(&self) -> (r: Self) {
        InterpretationTypeInfo { id: self.id, metadata: bytes_copy(&self.metadata) }
    }
}

impl Clone for InterpretationTypeInfo {
    fn clone(&self) -> (r: Self)
        ensures
            r@ == self@,
    {
        self.dup()
    }
}

/// An interpretation of the registry, filed under an interpretation type.
#[derive(Debug, PartialEq, Eq)]
pub struct RegisteredInterpretation {
    pub id: InterpretationId,
    pub interpretation_type: InterpretationTypeId,
    pub src: Option<Vec<u8>>,
    pub metadata: Option<Vec<u8>>,
}

/// The model of a registered interpretation.
pub struct RegisteredView {
    pub id: InterpretationId,
    pub interpretation_type: InterpretationTypeId,
    pub src: Option<Seq<u8>>,
    pub metadata: Option<Seq<u8>>,
}

impl View for RegisteredInterpretation {
    type V = RegisteredView;

    open spec fn view(&self) -> RegisteredView {
        RegisteredView {
            id: self.id,
            interpretation_type: self.interpretation_type,
            src: opt_view(self.src),
            metadata: opt_view(self.metadata),
        }
    }
}

impl Dup for RegisteredInterpretation {
    fn dup(&self) -> (r: Self) {
        RegisteredInterpretation {
            id: self.id,
            interpretation_type: self.interpretation_type,
            src: opt_copy(&self.src),
            metadata: opt_copy(&self.metadata),
        }
    }
}

impl Clone for RegisteredInterpretation {
    fn clone(&self) -> (r: Self)
        ensures
            r@ == self@,
    {
        self.dup()
    }
}

/// What is kept of a template besides what it holds.
#[derive(Debug, PartialEq, Eq)]
pub struct TemplateInfo {
    pub issuer: AccountId,
    pub name: Vec<u8>,
    pub metadata: Vec<u8>,
    pub max: Option<u32>,
    pub next_item_id: ItemId,
}

/// What is kept of an item besides what it holds.
#[derive(Debug, PartialEq, Eq)]
pub struct ItemInfo {
    pub owner: AccountId,
    pub metadata: Vec<u8>,
}

} // verus!
