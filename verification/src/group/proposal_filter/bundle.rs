//! The proposals of one commit, sorted by kind.

use vstd::prelude::*;

use std::sync::Arc;

use crate::extension::ExtensionList;
use crate::group::proposal::{
    AddProposal, BorrowedProposal, CustomProposal, ExternalInit, PreSharedKeyProposal,
    ProposalInfo, ProposalType, ReInitProposal, RemoveProposal, UpdateProposal,
};

verus! {

/// The proposals of one commit, sorted by kind. Within a kind they keep the order
/// in which the commit lists them. Entries are shared, so that a bundle is cheap
/// to copy.
#[derive(Debug, PartialEq)]
pub struct ProposalBundle {
    pub additions: Vec<Arc<ProposalInfo<AddProposal>>>,
    pub updates: Vec<Arc<ProposalInfo<UpdateProposal>>>,
    pub removals: Vec<Arc<ProposalInfo<RemoveProposal>>>,
    pub psks: Vec<Arc<ProposalInfo<PreSharedKeyProposal>>>,
    pub reinitializations: Vec<Arc<ProposalInfo<ReInitProposal>>>,
    pub external_initializations: Vec<Arc<ProposalInfo<ExternalInit>>>,
    pub group_context_extensions: Vec<Arc<ProposalInfo<ExtensionList>>>,
    pub custom_proposals: Vec<Arc<ProposalInfo<CustomProposal>>>,
}

/// The entries of a bundle as sequences.
pub ghost struct BundleView {
    pub additions: Seq<Arc<ProposalInfo<AddProposal>>>,
    pub updates: Seq<Arc<ProposalInfo<UpdateProposal>>>,
    pub removals: Seq<Arc<ProposalInfo<RemoveProposal>>>,
    pub psks: Seq<Arc<ProposalInfo<PreSharedKeyProposal>>>,
    pub reinitializations: Seq<Arc<ProposalInfo<ReInitProposal>>>,
    pub external_initializations: Seq<Arc<ProposalInfo<ExternalInit>>>,
    pub group_context_extensions: Seq<Arc<ProposalInfo<ExtensionList>>>,
    pub custom_proposals: Seq<Arc<ProposalInfo<CustomProposal>>>,
}

impl View for ProposalBundle {
    type V = BundleView;

    open spec fn view(&self) -> BundleView {
        BundleView {
            additions: self.additions@,
            updates: self.updates@,
            removals: self.removals@,
            psks: self.psks@,
            reinitializations: self.reinitializations@,
            external_initializations: self.external_initializations@,
            group_context_extensions: self.group_context_extensions@,
            custom_proposals: self.custom_proposals@,
        }
    }
}

/// `positions` are positions in `from`, in order, of the items of `items`.
pub open spec fn picks<T>(items: Seq<T>, from: Seq<T>, positions: Seq<int>) -> bool {
    &&& positions.len() == items.len()
    &&& forall|k: int|
        0 <= k < items.len() ==> 0 <= #[trigger] positions[k] < from.len() && items[k]
            == from[positions[k]]
    &&& forall|k: int, l: int|
        0 <= k < l < items.len() ==> #[trigger] positions[k] < #[trigger] positions[l]
}

/// `items` are some of the items of `from`, in the same order.
pub open spec fn is_subsequence<T>(items: Seq<T>, from: Seq<T>) -> bool {
    exists|positions: Seq<int>| picks(items, from, positions)
}

/// `bundle` holds some of the proposals of `from`, in the same order.
pub open spec fn is_part_of(bundle: BundleView, from: BundleView) -> bool {
    &&& is_subsequence(bundle.additions, from.additions)
    &&& is_subsequence(bundle.updates, from.updates)
    &&& is_subsequence(bundle.removals, from.removals)
    &&& is_subsequence(bundle.psks, from.psks)
    &&& is_subsequence(bundle.reinitializations, from.reinitializations)
    &&& is_subsequence(bundle.external_initializations, from.external_initializations)
    &&& is_subsequence(bundle.group_context_extensions, from.group_context_extensions)
    &&& is_subsequence(bundle.custom_proposals, from.custom_proposals)
}

/// A sequence is a subsequence of itself.
pub proof fn subsequence_of_itself<T>(items: Seq<T>)
    ensures
        is_subsequence(items, items),
{
    assert(picks(items, items, Seq::new(items.len(), |k: int| k)));
}

/// A subsequence of a subsequence is a subsequence.
pub proof fn subsequence_of_subsequence<T>(a: Seq<T>, b: Seq<T>, c: Seq<T>)
    requires
        is_subsequence(a, b),
        is_subsequence(b, c),
    ensures
        is_subsequence(a, c),
{
    let p = choose|p: Seq<int>| picks(a, b, p);
    let q = choose|q: Seq<int>| picks(b, c, q);
    assert(picks(a, c, Seq::new(a.len(), |k: int| q[p[k]])));
}

/// A bundle is part of itself.
pub proof fn part_of_itself(bundle: BundleView)
    ensures
        is_part_of(bundle, bundle),
{
    subsequence_of_itself(bundle.additions);
    subsequence_of_itself(bundle.updates);
    subsequence_of_itself(bundle.removals);
    subsequence_of_itself(bundle.psks);
    subsequence_of_itself(bundle.reinitializations);
    subsequence_of_itself(bundle.external_initializations);
    subsequence_of_itself(bundle.group_context_extensions);
    subsequence_of_itself(bundle.custom_proposals);
}

/// A part of a part is a part.
pub proof fn part_of_part(a: BundleView, b: BundleView, c: BundleView)
    requires
        is_part_of(a, b),
        is_part_of(b, c),
    ensures
        is_part_of(a, c),
{
    subsequence_of_subsequence(a.additions, b.additions, c.additions);
    subsequence_of_subsequence(a.updates, b.updates, c.updates);
    subsequence_of_subsequence(a.removals, b.removals, c.removals);
    subsequence_of_subsequence(a.psks, b.psks, c.psks);
    subsequence_of_subsequence(a.reinitializations, b.reinitializations, c.reinitializations);
    subsequence_of_subsequence(
        a.external_initializations,
        b.external_initializations,
        c.external_initializations,
    );
    subsequence_of_subsequence(
        a.group_context_extensions,
        b.group_context_extensions,
        c.group_context_extensions,
    );
    subsequence_of_subsequence(a.custom_proposals, b.custom_proposals, c.custom_proposals);
}

/// A kind of proposal that a bundle has a list for.
pub trait Bundled: Sized {
    /// The bundle's proposals of this kind.
    spec fn list(bundle: BundleView) -> Seq<Arc<ProposalInfo<Self>>>;

    /// The bundle with its proposals of this kind replaced.
    spec fn with_list(bundle: BundleView, list: Seq<Arc<ProposalInfo<Self>>>) -> BundleView;

    /// The proposal as one of any kind.
    spec fn borrowed(&self) -> BorrowedProposal<'_>;

    /// What is replaced is what is read; replacing by what was there changes nothing,
    /// and replacing by some of it leaves a part of the bundle.
    proof fn list_laws(bundle: BundleView, list: Seq<Arc<ProposalInfo<Self>>>)
        ensures
            Self::list(Self::with_list(bundle, list)) == list,
            Self::with_list(bundle, Self::list(bundle)) == bundle,
            is_subsequence(list, Self::list(bundle)) ==> is_part_of(
                Self::with_list(bundle, list),
                bundle,
            ),
    ;

    /// The bundle's proposals of this kind.
    fn by_type(bundle: &ProposalBundle) -> (list: &Vec<Arc<ProposalInfo<Self>>>)
        ensures
            list@ == Self::list(bundle@),
    ;

    /// Replaces the bundle's proposals of this kind.
    fn set_list(bundle: &mut ProposalBundle, list: Vec<Arc<ProposalInfo<Self>>>)
        ensures
            final(bundle)@ == Self::with_list(old(bundle)@, list@),
    ;

    /// The proposal as one of any kind.
    fn borrow(&self) -> (b: BorrowedProposal<'_>)
        ensures
            b == self.borrowed(),
    ;
}

/// A kind of proposal that the protocol itself defines.
pub trait Proposable: Bundled {
    /// The type of all proposals of this kind.
    spec fn kind() -> ProposalType;

    /// The type of all proposals of this kind.
    fn proposal_type() -> (t: ProposalType)
        ensures
            t == Self::kind(),
    ;
}

impl Bundled for AddProposal {
    open spec fn list(bundle: BundleView) -> Seq<Arc<ProposalInfo<Self>>> {
        bundle.additions
    }

    open spec fn with_list(bundle: BundleView, list: Seq<Arc<ProposalInfo<Self>>>) -> BundleView {
        BundleView { additions: list, ..bundle }
    }

    open spec fn borrowed(&self) -> BorrowedProposal<'_> {
        BorrowedProposal::Add(self)
    }

    proof fn list_laws(bundle: BundleView, list: Seq<Arc<ProposalInfo<Self>>>) {
        part_of_itself(bundle);
    }

    fn by_type(bundle: &ProposalBundle) -> (list: &Vec<Arc<ProposalInfo<Self>>>) {
        &bundle.additions
    }

    fn set_list(bundle: &mut ProposalBundle, list: Vec<Arc<ProposalInfo<Self>>>) {
        bundle.additions = list;
    }

    fn borrow(&self) -> (b: BorrowedProposal<'_>) {
        BorrowedProposal::Add(self)
    }
}

impl Proposable for AddProposal {
    open spec fn kind() -> ProposalType {
        ProposalType::Add
    }

    fn proposal_type() -> (t: ProposalType) {
        ProposalType::Add
    }
}

impl Bundled for UpdateProposal {
    open spec fn list(bundle: BundleView) -> Seq<Arc<ProposalInfo<Self>>> {
        bundle.updates
    }

    open spec fn with_list(bundle: BundleView, list: Seq<Arc<ProposalInfo<Self>>>) -> BundleView {
        BundleView { updates: list, ..bundle }
    }

    open spec fn borrowed(&self) -> BorrowedProposal<'_> {
        BorrowedProposal::Update(self)
    }

    proof fn list_laws(bundle: BundleView, list: Seq<Arc<ProposalInfo<Self>>>) {
        part_of_itself(bundle);
    }

    fn by_type(bundle: &ProposalBundle) -> (list: &Vec<Arc<ProposalInfo<Self>>>) {
        &bundle.updates
    }

    fn set_list(bundle: &mut ProposalBundle, list: Vec<Arc<ProposalInfo<Self>>>) {
        bundle.updates = list;
    }

    fn borrow(&self) -> (b: BorrowedProposal<'_>) {
        BorrowedProposal::Update(self)
    }
}

impl Proposable for UpdateProposal {
    open spec fn kind() -> ProposalType {
        ProposalType::Update
    }

    fn proposal_type() -> (t: ProposalType) {
        ProposalType::Update
    }
}

impl Bundled for RemoveProposal {
    open spec fn list(bundle: BundleView) -> Seq<Arc<ProposalInfo<Self>>> {
        bundle.removals
    }

    open spec fn with_list(bundle: BundleView, list: Seq<Arc<ProposalInfo<Self>>>) -> BundleView {
        BundleView { removals: list, ..bundle }
    }

    open spec fn borrowed(&self) -> BorrowedProposal<'_> {
        BorrowedProposal::Remove(self)
    }

    proof fn list_laws(bundle: BundleView, list: Seq<Arc<ProposalInfo<Self>>>) {
        part_of_itself(bundle);
    }

    fn by_type(bundle: &ProposalBundle) -> (list: &Vec<Arc<ProposalInfo<Self>>>) {
        &bundle.removals
    }

    fn set_list(bundle: &mut ProposalBundle, list: Vec<Arc<ProposalInfo<Self>>>) {
        bundle.removals = list;
    }

    fn borrow(&self) -> (b: BorrowedProposal<'_>) {
        BorrowedProposal::Remove(self)
    }
}

impl Proposable for RemoveProposal {
    open spec fn kind() -> ProposalType {
        ProposalType::Remove
    }

    fn proposal_type() -> (t: ProposalType) {
        ProposalType::Remove
    }
}

impl Bundled for PreSharedKeyProposal {
    open spec fn list(bundle: BundleView) -> Seq<Arc<ProposalInfo<Self>>> {
        bundle.psks
    }

    open spec fn with_list(bundle: BundleView, list: Seq<Arc<ProposalInfo<Self>>>) -> BundleView {
        BundleView { psks: list, ..bundle }
    }

    open spec fn borrowed(&self) -> BorrowedProposal<'_> {
        BorrowedProposal::Psk(self)
    }

    proof fn list_laws(bundle: BundleView, list: Seq<Arc<ProposalInfo<Self>>>) {
        part_of_itself(bundle);
    }

    fn by_type(bundle: &ProposalBundle) -> (list: &Vec<Arc<ProposalInfo<Self>>>) {
        &bundle.psks
    }

    fn set_list(bundle: &mut ProposalBundle, list: Vec<Arc<ProposalInfo<Self>>>) {
        bundle.psks = list;
    }

    fn borrow(&self) -> (b: BorrowedProposal<'_>) {
        BorrowedProposal::Psk(self)
    }
}

impl Proposable for PreSharedKeyProposal {
    open spec fn kind() -> ProposalType {
        ProposalType::Psk
    }

    fn proposal_type() -> (t: ProposalType) {
        ProposalType::Psk
    }
}

impl Bundled for ReInitProposal {
    open spec fn list(bundle: BundleView) -> Seq<Arc<ProposalInfo<Self>>> {
        bundle.reinitializations
    }

    open spec fn with_list(bundle: BundleView, list: Seq<Arc<ProposalInfo<Self>>>) -> BundleView {
        BundleView { reinitializations: list, ..bundle }
    }

    open spec fn borrowed(&self) -> BorrowedProposal<'_> {
        BorrowedProposal::ReInit(self)
    }

    proof fn list_laws(bundle: BundleView, list: Seq<Arc<ProposalInfo<Self>>>) {
        part_of_itself(bundle);
    }

    fn by_type(bundle: &ProposalBundle) -> (list: &Vec<Arc<ProposalInfo<Self>>>) {
        &bundle.reinitializations
    }

    fn set_list(bundle: &mut ProposalBundle, list: Vec<Arc<ProposalInfo<Self>>>) {
        bundle.reinitializations = list;
    }

    fn borrow(&self) -> (b: BorrowedProposal<'_>) {
        BorrowedProposal::ReInit(self)
    }
}

impl Proposable for ReInitProposal {
    open spec fn kind() -> ProposalType {
        ProposalType::ReInit
    }

    fn proposal_type() -> (t: ProposalType) {
        ProposalType::ReInit
    }
}

impl Bundled for ExternalInit {
    open spec fn list(bundle: BundleView) -> Seq<Arc<ProposalInfo<Self>>> {
        bundle.external_initializations
    }

    open spec fn with_list(bundle: BundleView, list: Seq<Arc<ProposalInfo<Self>>>) -> BundleView {
        BundleView { external_initializations: list, ..bundle }
    }

    open spec fn borrowed(&self) -> BorrowedProposal<'_> {
        BorrowedProposal::ExternalInit(self)
    }

    proof fn list_laws(bundle: BundleView, list: Seq<Arc<ProposalInfo<Self>>>) {
        part_of_itself(bundle);
    }

    fn by_type(bundle: &ProposalBundle) -> (list: &Vec<Arc<ProposalInfo<Self>>>) {
        &bundle.external_initializations
    }

    fn set_list(bundle: &mut ProposalBundle, list: Vec<Arc<ProposalInfo<Self>>>) {
        bundle.external_initializations = list;
    }

    fn borrow(&self) -> (b: BorrowedProposal<'_>) {
        BorrowedProposal::ExternalInit(self)
    }
}

impl Proposable for ExternalInit {
    open spec fn kind() -> ProposalType {
        ProposalType::ExternalInit
    }

    fn proposal_type() -> (t: ProposalType) {
        ProposalType::ExternalInit
    }
}

impl Bundled for ExtensionList {
    open spec fn list(bundle: BundleView) -> Seq<Arc<ProposalInfo<Self>>> {
        bundle.group_context_extensions
    }

    open spec fn with_list(bundle: BundleView, list: Seq<Arc<ProposalInfo<Self>>>) -> BundleView {
        BundleView { group_context_extensions: list, ..bundle }
    }

    open spec fn borrowed(&self) -> BorrowedProposal<'_> {
        BorrowedProposal::GroupContextExtensions(self)
    }

    proof fn list_laws(bundle: BundleView, list: Seq<Arc<ProposalInfo<Self>>>) {
        part_of_itself(bundle);
    }

    fn by_type(bundle: &ProposalBundle) -> (list: &Vec<Arc<ProposalInfo<Self>>>) {
        &bundle.group_context_extensions
    }

    fn set_list(bundle: &mut ProposalBundle, list: Vec<Arc<ProposalInfo<Self>>>) {
        bundle.group_context_extensions = list;
    }

    fn borrow(&self) -> (b: BorrowedProposal<'_>) {
        BorrowedProposal::GroupContextExtensions(self)
    }
}

impl Proposable for ExtensionList {
    open spec fn kind() -> ProposalType {
        ProposalType::GroupContextExtensions
    }

    fn proposal_type() -> (t: ProposalType) {
        ProposalType::GroupContextExtensions
    }
}

impl Bundled for CustomProposal {
    open spec fn list(bundle: BundleView) -> Seq<Arc<ProposalInfo<Self>>> {
        bundle.custom_proposals
    }

    open spec fn with_list(bundle: BundleView, list: Seq<Arc<ProposalInfo<Self>>>) -> BundleView {
        BundleView { custom_proposals: list, ..bundle }
    }

    open spec fn borrowed(&self) -> BorrowedProposal<'_> {
        BorrowedProposal::Custom(self)
    }

    proof fn list_laws(bundle: BundleView, list: Seq<Arc<ProposalInfo<Self>>>) {
        part_of_itself(bundle);
    }

    fn by_type(bundle: &ProposalBundle) -> (list: &Vec<Arc<ProposalInfo<Self>>>) {
        &bundle.custom_proposals
    }

    fn set_list(bundle: &mut ProposalBundle, list: Vec<Arc<ProposalInfo<Self>>>) {
        bundle.custom_proposals = list;
    }

    fn borrow(&self) -> (b: BorrowedProposal<'_>) {
        BorrowedProposal::Custom(self)
    }
}

/// Copies a list of shared entries.
fn clone_list<T>(list: &Vec<Arc<T>>) -> (copy: Vec<Arc<T>>)
    ensures
        copy@ == list@,
{
    let mut copy: Vec<Arc<T>> = Vec::new();
    let n: usize = list.len();
    for i in 0..n
        invariant
            n == list.len(),
            copy@ == list@.take(i as int),
    {
        copy.push(list[i].clone());
        assert(list@.take(i as int).push(list@[i as int]) =~= list@.take(i + 1));
    }
    assert(list@.take(n as int) =~= list@);
    copy
}

impl Clone for ProposalBundle {
    fn clone(&self) -> (bundle: Self)
        ensures
            bundle@ == self@,
    {
        ProposalBundle {
            additions: clone_list(&self.additions),
            updates: clone_list(&self.updates),
            removals: clone_list(&self.removals),
            psks: clone_list(&self.psks),
            reinitializations: clone_list(&self.reinitializations),
            external_initializations: clone_list(&self.external_initializations),
            group_context_extensions: clone_list(&self.group_context_extensions),
            custom_proposals: clone_list(&self.custom_proposals),
        }
    }
}

/// The type of each custom proposal, in order.
pub open spec fn custom_types(bundle: BundleView) -> Seq<ProposalType> {
    bundle.custom_proposals.map_values(
        |p: Arc<ProposalInfo<CustomProposal>>| p.proposal.proposal_type,
    )
}

/// `t` if the list is not empty.
pub open spec fn type_if_any<T>(list: Seq<T>, t: ProposalType) -> Seq<ProposalType> {
    if list.len() > 0 {
        seq![t]
    } else {
        seq![]
    }
}

/// The types that occur in a bundle, those that the protocol defines first.
pub open spec fn types_in(bundle: BundleView) -> Seq<ProposalType> {
    type_if_any(bundle.additions, ProposalType::Add)
        + type_if_any(bundle.updates, ProposalType::Update)
        + type_if_any(bundle.removals, ProposalType::Remove)
        + type_if_any(bundle.psks, ProposalType::Psk)
        + type_if_any(bundle.reinitializations, ProposalType::ReInit)
        + type_if_any(bundle.external_initializations, ProposalType::ExternalInit)
        + type_if_any(bundle.group_context_extensions, ProposalType::GroupContextExtensions)
        + custom_types(bundle)
}

/// The bundle without any change of the group context's extensions.
pub open spec fn without_group_context_extensions(bundle: BundleView) -> BundleView {
    BundleView { group_context_extensions: seq![], ..bundle }
}

/// Appends `t` if the list is not empty.
fn note_type<T>(types: &mut Vec<ProposalType>, list: &Vec<T>, t: ProposalType)
    ensures
        final(types)@ == old(types)@ + type_if_any(list@, t),
{
    if list.len() > 0 {
        types.push(t);
    }
    assert(types@ =~= old(types)@ + type_if_any(list@, t));
}

impl ProposalBundle {
    /// A bundle without any proposal.
    pub fn new() -> (bundle: Self)
        ensures
            bundle@.additions.len() == 0,
            bundle@.updates.len() == 0,
            bundle@.removals.len() == 0,
            bundle@.psks.len() == 0,
            bundle@.reinitializations.len() == 0,
            bundle@.external_initializations.len() == 0,
            bundle@.group_context_extensions.len() == 0,
            bundle@.custom_proposals.len() == 0,
    {
        ProposalBundle {
            additions: Vec::new(),
            updates: Vec::new(),
            removals: Vec::new(),
            psks: Vec::new(),
            reinitializations: Vec::new(),
            external_initializations: Vec::new(),
            group_context_extensions: Vec::new(),
            custom_proposals: Vec::new(),
        }
    }

    /// The types of the custom proposals, in order.
    pub fn custom_proposal_types(&self) -> (types: Vec<ProposalType>)
        ensures
            types@ == custom_types(self@),
    {
        let mut types: Vec<ProposalType> = Vec::new();
        let n: usize = self.custom_proposals.len();
        for i in 0..n
            invariant
                n == self.custom_proposals.len(),
                types@ == custom_types(self@).take(i as int),
        {
            types.push(self.custom_proposals[i].proposal.proposal_type);
            assert(types@ =~= custom_types(self@).take(i + 1));
        }
        assert(types@ =~= custom_types(self@));
        types
    }

    /// The types that occur, those that the protocol defines first. Each of those
    /// occurs once, whatever the number of its proposals.
    pub fn proposal_types(&self) -> (types: Vec<ProposalType>)
        ensures
            types@ == types_in(self@),
    {
        let mut types: Vec<ProposalType> = Vec::new();
        note_type(&mut types, &self.additions, ProposalType::Add);
        note_type(&mut types, &self.updates, ProposalType::Update);
        note_type(&mut types, &self.removals, ProposalType::Remove);
        note_type(&mut types, &self.psks, ProposalType::Psk);
        note_type(&mut types, &self.reinitializations, ProposalType::ReInit);
        note_type(&mut types, &self.external_initializations, ProposalType::ExternalInit);
        note_type(&mut types, &self.group_context_extensions, ProposalType::GroupContextExtensions);
        let mut custom = self.custom_proposal_types();
        types.append(&mut custom);
        assert(types@ =~= types_in(self@));
        types
    }

    /// The proposal to change the group context's extensions that counts: the first.
    pub fn group_context_extensions_proposal(&self) -> (p: Option<
        &Arc<ProposalInfo<ExtensionList>>,
    >)
        ensures
            self@.group_context_extensions.len() == 0 ==> p is None,
            self@.group_context_extensions.len() > 0 ==> p == Some(
                &self@.group_context_extensions[0],
            ),
    {
        if self.group_context_extensions.len() == 0 {
            None
        } else {
            Some(&self.group_context_extensions[0])
        }
    }

    /// Drops the proposals to change the group context's extensions.
    pub fn clear_group_context_extensions(&mut self)
        ensures
            final(self)@ == without_group_context_extensions(old(self)@),
    {
        self.group_context_extensions = Vec::new();
        assert(self@.group_context_extensions =~= seq![]);
    }
}

} // verus!
