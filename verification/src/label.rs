//! Information-flow labels.
//!
//! A label carries a set of confidentiality tags and a set of integrity tags.
//! Data may flow from a source to a destination iff the source's
//! confidentiality tags are a subset of the destination's and the source's
//! integrity tags are a superset of the destination's: the destination must be
//! at least as confidential, and may demand no integrity endorsement the
//! source does not carry.

use vstd::prelude::*;

verus! {

/// One element of `a` missing from `b` refutes `tag_subset(a, b)`.
pub open spec fn tag_subset(a: Seq<u64>, b: Seq<u64>) -> bool {
    forall|t: u64| a.contains(t) ==> b.contains(t)
}

/// The set of tags a tag list denotes (duplicates and order are irrelevant).
pub open spec fn tag_set(a: Seq<u64>) -> Set<u64> {
    Set::new(|t: u64| a.contains(t))
}

/// An information-flow tag attached to every channel and node.
pub struct Label {
    pub confidentiality_tags: Vec<u64>,
    pub integrity_tags: Vec<u64>,
}

impl Label {
    /// The can-flow-to partial order on labels.
    pub open spec fn spec_can_flow_to(self, other: Label) -> bool {
        &&& tag_subset(self.confidentiality_tags@, other.confidentiality_tags@)
        &&& tag_subset(other.integrity_tags@, self.integrity_tags@)
    }

    /// Both tag sets are empty: the bottom confidentiality element.
    pub open spec fn is_public_trusted(self) -> bool {
        self.confidentiality_tags@.len() == 0 && self.integrity_tags@.len() == 0
    }

    /// The label with empty tag sets on both axes.
    pub fn public_trusted() -> (r: Label)
        ensures
            r.is_public_trusted(),
    {
        Label { confidentiality_tags: Vec::new(), integrity_tags: Vec::new() }
    }

    /// Decides the can-flow-to order: the receiver's confidentiality tags are
    /// a subset of `other`'s and its integrity tags a superset of `other`'s.
    pub fn can_flow_to(&self, other: &Label) -> (r: bool)
        ensures
            r == self.spec_can_flow_to(*other),
    {
        let conf = tags_subset(&self.confidentiality_tags, &other.confidentiality_tags);
        let integ = tags_subset(&other.integrity_tags, &self.integrity_tags);
        conf && integ
    }
}

/// Whether `t` occurs in `v`.
fn contains_tag(v: &Vec<u64>, t: u64) -> (r: bool)
    ensures
        r == v@.contains(t),
{
    let mut i: usize = 0;
    while i < v.len()
        invariant
            i <= v@.len(),
            forall|j: int| 0 <= j < i ==> v@[j] != t,
        decreases v@.len() - i,
    {
        if v[i] == t {
            return true;
        }
        i = i + 1;
    }
    false
}

/// Whether every tag of `a` occurs in `b`.
fn tags_subset(a: &Vec<u64>, b: &Vec<u64>) -> (r: bool)
    ensures
        r == tag_subset(a@, b@),
{
    let mut i: usize = 0;
    while i < a.len()
        invariant
            i <= a@.len(),
            forall|j: int| 0 <= j < i ==> b@.contains(a@[j]),
        decreases a@.len() - i,
    {
        if !contains_tag(b, a[i]) {
            return false;
        }
        i = i + 1;
    }
    true
}

/// Law: `can_flow_to` is reflexive — every label may flow to itself.
pub proof fn lemma_can_flow_to_reflexive(l: Label)
    ensures
        l.spec_can_flow_to(l),
{
}

/// Law: `can_flow_to` is transitive.
pub proof fn lemma_can_flow_to_transitive(a: Label, b: Label, c: Label)
    requires
        a.spec_can_flow_to(b),
        b.spec_can_flow_to(c),
    ensures
        a.spec_can_flow_to(c),
{
}

/// Law: `can_flow_to` is antisymmetric up to tag-set equality — two labels
/// that flow to each other denote the same tag sets.
pub proof fn lemma_can_flow_to_antisymmetric(a: Label, b: Label)
    requires
        a.spec_can_flow_to(b),
        b.spec_can_flow_to(a),
    ensures
        tag_set(a.confidentiality_tags@) == tag_set(b.confidentiality_tags@),
        tag_set(a.integrity_tags@) == tag_set(b.integrity_tags@),
{
    assert(tag_set(a.confidentiality_tags@) =~= tag_set(b.confidentiality_tags@));
    assert(tag_set(a.integrity_tags@) =~= tag_set(b.integrity_tags@));
}

/// Law: the public-trusted label flows to every label that demands no
/// integrity endorsement. (A label with a nonempty integrity tag set demands
/// endorsements the public-trusted label does not carry, so the flow is
/// refused there.)
pub proof fn lemma_public_trusted_flows_to(p: Label, l: Label)
    requires
        p.is_public_trusted(),
        l.integrity_tags@.len() == 0,
    ensures
        p.spec_can_flow_to(l),
{
}


/// Law: for the public-trusted label the can-flow-to order has an exact
/// characterisation — it flows to a label iff that label's integrity tag set
/// is empty. This is what lets an unregistered (bootstrap) caller's label
/// check be decided by one length test.
pub proof fn lemma_public_trusted_flow_characterisation(p: Label, l: Label)
    requires
        p.is_public_trusted(),
    ensures
        p.spec_can_flow_to(l) <==> l.integrity_tags@.len() == 0,
{
    if l.integrity_tags@.len() > 0 {
        assert(l.integrity_tags@.contains(l.integrity_tags@[0]));
    }
}

} // verus!
