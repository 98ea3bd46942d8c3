//! The typed request: one entry per font family.

use vstd::prelude::*;
use crate::text::texts;

verus! {

/// One font family and the variants asked of it.
#[derive(Clone, Debug, PartialEq, Eq)]
pub struct FamilyRequest {
    /// The family's name as people write it; it may hold spaces.
    pub name: String,
    /// Weight tokens in the caller's order: a number such as `400`, or a
    /// range such as `100..900`.
    pub weights: Vec<String>,
    /// Pairs of an italic flag and a weight, in the caller's order. Where
    /// there is at least one pair, `weights` is not rendered.
    pub italics: Vec<(u64, u64)>,
}

/// The mathematical content of a [`FamilyRequest`].
pub struct Family {
    pub name: Seq<char>,
    pub weights: Seq<Seq<char>>,
    pub italics: Seq<(nat, nat)>,
}

/// An integer pair as a pair of naturals.
pub open spec fn pair_of(pair: (u64, u64)) -> (nat, nat) {
    (pair.0 as nat, pair.1 as nat)
}

impl View for FamilyRequest {
    type V = Family;

    open spec fn view(&self) -> Family {
        Family {
            name: self.name@,
            weights: texts(self.weights@),
            italics: self.italics@.map_values(|p: (u64, u64)| pair_of(p)),
        }
    }
}

/// The contents of a sequence of requests, in order.
pub open spec fn families(requests: Seq<FamilyRequest>) -> Seq<Family> {
    requests.map_values(|r: FamilyRequest| r@)
}

} // verus!
