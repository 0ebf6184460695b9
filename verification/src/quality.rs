//! How well a symbol matches what was typed.

use std::cmp::Ordering;
use vstd::prelude::*;
use vstd::std_specs::cmp::PartialOrdSpec;

verus! {

/// How directly a symbol was reached from what the user typed.
///
/// Qualities are ordered by [`SymbolQuality::rank`]: a lower rank is a
/// better match.  Two prefix matches with the same number of unmatched
/// characters are equal in that order without being the same value.
#[derive(Clone, Copy, Debug, PartialEq, Eq, Structural)]
pub enum SymbolQuality {
    /// The symbol was named explicitly.
    ExplicitSymbol,
    /// The identifier was named explicitly, with prefix search off.
    ExplicitIdentifier,
    /// Identifier search matched the whole identifier.
    ExactIdentifier,
    /// Identifier search matched a prefix: the number of characters matched,
    /// then the number of characters of the identifier beyond the match,
    /// which is at least 1.
    IdentifierPrefix(u32, u32),
}

/// The order of two ranks.
pub open spec fn rank_order(left: int, right: int) -> Ordering {
    if left < right {
        Ordering::Less
    } else if left == right {
        Ordering::Equal
    } else {
        Ordering::Greater
    }
}

impl SymbolQuality {
    /// The rank as a mathematical integer: lower is closer to what was typed.
    pub open spec fn rank(&self) -> int {
        match self {
            SymbolQuality::ExplicitSymbol => 0,
            SymbolQuality::ExplicitIdentifier => 1,
            SymbolQuality::ExactIdentifier => 2,
            SymbolQuality::IdentifierPrefix(_, extra) => 2 + *extra,
        }
    }

    /// A prefix match always leaves at least one character unmatched.
    pub open spec fn wf(&self) -> bool {
        match self {
            SymbolQuality::IdentifierPrefix(_, extra) => *extra >= 1,
            _ => true,
        }
    }

    /// The quality of an identifier found by prefix search, of which
    /// `matched` characters were typed and `extra` more follow.  With nothing
    /// left over the match is exact.
    pub fn from_prefix_search(matched: u32, extra: u32) -> (quality: SymbolQuality)
        ensures
            quality.wf(),
            extra == 0 ==> quality == SymbolQuality::ExactIdentifier,
            extra != 0 ==> quality == SymbolQuality::IdentifierPrefix(matched, extra),
    {
        if extra == 0 {
            SymbolQuality::ExactIdentifier
        } else {
            SymbolQuality::IdentifierPrefix(matched, extra)
        }
    }

    /// Compute the rank, where lower values are higher quality.
    pub fn numeric_rank(&self) -> (rank: u32)
        requires
            self.rank() <= u32::MAX,
        ensures
            rank == self.rank(),
    {
        match self {
            SymbolQuality::ExplicitSymbol => 0,
            SymbolQuality::ExplicitIdentifier => 1,
            SymbolQuality::ExactIdentifier => 2,
            SymbolQuality::IdentifierPrefix(_, extra) => 2 + *extra,
        }
    }

    /// The rank in a type wide enough for every quality.
    pub fn wide_rank(&self) -> (rank: u64)
        ensures
            rank == self.rank(),
    {
        match self {
            SymbolQuality::ExplicitSymbol => 0,
            SymbolQuality::ExplicitIdentifier => 1,
            SymbolQuality::ExactIdentifier => 2,
            SymbolQuality::IdentifierPrefix(_, extra) => {
                let extra: u64 = u64::from(*extra);
                2 + extra
            },
        }
    }

    /// Orders two qualities by rank.
    pub fn cmp(&self, other: &Self) -> (order: Ordering)
        ensures
            order == rank_order(self.rank(), other.rank()),
    {
        let left: u64 = self.wide_rank();
        let right: u64 = other.wide_rank();
        if left < right {
            Ordering::Less
        } else if left == right {
            Ordering::Equal
        } else {
            Ordering::Greater
        }
    }
}

impl PartialOrd for SymbolQuality {
    fn partial_cmp(&self, other: &Self) -> (order: Option<Ordering>) {
        Some(self.cmp(other))
    }
}

impl vstd::std_specs::cmp::PartialOrdSpecImpl for SymbolQuality {
    open spec fn obeys_partial_cmp_spec() -> bool {
        true
    }

    open spec fn partial_cmp_spec(&self, other: &Self) -> Option<Ordering> {
        Some(rank_order(self.rank(), other.rank()))
    }
}

/// One quality is below another exactly when its rank is lower, and the
/// order of any two qualities is the order of their ranks.
pub proof fn lemma_order_is_rank_order(q1: SymbolQuality, q2: SymbolQuality)
    ensures
        q1.partial_cmp_spec(&q2) == Some(Ordering::Less) <==> q1.rank() < q2.rank(),
        q1.partial_cmp_spec(&q2) == Some(Ordering::Equal) <==> q1.rank() == q2.rank(),
        q1.partial_cmp_spec(&q2) == Some(Ordering::Greater) <==> q1.rank() > q2.rank(),
{
}

/// An exact identifier match is better than every prefix match.
pub proof fn lemma_exact_beats_prefix(matched: u32, extra: u32)
    requires
        SymbolQuality::IdentifierPrefix(matched, extra).wf(),
    ensures
        SymbolQuality::ExactIdentifier.partial_cmp_spec(
            &SymbolQuality::IdentifierPrefix(matched, extra),
        ) == Some(Ordering::Less),
{
}

/// Of two prefix matches, the one with fewer unmatched characters is better,
/// however many characters each matched.
pub proof fn lemma_shorter_tail_is_better(matched1: u32, extra1: u32, matched2: u32, extra2: u32)
    requires
        extra1 < extra2,
    ensures
        SymbolQuality::IdentifierPrefix(matched1, extra1).partial_cmp_spec(
            &SymbolQuality::IdentifierPrefix(matched2, extra2),
        ) == Some(Ordering::Less),
{
}

/// The order by rank is transitive, and total: of two qualities one is not
/// above the other.
pub proof fn lemma_order_is_total_preorder(q1: SymbolQuality, q2: SymbolQuality, q3: SymbolQuality)
    ensures
        q1.partial_cmp_spec(&q2) is Some,
        q1.partial_cmp_spec(&q1) == Some(Ordering::Equal),
        q1.partial_cmp_spec(&q2) == Some(Ordering::Less) <==> q2.partial_cmp_spec(&q1) == Some(
            Ordering::Greater,
        ),
        q1.partial_cmp_spec(&q2) != Some(Ordering::Greater) && q2.partial_cmp_spec(&q3) != Some(
            Ordering::Greater,
        ) ==> q1.partial_cmp_spec(&q3) != Some(Ordering::Greater),
{
}

} // verus!
