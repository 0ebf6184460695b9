//! The kinds that results are grouped by, and their order.

use std::cmp::Ordering;
use vstd::prelude::*;

verus! {

/// The order of two positions in a list of kinds.
pub open spec fn position_order(left: int, right: int) -> Ordering {
    if left < right {
        Ordering::Less
    } else if left == right {
        Ordering::Equal
    } else {
        Ordering::Greater
    }
}

/// The kind of path that results were found under.  The kinds are ordered
/// as they are listed: `Normal < ThirdParty < Test < Generated`.
#[derive(Clone, Copy, Debug, PartialEq, Eq, Structural, Ord, Hash)]
pub enum PathKind {
    Normal,
    ThirdParty,
    Test,
    Generated,
}

impl PathKind {
    /// The place of this kind in the order of path kinds, from 0.
    pub open spec fn position(&self) -> int {
        match self {
            PathKind::Normal => 0,
            PathKind::ThirdParty => 1,
            PathKind::Test => 2,
            PathKind::Generated => 3,
        }
    }

    /// The place of this kind in the order of path kinds, from 0.
    pub fn index(&self) -> (index: u8)
        ensures
            index == self.position(),
    {
        match self {
            PathKind::Normal => 0,
            PathKind::ThirdParty => 1,
            PathKind::Test => 2,
            PathKind::Generated => 3,
        }
    }
}

impl PartialOrd for PathKind {
    fn partial_cmp(&self, other: &Self) -> (order: Option<Ordering>) {
        let left: u8 = self.index();
        let right: u8 = other.index();
        if left < right {
            Some(Ordering::Less)
        } else if left == right {
            Some(Ordering::Equal)
        } else {
            Some(Ordering::Greater)
        }
    }
}

impl vstd::std_specs::cmp::PartialOrdSpecImpl for PathKind {
    open spec fn obeys_partial_cmp_spec() -> bool {
        true
    }

    open spec fn partial_cmp_spec(&self, other: &Self) -> Option<Ordering> {
        Some(position_order(self.position(), other.position()))
    }
}

/// How a group of results is presented.  The kinds are ordered as they are
/// listed: `IDL < Definitions < Declarations < Assignments < Uses <
/// TextualOccurrences`.
#[derive(Clone, Copy, Debug, PartialEq, Eq, Structural, Ord, Hash)]
pub enum PresentationKind {
    IDL,
    Definitions,
    Declarations,
    Assignments,
    Uses,
    TextualOccurrences,
}

impl PresentationKind {
    /// The place of this kind in the order of presentation kinds, from 0.
    pub open spec fn position(&self) -> int {
        match self {
            PresentationKind::IDL => 0,
            PresentationKind::Definitions => 1,
            PresentationKind::Declarations => 2,
            PresentationKind::Assignments => 3,
            PresentationKind::Uses => 4,
            PresentationKind::TextualOccurrences => 5,
        }
    }

    /// The place of this kind in the order of presentation kinds, from 0.
    pub fn index(&self) -> (index: u8)
        ensures
            index == self.position(),
    {
        match self {
            PresentationKind::IDL => 0,
            PresentationKind::Definitions => 1,
            PresentationKind::Declarations => 2,
            PresentationKind::Assignments => 3,
            PresentationKind::Uses => 4,
            PresentationKind::TextualOccurrences => 5,
        }
    }
}

impl PartialOrd for PresentationKind {
    fn partial_cmp(&self, other: &Self) -> (order: Option<Ordering>) {
        let left: u8 = self.index();
        let right: u8 = other.index();
        if left < right {
            Some(Ordering::Less)
        } else if left == right {
            Some(Ordering::Equal)
        } else {
            Some(Ordering::Greater)
        }
    }
}

impl vstd::std_specs::cmp::PartialOrdSpecImpl for PresentationKind {
    open spec fn obeys_partial_cmp_spec() -> bool {
        true
    }

    open spec fn partial_cmp_spec(&self, other: &Self) -> Option<Ordering> {
        Some(position_order(self.position(), other.position()))
    }
}

/// What a facet groups results by.
#[derive(Clone, Copy, Debug, PartialEq, Eq, Structural)]
pub enum ResultFacetKind {
    /// By the relation of each symbol to the symbol that was asked for.
    SymbolByRelation,
    /// By the path of each symbol's definition.
    PathByPath,
}

} // verus!
