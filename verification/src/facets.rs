//! Facets: counts over the results of a group, by one way of grouping
//! them.

use crate::kinds::ResultFacetKind;
use vstd::prelude::*;

verus! {

/// One group of a facet, with the groups nested in it.
#[derive(Debug)]
pub struct ResultFacetGroup {
    /// A short explanation of the group, for display.
    pub label: String,
    pub values: Vec<String>,
    pub nested_groups: Vec<ResultFacetGroup>,
    /// The number of hits in this group, those of nested groups included.
    pub count: u32,
}

/// Counts over the results of one kind group, by one way of grouping them.
///
/// A facet is worth showing only if it splits the results: it has more
/// than one group, and fewer groups than there are results.
#[derive(Debug)]
pub struct ResultFacetRoot {
    /// A short explanation of the facet, for display.
    pub label: String,
    pub kind: ResultFacetKind,
    pub groups: Vec<ResultFacetGroup>,
}

/// The sum of the counts of `groups`.
pub open spec fn total_count(groups: Seq<ResultFacetGroup>) -> int
    decreases groups.len(),
{
    if groups.len() == 0 {
        0
    } else {
        total_count(groups.drop_last()) + groups.last().count
    }
}

/// Whether a facet of `groups` groups tells anything about `results`
/// results: it has more than one group, and fewer groups than results.
pub open spec fn facet_is_useful(groups: int, results: int) -> bool {
    1 < groups < results
}

impl ResultFacetGroup {
    /// A group that has nested groups counts what they count, and so on
    /// down.
    pub open spec fn wf(&self) -> bool
        decreases self,
    {
        &&& self.nested_groups.len() > 0 ==> self.count == total_count(self.nested_groups@)
        &&& forall|i: int|
            0 <= i < self.nested_groups.len() ==> (#[trigger] self.nested_groups[i]).wf()
    }

    /// A group with no groups nested in it.
    pub fn leaf(label: String, values: Vec<String>, count: u32) -> (group: ResultFacetGroup)
        ensures
            group.wf(),
            group.label == label,
            group.values == values,
            group.nested_groups.len() == 0,
            group.count == count,
    {
        ResultFacetGroup { label, values, nested_groups: Vec::new(), count }
    }

    /// A group over `nested_groups`, which counts what they count together.
    /// There is no such group if none is nested or the sum does not fit.
    pub fn parent(label: String, values: Vec<String>, nested_groups: Vec<ResultFacetGroup>) -> (group:
        Option<ResultFacetGroup>)
        requires
            forall|i: int| 0 <= i < nested_groups.len() ==> (#[trigger] nested_groups[i]).wf(),
        ensures
            group is Some <==> nested_groups.len() > 0 && total_count(nested_groups@)
                <= u32::MAX,
            group matches Some(made) ==> {
                &&& made.wf()
                &&& made.label == label
                &&& made.values == values
                &&& made.nested_groups == nested_groups
                &&& made.count == total_count(nested_groups@)
            },
    {
        if nested_groups.len() == 0 {
            return None;
        }
        let mut sum: u64 = 0;
        let mut i: usize = 0;
        while i < nested_groups.len()
            invariant
                i <= nested_groups.len(),
                sum == total_count(nested_groups@.take(i as int)),
                sum <= u32::MAX,
            decreases nested_groups.len() - i,
        {
            let ghost upto = nested_groups@.take(i + 1);
            assert(upto.drop_last() =~= nested_groups@.take(i as int));
            sum = sum + nested_groups[i].count as u64;
            if sum > u32::MAX as u64 {
                proof {
                    lemma_total_count_grows(nested_groups@, i + 1);
                }
                return None;
            }
            i = i + 1;
        }
        assert(nested_groups@.take(i as int) =~= nested_groups@);
        Some(ResultFacetGroup { label, values, nested_groups, count: sum as u32 })
    }
}

/// The sum over the first groups of a list is no more than the sum over
/// all of them.
pub proof fn lemma_total_count_grows(groups: Seq<ResultFacetGroup>, upto: int)
    requires
        0 <= upto <= groups.len(),
    ensures
        0 <= total_count(groups.take(upto)) <= total_count(groups),
    decreases groups.len() - upto,
{
    lemma_total_count_nonnegative(groups.take(upto));
    if upto < groups.len() {
        lemma_total_count_grows(groups, upto + 1);
        assert(groups.take(upto + 1).drop_last() =~= groups.take(upto));
    } else {
        assert(groups.take(upto) =~= groups);
    }
}

/// A sum of counts is not negative.
pub proof fn lemma_total_count_nonnegative(groups: Seq<ResultFacetGroup>)
    ensures
        0 <= total_count(groups),
    decreases groups.len(),
{
    if groups.len() > 0 {
        lemma_total_count_nonnegative(groups.drop_last());
    }
}

impl ResultFacetRoot {
    /// Every group counts what its nested groups count.
    pub open spec fn wf(&self) -> bool {
        forall|i: int| 0 <= i < self.groups.len() ==> (#[trigger] self.groups[i]).wf()
    }

    /// The facet of `groups` over `results` results, if it is worth
    /// showing: there is none with a single group, nor with as many groups
    /// as results.
    pub fn new(
        label: String,
        kind: ResultFacetKind,
        groups: Vec<ResultFacetGroup>,
        results: usize,
    ) -> (facet: Option<ResultFacetRoot>)
        requires
            forall|i: int| 0 <= i < groups.len() ==> (#[trigger] groups[i]).wf(),
        ensures
            facet is Some <==> facet_is_useful(groups.len() as int, results as int),
            facet matches Some(made) ==> {
                &&& made.wf()
                &&& made.label == label
                &&& made.kind == kind
                &&& made.groups == groups
                &&& 1 < made.groups.len() < results
            },
    {
        if groups.len() > 1 && groups.len() < results {
            Some(ResultFacetRoot { label, kind, groups })
        } else {
            None
        }
    }
}

} // verus!
