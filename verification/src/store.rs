//! The store of named values that the stages of a run share.

use crate::errors::ServerError;
use crate::name_map::{name_views, NameMap};
use crate::values::PipelineValues;
use vstd::prelude::*;

verus! {

/// The contents of a value store: the values by their names.
pub type StoreMap = Map<Seq<char>, PipelineValues>;

/// What a reader of `name` gets from `store`: the value under that name,
/// or the void value if there is none.
pub open spec fn claim_of(store: StoreMap, name: Seq<char>) -> PipelineValues {
    if store.contains_key(name) {
        store[name]
    } else {
        PipelineValues::Void
    }
}

/// The store once each of `names` has been read, in order.  To read a
/// name takes its value out of the store.
pub open spec fn store_after_claims(store: StoreMap, names: Seq<Seq<char>>) -> StoreMap
    decreases names.len(),
{
    if names.len() == 0 {
        store
    } else {
        store_after_claims(store, names.drop_last()).remove(names.last())
    }
}

/// What the readers of `names` get from `store`, reading in order: a name
/// that an earlier reader took, or that was never there, gives the void
/// value.
pub open spec fn claims_of(store: StoreMap, names: Seq<Seq<char>>) -> Seq<PipelineValues>
    decreases names.len(),
{
    if names.len() == 0 {
        Seq::empty()
    } else {
        claims_of(store, names.drop_last()).push(
            claim_of(store_after_claims(store, names.drop_last()), names.last()),
        )
    }
}

/// The first failure among `outcomes`, in their order, if there is one.
pub open spec fn first_failure(outcomes: Seq<Result<PipelineValues, ServerError>>) -> Option<
    ServerError,
>
    decreases outcomes.len(),
{
    if outcomes.len() == 0 {
        None
    } else {
        match first_failure(outcomes.drop_last()) {
            Some(err) => Some(err),
            None => match outcomes.last() {
                Ok(_) => None,
                Err(err) => Some(err),
            },
        }
    }
}

/// The store once the value of each of `outcomes` has been put under the
/// name in its place, in order.  Of two outputs under one name the later
/// stays.  Failures put nothing.
pub open spec fn store_with_outputs(
    store: StoreMap,
    names: Seq<Seq<char>>,
    outcomes: Seq<Result<PipelineValues, ServerError>>,
) -> StoreMap
    decreases outcomes.len(),
{
    if outcomes.len() == 0 || names.len() < outcomes.len() {
        store
    } else {
        let earlier = store_with_outputs(store, names, outcomes.drop_last());
        match outcomes.last() {
            Ok(value) => earlier.insert(names[outcomes.len() - 1], value),
            Err(_) => earlier,
        }
    }
}

/// The named values that the stages of a run hand to one another.
///
/// A value is read at most once: reading takes it out of the store.
pub struct ValueStore {
    values: NameMap<PipelineValues>,
}

impl View for ValueStore {
    type V = StoreMap;

    closed spec fn view(&self) -> StoreMap {
        self.values@
    }
}

impl ValueStore {
    /// The store at the start of a run: empty.
    pub fn new() -> (store: ValueStore)
        ensures
            store@ == StoreMap::empty(),
    {
        ValueStore { values: NameMap::new() }
    }

    /// Puts `value` under `name`, in place of any value already there.
    pub fn put(&mut self, name: String, value: PipelineValues)
        ensures
            final(self)@ == old(self)@.insert(name@, value),
    {
        let _ = self.values.insert(name, value);
    }

    /// Reads the value under `name` and takes it out of the store.  Where
    /// there is none, the reader gets the void value: that is no error.
    pub fn claim(&mut self, name: &str) -> (value: PipelineValues)
        ensures
            value == claim_of(old(self)@, name@),
            final(self)@ == old(self)@.remove(name@),
    {
        match self.values.remove(name) {
            Some(value) => value,
            None => PipelineValues::Void,
        }
    }

    /// Reads the values under `names`, one after the other.
    pub fn claim_all(&mut self, names: &Vec<String>) -> (values: Vec<PipelineValues>)
        ensures
            values@ == claims_of(old(self)@, name_views(names@)),
            final(self)@ == store_after_claims(old(self)@, name_views(names@)),
    {
        let ghost wanted = name_views(names@);
        let mut values: Vec<PipelineValues> = Vec::new();
        let mut i: usize = 0;
        while i < names.len()
            invariant
                i <= names.len(),
                wanted == name_views(names@),
                values@ == claims_of(old(self)@, wanted.take(i as int)),
                self@ == store_after_claims(old(self)@, wanted.take(i as int)),
            decreases names.len() - i,
        {
            proof {
                assert(wanted.take(i + 1).drop_last() =~= wanted.take(i as int));
            }
            let value = self.claim(names[i].as_str());
            values.push(value);
            i = i + 1;
        }
        assert(wanted.take(i as int) =~= wanted);
        values
    }

    /// Ends a run: the value under the name `result`, or the void value if
    /// no step has put one there.
    pub fn into_result(self) -> (value: PipelineValues)
        ensures
            value == claim_of(self@, "result"@),
    {
        let mut store = self;
        store.claim("result")
    }

    /// Takes in the outcomes of the steps that ran side by side, each with
    /// the name its output goes under.
    ///
    /// If any of them failed, the first failure in their order is the
    /// outcome of them all, and the store stays as it was: no output of
    /// the others can be seen.  Otherwise each output is put under its
    /// name, in order.
    pub fn settle(
        &mut self,
        names: &Vec<String>,
        outcomes: Vec<Result<PipelineValues, ServerError>>,
    ) -> (settled: Result<(), ServerError>)
        requires
            names.len() == outcomes.len(),
        ensures
            match settled {
                Ok(_) => first_failure(outcomes@) is None && final(self)@ == store_with_outputs(
                    old(self)@,
                    name_views(names@),
                    outcomes@,
                ),
                Err(err) => first_failure(outcomes@) == Some(err) && final(self)@ == old(self)@,
            },
    {
        let ghost wanted = name_views(names@);
        let mut outputs: Vec<PipelineValues> = Vec::new();
        for outcome in it: outcomes
            invariant
                it.seq() == outcomes@,
                outputs.len() == it.index(),
                first_failure(outcomes@.take(it.index() as int)) is None,
                forall|j: int|
                    0 <= j < it.index() ==> outcomes@[j] == Ok::<PipelineValues, ServerError>(
                        #[trigger] outputs[j],
                    ),
        {
            proof {
                let upto = outcomes@.take(it.index() + 1);
                assert(upto.drop_last() =~= outcomes@.take(it.index() as int));
            }
            match outcome {
                Ok(value) => {
                    outputs.push(value);
                },
                Err(err) => {
                    proof {
                        lemma_first_failure_stays(outcomes@, it.index() + 1);
                    }
                    return Err(err);
                },
            }
        }
        assert(outcomes@.take(outcomes.len() as int) =~= outcomes@);
        let mut i: usize = 0;
        for value in it: outputs
            invariant
                i == it.index(),
                it.seq().len() == outcomes.len(),
                names.len() == outcomes.len(),
                wanted == name_views(names@),
                forall|j: int|
                    0 <= j < outcomes.len() ==> outcomes@[j] == Ok::<PipelineValues, ServerError>(
                        #[trigger] it.seq()[j],
                    ),
                self@ == store_with_outputs(old(self)@, wanted, outcomes@.take(i as int)),
        {
            proof {
                let upto = outcomes@.take(i + 1);
                assert(upto.drop_last() =~= outcomes@.take(i as int));
            }
            self.put(names[i].clone(), value);
            i = i + 1;
        }
        Ok(())
    }
}

/// A failure among the first outcomes is the first failure of them all.
pub proof fn lemma_first_failure_stays(
    outcomes: Seq<Result<PipelineValues, ServerError>>,
    upto: int,
)
    requires
        0 <= upto <= outcomes.len(),
        first_failure(outcomes.take(upto)) is Some,
    ensures
        first_failure(outcomes) == first_failure(outcomes.take(upto)),
    decreases outcomes.len() - upto,
{
    if upto < outcomes.len() {
        assert(outcomes.take(upto + 1).drop_last() =~= outcomes.take(upto));
        lemma_first_failure_stays(outcomes, upto + 1);
    } else {
        assert(outcomes.take(upto) =~= outcomes);
    }
}

} // verus!
