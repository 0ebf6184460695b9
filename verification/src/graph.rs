//! The graph of pipelines and how a run of it proceeds.
//!
//! A run alternates between work that waits on a backend and decisions.
//! The work is the caller's; the decisions are made here, from the state of
//! the run and the outcomes that the caller reports.

use crate::errors::ServerError;
use crate::name_map::name_views;
use crate::store::{
    claim_of, claims_of, first_failure, lemma_first_failure_stays, store_after_claims,
    store_with_outputs, StoreMap, ValueStore,
};
use crate::values::PipelineValues;
use vstd::prelude::*;

verus! {

/// A chain of single-input commands that runs as one unit: it reads one
/// named value, or none, and its last command's output goes under
/// `output_name`.
pub struct NamedPipeline<C> {
    /// The name of the value to read, if the chain reads one.
    pub input_name: Option<String>,
    pub output_name: String,
    pub commands: Vec<C>,
}

/// A command that combines several named values into one, which goes under
/// `output_name`.
pub struct JunctionInvocation<J> {
    pub input_names: Vec<String>,
    pub output_name: String,
    pub command: J,
}

/// One stage of a graph: named pipelines that run side by side, then
/// junctions that run side by side on what the pipelines left in the store.
pub struct ParallelPipelines<C, J> {
    pub pipelines: Vec<NamedPipeline<C>>,
    pub junctions: Vec<JunctionInvocation<J>>,
}

/// A sequence of stages to run once against `server`.
pub struct ServerPipelineGraph<S, C, J> {
    pub server: S,
    pub pipelines: Vec<ParallelPipelines<C, J>>,
}

/// A chain of commands to run against `server`, starting from no value.
pub struct ServerPipeline<S, C> {
    pub server_kind: String,
    pub server: S,
    pub commands: Vec<C>,
}

/// What comes next in the run of a chain of commands.
#[derive(Debug)]
pub enum PipelineStep {
    /// Run the command at `command` on `input`.
    Execute { command: usize, input: PipelineValues },
    /// The chain is done, and this is its output.
    Finished(PipelineValues),
}

/// What comes next in a chain of `commands` commands of which the first
/// `done` have run, the last of them giving `value`.
pub open spec fn step_after(commands: int, done: int, value: PipelineValues) -> PipelineStep {
    if 0 <= done < commands {
        PipelineStep::Execute { command: done as usize, input: value }
    } else {
        PipelineStep::Finished(value)
    }
}

/// What a chain of `commands` commands does once the command at `command`
/// has ended in `outcome`: a failure ends the chain with that error, and
/// an output goes to the next command, or is the chain's output after the
/// last.
pub open spec fn step_on_outcome(
    commands: int,
    command: int,
    outcome: Result<PipelineValues, ServerError>,
) -> Result<PipelineStep, ServerError> {
    match outcome {
        Ok(value) => Ok(step_after(commands, command + 1, value)),
        Err(err) => Err(err),
    }
}

/// The first step of a chain of `commands` commands on `input`.
pub fn first_step(commands: usize, input: PipelineValues) -> (step: PipelineStep)
    ensures
        step == step_after(commands as int, 0, input),
{
    if commands > 0 {
        PipelineStep::Execute { command: 0, input }
    } else {
        PipelineStep::Finished(input)
    }
}

/// The step that follows the end of the command at `command` in a chain
/// of `commands` commands.
pub fn next_step(commands: usize, command: usize, outcome: Result<PipelineValues, ServerError>) -> (next:
    Result<PipelineStep, ServerError>)
    ensures
        next == step_on_outcome(commands as int, command as int, outcome),
{
    match outcome {
        Ok(value) => {
            if command < commands && command + 1 < commands {
                Ok(PipelineStep::Execute { command: command + 1, input: value })
            } else {
                Ok(PipelineStep::Finished(value))
            }
        },
        Err(err) => Err(err),
    }
}

/// The outcome of a chain of `commands` commands of which the first `done`
/// have run, the last of them giving `value`, where `outcomes[i]` is what
/// the command at `i` ends in: the chain goes on, step by step, until a
/// command fails or none is left.
pub open spec fn chain_from(
    commands: int,
    done: int,
    value: PipelineValues,
    outcomes: Seq<Result<PipelineValues, ServerError>>,
) -> Result<PipelineValues, ServerError>
    decreases commands - done,
{
    if done < 0 || done >= commands {
        Ok(value)
    } else {
        match outcomes[done] {
            Ok(output) => chain_from(commands, done + 1, output, outcomes),
            Err(err) => Err(err),
        }
    }
}

/// A chain goes on as its steps say: after the command at `done`, its
/// outcome is the failure that the step reports, or the output that the
/// step ends with, or the outcome from the command that the step names.
pub proof fn lemma_chain_goes_step_by_step(
    commands: int,
    done: int,
    value: PipelineValues,
    outcomes: Seq<Result<PipelineValues, ServerError>>,
)
    requires
        0 <= done < commands <= usize::MAX,
    ensures
        chain_from(commands, done, value, outcomes) == match step_on_outcome(
            commands,
            done,
            outcomes[done],
        ) {
            Err(err) => Err::<PipelineValues, ServerError>(err),
            Ok(PipelineStep::Finished(output)) => Ok(output),
            Ok(PipelineStep::Execute { command, input }) => chain_from(
                commands,
                command as int,
                input,
                outcomes,
            ),
        },
{
    match outcomes[done] {
        Ok(output) => {
            assert(chain_from(commands, done, value, outcomes) == chain_from(
                commands,
                done + 1,
                output,
                outcomes,
            ));
        },
        Err(_) => {},
    }
}

/// The outcome of a chain of `commands` commands on `input`, in one piece:
/// the first failure among its commands, or else the output of the last
/// command, or `input` itself for a chain without commands.
pub open spec fn chain_outcome(
    commands: int,
    input: PipelineValues,
    outcomes: Seq<Result<PipelineValues, ServerError>>,
) -> Result<PipelineValues, ServerError> {
    let ran = outcomes.take(commands);
    match first_failure(ran) {
        Some(err) => Err(err),
        None => if commands <= 0 {
            Ok(input)
        } else {
            ran.last()
        },
    }
}

/// A chain that is run step by step ends in the first failure of its
/// commands, with nothing of what ran before, or in the output of its
/// last command if none fails.
pub proof fn lemma_chain_ends_in_first_failure(
    commands: int,
    input: PipelineValues,
    outcomes: Seq<Result<PipelineValues, ServerError>>,
)
    requires
        0 <= commands <= outcomes.len(),
    ensures
        chain_from(commands, 0, input, outcomes) == chain_outcome(commands, input, outcomes),
{
    lemma_chain_from(commands, 0, input, outcomes);
}

/// From any point that a chain has reached without a failure, it ends in
/// the first failure of the commands still to run, or in the last output.
proof fn lemma_chain_from(
    commands: int,
    done: int,
    value: PipelineValues,
    outcomes: Seq<Result<PipelineValues, ServerError>>,
)
    requires
        0 <= done <= commands <= outcomes.len(),
        first_failure(outcomes.take(done)) is None,
        done > 0 ==> outcomes[done - 1] == Ok::<PipelineValues, ServerError>(value),
    ensures
        chain_from(commands, done, value, outcomes) == match first_failure(
            outcomes.take(commands),
        ) {
            Some(err) => Err::<PipelineValues, ServerError>(err),
            None => Ok(value_at_end(commands, value, outcomes)),
        },
        first_failure(outcomes.take(commands)) is None && commands > 0 ==> outcomes[commands - 1]
            == Ok::<PipelineValues, ServerError>(value_at_end(commands, value, outcomes)),
    decreases commands - done,
{
    if done < commands {
        let upto = outcomes.take(done + 1);
        assert(upto.drop_last() =~= outcomes.take(done));
        match outcomes[done] {
            Ok(output) => {
                lemma_chain_from(commands, done + 1, output, outcomes);
            },
            Err(err) => {
                lemma_first_failure_stays(outcomes.take(commands), done + 1);
                assert(outcomes.take(commands).take(done + 1) =~= upto);
            },
        }
    }
}

/// The value that a chain of `commands` commands ends with if none of them
/// fails: the output of the last, or `value` if there is no command.
spec fn value_at_end(
    commands: int,
    value: PipelineValues,
    outcomes: Seq<Result<PipelineValues, ServerError>>,
) -> PipelineValues {
    if commands <= 0 {
        value
    } else {
        match outcomes[commands - 1] {
            Ok(output) => output,
            Err(_) => value,
        }
    }
}

impl<C> NamedPipeline<C> {
    /// The names this chain reads from the store: one, or none.
    pub open spec fn wanted(&self) -> Seq<Seq<char>> {
        match self.input_name {
            Some(name) => seq![name@],
            None => Seq::empty(),
        }
    }

    /// The input this chain gets from `store`: the value under its input
    /// name, and the void value if it names none or the store has none.
    pub open spec fn input_from(&self, store: StoreMap) -> PipelineValues {
        match self.input_name {
            Some(name) => claim_of(store, name@),
            None => PipelineValues::Void,
        }
    }

    /// Reads this chain's input from `store`, taking it out of the store.
    pub fn claim_input(&self, store: &mut ValueStore) -> (input: PipelineValues)
        ensures
            input == self.input_from(old(store)@),
            final(store)@ == store_after_claims(old(store)@, self.wanted()),
    {
        match &self.input_name {
            Some(name) => {
                proof {
                    let wanted = self.wanted();
                    assert(store_after_claims(old(store)@, wanted.drop_last()) == old(store)@);
                }
                store.claim(name.as_str())
            },
            None => PipelineValues::Void,
        }
    }

    /// The first step of this chain on `input`.
    pub fn begin(&self, input: PipelineValues) -> (step: PipelineStep)
        ensures
            step == step_after(self.commands.len() as int, 0, input),
    {
        first_step(self.commands.len(), input)
    }

    /// The step that follows the end of the command at `command`.
    pub fn advance(&self, command: usize, outcome: Result<PipelineValues, ServerError>) -> (next:
        Result<PipelineStep, ServerError>)
        ensures
            next == step_on_outcome(self.commands.len() as int, command as int, outcome),
    {
        next_step(self.commands.len(), command, outcome)
    }
}

impl<S, C> ServerPipeline<S, C> {
    /// The first step of this chain, which starts from the void value.
    pub fn begin(&self) -> (step: PipelineStep)
        ensures
            step == step_after(self.commands.len() as int, 0, PipelineValues::Void),
    {
        first_step(self.commands.len(), PipelineValues::Void)
    }

    /// The step that follows the end of the command at `command`.
    pub fn advance(&self, command: usize, outcome: Result<PipelineValues, ServerError>) -> (next:
        Result<PipelineStep, ServerError>)
        ensures
            next == step_on_outcome(self.commands.len() as int, command as int, outcome),
    {
        next_step(self.commands.len(), command, outcome)
    }
}

impl<J> JunctionInvocation<J> {
    /// The names this junction reads from the store, in order.
    pub open spec fn wanted(&self) -> Seq<Seq<char>> {
        name_views(self.input_names@)
    }

    /// Reads this junction's inputs from `store`, in the order of its input
    /// names, taking each out of the store.
    pub fn claim_inputs(&self, store: &mut ValueStore) -> (inputs: Vec<PipelineValues>)
        ensures
            inputs@ == claims_of(old(store)@, self.wanted()),
            final(store)@ == store_after_claims(old(store)@, self.wanted()),
    {
        store.claim_all(&self.input_names)
    }
}

/// The store once the readers of each list of `rounds` have read their
/// names, list after list.
pub open spec fn store_after_rounds(store: StoreMap, rounds: Seq<Seq<Seq<char>>>) -> StoreMap
    decreases rounds.len(),
{
    if rounds.len() == 0 {
        store
    } else {
        store_after_claims(store_after_rounds(store, rounds.drop_last()), rounds.last())
    }
}

impl<C, J> ParallelPipelines<C, J> {
    /// The names that each pipeline of this stage reads, in order.
    pub open spec fn pipeline_wanted(&self) -> Seq<Seq<Seq<char>>> {
        Seq::new(self.pipelines.len() as nat, |i: int| self.pipelines[i].wanted())
    }

    /// The names that each junction of this stage reads, in order.
    pub open spec fn junction_wanted(&self) -> Seq<Seq<Seq<char>>> {
        Seq::new(self.junctions.len() as nat, |i: int| self.junctions[i].wanted())
    }

    /// The names that the outputs of the pipelines go under, in order.
    pub open spec fn pipeline_outputs(&self) -> Seq<Seq<char>> {
        Seq::new(self.pipelines.len() as nat, |i: int| self.pipelines[i].output_name@)
    }

    /// The names that the outputs of the junctions go under, in order.
    pub open spec fn junction_outputs(&self) -> Seq<Seq<char>> {
        Seq::new(self.junctions.len() as nat, |i: int| self.junctions[i].output_name@)
    }

    /// The input of the pipeline at `i`, drawn from `store` after the
    /// pipelines before it have drawn theirs.
    pub open spec fn pipeline_input(&self, store: StoreMap, i: int) -> PipelineValues {
        self.pipelines[i].input_from(store_after_rounds(store, self.pipeline_wanted().take(i)))
    }

    /// The inputs of the junction at `i`, drawn from `store` after the
    /// junctions before it have drawn theirs.
    pub open spec fn junction_input(&self, store: StoreMap, i: int) -> Seq<PipelineValues> {
        claims_of(
            store_after_rounds(store, self.junction_wanted().take(i)),
            self.junctions[i].wanted(),
        )
    }

    /// Reads the input of each pipeline from `store`, pipeline after
    /// pipeline.  A name is there for one reader only: a pipeline that
    /// names what an earlier one has read gets the void value.
    pub fn claim_pipeline_inputs(&self, store: &mut ValueStore) -> (inputs: Vec<PipelineValues>)
        ensures
            inputs.len() == self.pipelines.len(),
            forall|i: int|
                0 <= i < self.pipelines.len() ==> #[trigger] inputs[i] == self.pipeline_input(
                    old(store)@,
                    i,
                ),
            final(store)@ == store_after_rounds(old(store)@, self.pipeline_wanted()),
    {
        let ghost rounds = self.pipeline_wanted();
        let mut inputs: Vec<PipelineValues> = Vec::new();
        let mut i: usize = 0;
        while i < self.pipelines.len()
            invariant
                i <= self.pipelines.len(),
                rounds == self.pipeline_wanted(),
                inputs.len() == i,
                forall|j: int|
                    0 <= j < i ==> #[trigger] inputs[j] == self.pipeline_input(old(store)@, j),
                store@ == store_after_rounds(old(store)@, rounds.take(i as int)),
            decreases self.pipelines.len() - i,
        {
            proof {
                assert(rounds.take(i + 1).drop_last() =~= rounds.take(i as int));
            }
            let input = self.pipelines[i].claim_input(store);
            inputs.push(input);
            i = i + 1;
        }
        assert(rounds.take(i as int) =~= rounds);
        inputs
    }

    /// Reads the inputs of each junction from `store`, junction after
    /// junction, each in the order of its input names.
    pub fn claim_junction_inputs(&self, store: &mut ValueStore) -> (inputs: Vec<
        Vec<PipelineValues>,
    >)
        ensures
            inputs.len() == self.junctions.len(),
            forall|i: int|
                0 <= i < self.junctions.len() ==> (#[trigger] inputs[i])@ == self.junction_input(
                    old(store)@,
                    i,
                ),
            final(store)@ == store_after_rounds(old(store)@, self.junction_wanted()),
    {
        let ghost rounds = self.junction_wanted();
        let mut inputs: Vec<Vec<PipelineValues>> = Vec::new();
        let mut i: usize = 0;
        while i < self.junctions.len()
            invariant
                i <= self.junctions.len(),
                rounds == self.junction_wanted(),
                inputs.len() == i,
                forall|j: int|
                    0 <= j < i ==> (#[trigger] inputs[j])@ == self.junction_input(old(store)@, j),
                store@ == store_after_rounds(old(store)@, rounds.take(i as int)),
            decreases self.junctions.len() - i,
        {
            proof {
                assert(rounds.take(i + 1).drop_last() =~= rounds.take(i as int));
            }
            let input = self.junctions[i].claim_inputs(store);
            inputs.push(input);
            i = i + 1;
        }
        assert(rounds.take(i as int) =~= rounds);
        inputs
    }

    /// The names that the outputs of the pipelines go under, in order.
    pub fn pipeline_output_names(&self) -> (names: Vec<String>)
        ensures
            name_views(names@) == self.pipeline_outputs(),
    {
        let mut names: Vec<String> = Vec::new();
        let mut i: usize = 0;
        while i < self.pipelines.len()
            invariant
                i <= self.pipelines.len(),
                names.len() == i,
                forall|j: int| 0 <= j < i ==> (#[trigger] names[j])@ == self.pipelines[j].output_name@,
            decreases self.pipelines.len() - i,
        {
            names.push(self.pipelines[i].output_name.clone());
            i = i + 1;
        }
        names
    }

    /// The names that the outputs of the junctions go under, in order.
    pub fn junction_output_names(&self) -> (names: Vec<String>)
        ensures
            name_views(names@) == self.junction_outputs(),
    {
        let mut names: Vec<String> = Vec::new();
        let mut i: usize = 0;
        while i < self.junctions.len()
            invariant
                i <= self.junctions.len(),
                names.len() == i,
                forall|j: int| 0 <= j < i ==> (#[trigger] names[j])@ == self.junctions[j].output_name@,
            decreases self.junctions.len() - i,
        {
            names.push(self.junctions[i].output_name.clone());
            i = i + 1;
        }
        names
    }
}

/// The part of a stage that runs next.
#[derive(Clone, Copy, Debug, PartialEq, Eq, Structural)]
pub enum GraphPhase {
    Pipelines,
    Junctions,
}

/// What the caller of a run has to do next.
#[derive(Debug)]
pub enum GraphAction {
    /// Run the pipelines of the stage at `stage` side by side, the one at
    /// `i` on `inputs[i]`, and report their outcomes in that order.
    RunPipelines { stage: usize, inputs: Vec<PipelineValues> },
    /// Run the junctions of the stage at `stage` side by side, the one at
    /// `i` on `input_lists[i]`, and report their outcomes in that order.
    RunJunctions { stage: usize, input_lists: Vec<Vec<PipelineValues>> },
    /// The run is over, and this is its result.
    Finished(PipelineValues),
}

/// The state of a run of a graph: the store, and how far the run has come.
pub struct GraphRun {
    pub store: ValueStore,
    /// The index of the stage that runs next; the number of stages once
    /// all have run.
    pub stage: usize,
    pub phase: GraphPhase,
}

impl<S, C, J> ServerPipelineGraph<S, C, J> {
    /// The names that the outputs of the part `phase` of the stage at
    /// `stage` go under.
    pub open spec fn output_names(&self, stage: int, phase: GraphPhase) -> Seq<Seq<char>> {
        match phase {
            GraphPhase::Pipelines => self.pipelines[stage].pipeline_outputs(),
            GraphPhase::Junctions => self.pipelines[stage].junction_outputs(),
        }
    }

    /// The state of a run before its first stage: nothing is in the store.
    pub fn begin(&self) -> (run: GraphRun)
        ensures
            run.store@ == StoreMap::empty(),
            run.stage == 0,
            run.phase == GraphPhase::Pipelines,
    {
        GraphRun { store: ValueStore::new(), stage: 0, phase: GraphPhase::Pipelines }
    }

    /// Says what to run next, and reads its inputs from the store.
    ///
    /// While stages are left, that is the pipelines or the junctions of
    /// the stage the run has come to, each with the input it has read.
    /// After the last stage it is nothing: the run ends with the value
    /// under the name `result`, or with the void value if there is none.
    pub fn next_action(&self, run: &mut GraphRun) -> (action: GraphAction)
        ensures
            final(run).stage == old(run).stage,
            final(run).phase == old(run).phase,
            old(run).stage >= self.pipelines.len() ==> {
                &&& action == GraphAction::Finished(claim_of(old(run).store@, "result"@))
                &&& final(run).store@ == old(run).store@.remove("result"@)
            },
            old(run).stage < self.pipelines.len() && old(run).phase == GraphPhase::Pipelines ==> {
                let shape = self.pipelines[old(run).stage as int];
                &&& action matches GraphAction::RunPipelines { stage, inputs }
                &&& stage == old(run).stage
                &&& inputs.len() == shape.pipelines.len()
                &&& forall|i: int|
                    0 <= i < shape.pipelines.len() ==> #[trigger] inputs[i]
                        == shape.pipeline_input(old(run).store@, i)
                &&& final(run).store@ == store_after_rounds(
                    old(run).store@,
                    shape.pipeline_wanted(),
                )
            },
            old(run).stage < self.pipelines.len() && old(run).phase == GraphPhase::Junctions ==> {
                let shape = self.pipelines[old(run).stage as int];
                &&& action matches GraphAction::RunJunctions { stage, input_lists }
                &&& stage == old(run).stage
                &&& input_lists.len() == shape.junctions.len()
                &&& forall|i: int|
                    0 <= i < shape.junctions.len() ==> (#[trigger] input_lists[i])@
                        == shape.junction_input(old(run).store@, i)
                &&& final(run).store@ == store_after_rounds(
                    old(run).store@,
                    shape.junction_wanted(),
                )
            },
    {
        if run.stage >= self.pipelines.len() {
            return GraphAction::Finished(run.store.claim("result"));
        }
        let stage: usize = run.stage;
        match run.phase {
            GraphPhase::Pipelines => {
                let inputs = self.pipelines[stage].claim_pipeline_inputs(&mut run.store);
                GraphAction::RunPipelines { stage, inputs }
            },
            GraphPhase::Junctions => {
                let input_lists = self.pipelines[stage].claim_junction_inputs(&mut run.store);
                GraphAction::RunJunctions { stage, input_lists }
            },
        }
    }

    /// Takes in the outcomes of what ran last, in the order it was handed
    /// out.
    ///
    /// If any of them failed, the first failure in that order ends the
    /// run, and nothing of the others reaches the store.  Otherwise each
    /// output goes under its name, and the run moves on: from the
    /// pipelines of a stage to its junctions, from its junctions to the
    /// next stage.
    pub fn settle(
        &self,
        run: &mut GraphRun,
        outcomes: Vec<Result<PipelineValues, ServerError>>,
    ) -> (settled: Result<(), ServerError>)
        requires
            old(run).stage < self.pipelines.len(),
            outcomes.len() == self.output_names(old(run).stage as int, old(run).phase).len(),
        ensures
            match settled {
                Ok(_) => {
                    &&& first_failure(outcomes@) is None
                    &&& final(run).store@ == store_with_outputs(
                        old(run).store@,
                        self.output_names(old(run).stage as int, old(run).phase),
                        outcomes@,
                    )
                    &&& old(run).phase == GraphPhase::Pipelines ==> final(run).stage == old(
                        run,
                    ).stage && final(run).phase == GraphPhase::Junctions
                    &&& old(run).phase == GraphPhase::Junctions ==> final(run).stage == old(
                        run,
                    ).stage + 1 && final(run).phase == GraphPhase::Pipelines
                },
                Err(err) => {
                    &&& first_failure(outcomes@) == Some(err)
                    &&& final(run).store@ == old(run).store@
                    &&& final(run).stage == old(run).stage
                    &&& final(run).phase == old(run).phase
                },
            },
    {
        let stage: usize = run.stage;
        match run.phase {
            GraphPhase::Pipelines => {
                let names = self.pipelines[stage].pipeline_output_names();
                match run.store.settle(&names, outcomes) {
                    Ok(_) => {
                        run.phase = GraphPhase::Junctions;
                        Ok(())
                    },
                    Err(err) => Err(err),
                }
            },
            GraphPhase::Junctions => {
                let names = self.pipelines[stage].junction_output_names();
                match run.store.settle(&names, outcomes) {
                    Ok(_) => {
                        run.stage = stage + 1;
                        run.phase = GraphPhase::Pipelines;
                        Ok(())
                    },
                    Err(err) => Err(err),
                }
            },
        }
    }
}

/// Once a list of names has been read, none of them is left in the store:
/// what one reader has taken, no later reader finds.
pub proof fn lemma_claimed_names_are_gone(store: StoreMap, names: Seq<Seq<char>>, i: int)
    requires
        0 <= i < names.len(),
    ensures
        !store_after_claims(store, names).contains_key(names[i]),
    decreases names.len(),
{
    if i < names.len() - 1 {
        lemma_claimed_names_are_gone(store, names.drop_last(), i);
    }
}

/// Reading takes names out of the store and puts none in, and leaves the
/// values of the other names as they were.
pub proof fn lemma_claims_only_remove(store: StoreMap, names: Seq<Seq<char>>, name: Seq<char>)
    ensures
        store_after_claims(store, names).contains_key(name) <==> store.contains_key(name)
            && !names.contains(name),
        store_after_claims(store, names).contains_key(name) ==> store_after_claims(
            store,
            names,
        )[name] == store[name],
    decreases names.len(),
{
    if names.len() > 0 {
        lemma_claims_only_remove(store, names.drop_last(), name);
        if names.contains(name) {
            let i = choose|i: int| 0 <= i < names.len() && names[i] == name;
            if i < names.len() - 1 {
                assert(names.drop_last()[i] == name);
            }
        }
        if names.drop_last().contains(name) {
            let i = choose|i: int| 0 <= i < names.len() - 1 && names.drop_last()[i] == name;
            assert(names[i] == name);
        }
    }
}

/// Of two readers of one name, the second gets the void value.
pub proof fn lemma_second_reader_gets_void(store: StoreMap, names: Seq<Seq<char>>, i: int, j: int)
    requires
        0 <= i < j < names.len(),
        names[i] == names[j],
    ensures
        claims_of(store, names).len() == names.len(),
        claims_of(store, names)[j] == PipelineValues::Void,
    decreases names.len(),
{
    lemma_claims_len(store, names);
    lemma_claims_len(store, names.drop_last());
    if j < names.len() - 1 {
        lemma_second_reader_gets_void(store, names.drop_last(), i, j);
    } else {
        lemma_claimed_names_are_gone(store, names.drop_last(), i);
    }
}

/// Every reader gets a value.
pub proof fn lemma_claims_len(store: StoreMap, names: Seq<Seq<char>>)
    ensures
        claims_of(store, names).len() == names.len(),
    decreases names.len(),
{
    if names.len() > 0 {
        lemma_claims_len(store, names.drop_last());
    }
}

/// A reader of a name that the store does not hold, and that no earlier
/// reader could have taken, gets the void value: that is no error.
pub proof fn lemma_missing_name_reads_void(store: StoreMap, names: Seq<Seq<char>>, i: int)
    requires
        0 <= i < names.len(),
        !store.contains_key(names[i]),
    ensures
        claims_of(store, names).len() == names.len(),
        claims_of(store, names)[i] == PipelineValues::Void,
    decreases names.len(),
{
    lemma_claims_len(store, names);
    lemma_claims_len(store, names.drop_last());
    if i < names.len() - 1 {
        lemma_missing_name_reads_void(store, names.drop_last(), i);
    } else {
        lemma_claims_only_remove(store, names.drop_last(), names[i]);
    }
}

/// In the first stage of a run every pipeline starts from the void value,
/// whatever input it names: nothing has been produced yet.
pub proof fn lemma_first_stage_starts_from_void<C, J>(stage: ParallelPipelines<C, J>, i: int)
    requires
        0 <= i < stage.pipelines.len(),
    ensures
        stage.pipeline_input(StoreMap::empty(), i) == PipelineValues::Void,
{
    let rounds = stage.pipeline_wanted().take(i);
    lemma_rounds_only_remove(StoreMap::empty(), rounds);
}

/// Rounds of reading put no name into the store.
pub proof fn lemma_rounds_only_remove(store: StoreMap, rounds: Seq<Seq<Seq<char>>>)
    ensures
        forall|name: Seq<char>| #[trigger]
            store_after_rounds(store, rounds).contains_key(name) ==> store.contains_key(name),
    decreases rounds.len(),
{
    if rounds.len() > 0 {
        lemma_rounds_only_remove(store, rounds.drop_last());
        assert forall|name: Seq<char>| #[trigger]
            store_after_rounds(store, rounds).contains_key(name) implies store.contains_key(
            name,
        ) by {
            lemma_claims_only_remove(
                store_after_rounds(store, rounds.drop_last()),
                rounds.last(),
                name,
            );
        }
    }
}

/// If none of the steps that ran side by side failed, each name holds the
/// output of the last step that writes to it.
pub proof fn lemma_outputs_reach_store(
    store: StoreMap,
    names: Seq<Seq<char>>,
    outcomes: Seq<Result<PipelineValues, ServerError>>,
    i: int,
)
    requires
        names.len() == outcomes.len(),
        first_failure(outcomes) is None,
        0 <= i < outcomes.len(),
        forall|j: int| i < j < names.len() ==> names[j] != names[i],
    ensures
        outcomes[i] is Ok,
        store_with_outputs(store, names, outcomes).contains_key(names[i]),
        Ok::<PipelineValues, ServerError>(store_with_outputs(store, names, outcomes)[names[i]])
            == outcomes[i],
{
    assert(outcomes.take(outcomes.len() as int) =~= outcomes);
    lemma_outputs_prefix(store, names, outcomes, outcomes.len() as int, i);
}

/// If none of the first `upto` steps failed, each of their names holds,
/// once their outputs are taken in, the output of the last of them that
/// writes to it.
pub proof fn lemma_outputs_prefix(
    store: StoreMap,
    names: Seq<Seq<char>>,
    outcomes: Seq<Result<PipelineValues, ServerError>>,
    upto: int,
    i: int,
)
    requires
        0 <= i < upto <= outcomes.len(),
        outcomes.len() <= names.len(),
        first_failure(outcomes.take(upto)) is None,
        forall|j: int| i < j < upto ==> names[j] != names[i],
    ensures
        outcomes[i] is Ok,
        store_with_outputs(store, names, outcomes.take(upto)).contains_key(names[i]),
        Ok::<PipelineValues, ServerError>(
            store_with_outputs(store, names, outcomes.take(upto))[names[i]],
        ) == outcomes[i],
    decreases upto,
{
    let ran = outcomes.take(upto);
    assert(ran.drop_last() =~= outcomes.take(upto - 1));
    if i < upto - 1 {
        lemma_outputs_prefix(store, names, outcomes, upto - 1, i);
    }
}

} // verus!
