use query_pipeline::errors::{ErrorDetails, ErrorLayer, ServerError};
use query_pipeline::graph::{
    first_step, next_step, GraphAction, GraphPhase, JunctionInvocation, NamedPipeline,
    ParallelPipelines, PipelineStep, ServerPipeline, ServerPipelineGraph,
};
use query_pipeline::records::TextFile;
use query_pipeline::store::ValueStore;
use query_pipeline::symbols::IdentifierList;
use query_pipeline::values::PipelineValues;

/// A command of the tests: what it does to its input.
#[derive(Clone, Debug)]
enum Op {
    /// Gives out the text, whatever comes in.
    Emit(&'static str),
    /// Appends to the text that comes in; fails on anything else.
    Append(&'static str),
    /// Gives out `void` for a void input and `value` for any other.
    Describe,
    /// Always fails.
    Fail(&'static str),
}

/// A junction of the tests: joins the texts of its inputs with `+`, writing
/// `void` for a void input.
#[derive(Clone, Debug)]
enum Join {
    Concat,
    Fail(&'static str),
}

fn text(contents: &str) -> PipelineValues {
    PipelineValues::TextFile(TextFile {
        mime_type: "text/plain".to_string(),
        contents: contents.to_string(),
    })
}

fn text_of(value: &PipelineValues) -> String {
    match value {
        PipelineValues::TextFile(file) => file.contents.clone(),
        PipelineValues::Void => "void".to_string(),
        _ => "other".to_string(),
    }
}

fn backend_error(message: &str) -> ServerError {
    ServerError::StickyProblem(ErrorDetails {
        layer: ErrorLayer::Backend,
        message: message.to_string(),
    })
}

fn execute(op: &Op, input: PipelineValues) -> Result<PipelineValues, ServerError> {
    match op {
        Op::Emit(contents) => Ok(text(contents)),
        Op::Append(suffix) => match input {
            PipelineValues::TextFile(file) => Ok(text(&format!("{}{}", file.contents, suffix))),
            _ => Err(ServerError::bad_input("append needs a text")),
        },
        Op::Describe => Ok(text(if input.is_void() { "void" } else { "value" })),
        Op::Fail(message) => Err(backend_error(message)),
    }
}

fn join(op: &Join, inputs: Vec<PipelineValues>) -> Result<PipelineValues, ServerError> {
    match op {
        Join::Concat => {
            let parts: Vec<String> = inputs.iter().map(text_of).collect();
            Ok(text(&parts.join("+")))
        }
        Join::Fail(message) => Err(backend_error(message)),
    }
}

fn run_chain(commands: &[Op], first: PipelineStep) -> Result<PipelineValues, ServerError> {
    let mut step = first;
    loop {
        match step {
            PipelineStep::Finished(value) => return Ok(value),
            PipelineStep::Execute { command, input } => {
                let outcome = execute(&commands[command], input);
                step = next_step(commands.len(), command, outcome)?;
            }
        }
    }
}

fn run_named(pipeline: &NamedPipeline<Op>, input: PipelineValues) -> Result<PipelineValues, ServerError> {
    let mut step = pipeline.begin(input);
    loop {
        match step {
            PipelineStep::Finished(value) => return Ok(value),
            PipelineStep::Execute { command, input } => {
                let outcome = execute(&pipeline.commands[command], input);
                step = pipeline.advance(command, outcome)?;
            }
        }
    }
}

fn run_graph(graph: &ServerPipelineGraph<(), Op, Join>) -> Result<PipelineValues, ServerError> {
    let mut run = graph.begin();
    loop {
        match graph.next_action(&mut run) {
            GraphAction::Finished(value) => return Ok(value),
            GraphAction::RunPipelines { stage, inputs } => {
                let pipelines = &graph.pipelines[stage].pipelines;
                assert_eq!(inputs.len(), pipelines.len());
                let outcomes: Vec<Result<PipelineValues, ServerError>> = pipelines
                    .iter()
                    .zip(inputs)
                    .map(|(pipeline, input)| run_named(pipeline, input))
                    .collect();
                graph.settle(&mut run, outcomes)?;
            }
            GraphAction::RunJunctions { stage, input_lists } => {
                let junctions = &graph.pipelines[stage].junctions;
                assert_eq!(input_lists.len(), junctions.len());
                let outcomes: Vec<Result<PipelineValues, ServerError>> = junctions
                    .iter()
                    .zip(input_lists)
                    .map(|(junction, input)| join(&junction.command, input))
                    .collect();
                graph.settle(&mut run, outcomes)?;
            }
        }
    }
}

fn named(input: Option<&str>, output: &str, commands: Vec<Op>) -> NamedPipeline<Op> {
    NamedPipeline {
        input_name: input.map(|name| name.to_string()),
        output_name: output.to_string(),
        commands,
    }
}

fn junction(inputs: &[&str], output: &str, command: Join) -> JunctionInvocation<Join> {
    JunctionInvocation {
        input_names: inputs.iter().map(|name| name.to_string()).collect(),
        output_name: output.to_string(),
        command,
    }
}

fn graph(stages: Vec<ParallelPipelines<Op, Join>>) -> ServerPipelineGraph<(), Op, Join> {
    ServerPipelineGraph { server: (), pipelines: stages }
}

fn message_of(err: ServerError) -> String {
    err.message()
}

#[test]
fn store_claim_takes_the_value_out() {
    let mut store = ValueStore::new();
    store.put("a".to_string(), text("one"));
    assert_eq!(text_of(&store.claim("a")), "one");
    assert!(store.claim("a").is_void());
}

#[test]
fn store_claim_of_a_missing_name_is_void() {
    let mut store = ValueStore::new();
    assert!(store.claim("never").is_void());
    store.put("a".to_string(), text("one"));
    assert!(store.claim("b").is_void());
    assert_eq!(text_of(&store.claim("a")), "one");
}

#[test]
fn store_put_replaces_an_earlier_value() {
    let mut store = ValueStore::new();
    store.put("a".to_string(), text("one"));
    store.put("a".to_string(), text("two"));
    assert_eq!(text_of(&store.claim("a")), "two");
    assert!(store.claim("a").is_void());
}

#[test]
fn store_claim_all_reads_in_order() {
    let mut store = ValueStore::new();
    store.put("a".to_string(), text("one"));
    store.put("b".to_string(), text("two"));
    let names = vec!["b".to_string(), "missing".to_string(), "a".to_string(), "b".to_string()];
    let values = store.claim_all(&names);
    let texts: Vec<String> = values.iter().map(text_of).collect();
    assert_eq!(texts, vec!["two", "void", "one", "void"]);
    assert!(store.claim("a").is_void());
    assert!(store.claim("b").is_void());
}

#[test]
fn store_result_is_void_unless_produced() {
    assert!(ValueStore::new().into_result().is_void());
    let mut store = ValueStore::new();
    store.put("other".to_string(), text("x"));
    assert!(store.into_result().is_void());
    let mut store = ValueStore::new();
    store.put("result".to_string(), text("done"));
    assert_eq!(text_of(&store.into_result()), "done");
}

#[test]
fn store_settle_puts_every_output_under_its_name() {
    let mut store = ValueStore::new();
    store.put("kept".to_string(), text("k"));
    let names = vec!["a".to_string(), "b".to_string(), "a".to_string()];
    let settled = store.settle(&names, vec![Ok(text("1")), Ok(text("2")), Ok(text("3"))]);
    assert!(settled.is_ok());
    assert_eq!(text_of(&store.claim("a")), "3");
    assert_eq!(text_of(&store.claim("b")), "2");
    assert_eq!(text_of(&store.claim("kept")), "k");
}

#[test]
fn store_settle_fails_with_the_first_failure_and_keeps_the_store() {
    let mut store = ValueStore::new();
    store.put("a".to_string(), text("old"));
    let names = vec!["a".to_string(), "b".to_string(), "c".to_string(), "d".to_string()];
    let settled = store.settle(
        &names,
        vec![Ok(text("1")), Err(backend_error("first")), Ok(text("3")), Err(backend_error("second"))],
    );
    assert_eq!(message_of(settled.unwrap_err()), "first");
    assert_eq!(text_of(&store.claim("a")), "old");
    assert!(store.claim("b").is_void());
    assert!(store.claim("c").is_void());
    assert!(store.claim("d").is_void());
}

#[test]
fn chain_without_commands_gives_its_input_back() {
    match first_step(0, text("in")) {
        PipelineStep::Finished(value) => assert_eq!(text_of(&value), "in"),
        PipelineStep::Execute { .. } => panic!("nothing to execute"),
    }
    let pipeline = named(None, "out", vec![]);
    assert_eq!(text_of(&run_named(&pipeline, text("same")).unwrap()), "same");
}

#[test]
fn chain_threads_each_output_into_the_next_command() {
    let commands = vec![Op::Emit("a"), Op::Append("b"), Op::Append("c")];
    let result = run_chain(&commands, first_step(commands.len(), PipelineValues::Void)).unwrap();
    assert_eq!(text_of(&result), "abc");
}

#[test]
fn chain_steps_name_the_next_command() {
    match first_step(2, text("x")) {
        PipelineStep::Execute { command, input } => {
            assert_eq!(command, 0);
            assert_eq!(text_of(&input), "x");
        }
        PipelineStep::Finished(_) => panic!("two commands to run"),
    }
    match next_step(3, 0, Ok(text("y"))).unwrap() {
        PipelineStep::Execute { command, input } => {
            assert_eq!(command, 1);
            assert_eq!(text_of(&input), "y");
        }
        PipelineStep::Finished(_) => panic!("two commands left"),
    }
    match next_step(3, 2, Ok(text("z"))).unwrap() {
        PipelineStep::Finished(value) => assert_eq!(text_of(&value), "z"),
        PipelineStep::Execute { .. } => panic!("no command left"),
    }
    match next_step(3, usize::MAX, Ok(text("z"))).unwrap() {
        PipelineStep::Finished(value) => assert_eq!(text_of(&value), "z"),
        PipelineStep::Execute { .. } => panic!("no command left"),
    }
}

#[test]
fn chain_stops_at_the_first_failure() {
    let commands = vec![Op::Emit("a"), Op::Fail("broken"), Op::Fail("never reached")];
    let err = run_chain(&commands, first_step(commands.len(), PipelineValues::Void)).unwrap_err();
    assert_eq!(message_of(err), "broken");
    assert_eq!(message_of(next_step(5, 1, Err(backend_error("e"))).unwrap_err()), "e");
}

#[test]
fn server_pipeline_starts_from_void() {
    let pipeline = ServerPipeline {
        server_kind: "local".to_string(),
        server: (),
        commands: vec![Op::Describe, Op::Append("!")],
    };
    let mut step = pipeline.begin();
    let result = loop {
        match step {
            PipelineStep::Finished(value) => break value,
            PipelineStep::Execute { command, input } => {
                step = pipeline.advance(command, execute(&pipeline.commands[command], input)).unwrap();
            }
        }
    };
    assert_eq!(text_of(&result), "void!");
    let empty: ServerPipeline<(), Op> =
        ServerPipeline { server_kind: "local".to_string(), server: (), commands: vec![] };
    match empty.begin() {
        PipelineStep::Finished(value) => assert!(value.is_void()),
        PipelineStep::Execute { .. } => panic!("nothing to execute"),
    }
}

#[test]
fn pipeline_with_unproduced_input_receives_void() {
    let stage = ParallelPipelines {
        pipelines: vec![named(Some("never-produced"), "result", vec![Op::Describe])],
        junctions: vec![],
    };
    let result = run_graph(&graph(vec![stage])).unwrap();
    assert_eq!(text_of(&result), "void");
}

#[test]
fn failing_pipeline_fails_the_run_and_hides_its_sibling() {
    let stage = ParallelPipelines {
        pipelines: vec![
            named(None, "result", vec![Op::Emit("fine")]),
            named(None, "other", vec![Op::Emit("a"), Op::Fail("sibling failed")]),
        ],
        junctions: vec![],
    };
    let g = graph(vec![stage]);
    assert_eq!(message_of(run_graph(&g).unwrap_err()), "sibling failed");

    let mut run = g.begin();
    match g.next_action(&mut run) {
        GraphAction::RunPipelines { stage, inputs } => {
            assert_eq!(stage, 0);
            assert_eq!(inputs.len(), 2);
        }
        _ => panic!("the pipelines of the first stage come first"),
    }
    let settled = g.settle(&mut run, vec![Ok(text("fine")), Err(backend_error("sibling failed"))]);
    assert_eq!(message_of(settled.unwrap_err()), "sibling failed");
    assert_eq!(run.stage, 0);
    assert_eq!(run.phase, GraphPhase::Pipelines);
    assert!(run.store.claim("result").is_void());
    assert!(run.store.claim("other").is_void());
}

#[test]
fn first_failure_in_order_is_reported() {
    let stage = ParallelPipelines {
        pipelines: vec![
            named(None, "a", vec![Op::Fail("first")]),
            named(None, "b", vec![Op::Fail("second")]),
        ],
        junctions: vec![],
    };
    assert_eq!(message_of(run_graph(&graph(vec![stage])).unwrap_err()), "first");
}

#[test]
fn junction_combines_named_outputs_in_the_order_of_its_names() {
    let stage = ParallelPipelines {
        pipelines: vec![
            named(None, "left", vec![Op::Emit("L")]),
            named(None, "right", vec![Op::Emit("R")]),
        ],
        junctions: vec![junction(&["right", "missing", "left"], "result", Join::Concat)],
    };
    assert_eq!(text_of(&run_graph(&graph(vec![stage])).unwrap()), "R+void+L");
}

#[test]
fn a_name_is_there_for_one_reader_only() {
    let first = ParallelPipelines {
        pipelines: vec![named(None, "shared", vec![Op::Emit("S")])],
        junctions: vec![],
    };
    let second = ParallelPipelines {
        pipelines: vec![
            named(Some("shared"), "one", vec![Op::Describe]),
            named(Some("shared"), "two", vec![Op::Describe]),
        ],
        junctions: vec![junction(&["one", "two", "one"], "result", Join::Concat)],
    };
    assert_eq!(text_of(&run_graph(&graph(vec![first, second])).unwrap()), "value+void+void");
}

#[test]
fn values_persist_across_stages_until_read() {
    let first = ParallelPipelines {
        pipelines: vec![
            named(None, "early", vec![Op::Emit("E")]),
            named(None, "mid", vec![Op::Emit("M")]),
        ],
        junctions: vec![],
    };
    let second = ParallelPipelines {
        pipelines: vec![named(Some("mid"), "mid2", vec![Op::Append("2")])],
        junctions: vec![],
    };
    let third = ParallelPipelines {
        pipelines: vec![],
        junctions: vec![junction(&["early", "mid2", "mid"], "result", Join::Concat)],
    };
    assert_eq!(text_of(&run_graph(&graph(vec![first, second, third])).unwrap()), "E+M2+void");
}

#[test]
fn failing_junction_fails_the_run() {
    let stage = ParallelPipelines {
        pipelines: vec![named(None, "a", vec![Op::Emit("A")])],
        junctions: vec![
            junction(&["a"], "result", Join::Concat),
            junction(&[], "b", Join::Fail("junction failed")),
        ],
    };
    assert_eq!(message_of(run_graph(&graph(vec![stage])).unwrap_err()), "junction failed");
}

#[test]
fn graph_without_result_gives_void() {
    assert!(run_graph(&graph(vec![])).unwrap().is_void());
    let stage = ParallelPipelines {
        pipelines: vec![named(None, "not-the-result", vec![Op::Emit("x")])],
        junctions: vec![],
    };
    assert!(run_graph(&graph(vec![stage])).unwrap().is_void());
}

#[test]
fn graph_run_moves_through_phases_and_stages() {
    let stage = || ParallelPipelines {
        pipelines: vec![named(None, "a", vec![Op::Emit("A")])],
        junctions: vec![junction(&["a"], "result", Join::Concat)],
    };
    let g = graph(vec![stage(), stage()]);
    let mut run = g.begin();
    assert_eq!((run.stage, run.phase), (0, GraphPhase::Pipelines));
    assert!(matches!(g.next_action(&mut run), GraphAction::RunPipelines { stage: 0, .. }));
    g.settle(&mut run, vec![Ok(text("A"))]).unwrap();
    assert_eq!((run.stage, run.phase), (0, GraphPhase::Junctions));
    match g.next_action(&mut run) {
        GraphAction::RunJunctions { stage, input_lists } => {
            assert_eq!(stage, 0);
            assert_eq!(input_lists.len(), 1);
            assert_eq!(text_of(&input_lists[0][0]), "A");
        }
        _ => panic!("the junctions follow the pipelines"),
    }
    g.settle(&mut run, vec![Ok(text("J"))]).unwrap();
    assert_eq!((run.stage, run.phase), (1, GraphPhase::Pipelines));
    assert!(matches!(g.next_action(&mut run), GraphAction::RunPipelines { stage: 1, .. }));
    g.settle(&mut run, vec![Ok(text("A2"))]).unwrap();
    assert!(matches!(g.next_action(&mut run), GraphAction::RunJunctions { stage: 1, .. }));
    g.settle(&mut run, vec![Ok(text("J2"))]).unwrap();
    assert_eq!((run.stage, run.phase), (2, GraphPhase::Pipelines));
    match g.next_action(&mut run) {
        GraphAction::Finished(value) => assert_eq!(text_of(&value), "J2"),
        _ => panic!("no stage is left"),
    }
}

#[test]
fn stage_reports_its_output_names_in_order() {
    let stage = ParallelPipelines {
        pipelines: vec![named(None, "left", vec![]), named(None, "right", vec![])],
        junctions: vec![junction(&[], "joined", Join::Concat)],
    };
    assert_eq!(stage.pipeline_output_names(), vec!["left", "right"]);
    assert_eq!(stage.junction_output_names(), vec!["joined"]);
}

#[test]
fn other_values_pass_through_the_store_unchanged() {
    let mut store = ValueStore::new();
    store.put(
        "ids".to_string(),
        PipelineValues::IdentifierList(IdentifierList { identifiers: vec!["a".to_string()] }),
    );
    match store.claim("ids") {
        PipelineValues::IdentifierList(list) => assert_eq!(list.identifiers, vec!["a"]),
        _ => panic!("the identifier list was stored"),
    }
}
