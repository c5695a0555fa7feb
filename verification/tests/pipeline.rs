use zeptoclaw::agent::pipeline::{Next, NextStage, Pipeline, ToolNext};

/// A test middleware: passes through, prefixes the inner response, or answers
/// without calling the rest of the chain.
#[derive(Debug, Clone, PartialEq)]
enum Stage {
    Passthrough,
    Prefix(&'static str),
    ShortCircuit(&'static str),
    Fail,
}

fn drive(next: Next<'_, Stage, &'static str>) -> Result<String, String> {
    match next.run() {
        NextStage::Terminal(t) => Ok(t.to_string()),
        NextStage::Middleware(stage, rest) => match stage {
            Stage::Passthrough => drive(rest),
            Stage::Prefix(p) => drive(rest).map(|inner| format!("{p}{inner}")),
            Stage::ShortCircuit(answer) => Ok(answer.to_string()),
            Stage::Fail => Err("middleware error".to_string()),
        },
    }
}

#[test]
fn empty_pipeline_calls_terminal() {
    let pipeline = Pipeline::<Stage, ()>::builder().build("hello from terminal");
    assert!(pipeline.is_empty());
    assert_eq!(drive(pipeline.start()).unwrap(), "hello from terminal");
}

#[test]
fn single_middleware_wraps_terminal() {
    let pipeline = Pipeline::builder().add(Stage::Passthrough).build("terminal");
    assert_eq!(pipeline.len(), 1);
    assert_eq!(drive(pipeline.start()).unwrap(), "terminal");
}

#[test]
fn middleware_can_short_circuit() {
    let pipeline = Pipeline::builder()
        .add(Stage::ShortCircuit("short-circuited"))
        .add(Stage::Fail)
        .build("unreachable");
    assert_eq!(drive(pipeline.start()).unwrap(), "short-circuited");
}

#[test]
fn middleware_ordering_is_outermost_first() {
    let pipeline = Pipeline::builder()
        .add(Stage::Prefix("A:"))
        .add(Stage::Prefix("B:"))
        .build("T");
    assert_eq!(drive(pipeline.start()).unwrap(), "A:B:T");
}

#[test]
fn add_if_true_includes_middleware() {
    let pipeline = Pipeline::builder().add_if(true, Stage::Prefix("Y:")).build("T");
    assert_eq!(pipeline.len(), 1);
    assert_eq!(drive(pipeline.start()).unwrap(), "Y:T");
}

#[test]
fn add_if_false_excludes_middleware() {
    let pipeline = Pipeline::builder().add_if(false, Stage::Prefix("N:")).build("T");
    assert_eq!(pipeline.len(), 0);
    assert_eq!(drive(pipeline.start()).unwrap(), "T");
}

#[test]
fn middleware_error_propagates() {
    let pipeline = Pipeline::builder().add(Stage::Fail).build("should not reach");
    let result = drive(pipeline.start());
    assert!(result.is_err());
    assert!(result.unwrap_err().contains("middleware error"));
}

#[test]
fn run_steps_through_stages_then_terminal() {
    let pipeline = Pipeline::builder()
        .add(Stage::Prefix("1"))
        .add(Stage::Prefix("2"))
        .build("end");
    assert_eq!(*pipeline.terminal(), "end");
    let first = match pipeline.start().run() {
        NextStage::Middleware(m, rest) => {
            assert_eq!(*m, Stage::Prefix("1"));
            rest
        }
        NextStage::Terminal(_) => panic!("expected the first middleware"),
    };
    let second = match first.run() {
        NextStage::Middleware(m, rest) => {
            assert_eq!(*m, Stage::Prefix("2"));
            rest
        }
        NextStage::Terminal(_) => panic!("expected the second middleware"),
    };
    match second.run() {
        NextStage::Terminal(t) => assert_eq!(*t, "end"),
        NextStage::Middleware(..) => panic!("expected the terminal"),
    }
}

#[test]
fn tool_next_empty_chain_calls_executor() {
    let chain: Vec<Stage> = vec![];
    let executor = "executed: test_tool";
    let next = ToolNext::new(&chain, &executor);
    let (stage, reached) = next.run();
    assert!(stage.is_none());
    assert_eq!(*reached, "executed: test_tool");
}

#[test]
fn tool_next_runs_chain_in_order() {
    let chain = vec![Stage::Prefix("a"), Stage::Passthrough];
    let executor = "exec";
    let (stage, _) = ToolNext::new(&chain, &executor).run();
    let (m, rest) = stage.expect("first tool middleware");
    assert_eq!(*m, Stage::Prefix("a"));
    let (stage, _) = rest.run();
    let (m, rest) = stage.expect("second tool middleware");
    assert_eq!(*m, Stage::Passthrough);
    let (stage, reached) = rest.run();
    assert!(stage.is_none());
    assert_eq!(*reached, "exec");
}
