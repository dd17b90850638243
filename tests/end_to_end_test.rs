use workflow::document::parse_workflow;
use workflow::execution_mode::ExecutionMode;
use workflow::models::{Action, Command, Conditions, Step, StepNumber};
use workflow::runner::{Directive, ExecutionError, ExecutionResult, WorkflowRunner};

/// Stands in for a shell: `exit N` ends with status N, anything else succeeds.
fn simulated_success(code: &str) -> bool {
    match code.strip_prefix("exit ") {
        Some(status) => status.trim() == "0",
        None => true,
    }
}

/// Drives a run to its end, affirming every prompt.
fn run(runner: &mut WorkflowRunner) -> Result<ExecutionResult, ExecutionError> {
    let mut next = runner.start()?;
    loop {
        next = match next {
            Directive::Finished(result) => return Ok(result),
            Directive::RunCommand(i) => {
                let code = runner.steps[i].command.as_ref().unwrap().code.clone();
                runner.command_finished(simulated_success(&code))?
            }
            Directive::AskPrompt(_, _) => runner.prompt_answered(true)?,
        };
    }
}

fn simple_step(num: usize, description: &str, cmd: &str) -> Step {
    Step {
        number: StepNumber::new(num).unwrap(),
        description: description.to_string(),
        command: Some(Command {
            code: cmd.to_string(),
            quiet: false,
        }),
        prompts: vec![],
        conditions: None,
    }
}

fn step_with_fail_stop(num: usize, description: &str, cmd: &str, message: &str) -> Step {
    Step {
        number: StepNumber::new(num).unwrap(),
        description: description.to_string(),
        command: Some(Command {
            code: cmd.to_string(),
            quiet: false,
        }),
        prompts: vec![],
        conditions: Some(Conditions {
            pass: Action::Continue,
            fail: Action::Stop(Some(message.to_string())),
        }),
    }
}

#[test]
fn test_implicit_pass_continue() {
    let workflow = r#"
## 1. First step

```bash
exit 0
```

## 2. Second step

```bash
echo "reached step 2"
```
"#;
    let steps = parse_workflow(workflow).unwrap();
    let mut runner = WorkflowRunner::new(steps, ExecutionMode::Enforcement);
    let result = run(&mut runner).unwrap();
    assert_eq!(result, ExecutionResult::Success);
}

#[test]
fn test_implicit_fail_stop() {
    let workflow = r#"
## 1. First step

```bash
exit 1
```

## 2. Should not reach

```bash
echo "should not see this"
```
"#;
    let steps = parse_workflow(workflow).unwrap();
    let mut runner = WorkflowRunner::new(steps, ExecutionMode::Enforcement);
    let result = run(&mut runner).unwrap();
    assert_eq!(result, ExecutionResult::Stopped { message: None });
}

#[test]
fn test_pass_conditional_on_success() {
    let workflow = r#"
## 1. Run command

PASS: Go to Step 3

```bash
exit 0
```

## 2. Should skip

```bash
echo "should not see this"
```

## 3. Should reach

```bash
echo "reached step 3"
```
"#;
    let steps = parse_workflow(workflow).unwrap();
    let mut runner = WorkflowRunner::new(steps, ExecutionMode::Guided);
    let result = run(&mut runner).unwrap();
    assert_eq!(result, ExecutionResult::Success);
}

#[test]
fn test_fail_conditional_on_failure() {
    let workflow = r#"
## 1. Run command

FAIL: STOP command failed as expected

```bash
exit 1
```
"#;
    let steps = parse_workflow(workflow).unwrap();
    let mut runner = WorkflowRunner::new(steps, ExecutionMode::Enforcement);
    let result = run(&mut runner).unwrap();
    assert_eq!(
        result,
        ExecutionResult::Stopped {
            message: Some("command failed as expected".to_string())
        }
    );
}

#[test]
fn test_fail_override_continue() {
    let workflow = r#"
## 1. Optional hook

FAIL: Continue

```bash
exit 1
```

## 2. Should still reach

```bash
echo "reached despite failure"
```
"#;
    let steps = parse_workflow(workflow).unwrap();
    let mut runner = WorkflowRunner::new(steps, ExecutionMode::Guided);
    let result = run(&mut runner).unwrap();
    assert_eq!(result, ExecutionResult::Success);
}

#[test]
fn test_using_helpers() {
    let steps = vec![
        simple_step(1, "Test step", "echo test"),
        step_with_fail_stop(2, "Checked step", "exit 0", "should not stop"),
    ];
    let mut runner = WorkflowRunner::new(steps, ExecutionMode::Enforcement);
    let result = run(&mut runner).unwrap();
    assert_eq!(result, ExecutionResult::Success);
}

#[test]
fn test_end_to_end_workflow() {
    let workflow = r#"
## 1. Test echo

```bash
echo "test output"
```

→ Exit 0: Continue
→ Exit ≠ 0: STOP
"#;
    let steps = parse_workflow(workflow).unwrap();
    let mut runner = WorkflowRunner::new(steps, ExecutionMode::Enforcement);
    let result = run(&mut runner).unwrap();
    assert_eq!(result, ExecutionResult::Success);
}

#[test]
fn test_end_to_end_workflow_with_stop() {
    let workflow = r#"
## 1. Test failure

FAIL: STOP Command failed as expected

```bash
exit 1
```
"#;
    let steps = parse_workflow(workflow).unwrap();
    let mut runner = WorkflowRunner::new(steps, ExecutionMode::Enforcement);
    let result = run(&mut runner).unwrap();
    assert_eq!(
        result,
        ExecutionResult::Stopped {
            message: Some("Command failed as expected".to_string())
        }
    );
}

#[test]
fn test_validate_flag_success() {
    let valid_workflow = r#"
## 1. First step

```bash
echo "test"
```

## 2. Second step

```bash
echo "test"
```
"#;
    let result = parse_workflow(valid_workflow);
    assert!(result.is_ok(), "Valid workflow should parse successfully");
}

#[test]
fn test_validate_flag_catches_errors() {
    let invalid_workflow = r#"
## 1. First step

```bash
echo "test"
```

## 4. Fourth step (missing step 2 and 3)

```bash
echo "test"
```
"#;
    let result = parse_workflow(invalid_workflow);
    assert!(result.is_err(), "Invalid workflow should fail validation");
    let err = result.unwrap_err();
    assert!(
        err.message().contains("sequential"),
        "Error should mention sequential numbering"
    );
}

#[test]
fn test_tracing_debug_output_works() {
    let subscriber = tracing_subscriber::fmt()
        .with_max_level(tracing::Level::DEBUG)
        .with_span_events(tracing_subscriber::fmt::format::FmtSpan::ACTIVE)
        .with_test_writer()
        .finish();
    let _guard = tracing::subscriber::set_default(subscriber);

    let steps = vec![simple_step(1, "Test tracing", "echo 'test'")];
    let mut runner = WorkflowRunner::new(steps, ExecutionMode::Enforcement);
    let result = run(&mut runner).unwrap();
    assert_eq!(result, ExecutionResult::Success);
}
