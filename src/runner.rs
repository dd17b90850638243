//! The execution engine: a run of a workflow as a state machine that directs
//! its caller to run commands and ask prompts, and decides what comes next.

use vstd::prelude::*;
use crate::execution_mode::ExecutionMode;
use crate::models::{steps_view, Action, ActionView, Step, StepView};
use crate::text::{append_chars, chars_of, decimal, decimal_chars, string_from, trim, trimmed};

verus! {

/// How many times each step may be entered, on average, before a run is
/// taken to be caught in a loop.
pub const MAX_ITERATION_MULTIPLIER: usize = 10;

/// What running a command gave: its output, exit code, and whether it succeeded.
#[derive(Debug, Clone, PartialEq)]
pub struct CommandOutput {
    pub stdout: String,
    pub stderr: String,
    pub exit_code: i32,
    pub success: bool,
}

/// How a run ended. None of these is an error.
#[derive(Debug, Clone, PartialEq)]
pub enum ExecutionResult {
    Success,
    Stopped { message: Option<String> },
    UserCancelled,
}

/// The value of an [`ExecutionResult`].
pub enum ResultView {
    Success,
    Stopped(Option<Seq<char>>),
    UserCancelled,
}

pub open spec fn message_view(m: Option<String>) -> Option<Seq<char>> {
    match m {
        Some(s) => Some(s@),
        None => None,
    }
}

impl View for ExecutionResult {
    type V = ResultView;

    open spec fn view(&self) -> ResultView {
        match self {
            ExecutionResult::Success => ResultView::Success,
            ExecutionResult::Stopped { message } => ResultView::Stopped(message_view(*message)),
            ExecutionResult::UserCancelled => ResultView::UserCancelled,
        }
    }
}

/// What the runner does after a step's action has been resolved.
#[derive(Debug, Clone, PartialEq)]
pub enum StepControl {
    /// Go on to the step's prompts, then to the next step.
    Next,
    /// Continue at the step with this index.
    JumpTo(usize),
    /// End the run.
    Terminate(ExecutionResult),
}

pub enum StepControlView {
    Next,
    JumpTo(nat),
    Terminate(ResultView),
}

impl View for StepControl {
    type V = StepControlView;

    open spec fn view(&self) -> StepControlView {
        match self {
            StepControl::Next => StepControlView::Next,
            StepControl::JumpTo(i) => StepControlView::JumpTo(*i as nat),
            StepControl::Terminate(r) => StepControlView::Terminate(r@),
        }
    }
}

/// A failure that ends a run abnormally.
#[derive(Debug, Clone, PartialEq)]
pub enum ExecutionError {
    /// More steps were entered than the workflow's limit allows.
    IterationLimit { max_iterations: usize, step: usize, description: String },
    /// A jump of step `from_step` names a step that does not exist.
    MissingStep { from_step: usize, target: usize },
}

pub enum ExecutionErrorView {
    IterationLimit { max_iterations: nat, step: nat, description: Seq<char> },
    MissingStep { from_step: nat, target: nat },
}

impl View for ExecutionError {
    type V = ExecutionErrorView;

    open spec fn view(&self) -> ExecutionErrorView {
        match self {
            ExecutionError::IterationLimit { max_iterations, step, description } => {
                ExecutionErrorView::IterationLimit {
                    max_iterations: *max_iterations as nat,
                    step: *step as nat,
                    description: description@,
                }
            },
            ExecutionError::MissingStep { from_step, target } => ExecutionErrorView::MissingStep {
                from_step: *from_step as nat,
                target: *target as nat,
            },
        }
    }
}

/// The text of an execution error.
pub open spec fn execution_error_text(e: ExecutionErrorView) -> Seq<char> {
    match e {
        ExecutionErrorView::IterationLimit { max_iterations, step, description } => "Exceeded maximum iterations ("@
            + decimal(max_iterations) + ") at Step "@ + decimal(step) + ": '"@ + description
            + "'. Possible infinite loop in workflow.\nCheck for GoTo loops or missing STOP conditions."@,
        ExecutionErrorView::MissingStep { from_step, target } => "Step "@ + decimal(from_step)
            + ": GoTo target Step "@ + decimal(target)
            + " does not exist.\nCheck your 'Go to Step N' conditionals."@,
    }
}

impl ExecutionError {
    /// The error as a sentence for the operator.
    pub fn message(&self) -> (r: String)
        ensures
            r@ == execution_error_text(self@),
    {
        let mut out: Vec<char> = Vec::new();
        match self {
            ExecutionError::IterationLimit { max_iterations, step, description } => {
                append_chars(&mut out, &chars_of("Exceeded maximum iterations ("));
                append_chars(&mut out, &decimal_chars(*max_iterations));
                append_chars(&mut out, &chars_of(") at Step "));
                append_chars(&mut out, &decimal_chars(*step));
                append_chars(&mut out, &chars_of(": '"));
                append_chars(&mut out, &chars_of(description.as_str()));
                append_chars(
                    &mut out,
                    &chars_of("'. Possible infinite loop in workflow.\nCheck for GoTo loops or missing STOP conditions."),
                );
            },
            ExecutionError::MissingStep { from_step, target } => {
                append_chars(&mut out, &chars_of("Step "));
                append_chars(&mut out, &decimal_chars(*from_step));
                append_chars(&mut out, &chars_of(": GoTo target Step "));
                append_chars(&mut out, &decimal_chars(*target));
                append_chars(
                    &mut out,
                    &chars_of(" does not exist.\nCheck your 'Go to Step N' conditionals."),
                );
            },
        }
        string_from(&out)
    }
}

} // verus!

verus! {

/// The action that a step's outcome calls for when the step has no
/// conditions, or when the mode forbids the one its conditions name.
pub open spec fn default_action(success: bool) -> ActionView {
    if success {
        ActionView::Continue
    } else {
        ActionView::Stop(None)
    }
}

/// Whether `mode` lets a step's conditions invoke `a`.
pub open spec fn permitted(mode: ExecutionMode, a: ActionView) -> bool {
    match a {
        ActionView::Continue => mode.permits_continue(),
        ActionView::Goto(_) => mode.permits_goto(),
        ActionView::Stop(_) => true,
    }
}

/// The action for a step whose command succeeded or failed.
pub open spec fn outcome_action(st: StepView, success: bool, mode: ExecutionMode) -> ActionView {
    match st.conditions {
        Some(c) => {
            let chosen = if success {
                c.pass
            } else {
                c.fail
            };
            if permitted(mode, chosen) {
                chosen
            } else {
                default_action(success)
            }
        },
        None => default_action(success),
    }
}

/// The index of the first step numbered `n`, searching from `i`.
pub open spec fn index_of_step(steps: Seq<StepView>, n: nat, i: nat) -> Option<nat>
    decreases steps.len() - i,
{
    if i >= steps.len() {
        None
    } else if steps[i as int].number == n {
        Some(i)
    } else {
        index_of_step(steps, n, i + 1)
    }
}

proof fn lemma_index_of_step_bound(steps: Seq<StepView>, n: nat, i: nat)
    ensures
        index_of_step(steps, n, i) matches Some(k) ==> i <= k < steps.len() && steps[k as int].number
            == n,
    decreases steps.len() - i,
{
    if i < steps.len() && steps[i as int].number != n {
        lemma_index_of_step_bound(steps, n, i + 1);
    }
}

/// Where a run stands between two calls.
#[derive(Debug, Clone, Copy, PartialEq, Eq, Structural)]
pub enum Phase {
    /// Not started.
    Ready,
    /// Waiting for the current step's command to finish.
    AwaitingCommand,
    /// Waiting for the answer to this prompt of the current step.
    AwaitingAnswer(usize),
    /// Ended, normally or not.
    Finished,
}

/// What the caller of a run does next.
#[derive(Debug, Clone, PartialEq)]
pub enum Directive {
    /// Run the command of the step at this index, then report whether it succeeded.
    RunCommand(usize),
    /// Put this prompt of the step at this index to the operator, then report the answer.
    AskPrompt(usize, usize),
    /// The run is over.
    Finished(ExecutionResult),
}

pub enum DirectiveView {
    RunCommand(nat),
    AskPrompt(nat, nat),
    Finished(ResultView),
}

impl View for Directive {
    type V = DirectiveView;

    open spec fn view(&self) -> DirectiveView {
        match self {
            Directive::RunCommand(i) => DirectiveView::RunCommand(*i as nat),
            Directive::AskPrompt(i, j) => DirectiveView::AskPrompt(*i as nat, *j as nat),
            Directive::Finished(r) => DirectiveView::Finished(r@),
        }
    }
}

/// The value of a run's state.
pub struct RunnerView {
    pub steps: Seq<StepView>,
    pub current: nat,
    pub iterations: nat,
    pub max_iterations: nat,
    pub mode: ExecutionMode,
    pub dry_run: bool,
    pub phase: Phase,
}

/// What a call of a run hands back, as values.
pub type Outcome = Result<DirectiveView, ExecutionErrorView>;

pub open spec fn finish(s: RunnerView, r: ResultView) -> (RunnerView, Outcome) {
    (RunnerView { phase: Phase::Finished, ..s }, Ok(DirectiveView::Finished(r)))
}

pub open spec fn fail(s: RunnerView, e: ExecutionErrorView) -> (RunnerView, Outcome) {
    (RunnerView { phase: Phase::Finished, ..s }, Err(e))
}

/// Enters the step at the cursor: counts the entry, stops a run that has
/// entered more steps than its limit, and waits for the step's command or
/// first prompt. Steps with neither are passed over; past the last step the
/// run has succeeded.
pub open spec fn enter(s: RunnerView) -> (RunnerView, Outcome)
    decreases s.steps.len() - s.current,
{
    if s.current >= s.steps.len() {
        finish(s, ResultView::Success)
    } else {
        let t = RunnerView { iterations: s.iterations + 1, ..s };
        let st = s.steps[s.current as int];
        if t.iterations > t.max_iterations {
            fail(
                t,
                ExecutionErrorView::IterationLimit {
                    max_iterations: t.max_iterations,
                    step: st.number,
                    description: st.description,
                },
            )
        } else if st.command is Some {
            (RunnerView { phase: Phase::AwaitingCommand, ..t }, Ok(DirectiveView::RunCommand(s.current)))
        } else if st.prompts.len() > 0 {
            (
                RunnerView { phase: Phase::AwaitingAnswer(0), ..t },
                Ok(DirectiveView::AskPrompt(s.current, 0)),
            )
        } else {
            enter(RunnerView { current: s.current + 1, ..t })
        }
    }
}

/// Goes on with prompt `j` of the current step, or past the step when it has
/// no more prompts.
pub open spec fn prompt_from(s: RunnerView, j: nat) -> (RunnerView, Outcome) {
    if j < s.steps[s.current as int].prompts.len() {
        (
            RunnerView { phase: Phase::AwaitingAnswer(j as usize), ..s },
            Ok(DirectiveView::AskPrompt(s.current, j)),
        )
    } else {
        enter(RunnerView { current: s.current + 1, ..s })
    }
}

/// Dispatches the action resolved for the current step.
pub open spec fn dispatch(s: RunnerView, a: ActionView) -> (RunnerView, Outcome) {
    match a {
        ActionView::Continue => prompt_from(s, 0),
        ActionView::Stop(m) => finish(s, ResultView::Stopped(m)),
        ActionView::Goto(n) => match index_of_step(s.steps, n, 0) {
            Some(i) => enter(RunnerView { current: i, ..s }),
            None => fail(
                s,
                ExecutionErrorView::MissingStep {
                    from_step: s.steps[s.current as int].number,
                    target: n,
                },
            ),
        },
    }
}

/// The run after the current step's command finished; in a dry run every
/// command counts as a success.
pub open spec fn after_command(s: RunnerView, success: bool) -> (RunnerView, Outcome) {
    dispatch(s, outcome_action(s.steps[s.current as int], s.dry_run || success, s.mode))
}

/// The run after the operator answered prompt `j`; in a dry run every prompt
/// counts as affirmed.
pub open spec fn after_answer(s: RunnerView, j: nat, affirmative: bool) -> (RunnerView, Outcome) {
    if s.dry_run || affirmative {
        prompt_from(s, j + 1)
    } else {
        finish(s, ResultView::UserCancelled)
    }
}

} // verus!

verus! {

/// A run of a workflow: a cursor over its steps, a count of step entries, and
/// the mode that gates branching. The caller performs the commands and asks
/// the prompts that the run directs, and reports back.
pub struct WorkflowRunner {
    pub steps: Vec<Step>,
    pub current_step: usize,
    pub iterations: usize,
    pub max_iterations: usize,
    pub mode: ExecutionMode,
    pub dry_run: bool,
    pub phase: Phase,
}

impl View for WorkflowRunner {
    type V = RunnerView;

    open spec fn view(&self) -> RunnerView {
        RunnerView {
            steps: steps_view(self.steps@),
            current: self.current_step as nat,
            iterations: self.iterations as nat,
            max_iterations: self.max_iterations as nat,
            mode: self.mode,
            dry_run: self.dry_run,
            phase: self.phase,
        }
    }
}

/// The value of what a call of a run hands back.
pub open spec fn outcome_view(r: Result<Directive, ExecutionError>) -> Outcome {
    match r {
        Ok(d) => Ok(d@),
        Err(e) => Err(e@),
    }
}

impl WorkflowRunner {
    /// The runner's invariant: the limit is ten entries per step, the count
    /// stays within it while the run goes on, and the phase names a step
    /// that has the awaited command or prompt.
    pub open spec fn wf(&self) -> bool {
        &&& self.wf_counts()
        &&& self.phase != Phase::Finished ==> self.iterations <= self.max_iterations
        &&& match self.phase {
            Phase::AwaitingCommand => self.current_step < self.steps.len()
                && self.steps@[self.current_step as int].command is Some,
            Phase::AwaitingAnswer(j) => self.current_step < self.steps.len() && j
                < self.steps@[self.current_step as int].prompts.len(),
            _ => true,
        }
    }

    /// The limit, the count and the cursor within their bounds.
    pub open spec fn wf_counts(&self) -> bool {
        &&& self.steps.len() * MAX_ITERATION_MULTIPLIER < usize::MAX
        &&& self.max_iterations == self.steps.len() * MAX_ITERATION_MULTIPLIER
        &&& self.iterations <= self.max_iterations + 1
        &&& self.current_step <= self.steps.len()
    }

    /// A run of `steps` in `mode`, not started, that may enter ten steps per
    /// step of the workflow.
    pub fn new(steps: Vec<Step>, mode: ExecutionMode) -> (r: WorkflowRunner)
        requires
            steps.len() * MAX_ITERATION_MULTIPLIER < usize::MAX,
        ensures
            r.wf(),
            r.steps == steps,
            r@ == (RunnerView {
                steps: steps_view(steps@),
                current: 0,
                iterations: 0,
                max_iterations: (steps.len() * MAX_ITERATION_MULTIPLIER) as nat,
                mode,
                dry_run: false,
                phase: Phase::Ready,
            }),
    {
        let max_iterations = steps.len() * MAX_ITERATION_MULTIPLIER;
        WorkflowRunner {
            steps,
            current_step: 0,
            iterations: 0,
            max_iterations,
            mode,
            dry_run: false,
            phase: Phase::Ready,
        }
    }

    /// In a dry run commands are not run and prompts are not waited on: every
    /// command counts as a success and every prompt as affirmed.
    pub fn set_dry_run(&mut self, dry_run: bool)
        ensures
            *final(self) == (WorkflowRunner { dry_run, ..*old(self) }),
    {
        self.dry_run = dry_run;
    }

    /// Fails when more steps have been entered than the limit allows.
    pub fn check_iteration_limit(&self, step: &Step) -> (r: Result<(), ExecutionError>)
        ensures
            r is Err <==> self.iterations > self.max_iterations,
            r matches Err(e) ==> e@ == (ExecutionErrorView::IterationLimit {
                max_iterations: self.max_iterations as nat,
                step: step.number@,
                description: step.description@,
            }),
    {
        if self.iterations > self.max_iterations {
            return Err(
                ExecutionError::IterationLimit {
                    max_iterations: self.max_iterations,
                    step: step.number.get(),
                    description: step.description.clone(),
                },
            );
        }
        Ok(())
    }

    /// `Continue` on success, `Stop` without a message on failure.
    pub fn apply_defaults(&self, output: &CommandOutput) -> (r: Action)
        ensures
            r@ == default_action(output.success),
    {
        if output.success {
            Action::Continue
        } else {
            Action::Stop(None)
        }
    }

    /// The action that a step's conditions select for the command's outcome,
    /// when the mode permits it; the default action otherwise.
    pub fn evaluate_step_outcome(&self, step: &Step, output: &CommandOutput) -> (r: Action)
        ensures
            r@ == outcome_action(step@, output.success, self.mode),
    {
        match &step.conditions {
            Some(conditions) => {
                let action = if output.success {
                    &conditions.pass
                } else {
                    &conditions.fail
                };
                let is_allowed = match action {
                    Action::Continue => self.mode.allows_continue(),
                    Action::Stop(..) => self.mode.allows_stop(),
                    Action::Goto(..) => self.mode.allows_goto(),
                };
                if is_allowed {
                    action.duplicate()
                } else {
                    self.apply_defaults(output)
                }
            },
            None => self.apply_defaults(output),
        }
    }

    /// The index of the step numbered `target`.
    pub fn find_step_index(&self, target: usize, from_step: usize) -> (r: Result<
        usize,
        ExecutionError,
    >)
        ensures
            match index_of_step(steps_view(self.steps@), target as nat, 0) {
                Some(i) => r == Ok::<usize, ExecutionError>(i as usize),
                None => r matches Err(e) && e@ == (ExecutionErrorView::MissingStep {
                    from_step: from_step as nat,
                    target: target as nat,
                }),
            },
    {
        let ghost sv = steps_view(self.steps@);
        let mut i: usize = 0;
        while i < self.steps.len()
            invariant
                i <= self.steps@.len(),
                sv == steps_view(self.steps@),
                index_of_step(sv, target as nat, 0) == index_of_step(sv, target as nat, i as nat),
            decreases self.steps@.len() - i,
        {
            assert(sv[i as int] == self.steps@[i as int]@);
            if self.steps[i].number.get() == target {
                return Ok(i);
            }
            i += 1;
        }
        Err(ExecutionError::MissingStep { from_step, target })
    }

    /// What resolving `action` for step `from_step` means for the run.
    pub fn execute_action(&self, action: Action, from_step: usize) -> (r: Result<
        StepControl,
        ExecutionError,
    >)
        ensures
            match action@ {
                ActionView::Continue => r matches Ok(c) && c@ == StepControlView::Next,
                ActionView::Stop(m) => r matches Ok(c) && c@ == StepControlView::Terminate(
                    ResultView::Stopped(m),
                ),
                ActionView::Goto(n) => match index_of_step(steps_view(self.steps@), n, 0) {
                    Some(i) => r matches Ok(c) && c@ == StepControlView::JumpTo(i),
                    None => r matches Err(e) && e@ == (ExecutionErrorView::MissingStep {
                        from_step: from_step as nat,
                        target: n,
                    }),
                },
            },
    {
        match action {
            Action::Continue => Ok(StepControl::Next),
            Action::Stop(message) => Ok(
                StepControl::Terminate(ExecutionResult::Stopped { message }),
            ),
            Action::Goto(step_number) => {
                let target = step_number.get();
                let count = self.steps.len();
                proof {
                    lemma_index_of_step_bound(steps_view(self.steps@), target as nat, 0);
                    assert(steps_view(self.steps@).len() == count);
                }
                match self.find_step_index(target, from_step) {
                    Ok(index) => Ok(StepControl::JumpTo(index)),
                    Err(e) => Err(e),
                }
            },
        }
    }

    /// Enters steps from the cursor on, as `enter` says.
    fn enter(&mut self) -> (r: Result<Directive, ExecutionError>)
        requires
            old(self).wf_counts(),
            old(self).iterations <= old(self).max_iterations,
        ensures
            final(self).wf(),
            final(self).steps == old(self).steps,
            (final(self)@, outcome_view(r)) == enter(old(self)@),
    {
        loop
            invariant
                self.wf_counts(),
                self.iterations <= self.max_iterations,
                self.steps == old(self).steps,
                enter(self@) == enter(old(self)@),
            decreases self.steps.len() - self.current_step,
        {
            if self.current_step >= self.steps.len() {
                self.phase = Phase::Finished;
                return Ok(Directive::Finished(ExecutionResult::Success));
            }
            self.iterations = self.iterations + 1;
            let index = self.current_step;
            let has_command = self.steps[index].command.is_some();
            let has_prompts = self.steps[index].prompts.len() > 0;
            match self.check_iteration_limit(&self.steps[index]) {
                Err(e) => {
                    self.phase = Phase::Finished;
                    return Err(e);
                },
                Ok(()) => {},
            }
            if has_command {
                self.phase = Phase::AwaitingCommand;
                return Ok(Directive::RunCommand(index));
            }
            if has_prompts {
                self.phase = Phase::AwaitingAnswer(0);
                return Ok(Directive::AskPrompt(index, 0));
            }
            self.current_step = index + 1;
        }
    }

    /// Prompt `j` of the current step, or the steps after it.
    fn prompt_from(&mut self, j: usize) -> (r: Result<Directive, ExecutionError>)
        requires
            old(self).wf(),
            old(self).phase != Phase::Finished,
            old(self).current_step < old(self).steps.len(),
        ensures
            final(self).wf(),
            final(self).steps == old(self).steps,
            (final(self)@, outcome_view(r)) == prompt_from(old(self)@, j as nat),
    {
        let index = self.current_step;
        if j < self.steps[index].prompts.len() {
            self.phase = Phase::AwaitingAnswer(j);
            assert(self.steps@[index as int]@.prompts.len() == self.steps@[index as int].prompts@.len());
            return Ok(Directive::AskPrompt(index, j));
        }
        self.current_step = index + 1;
        self.enter()
    }

    /// Begins the run.
    pub fn start(&mut self) -> (r: Result<Directive, ExecutionError>)
        requires
            old(self).wf(),
            old(self).phase == Phase::Ready,
        ensures
            final(self).wf(),
            final(self).steps == old(self).steps,
            (final(self)@, outcome_view(r)) == enter(old(self)@),
    {
        self.enter()
    }

    /// Goes on after the current step's command finished, successfully or not.
    pub fn command_finished(&mut self, success: bool) -> (r: Result<Directive, ExecutionError>)
        requires
            old(self).wf(),
            old(self).phase == Phase::AwaitingCommand,
        ensures
            final(self).wf(),
            final(self).steps == old(self).steps,
            (final(self)@, outcome_view(r)) == after_command(old(self)@, success),
    {
        let index = self.current_step;
        // Only the success flag of an output decides the branch.
        let output = CommandOutput {
            stdout: String::new(),
            stderr: String::new(),
            exit_code: if self.dry_run || success {
                0
            } else {
                1
            },
            success: self.dry_run || success,
        };
        let action = self.evaluate_step_outcome(&self.steps[index], &output);
        let from_step = self.steps[index].number.get();
        let count = self.steps.len();
        proof {
            if let ActionView::Goto(n) = action@ {
                lemma_index_of_step_bound(steps_view(self.steps@), n, 0);
                assert(steps_view(self.steps@).len() == count);
            }
        }
        match self.execute_action(action, from_step) {
            Err(e) => {
                self.phase = Phase::Finished;
                Err(e)
            },
            Ok(StepControl::Next) => self.prompt_from(0),
            Ok(StepControl::JumpTo(target)) => {
                self.current_step = target;
                self.enter()
            },
            Ok(StepControl::Terminate(result)) => {
                self.phase = Phase::Finished;
                Ok(Directive::Finished(result))
            },
        }
    }

    /// Goes on after the operator answered the awaited prompt.
    pub fn prompt_answered(&mut self, affirmative: bool) -> (r: Result<Directive, ExecutionError>)
        requires
            old(self).wf(),
            old(self).phase is AwaitingAnswer,
        ensures
            final(self).wf(),
            final(self).steps == old(self).steps,
            (final(self)@, outcome_view(r)) == after_answer(
                old(self)@,
                old(self).phase->AwaitingAnswer_0 as nat,
                affirmative,
            ),
    {
        let j = match self.phase {
            Phase::AwaitingAnswer(j) => j,
            _ => 0,
        };
        if self.dry_run || affirmative {
            self.prompt_from(j + 1)
        } else {
            self.phase = Phase::Finished;
            Ok(Directive::Finished(ExecutionResult::UserCancelled))
        }
    }
}

} // verus!
verus! {

/// Entering a step once the count of entries has reached the limit, ten per
/// step of the workflow, is a fatal error in either mode; a run that goes on
/// has never entered more steps than that.
pub proof fn lemma_iteration_limit(s: RunnerView)
    requires
        s.current < s.steps.len(),
        s.iterations >= s.max_iterations,
    ensures
        enter(s).1 == Err::<DirectiveView, ExecutionErrorView>(
            ExecutionErrorView::IterationLimit {
                max_iterations: s.max_iterations,
                step: s.steps[s.current as int].number,
                description: s.steps[s.current as int].description,
            },
        ),
{
}

/// Each entry of a step raises the count by one, and no call that goes on
/// leaves the count above the limit.
pub proof fn lemma_entries_bounded(s: RunnerView)
    requires
        s.iterations <= s.max_iterations,
    ensures
        enter(s).1 is Ok && enter(s).0.phase != Phase::Finished ==> enter(s).0.iterations
            <= s.max_iterations && enter(s).0.iterations > s.iterations,
        enter(s).0.max_iterations == s.max_iterations,
    decreases s.steps.len() - s.current,
{
    if s.current < s.steps.len() {
        let t = RunnerView { iterations: s.iterations + 1, ..s };
        let st = s.steps[s.current as int];
        if t.iterations <= t.max_iterations && st.command is None && st.prompts.len() == 0 {
            lemma_entries_bounded(RunnerView { current: s.current + 1, ..t });
        }
    }
}

/// In enforcement mode a step whose selected action is `Continue` or `Goto`
/// acts as if it had no conditions, and a selected `Stop` is always honoured.
pub proof fn lemma_enforcement_falls_back(st: StepView, success: bool)
    ensures
        st.conditions matches Some(c) ==> ({
            let chosen = if success {
                c.pass
            } else {
                c.fail
            };
            &&& !(chosen is Stop) ==> outcome_action(st, success, ExecutionMode::Enforcement)
                == outcome_action(StepView { conditions: None, ..st }, success, ExecutionMode::Enforcement)
            &&& chosen is Stop ==> outcome_action(st, success, ExecutionMode::Enforcement) == chosen
        }),
{
}

} // verus!

verus! {

/// `c` with an ASCII capital letter made small.
pub open spec fn ascii_lower(c: char) -> char {
    if 'A' <= c <= 'Z' {
        ((c as u32) + 32) as char
    } else {
        c
    }
}

/// Whether an operator's answer affirms: `y` or `yes` in any case, around
/// which whitespace is ignored.
pub open spec fn affirms(answer: Seq<char>) -> bool {
    let t = trim(answer);
    t.map_values(|c: char| ascii_lower(c)) == seq!['y'] || t.map_values(|c: char| ascii_lower(c))
        == seq!['y', 'e', 's']
}

/// Whether an operator's answer to a prompt affirms it.
pub fn is_affirmative(answer: &str) -> (r: bool)
    ensures
        r == affirms(answer@),
{
    let t = trimmed(&chars_of(answer));
    let mut lower: Vec<char> = Vec::new();
    let mut i: usize = 0;
    while i < t.len()
        invariant
            i <= t@.len(),
            lower@ == t@.subrange(0, i as int).map_values(|c: char| ascii_lower(c)),
        decreases t@.len() - i,
    {
        let c = t[i];
        let l = if 'A' <= c && c <= 'Z' {
            ((c as u32) + 32) as u8 as char
        } else {
            c
        };
        lower.push(l);
        assert(t@.subrange(0, i + 1) == t@.subrange(0, i as int).push(c));
        assert(lower@ =~= t@.subrange(0, i + 1).map_values(|c: char| ascii_lower(c)));
        i += 1;
    }
    assert(t@.subrange(0, t@.len() as int) == t@);
    let yes = lower.len() == 3 && lower[0] == 'y' && lower[1] == 'e' && lower[2] == 's';
    let y = lower.len() == 1 && lower[0] == 'y';
    assert(y <==> lower@ == seq!['y']) by {
        if lower@ == seq!['y'] {
            assert(lower@[0] == 'y');
        }
        if y {
            assert(lower@ =~= seq!['y']);
        }
    }
    assert(yes <==> lower@ == seq!['y', 'e', 's']) by {
        if lower@ == seq!['y', 'e', 's'] {
            assert(lower@[1] == 'e');
        }
        if yes {
            assert(lower@ =~= seq!['y', 'e', 's']);
        }
    }
    y || yes
}

} // verus!

verus! {

/// In enforcement mode, after a command whose step selects `Continue` or
/// `Goto`, the run goes on exactly as it would by the default action.
pub proof fn lemma_enforcement_run(s: RunnerView, success: bool)
    requires
        s.mode == ExecutionMode::Enforcement,
        s.current < s.steps.len(),
    ensures
        s.steps[s.current as int].conditions matches Some(c) ==> ({
            let ok = s.dry_run || success;
            let chosen = if ok {
                c.pass
            } else {
                c.fail
            };
            &&& !(chosen is Stop) ==> after_command(s, success) == dispatch(s, default_action(ok))
            &&& chosen is Stop ==> after_command(s, success) == dispatch(s, chosen)
        }),
{
}

} // verus!
