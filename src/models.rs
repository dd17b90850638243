//! The step model: step numbers, commands, prompts, actions and conditions,
//! with their mathematical values.

use vstd::prelude::*;

verus! {

/// A step's position in a workflow and the target of a jump: a positive integer.
#[derive(Debug, Clone, Copy, PartialEq, Eq, PartialOrd, Ord, Hash, Structural)]
pub struct StepNumber(usize);

impl View for StepNumber {
    type V = nat;

    closed spec fn view(&self) -> nat {
        self.0 as nat
    }
}

impl StepNumber {
    #[verifier::type_invariant]
    closed spec fn positive(self) -> bool {
        self.0 > 0
    }

    /// The step number `n`, or `None` when `n` is zero.
    pub fn new(n: usize) -> (r: Option<StepNumber>)
        ensures
            r is Some <==> n > 0,
            r matches Some(s) ==> s@ == n,
    {
        if n == 0 {
            None
        } else {
            Some(StepNumber(n))
        }
    }

    pub fn get(&self) -> (r: usize)
        ensures
            r == self@,
            r > 0,
    {
        proof {
            use_type_invariant(self);
        }
        self.0
    }
}

/// A single shell command line; `quiet` hides its standard output when it succeeds.
#[derive(Debug, Clone, PartialEq)]
pub struct Command {
    pub code: String,
    pub quiet: bool,
}

/// A yes/no question put to the operator.
#[derive(Debug, Clone, PartialEq)]
pub struct Prompt {
    pub text: String,
}

/// What happens after a step's command has run.
#[derive(Debug, Clone, PartialEq)]
pub enum Action {
    /// Advance to the next step.
    Continue,
    /// End the workflow, reporting the message if there is one.
    Stop(Option<String>),
    /// Jump to the step with this number.
    Goto(StepNumber),
}

/// One branching directive as written in a step: the action for success or for failure.
#[derive(Debug, Clone, PartialEq)]
pub enum Conditional {
    Pass { action: Action },
    Fail { action: Action },
}

/// The pair of actions bound to a step: both branches are always present.
#[derive(Debug, Clone, PartialEq)]
pub struct Conditions {
    pub pass: Action,
    pub fail: Action,
}

/// One numbered unit of a workflow.
#[derive(Debug, Clone, PartialEq)]
pub struct Step {
    pub number: StepNumber,
    pub description: String,
    pub command: Option<Command>,
    pub prompts: Vec<Prompt>,
    pub conditions: Option<Conditions>,
}

/// The mathematical value of a [`Command`].
pub struct CommandView {
    pub code: Seq<char>,
    pub quiet: bool,
}

/// The mathematical value of an [`Action`].
pub enum ActionView {
    Continue,
    Stop(Option<Seq<char>>),
    Goto(nat),
}

/// The mathematical value of a [`Conditional`].
pub enum ConditionalView {
    Pass(ActionView),
    Fail(ActionView),
}

/// The mathematical value of [`Conditions`].
pub struct ConditionsView {
    pub pass: ActionView,
    pub fail: ActionView,
}

/// The mathematical value of a [`Step`]: prompts are their texts.
pub struct StepView {
    pub number: nat,
    pub description: Seq<char>,
    pub command: Option<CommandView>,
    pub prompts: Seq<Seq<char>>,
    pub conditions: Option<ConditionsView>,
}

impl View for Command {
    type V = CommandView;

    open spec fn view(&self) -> CommandView {
        CommandView { code: self.code@, quiet: self.quiet }
    }
}

impl View for Prompt {
    type V = Seq<char>;

    open spec fn view(&self) -> Seq<char> {
        self.text@
    }
}

impl View for Action {
    type V = ActionView;

    open spec fn view(&self) -> ActionView {
        match self {
            Action::Continue => ActionView::Continue,
            Action::Stop(m) => ActionView::Stop(
                match m {
                    Some(s) => Some(s@),
                    None => None,
                },
            ),
            Action::Goto(n) => ActionView::Goto(n@),
        }
    }
}

impl View for Conditional {
    type V = ConditionalView;

    open spec fn view(&self) -> ConditionalView {
        match self {
            Conditional::Pass { action } => ConditionalView::Pass(action@),
            Conditional::Fail { action } => ConditionalView::Fail(action@),
        }
    }
}

impl View for Conditions {
    type V = ConditionsView;

    open spec fn view(&self) -> ConditionsView {
        ConditionsView { pass: self.pass@, fail: self.fail@ }
    }
}

/// The texts of a list of prompts.
pub open spec fn prompts_view(ps: Seq<Prompt>) -> Seq<Seq<char>> {
    ps.map_values(|p: Prompt| p@)
}

impl View for Step {
    type V = StepView;

    open spec fn view(&self) -> StepView {
        StepView {
            number: self.number@,
            description: self.description@,
            command: match self.command {
                Some(c) => Some(c@),
                None => None,
            },
            prompts: prompts_view(self.prompts@),
            conditions: match self.conditions {
                Some(c) => Some(c@),
                None => None,
            },
        }
    }
}

/// The values of a list of steps.
pub open spec fn steps_view(steps: Seq<Step>) -> Seq<StepView> {
    steps.map_values(|s: Step| s@)
}

impl Action {
    /// A copy of this action.
    pub fn duplicate(&self) -> (r: Action)
        ensures
            r == *self,
    {
        match self {
            Action::Continue => Action::Continue,
            Action::Stop(None) => Action::Stop(None),
            Action::Stop(Some(m)) => Action::Stop(Some(m.clone())),
            Action::Goto(n) => Action::Goto(*n),
        }
    }
}

} // verus!
