//! Reading a whole document: the fold over markdown events that builds steps,
//! the structural validation of the result, and the non-fatal findings.

use vstd::prelude::*;
use crate::markdown::{events_of, markdown_events, MdEvent};
use crate::models::{
    prompts_view, steps_view, Action, ActionView, Command, CommandView, Conditional,
    ConditionalView, Prompt, Step, StepView,
};
use crate::parser::{
    conditional_spec, conditionals_view, conditions_spec, convert_conditionals,
    extract_step_header, parse_conditional, step_header_spec,
};
use crate::text::{
    append_chars, slice_of, chars_of, decimal, decimal_chars, has_word, is_word_at, same_chars,
    string_from, trim, trim_start, trimmed, trimmed_start, word_at,
};

verus! {

/// Why a document is not a workflow.
#[derive(Debug, Clone, Copy, PartialEq, Eq, Structural)]
pub enum ParseError {
    /// A step holds a second `bash` code block.
    MultipleCommands { step: usize },
    /// The document holds no step.
    EmptyWorkflow,
    /// The step at position `expected` carries the number `found`.
    NotSequential { expected: usize, found: usize },
    /// A jump of step `step` names `target`, which is not among the `total` steps.
    MissingTarget { step: usize, target: usize, total: usize },
}

/// The text of a parse error.
pub open spec fn parse_error_text(e: ParseError) -> Seq<char> {
    match e {
        ParseError::MultipleCommands { step } => "Multiple code blocks per step not allowed. Step "@
            + decimal(step as nat)
            + " already has a command block. Suggestion: (1) Combine commands using && or ; operators, or (2) Split into separate steps."@,
        ParseError::EmptyWorkflow => "Workflow must contain at least one step (heading starting with '##')"@,
        ParseError::NotSequential { expected, found } => "Steps must be numbered sequentially. Expected step "@
            + decimal(expected as nat) + ", found step "@ + decimal(found as nat)
            + ".\nWorkflows must have exactly one algorithm with continuous numbering (1, 2, 3...)."@,
        ParseError::MissingTarget { step, target, total } => "Step "@ + decimal(step as nat)
            + ": GOTO target Step "@ + decimal(target as nat) + " does not exist (workflow has "@
            + decimal(total as nat) + " steps)"@,
    }
}

impl ParseError {
    /// The error as a sentence for the operator.
    pub fn message(&self) -> (r: String)
        ensures
            r@ == parse_error_text(*self),
    {
        let mut out: Vec<char> = Vec::new();
        match self {
            ParseError::MultipleCommands { step } => {
                append_chars(&mut out, &chars_of("Multiple code blocks per step not allowed. Step "));
                append_chars(&mut out, &decimal_chars(*step));
                append_chars(
                    &mut out,
                    &chars_of(" already has a command block. Suggestion: (1) Combine commands using && or ; operators, or (2) Split into separate steps."),
                );
            },
            ParseError::EmptyWorkflow => {
                append_chars(
                    &mut out,
                    &chars_of("Workflow must contain at least one step (heading starting with '##')"),
                );
            },
            ParseError::NotSequential { expected, found } => {
                append_chars(&mut out, &chars_of("Steps must be numbered sequentially. Expected step "));
                append_chars(&mut out, &decimal_chars(*expected));
                append_chars(&mut out, &chars_of(", found step "));
                append_chars(&mut out, &decimal_chars(*found));
                append_chars(
                    &mut out,
                    &chars_of(".\nWorkflows must have exactly one algorithm with continuous numbering (1, 2, 3...)."),
                );
            },
            ParseError::MissingTarget { step, target, total } => {
                append_chars(&mut out, &chars_of("Step "));
                append_chars(&mut out, &decimal_chars(*step));
                append_chars(&mut out, &chars_of(": GOTO target Step "));
                append_chars(&mut out, &decimal_chars(*target));
                append_chars(&mut out, &chars_of(" does not exist (workflow has "));
                append_chars(&mut out, &decimal_chars(*total));
                append_chars(&mut out, &chars_of(" steps)"));
            },
        }
        string_from(&out)
    }
}

/// Whether a code block's info string makes it a command: its first word is `bash`.
pub open spec fn lang_is_bash(lang: Seq<char>) -> bool {
    word_at(trim_start(lang), "bash"@, 0)
}

/// Whether a code block's info string holds the word `quiet`.
pub open spec fn lang_is_quiet(lang: Seq<char>) -> bool {
    exists|k: int| word_at(lang, "quiet"@, k)
}

/// The parser's state between two events.
pub struct ParseState {
    /// The finished steps.
    pub steps: Seq<StepView>,
    /// The step being read.
    pub current: Option<StepView>,
    /// The branch directives read since the step began.
    pub pending: Seq<ConditionalView>,
    pub in_code_block: bool,
    pub code: Seq<char>,
    pub lang: Seq<char>,
    pub in_strong: bool,
    pub strong: Seq<char>,
    /// Whether text is going into an explicit prompt.
    pub capturing_prompt: bool,
    pub prompt: Seq<char>,
    /// The level of the level-one or level-two heading being read.
    pub heading: Option<u8>,
    /// The step's plain prose, which may become its prompt.
    pub implicit: Seq<char>,
}

pub open spec fn initial_state() -> ParseState {
    ParseState {
        steps: Seq::empty(),
        current: None,
        pending: Seq::empty(),
        in_code_block: false,
        code: Seq::empty(),
        lang: Seq::empty(),
        in_strong: false,
        strong: Seq::empty(),
        capturing_prompt: false,
        prompt: Seq::empty(),
        heading: None,
        implicit: Seq::empty(),
    }
}

/// A step as it is finished: plain prose becomes its one prompt when it has
/// neither a command nor an explicit prompt.
pub open spec fn with_implicit_prompt(st: StepView, implicit: Seq<char>) -> StepView {
    if st.command is None && st.prompts.len() == 0 && trim(implicit).len() > 0 {
        StepView { prompts: seq![trim(implicit)], ..st }
    } else {
        st
    }
}

/// Finishes the step being read, if any.
pub open spec fn close_step(s: ParseState) -> ParseState {
    match s.current {
        Some(st) => ParseState {
            steps: s.steps.push(
                StepView { conditions: conditions_spec(s.pending), ..with_implicit_prompt(st, s.implicit) },
            ),
            current: None,
            pending: Seq::empty(),
            implicit: Seq::empty(),
            ..s
        },
        None => s,
    }
}

/// Ends an explicit prompt that has collected text.
pub open spec fn flush_prompt(s: ParseState) -> ParseState {
    if s.capturing_prompt && s.prompt.len() > 0 {
        ParseState {
            current: match s.current {
                Some(st) => Some(StepView { prompts: st.prompts.push(trim(s.prompt)), ..st }),
                None => None,
            },
            prompt: Seq::empty(),
            capturing_prompt: false,
            ..s
        }
    } else {
        s
    }
}

/// Whether prose here belongs to the step being read.
pub open spec fn in_step_prose(s: ParseState) -> bool {
    !s.in_code_block && s.heading is None && s.current is Some
}

pub open spec fn text_event(s: ParseState, t: Seq<char>) -> ParseState {
    if s.in_code_block {
        ParseState { code: s.code + t, ..s }
    } else if s.in_strong {
        ParseState { strong: s.strong + t, ..s }
    } else if s.capturing_prompt {
        ParseState { prompt: s.prompt + t, ..s }
    } else if s.heading == Some(2u8) {
        match step_header_spec(t) {
            Some((n, title)) => ParseState {
                current: Some(
                    StepView {
                        number: n,
                        description: title,
                        command: None,
                        prompts: Seq::empty(),
                        conditions: None,
                    },
                ),
                pending: Seq::empty(),
                ..s
            },
            None => s,
        }
    } else {
        match conditional_spec(t) {
            Some(c) => ParseState { pending: s.pending.push(c), ..s },
            None => if s.heading is None && s.current is Some {
                ParseState { implicit: s.implicit + t, ..s }
            } else {
                s
            },
        }
    }
}

/// Inline code, kept with its backticks.
pub open spec fn code_event(s: ParseState, c: Seq<char>) -> ParseState {
    let quoted = seq!['`'] + c + seq!['`'];
    if s.capturing_prompt {
        ParseState { prompt: s.prompt + quoted, ..s }
    } else if in_step_prose(s) {
        ParseState { implicit: s.implicit + quoted, ..s }
    } else {
        s
    }
}

/// A line break, kept as a newline.
pub open spec fn break_event(s: ParseState) -> ParseState {
    if s.capturing_prompt {
        ParseState { prompt: s.prompt.push('\n'), ..s }
    } else if in_step_prose(s) {
        ParseState { implicit: s.implicit.push('\n'), ..s }
    } else {
        s
    }
}

pub open spec fn code_block_end(s: ParseState) -> Result<ParseState, ParseError> {
    let closed = ParseState { in_code_block: false, code: Seq::empty(), lang: Seq::empty(), ..s };
    match s.current {
        Some(st) => if lang_is_bash(s.lang) {
            if st.command is Some {
                Err(ParseError::MultipleCommands { step: st.number as usize })
            } else {
                Ok(
                    ParseState {
                        current: Some(
                            StepView {
                                command: Some(
                                    CommandView { code: trim(s.code), quiet: lang_is_quiet(s.lang) },
                                ),
                                ..st
                            },
                        ),
                        ..closed
                    },
                )
            }
        } else {
            Ok(closed)
        },
        None => Ok(closed),
    }
}

/// The state after one event.
pub open spec fn apply_event(s: ParseState, e: MdEvent) -> Result<ParseState, ParseError> {
    match e {
        MdEvent::HeadingStart(l) => Ok(
            if l == 1 || l == 2 {
                ParseState { heading: Some(l), ..close_step(s) }
            } else {
                s
            },
        ),
        MdEvent::HeadingEnd => Ok(ParseState { heading: None, ..s }),
        MdEvent::CodeBlockStart(lang) => {
            let f = flush_prompt(s);
            Ok(
                ParseState {
                    in_code_block: true,
                    code: Seq::empty(),
                    lang: match lang {
                        Some(l) => l@,
                        None => f.lang,
                    },
                    ..f
                },
            )
        },
        MdEvent::CodeBlockEnd => code_block_end(s),
        MdEvent::StrongStart => Ok(ParseState { in_strong: true, strong: Seq::empty(), ..flush_prompt(s) }),
        MdEvent::StrongEnd => Ok(
            ParseState {
                in_strong: false,
                strong: Seq::empty(),
                capturing_prompt: s.capturing_prompt || trim(s.strong) == "Prompt:"@,
                ..s
            },
        ),
        MdEvent::ParagraphEnd => Ok(flush_prompt(s)),
        MdEvent::Text(t) => Ok(text_event(s, t@)),
        MdEvent::Code(c) => Ok(code_event(s, c@)),
        MdEvent::SoftBreak => Ok(break_event(s)),
        MdEvent::HardBreak => Ok(break_event(s)),
        MdEvent::Other => Ok(s),
    }
}

/// The state after a sequence of events, or the first error.
pub open spec fn fold_events(evs: Seq<MdEvent>) -> Result<ParseState, ParseError>
    decreases evs.len(),
{
    if evs.len() == 0 {
        Ok(initial_state())
    } else {
        match fold_events(evs.drop_last()) {
            Ok(s) => apply_event(s, evs.last()),
            Err(e) => Err(e),
        }
    }
}

/// The steps that a sequence of events builds, before validation.
pub open spec fn collected_steps(evs: Seq<MdEvent>) -> Result<Seq<StepView>, ParseError> {
    match fold_events(evs) {
        Ok(s) => Ok(close_step(s).steps),
        Err(e) => Err(e),
    }
}

/// The value of the step being read.
pub open spec fn current_view(c: Option<Step>) -> Option<StepView> {
    match c {
        Some(st) => Some(st@),
        None => None,
    }
}

/// Finishes a step: when it has neither a command nor a prompt and `implicit`
/// holds more than whitespace, the trimmed prose becomes its one prompt.
pub fn attach_implicit_prompt(step: &mut Step, implicit: &[char])
    ensures
        final(step)@ == with_implicit_prompt(old(step)@, implicit@),
        old(step).command is Some ==> final(step).prompts@ == old(step).prompts@,
        old(step).command is None && old(step).prompts.len() == 0 && trim(implicit@).len() > 0
            ==> prompts_view(final(step).prompts@) == seq![trim(implicit@)],
{
    let text = trimmed(implicit);
    if step.command.is_none() && step.prompts.len() == 0 && text.len() > 0 {
        step.prompts.push(Prompt { text: string_from(&text) });
        assert(prompts_view(step.prompts@) =~= seq![trim(implicit@)]);
    }
}

/// Adds a prompt to a step.
fn push_prompt(step: &mut Step, text: String)
    ensures
        final(step)@ == (StepView { prompts: old(step)@.prompts.push(text@), ..old(step)@ }),
{
    step.prompts.push(Prompt { text });
    assert(prompts_view(step.prompts@) =~= prompts_view(old(step).prompts@).push(text@));
}

/// Reads workflow steps from markdown events, one event at a time.
struct DocumentParser {
    steps: Vec<Step>,
    current: Option<Step>,
    pending: Vec<Conditional>,
    in_code_block: bool,
    code: Vec<char>,
    lang: Vec<char>,
    in_strong: bool,
    strong: Vec<char>,
    capturing_prompt: bool,
    prompt: Vec<char>,
    heading: Option<u8>,
    implicit: Vec<char>,
}

impl View for DocumentParser {
    type V = ParseState;

    closed spec fn view(&self) -> ParseState {
        ParseState {
            steps: steps_view(self.steps@),
            current: current_view(self.current),
            pending: conditionals_view(self.pending@),
            in_code_block: self.in_code_block,
            code: self.code@,
            lang: self.lang@,
            in_strong: self.in_strong,
            strong: self.strong@,
            capturing_prompt: self.capturing_prompt,
            prompt: self.prompt@,
            heading: self.heading,
            implicit: self.implicit@,
        }
    }
}

impl DocumentParser {
    fn new() -> (r: DocumentParser)
        ensures
            r@ == initial_state(),
    {
        let r = DocumentParser {
            steps: Vec::new(),
            current: None,
            pending: Vec::new(),
            in_code_block: false,
            code: Vec::new(),
            lang: Vec::new(),
            in_strong: false,
            strong: Vec::new(),
            capturing_prompt: false,
            prompt: Vec::new(),
            heading: None,
            implicit: Vec::new(),
        };
        assert(r@ =~= initial_state()) by {
            assert(steps_view(r.steps@) =~= Seq::empty());
            assert(conditionals_view(r.pending@) =~= Seq::empty());
        }
        r
    }

    fn take_current(&mut self) -> (r: Option<Step>)
        ensures
            r == old(self).current,
            final(self).current is None,
            final(self).steps == old(self).steps,
            final(self).pending == old(self).pending,
            final(self)@ == (ParseState { current: None, ..old(self)@ }),
    {
        let mut cur: Option<Step> = None;
        std::mem::swap(&mut cur, &mut self.current);
        cur
    }

    fn flush_prompt(&mut self)
        ensures
            final(self)@ == flush_prompt(old(self)@),
    {
        if self.capturing_prompt && self.prompt.len() > 0 {
            let text = string_from(&trimmed(&self.prompt));
            match self.take_current() {
                Some(mut st) => {
                    push_prompt(&mut st, text);
                    self.current = Some(st);
                },
                None => {},
            }
            self.prompt = Vec::new();
            self.capturing_prompt = false;
            assert(self@ =~= flush_prompt(old(self)@));
        }
    }

    fn close_step(&mut self)
        ensures
            final(self)@ == close_step(old(self)@),
    {
        match self.take_current() {
            Some(mut st) => {
                attach_implicit_prompt(&mut st, &self.implicit);
                let mut pending: Vec<Conditional> = Vec::new();
                std::mem::swap(&mut pending, &mut self.pending);
                st.conditions = convert_conditionals(pending);
                self.steps.push(st);
                self.implicit = Vec::new();
                assert(steps_view(self.steps@) =~= steps_view(old(self).steps@).push(st@));
                assert(conditionals_view(self.pending@) =~= Seq::empty());
                assert(self@ =~= close_step(old(self)@));
            },
            None => {},
        }
    }

    fn code_block_end(&mut self) -> (r: Result<(), ParseError>)
        ensures
            match r {
                Ok(()) => code_block_end(old(self)@) == Ok::<ParseState, ParseError>(final(self)@),
                Err(e) => code_block_end(old(self)@) == Err::<ParseState, ParseError>(e),
            },
    {
        let head = trimmed_start(&self.lang);
        let is_bash = is_word_at(&head, &chars_of("bash"), 0);
        let quiet = has_word(&self.lang, &chars_of("quiet"));
        let code = trimmed(&self.code);
        self.in_code_block = false;
        self.code = Vec::new();
        self.lang = Vec::new();
        if is_bash {
            match self.take_current() {
                Some(mut st) => {
                    if st.command.is_some() {
                        return Err(ParseError::MultipleCommands { step: st.number.get() });
                    }
                    st.command = Some(Command { code: string_from(&code), quiet });
                    self.current = Some(st);
                },
                None => {},
            }
        }
        assert(self@ =~= code_block_end(old(self)@)->Ok_0);
        Ok(())
    }

    fn text_event(&mut self, t: &Vec<char>)
        ensures
            final(self)@ == text_event(old(self)@, t@),
    {
        if self.in_code_block {
            append_chars(&mut self.code, t);
        } else if self.in_strong {
            append_chars(&mut self.strong, t);
        } else if self.capturing_prompt {
            append_chars(&mut self.prompt, t);
        } else if self.heading == Some(2u8) {
            match extract_step_header(t) {
                Some((number, title)) => {
                    self.current = Some(
                        Step {
                            number,
                            description: string_from(&title),
                            command: None,
                            prompts: Vec::new(),
                            conditions: None,
                        },
                    );
                    self.pending = Vec::new();
                    assert(prompts_view(Seq::<Prompt>::empty()) =~= Seq::empty());
                    assert(conditionals_view(self.pending@) =~= Seq::empty());
                },
                None => {},
            }
        } else {
            match parse_conditional(t) {
                Some(c) => {
                    self.pending.push(c);
                    assert(conditionals_view(self.pending@) =~= conditionals_view(
                        old(self).pending@,
                    ).push(c@));
                },
                None => {
                    if self.heading.is_none() && self.current.is_some() {
                        append_chars(&mut self.implicit, t);
                    }
                },
            }
        }
        assert(self@ =~= text_event(old(self)@, t@));
    }

    fn code_event(&mut self, c: &Vec<char>)
        ensures
            final(self)@ == code_event(old(self)@, c@),
    {
        let mut quoted: Vec<char> = Vec::new();
        quoted.push('`');
        append_chars(&mut quoted, c);
        quoted.push('`');
        assert(quoted@ =~= seq!['`'] + c@ + seq!['`']);
        if self.capturing_prompt {
            append_chars(&mut self.prompt, &quoted);
        } else if !self.in_code_block && self.heading.is_none() && self.current.is_some() {
            append_chars(&mut self.implicit, &quoted);
        }
        assert(self@ =~= code_event(old(self)@, c@));
    }

    fn break_event(&mut self)
        ensures
            final(self)@ == break_event(old(self)@),
    {
        if self.capturing_prompt {
            self.prompt.push('\n');
        } else if !self.in_code_block && self.heading.is_none() && self.current.is_some() {
            self.implicit.push('\n');
        }
        assert(self@ =~= break_event(old(self)@));
    }

    /// Takes in one event.
    fn apply(&mut self, e: &MdEvent) -> (r: Result<(), ParseError>)
        ensures
            match r {
                Ok(()) => apply_event(old(self)@, *e) == Ok::<ParseState, ParseError>(final(self)@),
                Err(err) => apply_event(old(self)@, *e) == Err::<ParseState, ParseError>(err),
            },
    {
        match e {
            MdEvent::HeadingStart(l) => {
                if *l == 1 || *l == 2 {
                    self.close_step();
                    self.heading = Some(*l);
                    assert(self@ =~= (ParseState { heading: Some(*l), ..close_step(old(self)@) }));
                }
            },
            MdEvent::HeadingEnd => {
                self.heading = None;
                assert(self@ =~= (ParseState { heading: None, ..old(self)@ }));
            },
            MdEvent::CodeBlockStart(lang) => {
                self.flush_prompt();
                let ghost f = self@;
                self.in_code_block = true;
                self.code = Vec::new();
                match lang {
                    Some(l) => {
                        self.lang = slice_of(l, 0, l.len());
                        assert(l@.subrange(0, l@.len() as int) == l@);
                    },
                    None => {},
                }
                assert(self@ =~= (ParseState {
                    in_code_block: true,
                    code: Seq::empty(),
                    lang: match lang {
                        Some(l) => l@,
                        None => f.lang,
                    },
                    ..f
                }));
            },
            MdEvent::CodeBlockEnd => {
                return self.code_block_end();
            },
            MdEvent::StrongStart => {
                self.flush_prompt();
                let ghost f = self@;
                self.in_strong = true;
                self.strong = Vec::new();
                assert(self@ =~= (ParseState { in_strong: true, strong: Seq::empty(), ..f }));
            },
            MdEvent::StrongEnd => {
                let label = trimmed(&self.strong);
                if same_chars(&label, &chars_of("Prompt:")) {
                    self.capturing_prompt = true;
                }
                self.in_strong = false;
                self.strong = Vec::new();
                assert(self@ =~= (ParseState {
                    in_strong: false,
                    strong: Seq::empty(),
                    capturing_prompt: old(self)@.capturing_prompt || trim(old(self)@.strong)
                        == "Prompt:"@,
                    ..old(self)@
                }));
            },
            MdEvent::ParagraphEnd => {
                self.flush_prompt();
            },
            MdEvent::Text(t) => {
                self.text_event(t);
            },
            MdEvent::Code(c) => {
                self.code_event(c);
            },
            MdEvent::SoftBreak => {
                self.break_event();
            },
            MdEvent::HardBreak => {
                self.break_event();
            },
            MdEvent::Other => {},
        }
        Ok(())
    }
}

} // verus!
verus! {

/// The position of the first step whose number is not its position plus one.
pub open spec fn first_misnumbered(steps: Seq<StepView>, i: nat) -> Option<nat>
    decreases steps.len() - i,
{
    if i >= steps.len() {
        None
    } else if steps[i as int].number != i + 1 {
        Some(i)
    } else {
        first_misnumbered(steps, i + 1)
    }
}

/// The error of a jump from step `number` when its target is not among `total` steps.
pub open spec fn target_error(number: nat, a: ActionView, total: nat) -> Option<ParseError> {
    match a {
        ActionView::Goto(t) => if t < 1 || t > total {
            Some(
                ParseError::MissingTarget {
                    step: number as usize,
                    target: t as usize,
                    total: total as usize,
                },
            )
        } else {
            None
        },
        _ => None,
    }
}

/// The first unresolvable jump of a step: its `pass` branch, then its `fail` branch.
pub open spec fn step_target_error(st: StepView, total: nat) -> Option<ParseError> {
    match st.conditions {
        Some(c) => match target_error(st.number, c.pass, total) {
            Some(e) => Some(e),
            None => target_error(st.number, c.fail, total),
        },
        None => None,
    }
}

/// The first unresolvable jump among the steps from position `i` on.
pub open spec fn first_target_error(steps: Seq<StepView>, i: nat) -> Option<ParseError>
    decreases steps.len() - i,
{
    if i >= steps.len() {
        None
    } else {
        match step_target_error(steps[i as int], steps.len()) {
            Some(e) => Some(e),
            None => first_target_error(steps, i + 1),
        }
    }
}

/// The steps, once they are known to be a workflow: not empty, numbered
/// `1..N` in order, every jump landing on a step.
pub open spec fn validated(steps: Seq<StepView>) -> Result<Seq<StepView>, ParseError> {
    if steps.len() == 0 {
        Err(ParseError::EmptyWorkflow)
    } else {
        match first_misnumbered(steps, 0) {
            Some(i) => Err(
                ParseError::NotSequential {
                    expected: (i + 1) as usize,
                    found: steps[i as int].number as usize,
                },
            ),
            None => match first_target_error(steps, 0) {
                Some(e) => Err(e),
                None => Ok(steps),
            },
        }
    }
}

/// The workflow that a sequence of markdown events describes.
pub open spec fn workflow_of_events(evs: Seq<MdEvent>) -> Result<Seq<StepView>, ParseError> {
    match collected_steps(evs) {
        Ok(steps) => validated(steps),
        Err(e) => Err(e),
    }
}

/// The workflow that a markdown document describes.
pub open spec fn workflow_spec(md: Seq<char>) -> Result<Seq<StepView>, ParseError> {
    workflow_of_events(markdown_events(md))
}

/// The value of a parse result.
pub open spec fn result_view(r: Result<Vec<Step>, ParseError>) -> Result<Seq<StepView>, ParseError> {
    match r {
        Ok(steps) => Ok(steps_view(steps@)),
        Err(e) => Err(e),
    }
}

/// A non-fatal finding about a parsed workflow.
#[derive(Debug, Clone, Copy, PartialEq, Eq, Structural)]
pub enum ValidationWarning {
    /// The step has neither a command nor a prompt.
    EmptyStep { step: usize },
    /// A branch of the step jumps to the step itself.
    SelfJump { step: usize },
}

/// The findings about one step: an empty step, then a self-jump of `pass`,
/// then one of `fail`.
pub open spec fn step_warnings(st: StepView) -> Seq<ValidationWarning> {
    let n = st.number as usize;
    let empty = if st.command is None && st.prompts.len() == 0 {
        seq![ValidationWarning::EmptyStep { step: n }]
    } else {
        Seq::empty()
    };
    let jumps = match st.conditions {
        Some(c) => (if c.pass == ActionView::Goto(st.number) {
            seq![ValidationWarning::SelfJump { step: n }]
        } else {
            Seq::empty()
        }) + (if c.fail == ActionView::Goto(st.number) {
            seq![ValidationWarning::SelfJump { step: n }]
        } else {
            Seq::empty()
        }),
        None => Seq::empty(),
    };
    empty + jumps
}

/// The findings about a list of steps, in step order.
pub open spec fn warnings_spec(steps: Seq<StepView>) -> Seq<ValidationWarning>
    decreases steps.len(),
{
    if steps.len() == 0 {
        Seq::empty()
    } else {
        warnings_spec(steps.drop_last()) + step_warnings(steps.last())
    }
}

fn is_self_jump(a: &Action, number: usize) -> (r: bool)
    ensures
        r == (a@ == ActionView::Goto(number as nat)),
{
    match a {
        Action::Goto(t) => t.get() == number,
        _ => false,
    }
}

/// The non-fatal findings about a workflow: steps that do nothing, and steps
/// that jump to themselves.
pub fn validation_warnings(steps: &Vec<Step>) -> (r: Vec<ValidationWarning>)
    ensures
        r@ == warnings_spec(steps_view(steps@)),
{
    let ghost sv = steps_view(steps@);
    let mut out: Vec<ValidationWarning> = Vec::new();
    let mut i: usize = 0;
    while i < steps.len()
        invariant
            i <= steps@.len(),
            sv == steps_view(steps@),
            out@ == warnings_spec(sv.subrange(0, i as int)),
        decreases steps@.len() - i,
    {
        let st = &steps[i];
        let n = st.number.get();
        let ghost before = out@;
        if st.command.is_none() && st.prompts.len() == 0 {
            out.push(ValidationWarning::EmptyStep { step: n });
        }
        match &st.conditions {
            Some(c) => {
                if is_self_jump(&c.pass, n) {
                    out.push(ValidationWarning::SelfJump { step: n });
                }
                if is_self_jump(&c.fail, n) {
                    out.push(ValidationWarning::SelfJump { step: n });
                }
            },
            None => {},
        }
        assert(sv.subrange(0, i + 1).drop_last() == sv.subrange(0, i as int));
        assert(sv[i as int] == st@);
        assert(out@ =~= before + step_warnings(st@));
        i += 1;
    }
    assert(sv.subrange(0, steps@.len() as int) == sv);
    out
}

/// Checks that the steps are numbered `1..N` in order.
fn check_numbering(steps: &Vec<Step>) -> (r: Result<(), ParseError>)
    ensures
        match first_misnumbered(steps_view(steps@), 0) {
            Some(i) => r == Err::<(), ParseError>(
                ParseError::NotSequential {
                    expected: (i + 1) as usize,
                    found: steps_view(steps@)[i as int].number as usize,
                },
            ),
            None => r is Ok,
        },
{
    let ghost sv = steps_view(steps@);
    let mut i: usize = 0;
    while i < steps.len()
        invariant
            i <= steps@.len(),
            sv == steps_view(steps@),
            first_misnumbered(sv, 0) == first_misnumbered(sv, i as nat),
        decreases steps@.len() - i,
    {
        let found = steps[i].number.get();
        if found != i + 1 {
            return Err(ParseError::NotSequential { expected: i + 1, found });
        }
        i += 1;
    }
    Ok(())
}

fn jump_error(number: usize, a: &Action, total: usize) -> (r: Option<ParseError>)
    ensures
        r == target_error(number as nat, a@, total as nat),
{
    match a {
        Action::Goto(t) => {
            let target = t.get();
            if target < 1 || target > total {
                Some(ParseError::MissingTarget { step: number, target, total })
            } else {
                None
            }
        },
        _ => None,
    }
}

/// Checks that every jump names a step of the workflow.
fn validate_workflow(steps: &Vec<Step>) -> (r: Result<(), ParseError>)
    ensures
        match first_target_error(steps_view(steps@), 0) {
            Some(e) => r == Err::<(), ParseError>(e),
            None => r is Ok,
        },
{
    let ghost sv = steps_view(steps@);
    let total = steps.len();
    let mut i: usize = 0;
    while i < total
        invariant
            i <= total == steps@.len(),
            sv == steps_view(steps@),
            first_target_error(sv, 0) == first_target_error(sv, i as nat),
        decreases total - i,
    {
        let st = &steps[i];
        assert(sv[i as int] == st@);
        match &st.conditions {
            Some(c) => {
                let n = st.number.get();
                match jump_error(n, &c.pass, total) {
                    Some(e) => return Err(e),
                    None => {},
                }
                match jump_error(n, &c.fail, total) {
                    Some(e) => return Err(e),
                    None => {},
                }
            },
            None => {},
        }
        i += 1;
    }
    Ok(())
}

proof fn lemma_fold_error_persists(evs: Seq<MdEvent>, k: int)
    requires
        0 <= k <= evs.len(),
        fold_events(evs.subrange(0, k)) is Err,
    ensures
        fold_events(evs) == fold_events(evs.subrange(0, k)),
    decreases evs.len() - k,
{
    if k == evs.len() {
        assert(evs.subrange(0, k) == evs);
    } else {
        let d = evs.drop_last();
        assert(d.subrange(0, k) == evs.subrange(0, k));
        lemma_fold_error_persists(d, k);
    }
}

/// Reads a workflow from a sequence of markdown events.
pub fn parse_events(events: &Vec<MdEvent>) -> (r: Result<Vec<Step>, ParseError>)
    ensures
        result_view(r) == workflow_of_events(events@),
{
    let mut p = DocumentParser::new();
    let n = events.len();
    let mut i: usize = 0;
    assert(events@.subrange(0, 0) == Seq::<MdEvent>::empty());
    while i < n
        invariant
            i <= n == events@.len(),
            fold_events(events@.subrange(0, i as int)) == Ok::<ParseState, ParseError>(p@),
        decreases n - i,
    {
        assert(events@.subrange(0, i + 1).drop_last() == events@.subrange(0, i as int));
        assert(events@.subrange(0, i + 1).last() == events@[i as int]);
        match p.apply(&events[i]) {
            Ok(()) => {},
            Err(e) => {
                proof {
                    lemma_fold_error_persists(events@, i + 1);
                }
                return Err(e);
            },
        }
        i += 1;
    }
    assert(events@.subrange(0, n as int) == events@);
    p.close_step();
    let steps = p.steps;
    assert(steps_view(steps@) == close_step(fold_events(events@)->Ok_0).steps);
    if steps.len() == 0 {
        return Err(ParseError::EmptyWorkflow);
    }
    match check_numbering(&steps) {
        Err(e) => return Err(e),
        Ok(()) => {},
    }
    match validate_workflow(&steps) {
        Err(e) => return Err(e),
        Ok(()) => {},
    }
    Ok(steps)
}

/// Reads a workflow from markdown text.
pub fn parse_workflow(markdown: &str) -> (r: Result<Vec<Step>, ParseError>)
    ensures
        result_view(r) == workflow_spec(markdown@),
{
    let events = events_of(markdown);
    parse_events(&events)
}

} // verus!

verus! {

proof fn lemma_first_misnumbered(steps: Seq<StepView>, i: nat)
    requires
        i <= steps.len(),
        forall|j: int| 0 <= j < i ==> #[trigger] steps[j].number == j + 1,
    ensures
        first_misnumbered(steps, i) matches Some(k) ==> i <= k < steps.len() && steps[k as int].number
            != k + 1 && forall|j: int| 0 <= j < k ==> #[trigger] steps[j].number == j + 1,
        first_misnumbered(steps, i) is None ==> forall|j: int|
            0 <= j < steps.len() ==> #[trigger] steps[j].number == j + 1,
    decreases steps.len() - i,
{
    if i < steps.len() && steps[i as int].number == i + 1 {
        lemma_first_misnumbered(steps, i + 1);
    }
}

/// Step numbers of a parsed workflow are exactly `1..N` in order; when the
/// steps of a document are numbered otherwise, parsing fails with an error
/// that names the first position whose number is wrong and the number found
/// there.
pub proof fn lemma_sequential_numbering(md: Seq<char>)
    ensures
        workflow_spec(md) matches Ok(steps) ==> steps.len() > 0 && forall|i: int|
            0 <= i < steps.len() ==> #[trigger] steps[i].number == i + 1,
        collected_steps(markdown_events(md)) matches Ok(steps) ==> forall|k: int|
            0 <= k < steps.len() && #[trigger] steps[k].number != k + 1 && (forall|j: int|
                0 <= j < k ==> #[trigger] steps[j].number == j + 1) ==> workflow_spec(md)
                == Err::<Seq<StepView>, ParseError>(
                ParseError::NotSequential {
                    expected: (k + 1) as usize,
                    found: steps[k].number as usize,
                },
            ),
{
    match collected_steps(markdown_events(md)) {
        Ok(steps) => {
            lemma_first_misnumbered(steps, 0);
            assert forall|k: int|
                0 <= k < steps.len() && steps[k].number != k + 1 && (forall|j: int|
                    0 <= j < k ==> #[trigger] steps[j].number == j + 1) implies first_misnumbered(
                steps,
                0,
            ) == Some(k as nat) by {
                match first_misnumbered(steps, 0) {
                    Some(f) => {
                        if f < k {
                            assert(steps[f as int].number == f + 1);
                        } else if f > k {
                            assert(steps[k].number == k + 1);
                        }
                    },
                    None => {
                        assert(steps[k].number == k + 1);
                    },
                }
            }
        },
        Err(_) => {},
    }
}

} // verus!

verus! {

/// When a step is finished, plain prose becomes its one prompt, with the
/// prose's text trimmed, exactly when the step has no command and no explicit
/// prompt; a step with a command keeps its prompts as they were.
pub proof fn lemma_implicit_prompt(s: ParseState)
    requires
        s.current is Some,
    ensures
        ({
            let st = s.current->0;
            let done = close_step(s).steps.last();
            &&& close_step(s).steps.len() == s.steps.len() + 1
            &&& st.command is None && st.prompts.len() == 0 && trim(s.implicit).len() > 0
                ==> done.prompts == seq![trim(s.implicit)]
            &&& st.command is Some ==> done.prompts == st.prompts
        }),
{
}

} // verus!
