//! The directive grammar inside a step: headings, actions, and branch
//! directives in their current and older spellings.

use vstd::prelude::*;
use crate::models::{
    Action, ActionView, Conditional, ConditionalView, Conditions, ConditionsView, StepNumber,
};
use crate::text::{
    char_is_numeric, chars_of, has_prefix, is_numeric_char, parse_usize, same_chars, slice_of,
    starts_with, string_from, trim, trimmed, usize_of,
};

verus! {

/// Characters that may stand between a number or keyword and what follows it.
pub open spec fn is_separator(c: char) -> bool {
    c == '.' || c == ':' || c == '-' || c == ')' || c == ' '
}

/// `s` without its leading separator characters.
pub open spec fn skip_separators(s: Seq<char>) -> Seq<char>
    decreases s.len(),
{
    if s.len() > 0 && is_separator(s[0]) {
        skip_separators(s.drop_first())
    } else {
        s
    }
}

/// `s` without leading separators, then without surrounding whitespace.
pub open spec fn strip_separator_spec(s: Seq<char>) -> Seq<char> {
    trim(skip_separators(s))
}

proof fn lemma_skip_separators_at(s: Seq<char>, i: int)
    requires
        0 <= i <= s.len(),
        forall|k: int| 0 <= k < i ==> is_separator(#[trigger] s[k]),
        i == s.len() || !is_separator(s[i]),
    ensures
        skip_separators(s) == s.subrange(i, s.len() as int),
    decreases i,
{
    if i > 0 {
        lemma_skip_separators_at(s.drop_first(), i - 1);
        assert(s.drop_first().subrange(i - 1, s.len() - 1) == s.subrange(i, s.len() as int));
    } else {
        assert(s.subrange(0, s.len() as int) == s);
    }
}

/// Strips the separators that follow a step number or a branch keyword.
pub fn strip_separator(text: &[char]) -> (r: Vec<char>)
    ensures
        r@ == strip_separator_spec(text@),
{
    let n = text.len();
    let mut i: usize = 0;
    while i < n && (text[i] == '.' || text[i] == ':' || text[i] == '-' || text[i] == ')'
        || text[i] == ' ')
        invariant
            i <= n == text@.len(),
            forall|k: int| 0 <= k < i ==> is_separator(#[trigger] text@[k]),
        decreases n - i,
    {
        i += 1;
    }
    proof {
        lemma_skip_separators_at(text@, i as int);
    }
    let rest = slice_of(text, i, n);
    trimmed(&rest)
}

/// The length of the run of numeric characters that `s` begins with.
pub open spec fn numeric_run(s: Seq<char>) -> nat
    decreases s.len(),
{
    if s.len() > 0 && is_numeric_char(s[0]) {
        1 + numeric_run(s.drop_first())
    } else {
        0
    }
}

proof fn lemma_numeric_run_at(s: Seq<char>, i: int)
    requires
        0 <= i <= s.len(),
        forall|k: int| 0 <= k < i ==> is_numeric_char(#[trigger] s[k]),
        i == s.len() || !is_numeric_char(s[i]),
    ensures
        numeric_run(s) == i,
    decreases i,
{
    if i > 0 {
        lemma_numeric_run_at(s.drop_first(), i - 1);
    }
}

/// The number and title of a step heading's text: a positive number, a
/// separator, and a title that is not empty and does not begin with the word `Step`.
pub open spec fn step_header_spec(text: Seq<char>) -> Option<(nat, Seq<char>)> {
    let t = trim(text);
    let n = numeric_run(t);
    if n == 0 || n == t.len() {
        None
    } else {
        match usize_of(t.subrange(0, n as int)) {
            None => None,
            Some(v) => {
                let title = strip_separator_spec(t.subrange(n as int, t.len() as int));
                if v == 0 || has_prefix(title, "Step "@) || title == "Step"@ || title.len() == 0 {
                    None
                } else {
                    Some((v as nat, title))
                }
            },
        }
    }
}

/// Reads the number and title of a level-two heading.
pub fn extract_step_header(text: &[char]) -> (r: Option<(StepNumber, Vec<char>)>)
    ensures
        match r {
            Some((n, title)) => step_header_spec(text@) == Some((n@, title@)),
            None => step_header_spec(text@) is None,
        },
{
    let t = trimmed(text);
    let len = t.len();
    let mut n: usize = 0;
    while n < len && char_is_numeric(t[n])
        invariant
            n <= len == t@.len(),
            forall|k: int| 0 <= k < n ==> is_numeric_char(#[trigger] t@[k]),
        decreases len - n,
    {
        n += 1;
    }
    proof {
        lemma_numeric_run_at(t@, n as int);
    }
    if n == 0 || n == len {
        return None;
    }
    let digits = slice_of(&t, 0, n);
    let v = match parse_usize(&digits) {
        None => return None,
        Some(v) => v,
    };
    let rest = slice_of(&t, n, len);
    let title = strip_separator(&rest);
    let number = match StepNumber::new(v) {
        None => return None,
        Some(number) => number,
    };
    if starts_with(&title, &chars_of("Step ")) || same_chars(
        &title,
        &chars_of("Step"),
    ) || title.len() == 0 {
        return None;
    }
    Some((number, title))
}

/// The number that follows a `GOTO ` or `Go to Step ` keyword, as a jump.
pub open spec fn goto_spec(rest: Seq<char>) -> Option<ActionView> {
    match usize_of(trim(rest)) {
        Some(v) => if v > 0 {
            Some(ActionView::Goto(v as nat))
        } else {
            None
        },
        None => None,
    }
}

/// The action that a branch's text names, in the current spelling or in an
/// older one.
pub open spec fn action_spec(text: Seq<char>) -> Option<ActionView> {
    let t = trim(text);
    if t == "CONTINUE"@ || t == "Continue"@ {
        Some(ActionView::Continue)
    } else if t == "STOP"@ {
        Some(ActionView::Stop(None))
    } else if has_prefix(t, "STOP ("@) && t.len() > "STOP ("@.len() && t.last() == ')' {
        Some(ActionView::Stop(Some(t.subrange("STOP ("@.len() as int, t.len() - 1))))
    } else if has_prefix(t, "STOP "@) {
        Some(ActionView::Stop(Some(trim(t.subrange("STOP "@.len() as int, t.len() as int)))))
    } else if has_prefix(t, "GOTO "@) {
        goto_spec(t.subrange("GOTO "@.len() as int, t.len() as int))
    } else if has_prefix(t, "Go to Step "@) {
        goto_spec(t.subrange("Go to Step "@.len() as int, t.len() as int))
    } else {
        None
    }
}

fn parse_goto(t: &[char], skip: usize) -> (r: Option<Action>)
    requires
        skip <= t@.len(),
    ensures
        match r {
            Some(a) => goto_spec(t@.subrange(skip as int, t@.len() as int)) == Some(a@),
            None => goto_spec(t@.subrange(skip as int, t@.len() as int)) is None,
        },
{
    let rest = slice_of(t, skip, t.len());
    let digits = trimmed(&rest);
    match parse_usize(&digits) {
        Some(v) => match StepNumber::new(v) {
            Some(n) => Some(Action::Goto(n)),
            None => None,
        },
        None => None,
    }
}

/// Reads an action: `CONTINUE`, `STOP`, `STOP <message>`, `GOTO <n>`, and the
/// older `Continue`, `STOP (<message>)` and `Go to Step <n>`.
pub fn parse_action(text: &[char]) -> (r: Option<Action>)
    ensures
        match r {
            Some(a) => action_spec(text@) == Some(a@),
            None => action_spec(text@) is None,
        },
{
    let t = trimmed(text);
    let stop_paren = chars_of("STOP (");
    let stop_space = chars_of("STOP ");
    let goto = chars_of("GOTO ");
    let go_to_step = chars_of("Go to Step ");
    if same_chars(&t, &chars_of("CONTINUE")) || same_chars(
        &t,
        &chars_of("Continue"),
    ) {
        Some(Action::Continue)
    } else if same_chars(&t, &chars_of("STOP")) {
        Some(Action::Stop(None))
    } else if starts_with(&t, &stop_paren) && t.len() > stop_paren.len() && t[t.len() - 1]
        == ')' {
        let message = slice_of(&t, stop_paren.len(), t.len() - 1);
        Some(Action::Stop(Some(string_from(&message))))
    } else if starts_with(&t, &stop_space) {
        let rest = slice_of(&t, stop_space.len(), t.len());
        let message = trimmed(&rest);
        Some(Action::Stop(Some(string_from(&message))))
    } else if starts_with(&t, &goto) {
        parse_goto(&t, goto.len())
    } else if starts_with(&t, &go_to_step) {
        parse_goto(&t, go_to_step.len())
    } else {
        None
    }
}

/// A branch directive: `PASS` or `FAIL` with any separator, or the older
/// `Pass:` and `Fail:`, followed by an action. Lower-case keywords are not read.
pub open spec fn conditional_spec(text: Seq<char>) -> Option<ConditionalView> {
    let t = trim(text);
    if has_prefix(t, "PASS"@) {
        match action_spec(strip_separator_spec(t.subrange("PASS"@.len() as int, t.len() as int))) {
            Some(a) => Some(ConditionalView::Pass(a)),
            None => None,
        }
    } else if has_prefix(t, "FAIL"@) {
        match action_spec(strip_separator_spec(t.subrange("FAIL"@.len() as int, t.len() as int))) {
            Some(a) => Some(ConditionalView::Fail(a)),
            None => None,
        }
    } else if has_prefix(t, "Pass:"@) {
        match action_spec(trim(t.subrange("Pass:"@.len() as int, t.len() as int))) {
            Some(a) => Some(ConditionalView::Pass(a)),
            None => None,
        }
    } else if has_prefix(t, "Fail:"@) {
        match action_spec(trim(t.subrange("Fail:"@.len() as int, t.len() as int))) {
            Some(a) => Some(ConditionalView::Fail(a)),
            None => None,
        }
    } else {
        None
    }
}

/// Reads a branch directive.
pub fn parse_conditional(text: &[char]) -> (r: Option<Conditional>)
    ensures
        match r {
            Some(c) => conditional_spec(text@) == Some(c@),
            None => conditional_spec(text@) is None,
        },
{
    let t = trimmed(text);
    let pass_caps = chars_of("PASS");
    let fail_caps = chars_of("FAIL");
    let pass_old = chars_of("Pass:");
    let fail_old = chars_of("Fail:");
    if starts_with(&t, &pass_caps) {
        let rest = slice_of(&t, pass_caps.len(), t.len());
        match parse_action(&strip_separator(&rest)) {
            Some(action) => Some(Conditional::Pass { action }),
            None => None,
        }
    } else if starts_with(&t, &fail_caps) {
        let rest = slice_of(&t, fail_caps.len(), t.len());
        match parse_action(&strip_separator(&rest)) {
            Some(action) => Some(Conditional::Fail { action }),
            None => None,
        }
    } else if starts_with(&t, &pass_old) {
        let rest = slice_of(&t, pass_old.len(), t.len());
        match parse_action(&trimmed(&rest)) {
            Some(action) => Some(Conditional::Pass { action }),
            None => None,
        }
    } else if starts_with(&t, &fail_old) {
        let rest = slice_of(&t, fail_old.len(), t.len());
        match parse_action(&trimmed(&rest)) {
            Some(action) => Some(Conditional::Fail { action }),
            None => None,
        }
    } else {
        None
    }
}

/// The last `Pass` action in `cs`, if any.
pub open spec fn last_pass(cs: Seq<ConditionalView>) -> Option<ActionView>
    decreases cs.len(),
{
    if cs.len() == 0 {
        None
    } else {
        match cs.last() {
            ConditionalView::Pass(a) => Some(a),
            ConditionalView::Fail(_) => last_pass(cs.drop_last()),
        }
    }
}

/// The last `Fail` action in `cs`, if any.
pub open spec fn last_fail(cs: Seq<ConditionalView>) -> Option<ActionView>
    decreases cs.len(),
{
    if cs.len() == 0 {
        None
    } else {
        match cs.last() {
            ConditionalView::Fail(a) => Some(a),
            ConditionalView::Pass(_) => last_fail(cs.drop_last()),
        }
    }
}

/// The conditions that a step's directives make: the last directive of each
/// kind wins, and a missing `pass` is `Continue`, a missing `fail` is `Stop(None)`.
pub open spec fn conditions_spec(cs: Seq<ConditionalView>) -> Option<ConditionsView> {
    match (last_pass(cs), last_fail(cs)) {
        (None, None) => None,
        (p, f) => Some(
            ConditionsView {
                pass: match p {
                    Some(a) => a,
                    None => ActionView::Continue,
                },
                fail: match f {
                    Some(a) => a,
                    None => ActionView::Stop(None),
                },
            },
        ),
    }
}

/// The views of a list of directives.
pub open spec fn conditionals_view(cs: Seq<Conditional>) -> Seq<ConditionalView> {
    cs.map_values(|c: Conditional| c@)
}

/// Binds a step's directives into its conditions; `None` when there are none.
pub fn convert_conditionals(conditionals: Vec<Conditional>) -> (r: Option<Conditions>)
    ensures
        match r {
            Some(c) => conditions_spec(conditionals_view(conditionals@)) == Some(c@),
            None => conditions_spec(conditionals_view(conditionals@)) is None,
        },
{
    let ghost all = conditionals_view(conditionals@);
    let mut pass_action: Option<Action> = None;
    let mut fail_action: Option<Action> = None;
    let mut i: usize = 0;
    let n = conditionals.len();
    while i < n
        invariant
            n == conditionals@.len(),
            all == conditionals_view(conditionals@),
            i <= n,
            match pass_action {
                Some(a) => last_pass(all.subrange(0, i as int)) == Some(a@),
                None => last_pass(all.subrange(0, i as int)) is None,
            },
            match fail_action {
                Some(a) => last_fail(all.subrange(0, i as int)) == Some(a@),
                None => last_fail(all.subrange(0, i as int)) is None,
            },
        decreases n - i,
    {
        assert(all.subrange(0, i + 1).drop_last() == all.subrange(0, i as int));
        assert(all.subrange(0, i + 1).last() == conditionals@[i as int]@);
        match &conditionals[i] {
            Conditional::Pass { action } => pass_action = Some(action.duplicate()),
            Conditional::Fail { action } => fail_action = Some(action.duplicate()),
        }
        i += 1;
    }
    assert(all.subrange(0, n as int) == all);
    match (pass_action, fail_action) {
        (Some(pass), Some(fail)) => Some(Conditions { pass, fail }),
        (Some(pass), None) => Some(Conditions { pass, fail: Action::Stop(None) }),
        (None, Some(fail)) => Some(Conditions { pass: Action::Continue, fail }),
        (None, None) => None,
    }
}

} // verus!

verus! {

proof fn lemma_last_of_one_kind(cs: Seq<ConditionalView>)
    ensures
        (forall|i: int| 0 <= i < cs.len() ==> #[trigger] cs[i] is Pass) ==> last_fail(cs) is None,
        (forall|i: int| 0 <= i < cs.len() ==> #[trigger] cs[i] is Fail) ==> last_pass(cs) is None,
        cs.len() > 0 ==> last_pass(cs) is Some || last_fail(cs) is Some,
    decreases cs.len(),
{
    if cs.len() > 0 {
        let d = cs.drop_last();
        lemma_last_of_one_kind(d);
        if forall|i: int| 0 <= i < cs.len() ==> #[trigger] cs[i] is Pass {
            assert forall|i: int| 0 <= i < d.len() implies #[trigger] d[i] is Pass by {
                assert(d[i] == cs[i]);
            }
            assert(cs[cs.len() - 1] is Pass);
        }
        if forall|i: int| 0 <= i < cs.len() ==> #[trigger] cs[i] is Fail {
            assert forall|i: int| 0 <= i < d.len() implies #[trigger] d[i] is Fail by {
                assert(d[i] == cs[i]);
            }
            assert(cs[cs.len() - 1] is Fail);
        }
    }
}

/// A step's conditions exist exactly when it has at least one directive, and
/// then hold both branches: directives of `PASS` alone leave `fail` at
/// `Stop(None)`, directives of `FAIL` alone leave `pass` at `Continue`.
pub proof fn lemma_conditions_complete(cs: Seq<ConditionalView>)
    ensures
        conditions_spec(cs) is Some <==> cs.len() > 0,
        cs.len() > 0 && (forall|i: int| 0 <= i < cs.len() ==> #[trigger] cs[i] is Pass)
            ==> conditions_spec(cs) == Some(
            ConditionsView { pass: last_pass(cs)->0, fail: ActionView::Stop(None) },
        ),
        cs.len() > 0 && (forall|i: int| 0 <= i < cs.len() ==> #[trigger] cs[i] is Fail)
            ==> conditions_spec(cs) == Some(
            ConditionsView { pass: ActionView::Continue, fail: last_fail(cs)->0 },
        ),
{
    lemma_last_of_one_kind(cs);
}

} // verus!
