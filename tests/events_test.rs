use workflow::document::{parse_events, ParseError};
use workflow::markdown::MdEvent;
use workflow::models::Action;

fn chars(s: &str) -> Vec<char> {
    s.chars().collect()
}

#[test]
fn events_build_a_step_with_command_and_conditions() {
    let events = vec![
        MdEvent::HeadingStart(2),
        MdEvent::Text(chars("1. Build")),
        MdEvent::HeadingEnd,
        MdEvent::Text(chars("PASS: CONTINUE")),
        MdEvent::SoftBreak,
        MdEvent::Text(chars("FAIL: STOP broken")),
        MdEvent::ParagraphEnd,
        MdEvent::CodeBlockStart(Some(chars("bash quiet"))),
        MdEvent::Text(chars("make all\n")),
        MdEvent::CodeBlockEnd,
    ];
    let steps = parse_events(&events).unwrap();
    assert_eq!(steps.len(), 1);
    assert_eq!(steps[0].description, "Build");
    let command = steps[0].command.as_ref().unwrap();
    assert_eq!(command.code, "make all");
    assert!(command.quiet);
    let conditions = steps[0].conditions.as_ref().unwrap();
    assert_eq!(conditions.pass, Action::Continue);
    assert_eq!(conditions.fail, Action::Stop(Some("broken".to_string())));
}

#[test]
fn events_level_one_heading_starts_no_step() {
    let events = vec![
        MdEvent::HeadingStart(1),
        MdEvent::Text(chars("1. Title")),
        MdEvent::HeadingEnd,
    ];
    assert_eq!(parse_events(&events).unwrap_err(), ParseError::EmptyWorkflow);
}

#[test]
fn events_explicit_prompt_ends_at_paragraph() {
    let events = vec![
        MdEvent::HeadingStart(2),
        MdEvent::Text(chars("1 Check")),
        MdEvent::HeadingEnd,
        MdEvent::StrongStart,
        MdEvent::Text(chars("Prompt:")),
        MdEvent::StrongEnd,
        MdEvent::Text(chars(" Update ")),
        MdEvent::Code(chars("Cargo.toml")),
        MdEvent::Text(chars("? ")),
        MdEvent::ParagraphEnd,
        MdEvent::Text(chars("Trailing prose")),
        MdEvent::ParagraphEnd,
    ];
    let steps = parse_events(&events).unwrap();
    assert_eq!(steps[0].prompts.len(), 1);
    assert_eq!(steps[0].prompts[0].text, "Update `Cargo.toml`?");
}

#[test]
fn events_indented_code_block_is_not_a_command() {
    let events = vec![
        MdEvent::HeadingStart(2),
        MdEvent::Text(chars("1. Show")),
        MdEvent::HeadingEnd,
        MdEvent::CodeBlockStart(None),
        MdEvent::Text(chars("ls\n")),
        MdEvent::CodeBlockEnd,
    ];
    let steps = parse_events(&events).unwrap();
    assert!(steps[0].command.is_none());
    assert!(steps[0].prompts.is_empty());
}

