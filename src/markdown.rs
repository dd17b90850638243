//! The markdown event stream that documents are read from.

use pulldown_cmark::CodeBlockKind::{Fenced, Indented};
use pulldown_cmark::Event::{Code, End, HardBreak, SoftBreak, Start, Text};
use pulldown_cmark::Tag::{CodeBlock, Heading, Paragraph, Strong};
use vstd::prelude::*;

verus! {

/// The part of a markdown event stream that workflows are read from.
#[derive(Debug, Clone, PartialEq, Eq)]
pub enum MdEvent {
    /// The start of a heading of this level (1 for `#`, 2 for `##`, up to 6).
    HeadingStart(u8),
    HeadingEnd,
    /// The start of a code block: the info string of a fenced block, `None` for an indented one.
    CodeBlockStart(Option<Vec<char>>),
    CodeBlockEnd,
    StrongStart,
    StrongEnd,
    ParagraphEnd,
    Text(Vec<char>),
    /// Inline code, without its backticks.
    Code(Vec<char>),
    SoftBreak,
    HardBreak,
    /// Any other event.
    Other,
}

/// The event stream of a CommonMark document.
pub uninterp spec fn markdown_events(md: Seq<char>) -> Seq<MdEvent>;

/// Relies on `pulldown_cmark::Parser` (default options): its events for `md`,
/// which depend on the text alone.
#[verifier::external_body]
pub(crate) fn events_of(md: &str) -> (r: Vec<MdEvent>)
    ensures
        r@ == markdown_events(md@),
{
    pulldown_cmark::Parser::new(md).map(|e| match e {
        Start(Heading(l, ..)) => MdEvent::HeadingStart(l as u8),
        End(Heading(..)) => MdEvent::HeadingEnd,
        Start(CodeBlock(Fenced(s))) => MdEvent::CodeBlockStart(Some(s.chars().collect())),
        Start(CodeBlock(Indented)) => MdEvent::CodeBlockStart(None),
        End(CodeBlock(..)) => MdEvent::CodeBlockEnd,
        Start(Strong) => MdEvent::StrongStart,
        End(Strong) => MdEvent::StrongEnd,
        End(Paragraph) => MdEvent::ParagraphEnd,
        Text(s) => MdEvent::Text(s.chars().collect()),
        Code(s) => MdEvent::Code(s.chars().collect()),
        SoftBreak => MdEvent::SoftBreak,
        HardBreak => MdEvent::HardBreak,
        _ => MdEvent::Other,
    }).collect()
}

} // verus!
