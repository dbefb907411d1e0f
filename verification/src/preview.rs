//! Styled lines for the preview pane.

use vstd::prelude::*;

verus! {

/// How a span of preview text is drawn.
#[derive(Debug, Clone, Copy, PartialEq, Eq, Structural)]
pub enum PreviewStyle {
    Normal,
    Dim,
    H2,
    H3,
    H4,
    Hr,
    Code,
    JsonNumber,
}

/// One line of the preview: styled spans, left to right.
#[derive(Debug, Clone)]
pub struct PreviewLine {
    pub spans: Vec<(String, PreviewStyle)>,
}

/// A preview line as text and style, for a line of one span.
pub open spec fn single_span(l: PreviewLine) -> Option<(Seq<char>, PreviewStyle)> {
    if l.spans@.len() == 1 {
        Some((l.spans@[0].0@, l.spans@[0].1))
    } else {
        None
    }
}

/// A line of one span.
pub fn line_of(text: String, style: PreviewStyle) -> (l: PreviewLine)
    ensures
        single_span(l) == Some((text@, style)),
{
    let mut spans = Vec::new();
    spans.push((text, style));
    PreviewLine { spans }
}

} // verus!
