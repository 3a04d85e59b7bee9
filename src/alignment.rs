use vstd::prelude::*;

verus! {

/// Horizontal alignment of the text inside a label.
#[derive(Clone, Copy, Debug, PartialEq, Eq, Structural)]
pub enum TextAlignment {
    Left,
    Center,
    Right,
}

/// The toolkit's numeric constant for an alignment: the toolkit's
/// `uiDrawTextAlign` enumeration lists left, center and right in that order,
/// starting at zero.
pub open spec fn native_align_code(a: TextAlignment) -> u32 {
    match a {
        TextAlignment::Left => 0,
        TextAlignment::Center => 1,
        TextAlignment::Right => 2,
    }
}

impl TextAlignment {
    /// The toolkit constant (`uiDrawTextAlign`) that stands for this alignment.
    pub fn into_ui_align(self) -> (r: u32)
        ensures
            r == native_align_code(self),
    {
        match self {
            TextAlignment::Left => 0,
            TextAlignment::Center => 1,
            TextAlignment::Right => 2,
        }
    }
}

/// Every alignment has a constant, the constants lie in the toolkit's range,
/// and distinct alignments never share one; so setting an alignment cannot
/// fail, and setting the same one again hands the toolkit the same value.
pub proof fn lemma_align_code_total_and_distinct(a: TextAlignment, b: TextAlignment)
    ensures
        native_align_code(a) < 3,
        native_align_code(a) == native_align_code(b) <==> a == b,
{
}

} // verus!
