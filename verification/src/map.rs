use vstd::prelude::*;

verus! {

/// How a map line is used: axis-aligned lines are the references that the
/// camera aligns against; generic lines are only obstacles.
#[derive(Clone, Copy, Debug, PartialEq, Eq, Structural)]
pub enum LineKind {
    Generic,
    Vertical,
    Horizontal,
}

/// The name of each kind, as written in map files and served to the UI.
pub open spec fn line_kind_name(kind: LineKind) -> Seq<char> {
    match kind {
        LineKind::Generic => "generic"@,
        LineKind::Vertical => "vertical"@,
        LineKind::Horizontal => "horizontal"@,
    }
}

impl LineKind {
    /// The kind's name: `generic`, `vertical` or `horizontal`.
    pub fn as_str(self) -> (name: &'static str)
        ensures
            name@ == line_kind_name(self),
    {
        match self {
            LineKind::Generic => "generic",
            LineKind::Vertical => "vertical",
            LineKind::Horizontal => "horizontal",
        }
    }

    /// Whether the camera may use a line of this kind as its reference.
    pub fn is_axis_aligned(self) -> (b: bool)
        ensures
            b <==> (self == LineKind::Vertical || self == LineKind::Horizontal),
    {
        match self {
            LineKind::Generic => false,
            LineKind::Vertical | LineKind::Horizontal => true,
        }
    }
}

} // verus!
