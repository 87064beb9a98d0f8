use vstd::prelude::*;

verus! {

/// How the inside of a self-intersecting path is decided when it is filled.
#[derive(Clone, Copy, Debug, Default, PartialEq, Eq, Structural)]
pub enum FillRule {
    #[default]
    EvenOdd,
    NonZero,
}

impl FillRule {
    /// The keyword of this rule in SVG's `fill-rule` attribute.
    pub fn as_str(&self) -> (r: &'static str)
        ensures
            r@ == (match *self {
                FillRule::EvenOdd => "evenodd"@,
                FillRule::NonZero => "nonzero"@,
            }),
    {
        match self {
            FillRule::EvenOdd => "evenodd",
            FillRule::NonZero => "nonzero",
        }
    }
}

} // verus!
