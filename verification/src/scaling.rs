//! Window placement: which scale a window gets on the output.

use vstd::prelude::*;

verus! {

/// Upscaling placement mode.
#[derive(Clone, Copy, Debug, PartialEq, Eq, Structural)]
pub enum ScaleMode {
    /// Fit while respecting a configurable maximum scale.
    Auto,
    /// Fit, then floor scales larger than one to an integer.
    Integer,
    /// Preserve aspect ratio and fit inside the output.
    Fit,
    /// Preserve aspect ratio and cover the output.
    Fill,
    /// Scale each axis independently.
    Stretch,
}

impl Default for ScaleMode {
    fn default() -> (mode: Self)
        ensures
            mode == ScaleMode::Auto,
    {
        ScaleMode::Auto
    }
}

/// How the ratios of the two axes become their scales.
#[derive(Clone, Copy, Debug, PartialEq, Eq, Structural)]
pub enum ScaleAxes {
    /// Each axis has its own ratio.
    Independent,
    /// Both axes have the smaller ratio.
    Smaller,
    /// Both axes have the larger ratio.
    Larger,
}

/// The steps that a mode takes from ratios to scales.
#[derive(Clone, Copy, Debug, PartialEq, Eq, Structural)]
pub struct ScalePlan {
    pub axes: ScaleAxes,
    /// The maximum window scale applies, before the output scale.
    pub capped: bool,
    /// A scale above one is floored, after the output scale.
    pub floored: bool,
}

impl ScaleMode {
    /// The number of the mode in the protocol and on the command line.
    #[must_use]
    pub fn code(self) -> (code: u32)
        ensures
            code == (match self {
                ScaleMode::Auto => 0u32,
                ScaleMode::Integer => 1,
                ScaleMode::Fit => 2,
                ScaleMode::Fill => 3,
                ScaleMode::Stretch => 4,
            }),
    {
        match self {
            ScaleMode::Auto => 0,
            ScaleMode::Integer => 1,
            ScaleMode::Fit => 2,
            ScaleMode::Fill => 3,
            ScaleMode::Stretch => 4,
        }
    }

    /// The steps of this mode: only stretching lets the axes differ, only filling takes
    /// the larger ratio, only the automatic mode is capped and only the integer mode
    /// floors.
    #[must_use]
    pub fn plan(self) -> (plan: ScalePlan)
        ensures
            plan.axes == ScaleAxes::Independent <==> self == ScaleMode::Stretch,
            plan.axes == ScaleAxes::Larger <==> self == ScaleMode::Fill,
            plan.capped <==> self == ScaleMode::Auto,
            plan.floored <==> self == ScaleMode::Integer,
    {
        ScalePlan {
            axes: match self {
                ScaleMode::Stretch => ScaleAxes::Independent,
                ScaleMode::Fill => ScaleAxes::Larger,
                _ => ScaleAxes::Smaller,
            },
            capped: self == ScaleMode::Auto,
            floored: self == ScaleMode::Integer,
        }
    }
}

/// Integer pixel dimensions.
#[derive(Clone, Copy, Debug, PartialEq, Eq, Structural)]
pub struct Size {
    pub width: u32,
    pub height: u32,
}

impl Size {
    #[must_use]
    pub fn new(width: u32, height: u32) -> (size: Self)
        ensures
            size == (Size { width, height }),
    {
        Self { width, height }
    }

    /// A size without any pixel.
    pub open spec fn empty(self) -> bool {
        self.width == 0 || self.height == 0
    }

    /// Whether a dimension is zero.
    #[must_use]
    pub fn is_empty(self) -> (empty: bool)
        ensures
            empty == self.empty(),
    {
        self.width == 0 || self.height == 0
    }
}

/// Scale inputs without any pixel.
#[derive(Clone, Copy, Debug, PartialEq, Eq, Structural)]
pub enum ScaleError {
    EmptyNestedSize,
    EmptyOutputSize,
    EmptySourceSize,
}

/// Check the sizes a scale is calculated from, in the order nested, output, source.
///
/// # Errors
///
/// Returns a [`ScaleError`] when the source, nested, or current output size
/// has a zero dimension.
pub fn check_sizes(nested: Size, current_output: Size, source: Size) -> (checked: Result<
    (),
    ScaleError,
>)
    ensures
        checked == (if nested.empty() {
            Err(ScaleError::EmptyNestedSize)
        } else if current_output.empty() {
            Err(ScaleError::EmptyOutputSize)
        } else if source.empty() {
            Err(ScaleError::EmptySourceSize)
        } else {
            Ok(())
        }),
{
    if nested.is_empty() {
        return Err(ScaleError::EmptyNestedSize);
    }
    if current_output.is_empty() {
        return Err(ScaleError::EmptyOutputSize);
    }
    if source.is_empty() {
        return Err(ScaleError::EmptySourceSize);
    }
    Ok(())
}

/// A size is empty exactly if it covers nothing.
pub proof fn lemma_empty_sizes_cover_nothing(size: Size)
    ensures
        size.empty() <==> size.width * size.height == 0,
{
    assert(size.width > 0 && size.height > 0 ==> size.width * size.height > 0) by (nonlinear_arith);
    assert(size.width == 0 || size.height == 0 ==> size.width * size.height == 0)
        by (nonlinear_arith);
}

} // verus!
