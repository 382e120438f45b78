//! Logical output modes and the elements drawn on them.

use vstd::prelude::*;

verus! {

/// Runtime output configuration shared by the nested and DRM backends.
#[derive(Clone, Copy, Debug, PartialEq, Eq, Structural)]
pub struct OutputConfig {
    pub width: i32,
    pub height: i32,
    pub refresh_millihz: i32,
}

/// The mode of a logical output.
#[derive(Clone, Copy, Debug, PartialEq, Eq, Structural)]
pub struct OutputMode {
    pub width: i32,
    pub height: i32,
    pub refresh: i32,
}

impl Default for OutputConfig {
    fn default() -> (config: Self)
        ensures
            config == (OutputConfig { width: 1280, height: 720, refresh_millihz: 60_000 }),
    {
        Self { width: 1280, height: 720, refresh_millihz: 60_000 }
    }
}

/// The width of a 16:9 output, limited to 32 bits before the division, which rounds
/// towards zero.
pub open spec fn wide_width(height: int) -> int {
    let product = if height * 16 > i32::MAX {
        i32::MAX as int
    } else if height * 16 < i32::MIN {
        i32::MIN as int
    } else {
        height * 16
    };
    if product >= 0 {
        product / 9
    } else {
        -(-product / 9)
    }
}

fn width_for_height(height: i32) -> (width: i32)
    ensures
        width == wide_width(height as int),
{
    let product: i64 = height as i64 * 16;
    let limited: i64 = if product > i32::MAX as i64 {
        i32::MAX as i64
    } else if product < i32::MIN as i64 {
        i32::MIN as i64
    } else {
        product
    };
    if limited >= 0 {
        (limited as u64 / 9) as i32
    } else {
        let magnitude: u64 = (-limited) as u64 / 9;
        (-(magnitude as i64)) as i32
    }
}

impl OutputConfig {
    /// An output size which should be resolved from the backend's selected
    /// physical mode.
    #[must_use]
    pub fn unspecified() -> (config: Self)
        ensures
            config == (OutputConfig { width: 0, height: 0, refresh_millihz: 60_000 }),
    {
        Self { width: 0, height: 0, refresh_millihz: 60_000 }
    }

    /// The size of the output of this configuration on a physical output.
    pub open spec fn resolved(self, width: i32, height: i32) -> OutputConfig {
        if self.height == 0 {
            OutputConfig { width, height, ..self }
        } else if self.width == 0 {
            OutputConfig { width: wide_width(self.height as int) as i32, ..self }
        } else {
            self
        }
    }

    /// Resolve an omitted game size against the backend output.
    ///
    /// The physical mode is used when neither dimension was supplied, and a 16:9 width is
    /// derived when only the height was supplied.
    #[must_use]
    pub fn resolved_for_output(&self, width: i32, height: i32) -> (config: Self)
        ensures
            config == self.resolved(width, height),
    {
        if self.height == 0 {
            Self { width, height, refresh_millihz: self.refresh_millihz }
        } else if self.width == 0 {
            Self {
                width: width_for_height(self.height),
                height: self.height,
                refresh_millihz: self.refresh_millihz,
            }
        } else {
            *self
        }
    }

    pub open spec fn spec_mode(self) -> OutputMode {
        OutputMode { width: self.width, height: self.height, refresh: self.refresh_millihz }
    }

    /// The mode of this configuration.
    #[must_use]
    pub fn mode(&self) -> (mode: OutputMode)
        ensures
            mode == self.spec_mode(),
    {
        OutputMode { width: self.width, height: self.height, refresh: self.refresh_millihz }
    }
}

/// A resolved configuration stays as it is on any output, unless its height was and still
/// is unknown.
pub proof fn lemma_resolution_is_stable(
    config: OutputConfig,
    width: i32,
    height: i32,
    other_width: i32,
    other_height: i32,
)
    requires
        config.resolved(width, height).height != 0,
        config.resolved(width, height).width != 0,
    ensures
        config.resolved(width, height).resolved(other_width, other_height) == config.resolved(
            width,
            height,
        ),
{
}

/// Nanoseconds of a frame without a known refresh rate.
pub const DEFAULT_REFRESH_NS: u64 = 16_666_667;

/// The refresh cycle reported for a mode.
pub open spec fn reported_refresh_ns(mode: Option<OutputMode>) -> u64 {
    match mode {
        Some(mode) if mode.refresh > 0 => (1_000_000_000_000int / mode.refresh as int) as u64,
        _ => DEFAULT_REFRESH_NS,
    }
}

/// The refresh cycle reported for a mode.
#[must_use]
pub fn presentation_refresh_ns(mode: Option<OutputMode>) -> (refresh_ns: u64)
    ensures
        refresh_ns == reported_refresh_ns(mode),
{
    match mode {
        Some(mode) => if mode.refresh > 0 {
            1_000_000_000_000 / mode.refresh as u64
        } else {
            DEFAULT_REFRESH_NS
        },
        None => DEFAULT_REFRESH_NS,
    }
}

/// Preserve a render element's storage and geometry while optionally ignoring
/// its opaque-region hint. Steam overlay buffers contain per-pixel alpha, and
/// treating Xwayland's full-window hint as authoritative can cull the game
/// below transparent pixels and replace it with the clear color.
#[derive(Debug)]
pub struct LayerRenderElement<E> {
    element: E,
    force_blend: bool,
}

impl<E> LayerRenderElement<E> {
    /// The element that is drawn.
    pub closed spec fn drawn(self) -> E {
        self.element
    }

    /// Whether the element is blended with what is below it.
    pub closed spec fn blended(self) -> bool {
        self.force_blend
    }

    #[must_use]
    pub fn new(element: E, force_blend: bool) -> (layer: Self)
        ensures
            layer.drawn() == element,
            layer.blended() == force_blend,
    {
        Self { element, force_blend }
    }

    /// The element that is drawn.
    #[must_use]
    pub fn element(&self) -> (element: &E)
        ensures
            *element == self.drawn(),
    {
        &self.element
    }

    /// The regions in which nothing below the element is visible: those that the element
    /// claims, and none for a blended one.
    #[must_use]
    pub fn opaque_regions<R>(&self, claimed: Vec<R>) -> (regions: Vec<R>)
        ensures
            regions@ == (if self.blended() {
                Seq::empty()
            } else {
                claimed@
            }),
    {
        if self.force_blend {
            Vec::new()
        } else {
            claimed
        }
    }
}

/// What an output looks like: a size that was given is kept, a missing width follows from
/// the height at 16:9, and without a height the size is that of the physical output. The
/// rate is never touched.
pub proof fn lemma_sizes_are_resolved(config: OutputConfig, width: i32, height: i32)
    ensures
        ({
            let resolved = config.resolved(width, height);
            &&& resolved.refresh_millihz == config.refresh_millihz
            &&& config.height != 0 ==> resolved.height == config.height
            &&& config.height != 0 && config.width != 0 ==> resolved.width == config.width
            &&& config.height == 0 ==> resolved.width == width && resolved.height == height
            &&& config.width == 0 && 0 < config.height <= 134_217_727 ==> resolved.width * 9
                <= config.height * 16 < (resolved.width + 1) * 9
            &&& config.spec_mode().width == config.width
            &&& config.spec_mode().height == config.height
            &&& config.spec_mode().refresh == config.refresh_millihz
        }),
{
}

/// The time that one refresh takes is the longest whole number of nanoseconds that fits as
/// often into a second as the output refreshes; sixty hertz are taken for a rate that is not
/// known.
pub proof fn lemma_refreshes_fill_the_second(mode: OutputMode)
    ensures
        mode.refresh > 0 ==> reported_refresh_ns(Some(mode)) * mode.refresh <= 1_000_000_000_000 < (
        reported_refresh_ns(Some(mode)) + 1) * mode.refresh,
        mode.refresh <= 0 ==> reported_refresh_ns(Some(mode)) == 16_666_667,
        reported_refresh_ns(None) == 16_666_667,
{
    if mode.refresh > 0 {
        let rate = mode.refresh as int;
        let cycle = 1_000_000_000_000int / rate;
        vstd::arithmetic::div_mod::lemma_fundamental_div_mod(1_000_000_000_000, rate);
        assert(cycle * rate <= 1_000_000_000_000 < (cycle + 1) * rate && 0 <= cycle
            <= 1_000_000_000_000) by (nonlinear_arith)
            requires
                rate >= 1,
                1_000_000_000_000 == rate * cycle + 1_000_000_000_000int % rate,
                0 <= 1_000_000_000_000int % rate < rate,
        ;
    }
}

} // verus!
