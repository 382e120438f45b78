//! Command-line options.

use vstd::prelude::*;

use crate::output::OutputConfig;
use crate::text;
use crate::text::{
    push_text, quoted, read_i32, read_u32, read_usize, same_text, split_nonempty_strings,
    string_from,
};

verus! {

/// How frames reach the screen.
#[derive(Clone, Copy, Debug, PartialEq, Eq, Structural)]
pub enum BackendChoice {
    Auto,
    Nested,
    Drm,
}

/// The backend that a word names.
pub open spec fn backend_named(word: Seq<char>) -> Option<BackendChoice> {
    if word == "auto"@ {
        Some(BackendChoice::Auto)
    } else if word == "nested"@ || word == "winit"@ {
        Some(BackendChoice::Nested)
    } else if word == "drm"@ || word == "kms"@ {
        Some(BackendChoice::Drm)
    } else {
        None
    }
}

/// The backend that the environment names; without a name the choice is open.
pub open spec fn named_backend(configured: Option<&str>) -> Option<BackendChoice> {
    match configured {
        Some(value) => backend_named(value@),
        None => Some(BackendChoice::Auto),
    }
}

impl BackendChoice {
    /// The backend that a word names.
    pub fn parse(value: &str) -> (choice: Result<Self, OptionsError>)
        ensures
            match choice {
                Ok(choice) => backend_named(value@) == Some(choice),
                Err(error) => backend_named(value@) is None && error@
                    == OptionsErrorView::InvalidBackend(value@),
            },
    {
        if same_text(value, "auto") {
            Ok(BackendChoice::Auto)
        } else if same_text(value, "nested") || same_text(value, "winit") {
            Ok(BackendChoice::Nested)
        } else if same_text(value, "drm") || same_text(value, "kms") {
            Ok(BackendChoice::Drm)
        } else {
            Err(OptionsError::InvalidBackend(string_from(value)))
        }
    }
}

/// What an argument says when it is read as a refresh rate in hertz.
#[derive(Clone, Copy, Debug, PartialEq, Eq, Structural)]
pub enum RateReading {
    NotANumber,
    /// Not finite, or not within the range of rates.
    OutOfRange,
    Millihertz(i32),
}

/// A command-line argument.
#[derive(Debug, PartialEq, Eq)]
pub struct Argument {
    pub text: String,
    pub rate: RateReading,
}

/// What an argument says.
pub struct ArgumentView {
    pub text: Seq<char>,
    pub rate: RateReading,
}

impl View for Argument {
    type V = ArgumentView;

    open spec fn view(&self) -> ArgumentView {
        ArgumentView { text: self.text@, rate: self.rate }
    }
}

/// What arguments say.
pub open spec fn said(arguments: Seq<Argument>) -> Seq<ArgumentView> {
    arguments.map_values(|argument: Argument| argument@)
}

/// The texts of arguments.
pub open spec fn argument_texts(arguments: Seq<ArgumentView>) -> Seq<Seq<char>> {
    arguments.map_values(|argument: ArgumentView| argument.text)
}

/// Why a command line is not accepted.
#[derive(Debug, PartialEq, Eq)]
pub enum OptionsError {
    /// It asks for help.
    Help,
    UnknownOption(String),
    MissingValue(String),
    InvalidValue(String),
    InvalidRate,
    InvalidBackend(String),
    NegativeGameSize,
    WidthWithoutHeight,
    OutputWidthWithoutHeight,
    ZeroOutputSize,
    RateNotPositive,
}

/// Why a command line is not accepted.
pub enum OptionsErrorView {
    Help,
    UnknownOption(Seq<char>),
    MissingValue(Seq<char>),
    InvalidValue(Seq<char>),
    InvalidRate,
    InvalidBackend(Seq<char>),
    NegativeGameSize,
    WidthWithoutHeight,
    OutputWidthWithoutHeight,
    ZeroOutputSize,
    RateNotPositive,
}

impl View for OptionsError {
    type V = OptionsErrorView;

    open spec fn view(&self) -> OptionsErrorView {
        match self {
            OptionsError::Help => OptionsErrorView::Help,
            OptionsError::UnknownOption(option) => OptionsErrorView::UnknownOption(option@),
            OptionsError::MissingValue(option) => OptionsErrorView::MissingValue(option@),
            OptionsError::InvalidValue(option) => OptionsErrorView::InvalidValue(option@),
            OptionsError::InvalidRate => OptionsErrorView::InvalidRate,
            OptionsError::InvalidBackend(value) => OptionsErrorView::InvalidBackend(value@),
            OptionsError::NegativeGameSize => OptionsErrorView::NegativeGameSize,
            OptionsError::WidthWithoutHeight => OptionsErrorView::WidthWithoutHeight,
            OptionsError::OutputWidthWithoutHeight => OptionsErrorView::OutputWidthWithoutHeight,
            OptionsError::ZeroOutputSize => OptionsErrorView::ZeroOutputSize,
            OptionsError::RateNotPositive => OptionsErrorView::RateNotPositive,
        }
    }
}

/// The usage line.
pub const USAGE: &'static str = "gamescope-rs [--backend auto|nested|drm] [-n|--nested] [--drm] [--drm-device CARD] [-O CONNECTORS] [-w WIDTH] [-h HEIGHT] [-W OUTPUT_WIDTH] [-H OUTPUT_HEIGHT] [-r HZ] [--output-refresh HZ] [--adaptive-sync] [--disable-direct-scanout] [-b] [-f] [-e|--steam] [--xwayland-count N] [--expose-wayland] [--socket NAME] [-- COMMAND ...]";

impl OptionsErrorView {
    /// What the user is told.
    pub open spec fn message(self) -> Seq<char> {
        match self {
            OptionsErrorView::Help => USAGE@,
            OptionsErrorView::UnknownOption(option) => "unknown option: "@ + option,
            OptionsErrorView::MissingValue(option) => option + " requires a value"@,
            OptionsErrorView::InvalidValue(option) => "invalid value for "@ + option,
            OptionsErrorView::InvalidRate => "refresh rate must be positive and finite"@,
            OptionsErrorView::InvalidBackend(value) => "invalid backend "@ + text::debug_quoted(
                value,
            ) + "; expected auto, nested, or drm"@,
            OptionsErrorView::NegativeGameSize => "game dimensions cannot be negative"@,
            OptionsErrorView::WidthWithoutHeight => "cannot specify -w without -h"@,
            OptionsErrorView::OutputWidthWithoutHeight => "cannot specify -W without -H"@,
            OptionsErrorView::ZeroOutputSize => "output dimensions must be positive"@,
            OptionsErrorView::RateNotPositive => "refresh rate must be positive"@,
        }
    }
}

impl OptionsError {
    /// What the user is told.
    #[must_use]
    pub fn text(&self) -> (told: String)
        ensures
            told@ == self@.message(),
    {
        let mut told = String::new();
        match self {
            OptionsError::Help => {
                push_text(&mut told, USAGE);
            },
            OptionsError::UnknownOption(option) => {
                push_text(&mut told, "unknown option: ");
                push_text(&mut told, option.as_str());
            },
            OptionsError::MissingValue(option) => {
                push_text(&mut told, option.as_str());
                push_text(&mut told, " requires a value");
            },
            OptionsError::InvalidValue(option) => {
                push_text(&mut told, "invalid value for ");
                push_text(&mut told, option.as_str());
            },
            OptionsError::InvalidRate => {
                push_text(&mut told, "refresh rate must be positive and finite");
            },
            OptionsError::InvalidBackend(value) => {
                push_text(&mut told, "invalid backend ");
                push_text(&mut told, quoted(value.as_str()).as_str());
                push_text(&mut told, "; expected auto, nested, or drm");
            },
            OptionsError::NegativeGameSize => {
                push_text(&mut told, "game dimensions cannot be negative");
            },
            OptionsError::WidthWithoutHeight => {
                push_text(&mut told, "cannot specify -w without -h");
            },
            OptionsError::OutputWidthWithoutHeight => {
                push_text(&mut told, "cannot specify -W without -H");
            },
            OptionsError::ZeroOutputSize => {
                push_text(&mut told, "output dimensions must be positive");
            },
            OptionsError::RateNotPositive => {
                push_text(&mut told, "refresh rate must be positive");
            },
        }
        assert(told@ =~= self@.message());
        told
    }
}

/// What an argument asks for.
#[derive(Clone, Copy, Debug, PartialEq, Eq, Structural)]
pub enum OptionKind {
    Width,
    Height,
    OutputWidth,
    OutputHeight,
    OutputRefresh,
    Refresh,
    Socket,
    NoXwayland,
    XwaylandCount,
    Borderless,
    Fullscreen,
    Backend,
    Nested,
    Drm,
    DrmDevice,
    DisableDirectScanout,
    AdaptiveSync,
    PreferOutput,
    KeepAlive,
    ExposeWayland,
    Steam,
    CommandFollows,
    Help,
    Unknown,
}

/// What an argument asks for.
pub open spec fn kind_of(option: Seq<char>) -> OptionKind {
    if option == "--width"@ || option == "--nested-width"@ || option == "-w"@ {
        OptionKind::Width
    } else if option == "--height"@ || option == "--nested-height"@ || option == "-h"@ {
        OptionKind::Height
    } else if option == "--output-width"@ || option == "-W"@ {
        OptionKind::OutputWidth
    } else if option == "--output-height"@ || option == "-H"@ {
        OptionKind::OutputHeight
    } else if option == "--output-refresh"@ {
        OptionKind::OutputRefresh
    } else if option == "--refresh"@ || option == "--nested-refresh"@ || option == "-r"@ {
        OptionKind::Refresh
    } else if option == "--socket"@ {
        OptionKind::Socket
    } else if option == "--no-xwayland"@ {
        OptionKind::NoXwayland
    } else if option == "--xwayland-count"@ {
        OptionKind::XwaylandCount
    } else if option == "--borderless"@ || option == "-b"@ {
        OptionKind::Borderless
    } else if option == "--fullscreen"@ || option == "-f"@ {
        OptionKind::Fullscreen
    } else if option == "--backend"@ {
        OptionKind::Backend
    } else if option == "--nested"@ || option == "-n"@ {
        OptionKind::Nested
    } else if option == "--drm"@ {
        OptionKind::Drm
    } else if option == "--drm-device"@ {
        OptionKind::DrmDevice
    } else if option == "--disable-direct-scanout"@ {
        OptionKind::DisableDirectScanout
    } else if option == "--adaptive-sync"@ {
        OptionKind::AdaptiveSync
    } else if option == "--prefer-output"@ || option == "-O"@ {
        OptionKind::PreferOutput
    } else if option == "--keep-alive"@ {
        OptionKind::KeepAlive
    } else if option == "--expose-wayland"@ {
        OptionKind::ExposeWayland
    } else if option == "--steam"@ || option == "-e"@ {
        OptionKind::Steam
    } else if option == "--"@ {
        OptionKind::CommandFollows
    } else if option == "--help"@ {
        OptionKind::Help
    } else {
        OptionKind::Unknown
    }
}

fn read_kind(option: &str) -> (kind: OptionKind)
    ensures
        kind == kind_of(option@),
{
    if same_text(option, "--width") || same_text(option, "--nested-width") || same_text(option, "-w") {
        OptionKind::Width
    } else if same_text(option, "--height") || same_text(option, "--nested-height") || same_text(option, "-h") {
        OptionKind::Height
    } else if same_text(option, "--output-width") || same_text(option, "-W") {
        OptionKind::OutputWidth
    } else if same_text(option, "--output-height") || same_text(option, "-H") {
        OptionKind::OutputHeight
    } else if same_text(option, "--output-refresh") {
        OptionKind::OutputRefresh
    } else if same_text(option, "--refresh") || same_text(option, "--nested-refresh") || same_text(option, "-r") {
        OptionKind::Refresh
    } else if same_text(option, "--socket") {
        OptionKind::Socket
    } else if same_text(option, "--no-xwayland") {
        OptionKind::NoXwayland
    } else if same_text(option, "--xwayland-count") {
        OptionKind::XwaylandCount
    } else if same_text(option, "--borderless") || same_text(option, "-b") {
        OptionKind::Borderless
    } else if same_text(option, "--fullscreen") || same_text(option, "-f") {
        OptionKind::Fullscreen
    } else if same_text(option, "--backend") {
        OptionKind::Backend
    } else if same_text(option, "--nested") || same_text(option, "-n") {
        OptionKind::Nested
    } else if same_text(option, "--drm") {
        OptionKind::Drm
    } else if same_text(option, "--drm-device") {
        OptionKind::DrmDevice
    } else if same_text(option, "--disable-direct-scanout") {
        OptionKind::DisableDirectScanout
    } else if same_text(option, "--adaptive-sync") {
        OptionKind::AdaptiveSync
    } else if same_text(option, "--prefer-output") || same_text(option, "-O") {
        OptionKind::PreferOutput
    } else if same_text(option, "--keep-alive") {
        OptionKind::KeepAlive
    } else if same_text(option, "--expose-wayland") {
        OptionKind::ExposeWayland
    } else if same_text(option, "--steam") || same_text(option, "-e") {
        OptionKind::Steam
    } else if same_text(option, "--") {
        OptionKind::CommandFollows
    } else if same_text(option, "--help") {
        OptionKind::Help
    } else {
        OptionKind::Unknown
    }
}

/// Whether the argument behind an option belongs to it.
pub open spec fn takes_value(kind: OptionKind) -> bool {
    match kind {
        OptionKind::Width | OptionKind::Height | OptionKind::OutputWidth | OptionKind::OutputHeight | OptionKind::OutputRefresh | OptionKind::Refresh | OptionKind::Socket | OptionKind::XwaylandCount | OptionKind::Backend | OptionKind::DrmDevice | OptionKind::PreferOutput => true,
        _ => false,
    }
}

fn has_value(kind: OptionKind) -> (has: bool)
    ensures
        has == takes_value(kind),
{
    match kind {
        OptionKind::Width | OptionKind::Height | OptionKind::OutputWidth | OptionKind::OutputHeight | OptionKind::OutputRefresh | OptionKind::Refresh | OptionKind::Socket | OptionKind::XwaylandCount | OptionKind::Backend | OptionKind::DrmDevice | OptionKind::PreferOutput => true,
        _ => false,
    }
}

/// What the user asked for.
#[derive(Debug, PartialEq, Eq)]
pub struct Options {
    pub backend: BackendChoice,
    pub output: OutputConfig,
    pub window_width: Option<u32>,
    pub window_height: Option<u32>,
    pub socket: Option<String>,
    pub command: Vec<String>,
    pub xwayland_count: usize,
    pub steam: bool,
    pub expose_wayland: bool,
    pub borderless: bool,
    pub fullscreen: bool,
    pub keep_alive: bool,
    pub drm_device: Option<String>,
    pub output_refresh_millihz: Option<i32>,
    pub direct_scanout: bool,
    pub adaptive_sync: bool,
    pub connector_priorities: Vec<String>,
}

/// What the user asked for.
pub struct OptionsView {
    pub backend: BackendChoice,
    pub output: OutputConfig,
    pub window_width: Option<u32>,
    pub window_height: Option<u32>,
    pub socket: Option<Seq<char>>,
    pub command: Seq<Seq<char>>,
    pub xwayland_count: usize,
    pub steam: bool,
    pub expose_wayland: bool,
    pub borderless: bool,
    pub fullscreen: bool,
    pub keep_alive: bool,
    pub drm_device: Option<Seq<char>>,
    pub output_refresh_millihz: Option<i32>,
    pub direct_scanout: bool,
    pub adaptive_sync: bool,
    pub connector_priorities: Seq<Seq<char>>,
}

impl View for Options {
    type V = OptionsView;

    open spec fn view(&self) -> OptionsView {
        OptionsView {
            backend: self.backend,
            output: self.output,
            window_width: self.window_width,
            window_height: self.window_height,
            socket: text::optional(self.socket),
            command: text::texts(self.command@),
            xwayland_count: self.xwayland_count,
            steam: self.steam,
            expose_wayland: self.expose_wayland,
            borderless: self.borderless,
            fullscreen: self.fullscreen,
            keep_alive: self.keep_alive,
            drm_device: text::optional(self.drm_device),
            output_refresh_millihz: self.output_refresh_millihz,
            direct_scanout: self.direct_scanout,
            adaptive_sync: self.adaptive_sync,
            connector_priorities: text::texts(self.connector_priorities@),
        }
    }
}

/// The options of an empty command line.
pub open spec fn default_options() -> OptionsView {
    OptionsView {
        backend: BackendChoice::Auto,
        output: OutputConfig { width: 0, height: 0, refresh_millihz: 60_000 },
        window_width: None,
        window_height: None,
        socket: None,
        command: Seq::empty(),
        xwayland_count: 1,
        steam: false,
        expose_wayland: false,
        borderless: false,
        fullscreen: false,
        keep_alive: false,
        drm_device: None,
        output_refresh_millihz: None,
        direct_scanout: true,
        adaptive_sync: false,
        connector_priorities: Seq::empty(),
    }
}

/// The options after one that takes no value.
pub open spec fn with_flag(options: OptionsView, kind: OptionKind) -> OptionsView {
    match kind {
        OptionKind::NoXwayland => OptionsView { xwayland_count: 0, ..options },
        OptionKind::Borderless => OptionsView { borderless: true, ..options },
        OptionKind::Fullscreen => OptionsView { fullscreen: true, ..options },
        OptionKind::Nested => OptionsView { backend: BackendChoice::Nested, ..options },
        OptionKind::Drm => OptionsView { backend: BackendChoice::Drm, ..options },
        OptionKind::DisableDirectScanout => OptionsView { direct_scanout: false, ..options },
        OptionKind::AdaptiveSync => OptionsView { adaptive_sync: true, ..options },
        OptionKind::KeepAlive => OptionsView { keep_alive: true, ..options },
        OptionKind::ExposeWayland => OptionsView { expose_wayland: true, ..options },
        OptionKind::Steam => OptionsView { steam: true, ..options },
        _ => options,
    }
}

/// A 32-bit number without a sign.
pub open spec fn count_in(value: Seq<char>) -> Option<u32> {
    match text::parse_nat_up_to(value, u32::MAX as nat) {
        Some(count) => Some(count as u32),
        None => None,
    }
}

/// The refresh rate that an argument gives.
pub open spec fn rate_in(
    option: Seq<char>,
    value: ArgumentView,
) -> Result<i32, OptionsErrorView> {
    match value.rate {
        RateReading::NotANumber => Err(OptionsErrorView::InvalidValue(option)),
        RateReading::OutOfRange => Err(OptionsErrorView::InvalidRate),
        RateReading::Millihertz(rate) => Ok(rate),
    }
}

/// The options after one that takes a value.
pub open spec fn with_value(
    options: OptionsView,
    option: Seq<char>,
    value: ArgumentView,
) -> Result<OptionsView, OptionsErrorView> {
    let invalid = OptionsErrorView::InvalidValue(option);
    match kind_of(option) {
        OptionKind::Width => match text::parse_int(value.text) {
            Some(width) => Ok(
                OptionsView {
                    output: OutputConfig { width: width as i32, ..options.output },
                    ..options
                },
            ),
            None => Err(invalid),
        },
        OptionKind::Height => match text::parse_int(value.text) {
            Some(height) => Ok(
                OptionsView {
                    output: OutputConfig { height: height as i32, ..options.output },
                    ..options
                },
            ),
            None => Err(invalid),
        },
        OptionKind::OutputWidth => match count_in(value.text) {
            Some(width) => Ok(OptionsView { window_width: Some(width), ..options }),
            None => Err(invalid),
        },
        OptionKind::OutputHeight => match count_in(value.text) {
            Some(height) => Ok(OptionsView { window_height: Some(height), ..options }),
            None => Err(invalid),
        },
        OptionKind::OutputRefresh => match rate_in(option, value) {
            Ok(rate) => Ok(OptionsView { output_refresh_millihz: Some(rate), ..options }),
            Err(error) => Err(error),
        },
        OptionKind::Refresh => match rate_in(option, value) {
            Ok(rate) => Ok(
                OptionsView {
                    output: OutputConfig { refresh_millihz: rate, ..options.output },
                    ..options
                },
            ),
            Err(error) => Err(error),
        },
        OptionKind::Socket => Ok(OptionsView { socket: Some(value.text), ..options }),
        OptionKind::XwaylandCount => match text::parse_nat_up_to(
            value.text,
            usize::MAX as nat,
        ) {
            Some(count) => Ok(OptionsView { xwayland_count: count as usize, ..options }),
            None => Err(invalid),
        },
        OptionKind::Backend => match backend_named(value.text) {
            Some(backend) => Ok(OptionsView { backend, ..options }),
            None => Err(OptionsErrorView::InvalidBackend(value.text)),
        },
        OptionKind::DrmDevice => Ok(
            OptionsView {
                drm_device: Some(value.text),
                backend: BackendChoice::Drm,
                ..options
            },
        ),
        OptionKind::PreferOutput => Ok(
            OptionsView {
                connector_priorities: text::split_nonempty(value.text, ','),
                ..options
            },
        ),
        _ => Ok(options),
    }
}

/// The options once every argument has been read, from the first on.
pub open spec fn read_arguments(
    options: OptionsView,
    arguments: Seq<ArgumentView>,
) -> Result<OptionsView, OptionsErrorView>
    decreases arguments.len(),
{
    if arguments.len() == 0 {
        Ok(options)
    } else {
        let option = arguments[0].text;
        let kind = kind_of(option);
        if kind == OptionKind::CommandFollows {
            Ok(
                OptionsView {
                    command: options.command + argument_texts(arguments.skip(1)),
                    ..options
                },
            )
        } else if kind == OptionKind::Help {
            Err(OptionsErrorView::Help)
        } else if kind == OptionKind::Unknown {
            Err(OptionsErrorView::UnknownOption(option))
        } else if !takes_value(kind) {
            read_arguments(with_flag(options, kind), arguments.skip(1))
        } else if arguments.len() < 2 {
            Err(OptionsErrorView::MissingValue(option))
        } else {
            match with_value(options, option, arguments[1]) {
                Ok(options) => read_arguments(options, arguments.skip(2)),
                Err(error) => Err(error),
            }
        }
    }
}

/// What is wrong with options as a whole, if anything is.
pub open spec fn objection(options: OptionsView) -> Option<OptionsErrorView> {
    if options.output.width < 0 || options.output.height < 0 {
        Some(OptionsErrorView::NegativeGameSize)
    } else if options.output.width != 0 && options.output.height == 0 {
        Some(OptionsErrorView::WidthWithoutHeight)
    } else if options.window_width is Some && options.window_height is None {
        Some(OptionsErrorView::OutputWidthWithoutHeight)
    } else if options.window_width == Some(0u32) || options.window_height == Some(0u32) {
        Some(OptionsErrorView::ZeroOutputSize)
    } else if options.output.refresh_millihz <= 0 {
        Some(OptionsErrorView::RateNotPositive)
    } else {
        None
    }
}

/// What a command line asks for.
pub open spec fn parsed(arguments: Seq<ArgumentView>) -> Result<OptionsView, OptionsErrorView> {
    match read_arguments(default_options(), arguments) {
        Ok(options) => match objection(options) {
            Some(error) => Err(error),
            None => Ok(options),
        },
        Err(error) => Err(error),
    }
}

impl Options {
    fn unset() -> (options: Self)
        ensures
            options@ == default_options(),
    {
        let options = Self {
            backend: BackendChoice::Auto,
            output: OutputConfig::unspecified(),
            window_width: None,
            window_height: None,
            socket: None,
            command: Vec::new(),
            xwayland_count: 1,
            steam: false,
            expose_wayland: false,
            borderless: false,
            fullscreen: false,
            keep_alive: false,
            drm_device: None,
            output_refresh_millihz: None,
            direct_scanout: true,
            adaptive_sync: false,
            connector_priorities: Vec::new(),
        };
        assert(options@.command =~= default_options().command);
        assert(options@.connector_priorities =~= default_options().connector_priorities);
        options
    }

    fn set_flag(&mut self, kind: OptionKind)
        ensures
            final(self)@ == with_flag(old(self)@, kind),
    {
        match kind {
            OptionKind::NoXwayland => {
                self.xwayland_count = 0;
            },
            OptionKind::Borderless => {
                self.borderless = true;
            },
            OptionKind::Fullscreen => {
                self.fullscreen = true;
            },
            OptionKind::Nested => {
                self.backend = BackendChoice::Nested;
            },
            OptionKind::Drm => {
                self.backend = BackendChoice::Drm;
            },
            OptionKind::DisableDirectScanout => {
                self.direct_scanout = false;
            },
            OptionKind::AdaptiveSync => {
                self.adaptive_sync = true;
            },
            OptionKind::KeepAlive => {
                self.keep_alive = true;
            },
            OptionKind::ExposeWayland => {
                self.expose_wayland = true;
            },
            OptionKind::Steam => {
                self.steam = true;
            },
            _ => {},
        }
    }

    fn set_value(&mut self, option: &str, value: &Argument) -> (result: Result<(), OptionsError>)
        ensures
            match result {
                Ok(_) => with_value(old(self)@, option@, value@) == Ok::<
                    OptionsView,
                    OptionsErrorView,
                >(final(self)@),
                Err(error) => with_value(old(self)@, option@, value@) == Err::<
                    OptionsView,
                    OptionsErrorView,
                >(error@),
            },
    {
        let given = value.text.as_str();
        match read_kind(option) {
            OptionKind::Width => match read_i32(given) {
                Some(width) => {
                    self.output.width = width;
                    Ok(())
                },
                None => invalid_value(option),
            },
            OptionKind::Height => match read_i32(given) {
                Some(height) => {
                    self.output.height = height;
                    Ok(())
                },
                None => invalid_value(option),
            },
            OptionKind::OutputWidth => match read_u32(given) {
                Some(width) => {
                    self.window_width = Some(width);
                    Ok(())
                },
                None => invalid_value(option),
            },
            OptionKind::OutputHeight => match read_u32(given) {
                Some(height) => {
                    self.window_height = Some(height);
                    Ok(())
                },
                None => invalid_value(option),
            },
            OptionKind::OutputRefresh => match read_rate(option, value) {
                Ok(rate) => {
                    self.output_refresh_millihz = Some(rate);
                    Ok(())
                },
                Err(error) => Err(error),
            },
            OptionKind::Refresh => match read_rate(option, value) {
                Ok(rate) => {
                    self.output.refresh_millihz = rate;
                    Ok(())
                },
                Err(error) => Err(error),
            },
            OptionKind::Socket => {
                self.socket = Some(value.text.clone());
                Ok(())
            },
            OptionKind::XwaylandCount => match read_usize(given) {
                Some(count) => {
                    self.xwayland_count = count;
                    Ok(())
                },
                None => invalid_value(option),
            },
            OptionKind::Backend => match BackendChoice::parse(given) {
                Ok(backend) => {
                    self.backend = backend;
                    Ok(())
                },
                Err(error) => Err(error),
            },
            OptionKind::DrmDevice => {
                self.drm_device = Some(value.text.clone());
                self.backend = BackendChoice::Drm;
                Ok(())
            },
            OptionKind::PreferOutput => {
                self.connector_priorities = split_nonempty_strings(given, ',');
                Ok(())
            },
            _ => Ok(()),
        }
    }

    fn check(self) -> (checked: Result<Self, OptionsError>)
        ensures
            match checked {
                Ok(options) => options == self && objection(self@) is None,
                Err(error) => objection(self@) == Some(error@),
            },
    {
        if self.output.width < 0 || self.output.height < 0 {
            return Err(OptionsError::NegativeGameSize);
        }
        if self.output.width != 0 && self.output.height == 0 {
            return Err(OptionsError::WidthWithoutHeight);
        }
        if self.window_width.is_some() && self.window_height.is_none() {
            return Err(OptionsError::OutputWidthWithoutHeight);
        }
        if self.window_width == Some(0u32) || self.window_height == Some(0u32) {
            return Err(OptionsError::ZeroOutputSize);
        }
        if self.output.refresh_millihz <= 0 {
            return Err(OptionsError::RateNotPositive);
        }
        Ok(self)
    }

    /// Read a command line, without the name of the program.
    pub fn parse_from(arguments: &Vec<Argument>) -> (result: Result<Self, OptionsError>)
        ensures
            match result {
                Ok(options) => parsed(said(arguments@)) == Ok::<OptionsView, OptionsErrorView>(
                    options@,
                ),
                Err(error) => parsed(said(arguments@)) == Err::<OptionsView, OptionsErrorView>(
                    error@,
                ),
            },
    {
        let ghost all = said(arguments@);
        let mut options = Self::unset();
        let mut i: usize = 0;
        assert(all.skip(0) =~= all);
        while i < arguments.len()
            invariant
                i <= arguments@.len(),
                all == said(arguments@),
                read_arguments(default_options(), all) == read_arguments(
                    options@,
                    all.skip(i as int),
                ),
            decreases arguments@.len() - i,
        {
            let ghost rest = all.skip(i as int);
            let argument = &arguments[i];
            assert(rest[0] == argument@);
            let option = argument.text.as_str();
            let kind = read_kind(option);
            if kind == OptionKind::CommandFollows {
                assert(rest.skip(1) =~= all.skip(i + 1));
                options.take_command(arguments, i + 1);
                return options.check();
            }
            if kind == OptionKind::Help {
                return Err(OptionsError::Help);
            }
            if kind == OptionKind::Unknown {
                return Err(OptionsError::UnknownOption(argument.text.clone()));
            }
            if !has_value(kind) {
                options.set_flag(kind);
                assert(rest.skip(1) =~= all.skip(i + 1));
                i = i + 1;
            } else {
                if arguments.len() - i < 2 {
                    return Err(OptionsError::MissingValue(argument.text.clone()));
                }
                assert(rest[1] == arguments@[i + 1]@);
                match options.set_value(option, &arguments[i + 1]) {
                    Ok(_) => {},
                    Err(error) => {
                        return Err(error);
                    },
                }
                assert(rest.skip(2) =~= all.skip(i + 2));
                i = i + 2;
            }
        }
        options.check()
    }

    fn take_command(&mut self, arguments: &Vec<Argument>, from: usize)
        requires
            from <= arguments@.len(),
        ensures
            final(self)@ == (OptionsView {
                command: old(self)@.command + argument_texts(said(arguments@).skip(from as int)),
                ..old(self)@
            }),
    {
        let ghost before = self@;
        let ghost words = argument_texts(said(arguments@).skip(from as int));
        let mut i: usize = from;
        assert(before.command + words.take(0) =~= before.command);
        while i < arguments.len()
            invariant
                from <= i <= arguments@.len(),
                words == argument_texts(said(arguments@).skip(from as int)),
                self@ == (OptionsView {
                    command: before.command + words.take(i - from),
                    ..before
                }),
            decreases arguments@.len() - i,
        {
            let ghost so_far = self.command@;
            self.command.push(arguments[i].text.clone());
            proof {
                assert(text::texts(self.command@) =~= text::texts(so_far).push(words[i - from]));
                assert(before.command + words.take(i + 1 - from) =~= (before.command + words.take(
                    i - from,
                )).push(words[i - from]));
            }
            i = i + 1;
        }
        assert(words.take(i - from) =~= words);
    }

    /// The backend in use: what the user asked for, else what is configured, else a nested
    /// window when the environment has a display to nest in and the hardware when it has
    /// none. `configured` is the value of `GAMESCOPE_BACKEND`, which may leave the choice
    /// open too; the others tell whether a Wayland display or an X display is named by the
    /// environment.
    pub fn selected_backend(
        &self,
        configured: Option<&str>,
        has_wayland_display: bool,
        has_display: bool,
    ) -> (choice: Result<BackendChoice, OptionsError>)
        ensures
            match choice {
                Ok(choice) => if self.backend != BackendChoice::Auto {
                    choice == self.backend
                } else {
                    match named_backend(configured) {
                        Some(BackendChoice::Auto) => choice == (if self.drm_device is Some || (
                        !has_wayland_display && !has_display) {
                            BackendChoice::Drm
                        } else {
                            BackendChoice::Nested
                        }),
                        named => named == Some(choice),
                    }
                },
                Err(error) => {
                    &&& self.backend == BackendChoice::Auto
                    &&& configured matches Some(value)
                    &&& backend_named(value@) is None
                    &&& error@ == OptionsErrorView::InvalidBackend(value@)
                },
            },
            choice matches Ok(choice) ==> choice != BackendChoice::Auto,
    {
        if self.backend != BackendChoice::Auto {
            return Ok(self.backend);
        }
        if let Some(value) = configured {
            match BackendChoice::parse(value) {
                Ok(BackendChoice::Auto) => {},
                named => {
                    return named;
                },
            }
        }
        if self.drm_device.is_some() || (!has_wayland_display && !has_display) {
            Ok(BackendChoice::Drm)
        } else {
            Ok(BackendChoice::Nested)
        }
    }

    /// The size of the window of the nested backend: 720 rows and a 16:9 shape unless the
    /// user asked for another size.
    #[must_use]
    pub fn window_size(&self) -> (size: (u32, u32))
        ensures
            size.1 == (match self.window_height {
                Some(height) => height,
                None => 720,
            }),
            size.0 == (match self.window_width {
                Some(width) => width as int,
                None => (if size.1 * 16 > u32::MAX {
                    u32::MAX as int
                } else {
                    size.1 * 16
                }) / 9,
            }),
    {
        let height: u32 = match self.window_height {
            Some(height) => height,
            None => 720,
        };
        let width: u32 = match self.window_width {
            Some(width) => width,
            None => {
                let product: u64 = height as u64 * 16;
                if product > u32::MAX as u64 {
                    u32::MAX / 9
                } else {
                    product as u32 / 9
                }
            },
        };
        (width, height)
    }

    /// Whether the command is to be started: it waits for all Xwayland servers.
    #[must_use]
    pub fn command_is_due(&self, pending: bool, ready_servers: usize) -> (due: bool)
        ensures
            due == (pending && ready_servers >= self.xwayland_count),
    {
        pending && ready_servers >= self.xwayland_count
    }
}

/// Why no display device is driven.
#[derive(Clone, Copy, Debug, PartialEq, Eq, Structural)]
pub enum DeviceError {
    /// The seat has no display device.
    NoDevice,
    /// The seat does not have the device that the user asked for.
    NotAvailable,
}

impl DeviceError {
    /// What the user is told.
    pub open spec fn message(self, device: Seq<char>, seat: Seq<char>) -> Seq<char> {
        match self {
            DeviceError::NoDevice => "no DRM primary nodes found on "@ + seat,
            DeviceError::NotAvailable => "requested DRM device "@ + device + " is not available on "@
                + seat,
        }
    }

    /// What the user is told. `device` is the device that was looked for.
    #[must_use]
    pub fn text(self, device: &str, seat: &str) -> (told: String)
        ensures
            told@ == self.message(device@, seat@),
    {
        let mut told = match self {
            DeviceError::NoDevice => string_from("no DRM primary nodes found on "),
            DeviceError::NotAvailable => {
                let mut told = string_from("requested DRM device ");
                push_text(&mut told, device);
                push_text(&mut told, " is not available on ");
                told
            },
        };
        push_text(&mut told, seat);
        told
    }
}

impl Options {
    /// The device to drive, by its index among the devices of the seat. `found` is the index
    /// of the device that was looked for: the one that the user asked for, or else the
    /// seat's primary one. Only the user's wish is binding.
    pub fn select_device(&self, found: Option<usize>, count: usize) -> (selected: Result<
        usize,
        DeviceError,
    >)
        ensures
            selected == (match found {
                Some(index) => Ok::<usize, DeviceError>(index),
                None => if count == 0 {
                    Err(DeviceError::NoDevice)
                } else if self.drm_device is Some {
                    Err(DeviceError::NotAvailable)
                } else {
                    Ok(0)
                },
            }),
    {
        match found {
            Some(index) => Ok(index),
            None => if count == 0 {
                Err(DeviceError::NoDevice)
            } else if self.drm_device.is_some() {
                Err(DeviceError::NotAvailable)
            } else {
                Ok(0)
            },
        }
    }
}

fn invalid_value(option: &str) -> (result: Result<(), OptionsError>)
    ensures
        result matches Err(error) && error@ == OptionsErrorView::InvalidValue(option@),
{
    Err(OptionsError::InvalidValue(string_from(option)))
}

fn read_rate(option: &str, value: &Argument) -> (rate: Result<i32, OptionsError>)
    ensures
        match rate {
            Ok(rate) => rate_in(option@, value@) == Ok::<i32, OptionsErrorView>(rate),
            Err(error) => rate_in(option@, value@) == Err::<i32, OptionsErrorView>(error@),
        },
{
    match value.rate {
        RateReading::NotANumber => Err(OptionsError::InvalidValue(string_from(option))),
        RateReading::OutOfRange => Err(OptionsError::InvalidRate),
        RateReading::Millihertz(rate) => Ok(rate),
    }
}

/// Accepted options have no negative or half-specified sizes, no empty output and a
/// positive refresh rate.
pub proof fn lemma_accepted_options_are_sound(arguments: Seq<ArgumentView>)
    ensures
        parsed(arguments) matches Ok(options) ==> {
            &&& options.output.width >= 0
            &&& options.output.height >= 0
            &&& options.output.height == 0 ==> options.output.width == 0
            &&& options.window_width is Some ==> options.window_height is Some
            &&& options.window_width != Some(0u32)
            &&& options.window_height != Some(0u32)
            &&& options.output.refresh_millihz > 0
        },
{
}

/// A command is taken as it is: nothing behind the separator is read as an option.
pub proof fn lemma_command_is_not_parsed(options: OptionsView, command: Seq<ArgumentView>)
    ensures
        read_arguments(
            options,
            seq![ArgumentView { text: "--"@, rate: RateReading::NotANumber }] + command,
        ) == Ok::<OptionsView, OptionsErrorView>(
            OptionsView { command: options.command + argument_texts(command), ..options },
        ),
{
    reveal_strlit("--");
    reveal_strlit("--width");
    reveal_strlit("--nested-width");
    reveal_strlit("-w");
    reveal_strlit("--height");
    reveal_strlit("--nested-height");
    reveal_strlit("-h");
    reveal_strlit("--output-width");
    reveal_strlit("-W");
    reveal_strlit("--output-height");
    reveal_strlit("-H");
    reveal_strlit("--output-refresh");
    reveal_strlit("--refresh");
    reveal_strlit("--nested-refresh");
    reveal_strlit("-r");
    reveal_strlit("--socket");
    reveal_strlit("--no-xwayland");
    reveal_strlit("--xwayland-count");
    reveal_strlit("--borderless");
    reveal_strlit("-b");
    reveal_strlit("--fullscreen");
    reveal_strlit("-f");
    reveal_strlit("--backend");
    reveal_strlit("--nested");
    reveal_strlit("-n");
    reveal_strlit("--drm");
    reveal_strlit("--drm-device");
    reveal_strlit("--disable-direct-scanout");
    reveal_strlit("--adaptive-sync");
    reveal_strlit("--prefer-output");
    reveal_strlit("-O");
    reveal_strlit("--keep-alive");
    reveal_strlit("--expose-wayland");
    reveal_strlit("--steam");
    reveal_strlit("-e");
    let separator = ArgumentView { text: "--"@, rate: RateReading::NotANumber };
    let arguments = seq![separator] + command;
    assert(arguments[0] == separator);
    assert(arguments.skip(1) =~= command);
    assert("--"@.len() == 2 && "--"@[1] == '-');
    assert("-w"@[1] == 'w' && "-h"@[1] == 'h' && "-W"@[1] == 'W' && "-H"@[1] == 'H' && "-r"@[1]
        == 'r' && "-b"@[1] == 'b' && "-f"@[1] == 'f' && "-n"@[1] == 'n' && "-O"@[1] == 'O'
        && "-e"@[1] == 'e');
    assert(kind_of("--"@) == OptionKind::CommandFollows);
}

/// The names that each option goes by. No other text is an option.
pub proof fn lemma_options_go_by_their_names(option: Seq<char>)
    ensures
        match kind_of(option) {
            OptionKind::Width => option == "--width"@ || option == "--nested-width"@
                || option == "-w"@,
            OptionKind::Height => option == "--height"@ || option == "--nested-height"@
                || option == "-h"@,
            OptionKind::OutputWidth => option == "--output-width"@ || option == "-W"@,
            OptionKind::OutputHeight => option == "--output-height"@ || option == "-H"@,
            OptionKind::OutputRefresh => option == "--output-refresh"@,
            OptionKind::Refresh => option == "--refresh"@ || option == "--nested-refresh"@
                || option == "-r"@,
            OptionKind::Socket => option == "--socket"@,
            OptionKind::NoXwayland => option == "--no-xwayland"@,
            OptionKind::XwaylandCount => option == "--xwayland-count"@,
            OptionKind::Borderless => option == "--borderless"@ || option == "-b"@,
            OptionKind::Fullscreen => option == "--fullscreen"@ || option == "-f"@,
            OptionKind::Backend => option == "--backend"@,
            OptionKind::Nested => option == "--nested"@ || option == "-n"@,
            OptionKind::Drm => option == "--drm"@,
            OptionKind::DrmDevice => option == "--drm-device"@,
            OptionKind::DisableDirectScanout => option == "--disable-direct-scanout"@,
            OptionKind::AdaptiveSync => option == "--adaptive-sync"@,
            OptionKind::PreferOutput => option == "--prefer-output"@ || option == "-O"@,
            OptionKind::KeepAlive => option == "--keep-alive"@,
            OptionKind::ExposeWayland => option == "--expose-wayland"@,
            OptionKind::Steam => option == "--steam"@ || option == "-e"@,
            OptionKind::CommandFollows => option == "--"@,
            OptionKind::Help => option == "--help"@,
            OptionKind::Unknown => option != "--width"@ && option != "--nested-width"@
                && option != "-w"@ && option != "--height"@ && option != "--nested-height"@
                && option != "-h"@ && option != "--output-width"@ && option != "-W"@
                && option != "--output-height"@ && option != "-H"@ && option != "--output-refresh"@
                && option != "--refresh"@ && option != "--nested-refresh"@ && option != "-r"@
                && option != "--socket"@ && option != "--no-xwayland"@
                && option != "--xwayland-count"@ && option != "--borderless"@ && option != "-b"@
                && option != "--fullscreen"@ && option != "-f"@ && option != "--backend"@
                && option != "--nested"@ && option != "-n"@ && option != "--drm"@
                && option != "--drm-device"@ && option != "--disable-direct-scanout"@
                && option != "--adaptive-sync"@ && option != "--prefer-output"@ && option != "-O"@
                && option != "--keep-alive"@ && option != "--expose-wayland"@
                && option != "--steam"@ && option != "-e"@ && option != "--"@
                && option != "--help"@,
        },
{
}

/// The options that a value follows: sizes, rates, counts and names. All others stand alone.
pub proof fn lemma_values_follow_some_options(kind: OptionKind)
    ensures
        takes_value(kind) <==> kind is Width || kind is Height || kind is OutputWidth || kind
            is OutputHeight || kind is OutputRefresh || kind is Refresh || kind is Socket || kind
            is XwaylandCount || kind is Backend || kind is DrmDevice || kind is PreferOutput,
{
}

/// The names of backends. A text that is none of them is refused.
pub proof fn lemma_backends_go_by_their_names(word: Seq<char>)
    ensures
        match backend_named(word) {
            Some(BackendChoice::Auto) => word == "auto"@,
            Some(BackendChoice::Nested) => word == "nested"@ || word == "winit"@,
            Some(BackendChoice::Drm) => word == "drm"@ || word == "kms"@,
            None => word != "auto"@ && word != "nested"@ && word != "winit"@ && word != "drm"@
                && word != "kms"@,
        },
        named_backend(None) == Some(BackendChoice::Auto),
{
}

/// What is used where nothing is said: any backend, the size of the output, sixty hertz, one
/// server for X11, a client's buffers shown as they are where that is possible, and nothing
/// else.
pub proof fn lemma_unsaid_options_have_defaults()
    ensures
        ({
            let options = default_options();
            &&& options.backend is Auto
            &&& options.output.width == 0 && options.output.height == 0
            &&& options.output.refresh_millihz == 60_000
            &&& options.window_width is None && options.window_height is None
            &&& options.socket is None && options.drm_device is None
            &&& options.output_refresh_millihz is None
            &&& options.command.len() == 0 && options.connector_priorities.len() == 0
            &&& options.xwayland_count == 1
            &&& options.direct_scanout
            &&& !options.steam && !options.expose_wayland && !options.borderless
                && !options.fullscreen && !options.keep_alive && !options.adaptive_sync
        }),
{
}

/// An option that stands alone changes what it is about, and nothing else.
pub proof fn lemma_flags_change_one_thing(options: OptionsView, kind: OptionKind)
    ensures
        ({
            let after = with_flag(options, kind);
            &&& after.xwayland_count == (if kind is NoXwayland {
                0
            } else {
                options.xwayland_count
            })
            &&& after.borderless == (kind is Borderless || options.borderless)
            &&& after.fullscreen == (kind is Fullscreen || options.fullscreen)
            &&& after.adaptive_sync == (kind is AdaptiveSync || options.adaptive_sync)
            &&& after.keep_alive == (kind is KeepAlive || options.keep_alive)
            &&& after.expose_wayland == (kind is ExposeWayland || options.expose_wayland)
            &&& after.steam == (kind is Steam || options.steam)
            &&& after.direct_scanout == (!(kind is DisableDirectScanout) && options.direct_scanout)
            &&& kind is Nested ==> after.backend is Nested
            &&& kind is Drm ==> after.backend is Drm
            &&& !(kind is Nested) && !(kind is Drm) ==> after.backend == options.backend
            &&& after.output == options.output && after.window_width == options.window_width
                && after.window_height == options.window_height && after.socket == options.socket
                && after.command == options.command && after.drm_device == options.drm_device
                && after.output_refresh_millihz == options.output_refresh_millihz
                && after.connector_priorities == options.connector_priorities
        }),
{
}

/// An option with a value takes over what the value says, and nothing else, save that a device
/// brings its backend along. A size may be negative until options are checked. What a value
/// does not spell is refused.
pub proof fn lemma_values_change_one_thing(
    options: OptionsView,
    option: Seq<char>,
    value: ArgumentView,
)
    ensures
        ({
            let kind = kind_of(option);
            let after = with_value(options, option, value);
            let refused = Err::<OptionsView, OptionsErrorView>(
                OptionsErrorView::InvalidValue(option),
            );
            let whole = text::parse_int(value.text);
            let count = text::parse_nat_up_to(value.text, 0xffff_ffff);
            &&& kind is Width ==> match whole {
                Some(width) => after == Ok::<OptionsView, OptionsErrorView>(
                    OptionsView {
                        output: OutputConfig {
                            width: width as i32,
                            height: options.output.height,
                            refresh_millihz: options.output.refresh_millihz,
                        },
                        ..options
                    },
                ),
                None => after == refused,
            }
            &&& kind is Height ==> match whole {
                Some(height) => after == Ok::<OptionsView, OptionsErrorView>(
                    OptionsView {
                        output: OutputConfig {
                            width: options.output.width,
                            height: height as i32,
                            refresh_millihz: options.output.refresh_millihz,
                        },
                        ..options
                    },
                ),
                None => after == refused,
            }
            &&& kind is OutputWidth ==> match count {
                Some(width) => after == Ok::<OptionsView, OptionsErrorView>(
                    OptionsView { window_width: Some(width as u32), ..options },
                ),
                None => after == refused,
            }
            &&& kind is OutputHeight ==> match count {
                Some(height) => after == Ok::<OptionsView, OptionsErrorView>(
                    OptionsView { window_height: Some(height as u32), ..options },
                ),
                None => after == refused,
            }
            &&& kind is OutputRefresh ==> match value.rate {
                RateReading::Millihertz(rate) => after == Ok::<OptionsView, OptionsErrorView>(
                    OptionsView { output_refresh_millihz: Some(rate), ..options },
                ),
                RateReading::NotANumber => after == refused,
                RateReading::OutOfRange => after == Err::<OptionsView, OptionsErrorView>(
                    OptionsErrorView::InvalidRate,
                ),
            }
            &&& kind is Refresh ==> match value.rate {
                RateReading::Millihertz(rate) => after == Ok::<OptionsView, OptionsErrorView>(
                    OptionsView {
                        output: OutputConfig {
                            width: options.output.width,
                            height: options.output.height,
                            refresh_millihz: rate,
                        },
                        ..options
                    },
                ),
                RateReading::NotANumber => after == refused,
                RateReading::OutOfRange => after == Err::<OptionsView, OptionsErrorView>(
                    OptionsErrorView::InvalidRate,
                ),
            }
            &&& kind is Socket ==> after == Ok::<OptionsView, OptionsErrorView>(
                OptionsView { socket: Some(value.text), ..options },
            )
            &&& kind is XwaylandCount ==> match text::parse_nat(value.text) {
                Some(count) if count <= usize::MAX => after == Ok::<OptionsView, OptionsErrorView>(
                    OptionsView { xwayland_count: count as usize, ..options },
                ),
                _ => after == refused,
            }
            &&& kind is Backend ==> match backend_named(value.text) {
                Some(backend) => after == Ok::<OptionsView, OptionsErrorView>(
                    OptionsView { backend, ..options },
                ),
                None => after == Err::<OptionsView, OptionsErrorView>(
                    OptionsErrorView::InvalidBackend(value.text),
                ),
            }
            &&& kind is DrmDevice ==> after == Ok::<OptionsView, OptionsErrorView>(
                OptionsView {
                    drm_device: Some(value.text),
                    backend: BackendChoice::Drm,
                    ..options
                },
            )
            &&& kind is PreferOutput ==> after == Ok::<OptionsView, OptionsErrorView>(
                OptionsView {
                    connector_priorities: text::split_nonempty(value.text, ','),
                    ..options
                },
            )
        }),
{
}

/// Arguments are read from the first to the last. An option that stands alone is followed by
/// the next option, one with a value by the value and then the next option. Reading ends with
/// the first thing that is wrong, and with the command, all of which is taken as it is.
pub proof fn lemma_arguments_are_read_in_order(
    options: OptionsView,
    option: ArgumentView,
    value: ArgumentView,
    rest: Seq<ArgumentView>,
)
    ensures
        ({
            let kind = kind_of(option.text);
            let with_rest = read_arguments(options, seq![option] + rest);
            let with_both = read_arguments(options, seq![option, value] + rest);
            &&& read_arguments(options, Seq::empty()) == Ok::<OptionsView, OptionsErrorView>(
                options,
            )
            &&& kind is CommandFollows ==> with_rest == Ok::<OptionsView, OptionsErrorView>(
                OptionsView { command: options.command + argument_texts(rest), ..options },
            )
            &&& kind is Help ==> with_rest == Err::<OptionsView, OptionsErrorView>(
                OptionsErrorView::Help,
            )
            &&& kind is Unknown ==> with_rest == Err::<OptionsView, OptionsErrorView>(
                OptionsErrorView::UnknownOption(option.text),
            )
            &&& kind is NoXwayland || kind is Borderless || kind is Fullscreen || kind is Nested
                || kind is Drm || kind is DisableDirectScanout || kind is AdaptiveSync || kind
                is KeepAlive || kind is ExposeWayland || kind is Steam ==> with_rest
                == read_arguments(with_flag(options, kind), rest)
            &&& takes_value(kind) ==> {
                &&& read_arguments(options, seq![option]) == Err::<OptionsView, OptionsErrorView>(
                    OptionsErrorView::MissingValue(option.text),
                )
                &&& match with_value(options, option.text, value) {
                    Ok(after) => with_both == read_arguments(after, rest),
                    Err(error) => with_both == Err::<OptionsView, OptionsErrorView>(error),
                }
            }
        }),
{
    let one = seq![option] + rest;
    let two = seq![option, value] + rest;
    assert(one[0] == option);
    assert(one.skip(1) =~= rest);
    assert(two[0] == option);
    assert(two[1] == value);
    assert(two.skip(2) =~= rest);
    assert(two.skip(1) =~= seq![value] + rest);
}

/// Options are accepted exactly if sizes are not negative, a width does not come without its
/// height, no size of the window is zero, and the rate is positive.
pub proof fn lemma_options_are_objected_to(options: OptionsView)
    ensures
        ({
            let width = options.output.width;
            let height = options.output.height;
            let negative = width < 0 || height < 0;
            let lone = width > 0 && height == 0;
            let lone_window = options.window_width is Some && options.window_height is None;
            let zero = (options.window_width matches Some(size) && size == 0) || (
            options.window_height matches Some(size) && size == 0);
            let no_rate = options.output.refresh_millihz <= 0;
            &&& objection(options) is None <==> !negative && !lone && !lone_window && !zero
                && !no_rate
            &&& objection(options) == Some(OptionsErrorView::NegativeGameSize) <==> negative
            &&& objection(options) == Some(OptionsErrorView::WidthWithoutHeight) <==> !negative
                && lone
            &&& objection(options) == Some(OptionsErrorView::OutputWidthWithoutHeight)
                <==> !negative && !lone && lone_window
            &&& objection(options) == Some(OptionsErrorView::ZeroOutputSize) <==> !negative && !lone
                && !lone_window && zero
            &&& objection(options) == Some(OptionsErrorView::RateNotPositive) <==> !negative
                && !lone && !lone_window && !zero && no_rate
        }),
{
}

/// Options are read from the defaults, and are checked once all of them are read.
pub proof fn lemma_read_options_are_checked(arguments: Seq<ArgumentView>)
    ensures
        match read_arguments(default_options(), arguments) {
            Ok(options) => {
                &&& objection(options) is None ==> parsed(arguments) == Ok::<
                    OptionsView,
                    OptionsErrorView,
                >(options)
                &&& objection(options) matches Some(error) ==> parsed(arguments) == Err::<
                    OptionsView,
                    OptionsErrorView,
                >(error)
            },
            Err(error) => parsed(arguments) == Err::<OptionsView, OptionsErrorView>(error),
        },
{
}

/// What a person is told of options that are refused.
pub proof fn lemma_refusals_are_explained(error: OptionsErrorView)
    ensures
        match error {
            OptionsErrorView::Help => error.message() == USAGE@,
            OptionsErrorView::UnknownOption(option) => error.message() == "unknown option: "@
                + option,
            OptionsErrorView::MissingValue(option) => error.message() == option
                + " requires a value"@,
            OptionsErrorView::InvalidValue(option) => error.message() == "invalid value for "@
                + option,
            OptionsErrorView::InvalidRate => error.message()
                == "refresh rate must be positive and finite"@,
            OptionsErrorView::InvalidBackend(value) => error.message() == "invalid backend "@
                + text::debug_quoted(value) + "; expected auto, nested, or drm"@,
            OptionsErrorView::NegativeGameSize => error.message()
                == "game dimensions cannot be negative"@,
            OptionsErrorView::WidthWithoutHeight => error.message()
                == "cannot specify -w without -h"@,
            OptionsErrorView::OutputWidthWithoutHeight => error.message()
                == "cannot specify -W without -H"@,
            OptionsErrorView::ZeroOutputSize => error.message()
                == "output dimensions must be positive"@,
            OptionsErrorView::RateNotPositive => error.message()
                == "refresh rate must be positive"@,
        },
{
}

} // verus!
