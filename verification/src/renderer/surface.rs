//! The surface that frames are drawn on: how it is configured, and how it is recovered when the
//! system takes it away.

use crate::text::join;
use vstd::prelude::*;
use vstd::string::*;

verus! {

broadcast use vstd::string::group_string_axioms;

/// Renderer initialization error. Errors of the graphics system are given by their texts.
#[derive(Debug)]
pub enum Error {
    CreateSurface(String),
    RequestAdapter(String),
    RequestDevice(String),
    MissingSurfaceCapability(String),
}

impl Error {
    /// What the error says.
    pub open spec fn text(self) -> Seq<char> {
        match self {
            Error::CreateSurface(error) => "failed to create surface: "@ + error@,
            Error::RequestAdapter(error) => "failed to request adapter: "@ + error@,
            Error::RequestDevice(error) => "failed to request device: "@ + error@,
            Error::MissingSurfaceCapability(capability) => "surface exposes no "@ + capability@,
        }
    }

    /// Describe the error.
    pub fn message(&self) -> (message: String)
        ensures
            message@ == self.text(),
    {
        match self {
            Error::CreateSurface(error) => join("failed to create surface: ", error.as_str()),
            Error::RequestAdapter(error) => join("failed to request adapter: ", error.as_str()),
            Error::RequestDevice(error) => join("failed to request device: ", error.as_str()),
            Error::MissingSurfaceCapability(capability) => join(
                "surface exposes no ",
                capability.as_str(),
            ),
        }
    }

    /// Whether the error is that a surface lacks a capability.
    pub open spec fn lacks(self, capability: Seq<char>) -> bool {
        self matches Error::MissingSurfaceCapability(missing) && missing@ == capability
    }
}

/// How a transparent surface is put over what lies behind it.
#[derive(Clone, Copy, Debug, PartialEq, Eq, Structural)]
pub enum AlphaMode {
    Auto,
    Opaque,
    PreMultiplied,
    PostMultiplied,
    Inherit,
}

/// When a frame is shown.
#[derive(Clone, Copy, Debug, PartialEq, Eq, Structural)]
pub enum PresentMode {
    AutoVsync,
    AutoNoVsync,
    Fifo,
    FifoRelaxed,
    Immediate,
    Mailbox,
}

/// A pixel format of a surface.
#[derive(Clone, Copy, Debug, PartialEq, Eq, Structural)]
pub struct SurfaceFormat {
    /// The number that stands for the format; different formats have different numbers.
    pub code: u32,
    /// Whether its colors are in the sRGB color space.
    pub srgb: bool,
}

/// What a surface can do.
#[derive(Debug)]
pub struct Capabilities {
    pub formats: Vec<SurfaceFormat>,
    pub alpha_modes: Vec<AlphaMode>,
    pub present_modes: Vec<PresentMode>,
}

/// How a surface is used.
#[derive(Clone, Copy, Debug, PartialEq, Eq, Structural)]
pub struct SurfaceConfiguration {
    pub format: SurfaceFormat,
    pub alpha_mode: AlphaMode,
    pub present_mode: PresentMode,
    pub width: u32,
    pub height: u32,
    /// How many frames may wait to be shown.
    pub desired_maximum_frame_latency: u32,
}

/// The first item of a sequence.
pub open spec fn first<T>(items: Seq<T>) -> Option<T> {
    if items.len() > 0 {
        Some(items[0])
    } else {
        None
    }
}

/// The alpha mode for a window that is transparent or not.
pub open spec fn alpha_choice(modes: Seq<AlphaMode>, transparent: bool) -> Option<AlphaMode> {
    if transparent && modes.contains(AlphaMode::PreMultiplied) {
        Some(AlphaMode::PreMultiplied)
    } else if transparent && modes.contains(AlphaMode::PostMultiplied) {
        Some(AlphaMode::PostMultiplied)
    } else if !transparent && modes.contains(AlphaMode::Opaque) {
        Some(AlphaMode::Opaque)
    } else {
        first(modes)
    }
}

/// The first format whose colors are in the sRGB color space.
pub open spec fn first_srgb(formats: Seq<SurfaceFormat>, from: int) -> Option<SurfaceFormat>
    decreases formats.len() - from,
{
    if from < 0 || from >= formats.len() {
        None
    } else if formats[from].srgb {
        Some(formats[from])
    } else {
        first_srgb(formats, from + 1)
    }
}

/// The format of a surface: an sRGB one, or else the one that the system prefers.
pub open spec fn format_choice(formats: Seq<SurfaceFormat>) -> Option<SurfaceFormat> {
    match first_srgb(formats, 0) {
        Some(format) => Some(format),
        None => first(formats),
    }
}

/// When frames are shown: in step with the screen if possible.
pub open spec fn present_choice(modes: Seq<PresentMode>) -> Option<PresentMode> {
    if modes.contains(PresentMode::AutoVsync) {
        Some(PresentMode::AutoVsync)
    } else {
        first(modes)
    }
}

/// Whether an alpha mode is among some.
fn has_alpha_mode(modes: &Vec<AlphaMode>, mode: AlphaMode) -> (has: bool)
    ensures
        has == modes@.contains(mode),
{
    let mut index: usize = 0;
    while index < modes.len()
        invariant
            index <= modes@.len(),
            forall|i: int| 0 <= i < index ==> modes@[i] != mode,
        decreases modes@.len() - index,
    {
        if modes[index] == mode {
            return true;
        }
        index += 1;
    }
    false
}

/// Choose the alpha mode for a window that is transparent or not.
pub fn select_alpha_mode(modes: &Vec<AlphaMode>, transparent: bool) -> (mode: Option<AlphaMode>)
    ensures
        mode == alpha_choice(modes@, transparent),
{
    if transparent {
        if has_alpha_mode(modes, AlphaMode::PreMultiplied) {
            return Some(AlphaMode::PreMultiplied);
        }
        if has_alpha_mode(modes, AlphaMode::PostMultiplied) {
            return Some(AlphaMode::PostMultiplied);
        }
    } else if has_alpha_mode(modes, AlphaMode::Opaque) {
        return Some(AlphaMode::Opaque);
    }
    if modes.len() > 0 {
        Some(modes[0])
    } else {
        None
    }
}

/// Choose the format of a surface.
fn select_format(formats: &Vec<SurfaceFormat>) -> (format: Option<SurfaceFormat>)
    ensures
        format == format_choice(formats@),
{
    let mut index: usize = 0;
    while index < formats.len()
        invariant
            index <= formats@.len(),
            first_srgb(formats@, 0) == first_srgb(formats@, index as int),
        decreases formats@.len() - index,
    {
        if formats[index].srgb {
            return Some(formats[index]);
        }
        index += 1;
    }
    if formats.len() > 0 {
        Some(formats[0])
    } else {
        None
    }
}

/// Choose when frames are shown.
fn select_present_mode(modes: &Vec<PresentMode>) -> (mode: Option<PresentMode>)
    ensures
        mode == present_choice(modes@),
{
    let mut index: usize = 0;
    while index < modes.len()
        invariant
            index <= modes@.len(),
            forall|i: int| 0 <= i < index ==> modes@[i] != PresentMode::AutoVsync,
        decreases modes@.len() - index,
    {
        if modes[index] == PresentMode::AutoVsync {
            return Some(PresentMode::AutoVsync);
        }
        index += 1;
    }
    if modes.len() > 0 {
        Some(modes[0])
    } else {
        None
    }
}

/// A length of at least one pixel.
pub open spec fn at_least_one(length: u32) -> u32 {
    if length == 0 {
        1
    } else {
        length
    }
}

/// Whether `config` is how a surface is used: it is an error to lack formats, alpha modes or present
/// modes, and the first that is lacking is named.
pub open spec fn configured_by(
    capabilities: Capabilities,
    width: u32,
    height: u32,
    transparent: bool,
    config: Result<SurfaceConfiguration, Error>,
) -> bool {
    match (
        format_choice(capabilities.formats@),
        alpha_choice(capabilities.alpha_modes@, transparent),
        present_choice(capabilities.present_modes@),
    ) {
        (None, _, _) => config matches Err(error) && error.lacks("texture formats"@),
        (Some(_), None, _) => config matches Err(error) && error.lacks("alpha modes"@),
        (Some(_), Some(_), None) => config matches Err(error) && error.lacks("present modes"@),
        (Some(format), Some(alpha_mode), Some(present_mode)) => config == Ok::<_, Error>(
            SurfaceConfiguration {
                format,
                alpha_mode,
                present_mode,
                width: at_least_one(width),
                height: at_least_one(height),
                desired_maximum_frame_latency: 1,
            },
        ),
    }
}

/// Choose how a surface is used.
pub fn surface_configuration(
    capabilities: &Capabilities,
    width: u32,
    height: u32,
    transparent: bool,
) -> (config: Result<SurfaceConfiguration, Error>)
    ensures
        configured_by(*capabilities, width, height, transparent, config),
{
    let format = match select_format(&capabilities.formats) {
        Some(format) => format,
        None => {
            return Err(Error::MissingSurfaceCapability("texture formats".to_owned()));
        },
    };
    let alpha_mode = match select_alpha_mode(&capabilities.alpha_modes, transparent) {
        Some(mode) => mode,
        None => {
            return Err(Error::MissingSurfaceCapability("alpha modes".to_owned()));
        },
    };
    let present_mode = match select_present_mode(&capabilities.present_modes) {
        Some(mode) => mode,
        None => {
            return Err(Error::MissingSurfaceCapability("present modes".to_owned()));
        },
    };
    Ok(
        SurfaceConfiguration {
            format,
            alpha_mode,
            present_mode,
            width: if width == 0 {
                1
            } else {
                width
            },
            height: if height == 0 {
                1
            } else {
                height
            },
            desired_maximum_frame_latency: 1,
        },
    )
}

/// What comes of starting the renderer, given what came of making a surface, of asking for an
/// adapter and of asking for a device, in this order, and what the surface can do: the first
/// failure decides.
pub fn initialized(
    created: Result<(), String>,
    adapter: Result<(), String>,
    device: Result<(), String>,
    capabilities: &Capabilities,
    width: u32,
    height: u32,
    transparent: bool,
) -> (config: Result<SurfaceConfiguration, Error>)
    ensures
        match (created, adapter, device) {
            (Err(error), _, _) => config == Err::<SurfaceConfiguration, _>(
                Error::CreateSurface(error),
            ),
            (Ok(_), Err(error), _) => config == Err::<SurfaceConfiguration, _>(
                Error::RequestAdapter(error),
            ),
            (Ok(_), Ok(_), Err(error)) => config == Err::<SurfaceConfiguration, _>(
                Error::RequestDevice(error),
            ),
            (Ok(_), Ok(_), Ok(_)) => configured_by(
                *capabilities,
                width,
                height,
                transparent,
                config,
            ),
        },
{
    if let Err(error) = created {
        return Err(Error::CreateSurface(error));
    }
    if let Err(error) = adapter {
        return Err(Error::RequestAdapter(error));
    }
    if let Err(error) = device {
        return Err(Error::RequestDevice(error));
    }
    surface_configuration(capabilities, width, height, transparent)
}

/// Reason a surface frame is temporarily unavailable.
#[derive(Clone, Copy, Debug, PartialEq, Eq, Structural)]
pub enum FrameUnavailable {
    Retry,
    Suspended,
}

/// What came of asking the system for the next frame.
#[derive(Clone, Copy, Debug, PartialEq, Eq, Structural)]
pub enum Acquired {
    Success,
    Suboptimal,
    Outdated,
    Lost,
    Timeout,
    Occluded,
    Validation,
}

/// What is to be done for the next frame.
#[derive(Clone, Copy, Debug, PartialEq, Eq, Structural)]
pub enum FrameStep {
    /// Configure the surface if `configure` is set, and ask for the frame.
    Acquire { configure: bool },
    /// Make a new surface.
    Recreate,
    /// Draw on the frame that was handed out.
    Draw,
    /// Draw nothing for now.
    Unavailable(FrameUnavailable),
}

/// How far the work for the next frame has come.
#[derive(Clone, Copy, Debug, PartialEq, Eq, Structural)]
pub enum Phase {
    /// Nothing is under way.
    Idle,
    /// The system was asked for a frame.
    Acquiring,
    /// The surface is lost, and a new one is made.
    Recreating,
    /// The system was asked for a frame after the surface was recovered.
    Recovering,
}

impl Phase {
    /// How many more steps there can be.
    pub open spec fn rank(self) -> int {
        match self {
            Phase::Idle => 0,
            Phase::Recovering => 1,
            Phase::Recreating => 2,
            Phase::Acquiring => 3,
        }
    }
}

/// A surface and the work on its next frame.
#[derive(Clone, Copy, Debug, PartialEq, Eq, Structural)]
pub struct Surface {
    pub config: SurfaceConfiguration,
    /// Whether the surface must be configured anew.
    pub config_dirty: bool,
    /// Whether the window is transparent.
    pub transparent: bool,
    pub phase: Phase,
}

impl Surface {
    /// A surface that has just been configured.
    pub fn new(config: SurfaceConfiguration, transparent: bool) -> (surface: Surface)
        ensures
            surface == (Surface { config, config_dirty: false, transparent, phase: Phase::Idle }),
    {
        Surface { config, config_dirty: false, transparent, phase: Phase::Idle }
    }

    /// Whether the surface must be configured for a window of the given size.
    pub open spec fn needs_configuration(self, width: u32, height: u32, force: bool) -> bool {
        force || self.config_dirty || self.config.width != width || self.config.height != height
    }

    /// The surface once it fits a window of the given size.
    pub open spec fn configured(self, width: u32, height: u32, force: bool) -> Surface {
        if self.needs_configuration(width, height, force) {
            Surface {
                config: SurfaceConfiguration { width, height, ..self.config },
                config_dirty: false,
                ..self
            }
        } else {
            self
        }
    }

    /// Fit the surface to a window of the given size: the result is whether it must be configured
    /// for that, or nothing where the window has no area.
    pub fn configure_surface(&mut self, width: u32, height: u32, force: bool) -> (configure: Option<
        bool,
    >)
        ensures
            width == 0 || height == 0 ==> configure is None && *final(self) == *old(self),
            width != 0 && height != 0 ==> configure == Some(
                old(self).needs_configuration(width, height, force),
            ) && *final(self) == old(self).configured(width, height, force),
    {
        if width == 0 || height == 0 {
            return None;
        }
        let dimensions_changed = self.config.width != width || self.config.height != height;
        if !force && !dimensions_changed && !self.config_dirty {
            return Some(false);
        }
        self.config.width = width;
        self.config.height = height;
        self.config_dirty = false;
        Some(true)
    }

    /// Whether `after` and `step` are what comes of beginning with the next frame.
    pub open spec fn begun(self, width: u32, height: u32, after: Surface, step: FrameStep) -> bool {
        &&& width == 0 || height == 0 ==> {
            &&& step == FrameStep::Unavailable(FrameUnavailable::Suspended)
            &&& after == (Surface { phase: Phase::Idle, ..self })
        }
        &&& width != 0 && height != 0 ==> {
            &&& step == FrameStep::Acquire {
                configure: self.needs_configuration(width, height, false),
            }
            &&& after == (Surface {
                phase: Phase::Acquiring,
                ..self.configured(width, height, false)
            })
        }
    }

    /// Whether `after` and `step` are what comes of asking the system for a frame.
    pub open spec fn went_on(
        self,
        status: Acquired,
        width: u32,
        height: u32,
        after: Surface,
        step: FrameStep,
    ) -> bool {
        let idle = Surface { phase: Phase::Idle, ..self };
        let recovering = self.phase is Recovering;
        match status {
            Acquired::Success => step == FrameStep::Draw && after == idle,
            Acquired::Suboptimal => step == FrameStep::Draw && after == (Surface {
                config_dirty: true,
                ..idle
            }),
            Acquired::Occluded => step == FrameStep::Unavailable(FrameUnavailable::Suspended)
                && after == idle,
            Acquired::Outdated if !recovering => step == Surface::recovery_step(width, height)
                && after == self.recovered(width, height),
            Acquired::Lost if !recovering => step == FrameStep::Recreate && after == (Surface {
                phase: Phase::Recreating,
                ..self
            }),
            _ => step == FrameStep::Unavailable(FrameUnavailable::Retry) && after == idle,
        }
    }

    /// Whether `after` and `step` are what comes of making a new surface for one that was lost.
    pub open spec fn replaced(
        self,
        created: bool,
        width: u32,
        height: u32,
        after: Surface,
        step: FrameStep,
    ) -> bool {
        &&& !created ==> {
            &&& step == FrameStep::Unavailable(FrameUnavailable::Retry)
            &&& after == (Surface { phase: Phase::Idle, ..self })
        }
        &&& created ==> {
            &&& step == Surface::recovery_step(width, height)
            &&& after == self.recovered(width, height)
        }
    }

    /// Begin with the next frame, for a window of the given size.
    pub fn begin_frame(&mut self, width: u32, height: u32) -> (step: FrameStep)
        ensures
            old(self).begun(width, height, *final(self), step),
    {
        self.phase = Phase::Idle;
        match self.configure_surface(width, height, false) {
            None => FrameStep::Unavailable(FrameUnavailable::Suspended),
            Some(configure) => {
                self.phase = Phase::Acquiring;
                FrameStep::Acquire { configure }
            },
        }
    }

    /// Configure a surface that the system has changed, and ask for a frame again.
    fn recover(&mut self, width: u32, height: u32) -> (step: FrameStep)
        ensures
            step == Surface::recovery_step(width, height),
            *final(self) == old(self).recovered(width, height),
    {
        match self.configure_surface(width, height, true) {
            None => {
                self.phase = Phase::Idle;
                FrameStep::Unavailable(FrameUnavailable::Suspended)
            },
            Some(configure) => {
                self.phase = Phase::Recovering;
                FrameStep::Acquire { configure }
            },
        }
    }

    /// What is done once the surface can be recovered.
    pub open spec fn recovery_step(width: u32, height: u32) -> FrameStep {
        if width == 0 || height == 0 {
            FrameStep::Unavailable(FrameUnavailable::Suspended)
        } else {
            FrameStep::Acquire { configure: true }
        }
    }

    /// The surface once it can be recovered.
    pub open spec fn recovered(self, width: u32, height: u32) -> Surface {
        if width == 0 || height == 0 {
            Surface { phase: Phase::Idle, ..self }
        } else {
            Surface { phase: Phase::Recovering, ..self.configured(width, height, true) }
        }
    }

    /// Go on after the system was asked for a frame. An outdated or lost surface is recovered once.
    pub fn acquired(&mut self, status: Acquired, width: u32, height: u32) -> (step: FrameStep)
        requires
            old(self).phase is Acquiring || old(self).phase is Recovering,
        ensures
            old(self).went_on(status, width, height, *final(self), step),
            final(self).phase.rank() < old(self).phase.rank(),
    {
        let recovering = match self.phase {
            Phase::Recovering => true,
            _ => false,
        };
        match status {
            Acquired::Success => {
                self.phase = Phase::Idle;
                FrameStep::Draw
            },
            Acquired::Suboptimal => {
                self.phase = Phase::Idle;
                self.config_dirty = true;
                FrameStep::Draw
            },
            Acquired::Occluded => {
                self.phase = Phase::Idle;
                FrameStep::Unavailable(FrameUnavailable::Suspended)
            },
            Acquired::Outdated if !recovering => self.recover(width, height),
            Acquired::Lost if !recovering => {
                self.phase = Phase::Recreating;
                FrameStep::Recreate
            },
            _ => {
                self.phase = Phase::Idle;
                FrameStep::Unavailable(FrameUnavailable::Retry)
            },
        }
    }

    /// Take a new surface over: it must have the format that is in use, and an alpha mode.
    pub fn recreate_surface(&mut self, created: Result<Capabilities, Error>) -> (result: Result<
        (),
        Error,
    >)
        ensures
            match created {
                Err(error) => result == Err::<(), Error>(error) && *final(self) == *old(self),
                Ok(capabilities) => if !capabilities.formats@.contains(old(self).config.format) {
                    &&& result matches Err(error)
                    &&& error.lacks("previously selected texture format"@)
                    &&& *final(self) == *old(self)
                } else {
                    match alpha_choice(capabilities.alpha_modes@, old(self).transparent) {
                        None => {
                            &&& result matches Err(error)
                            &&& error.lacks("alpha modes"@)
                            &&& *final(self) == *old(self)
                        },
                        Some(alpha_mode) => {
                            &&& result is Ok
                            &&& *final(self) == (Surface {
                                config: SurfaceConfiguration { alpha_mode, ..old(self).config },
                                config_dirty: true,
                                ..*old(self)
                            })
                        },
                    }
                },
            },
    {
        let capabilities = match created {
            Ok(capabilities) => capabilities,
            Err(error) => {
                return Err(error);
            },
        };
        let mut known = false;
        let mut index: usize = 0;
        while index < capabilities.formats.len()
            invariant
                index <= capabilities.formats@.len(),
                *self == *old(self),
                known == (exists|i: int|
                    0 <= i < index && #[trigger] capabilities.formats@[i] == self.config.format),
            decreases capabilities.formats@.len() - index,
        {
            if capabilities.formats[index] == self.config.format {
                known = true;
            }
            index += 1;
        }
        if !known {
            return Err(
                Error::MissingSurfaceCapability("previously selected texture format".to_owned()),
            );
        }
        match select_alpha_mode(&capabilities.alpha_modes, self.transparent) {
            None => Err(Error::MissingSurfaceCapability("alpha modes".to_owned())),
            Some(alpha_mode) => {
                self.config.alpha_mode = alpha_mode;
                self.config_dirty = true;
                Ok(())
            },
        }
    }

    /// Go on after a new surface was made for one that was lost; `created` is whether it was taken
    /// over.
    pub fn recreated(&mut self, created: bool, width: u32, height: u32) -> (step: FrameStep)
        requires
            old(self).phase is Recreating,
        ensures
            old(self).replaced(created, width, height, *final(self), step),
            final(self).phase.rank() < old(self).phase.rank(),
    {
        if !created {
            self.phase = Phase::Idle;
            return FrameStep::Unavailable(FrameUnavailable::Retry);
        }
        self.recover(width, height)
    }
}

/// A window that keeps its size is configured once: after the surface fits, it needs no further
/// configuration.
pub proof fn configuration_settles(surface: Surface, width: u32, height: u32, force: bool)
    ensures
        !surface.configured(width, height, force).needs_configuration(width, height, false),
        surface.configured(width, height, force).configured(width, height, false)
            == surface.configured(width, height, force),
{
}

/// A frame is only asked for once the surface fits the window, and the surface is configured exactly
/// where it did not fit or was to be configured anyway. A window without an area is not drawn.
pub proof fn surface_fits_the_window(
    before: Surface,
    width: u32,
    height: u32,
    after: Surface,
    step: FrameStep,
)
    requires
        before.begun(width, height, after, step),
    ensures
        width == 0 || height == 0 <==> step is Unavailable,
        step is Unavailable ==> step->Unavailable_0 is Suspended && after.config == before.config
            && after.config_dirty == before.config_dirty,
        width != 0 && height != 0 ==> {
            &&& step is Acquire
            &&& after.phase is Acquiring
            &&& after.config.width == width && after.config.height == height
            &&& !after.config_dirty
            &&& step->configure <==> before.config_dirty || before.config.width != width
                || before.config.height != height
            &&& after.config.format == before.config.format
            &&& after.config.alpha_mode == before.config.alpha_mode
            &&& after.config.present_mode == before.config.present_mode
        },
{
}

/// What the system says decides what is done: a frame that it hands out is drawn, a hidden window is
/// left alone, an outdated surface is configured anew and a lost one made anew before a frame is
/// asked for again, and in every other case drawing is tried again later.
pub proof fn frames_are_drawn_when_there_is_one(
    before: Surface,
    status: Acquired,
    width: u32,
    height: u32,
    after: Surface,
    step: FrameStep,
)
    requires
        before.phase is Acquiring || before.phase is Recovering,
        before.went_on(status, width, height, after, step),
    ensures
        step is Draw <==> status is Success || status is Suboptimal,
        step is Recreate <==> status is Lost && before.phase is Acquiring,
        step is Acquire <==> status is Outdated && before.phase is Acquiring && width != 0
            && height != 0,
        step is Acquire ==> step->configure && after.phase is Recovering && after.config.width
            == width && after.config.height == height,
        status is Occluded ==> step == FrameStep::Unavailable(FrameUnavailable::Suspended),
        status is Timeout || status is Validation ==> step == FrameStep::Unavailable(
            FrameUnavailable::Retry,
        ),
        // A surface that was recovered is not recovered again for the same frame.
        before.phase is Recovering ==> step is Draw || step is Unavailable,
        before.phase is Recovering && (status is Lost || status is Outdated) ==> step
            == FrameStep::Unavailable(FrameUnavailable::Retry),
        step is Draw || step is Unavailable <==> after.phase is Idle,
{
}

/// A surface that the system would like to have configured anew is, before the next frame.
pub proof fn suboptimal_surface_is_configured_next(
    first: Surface,
    second: Surface,
    third: Surface,
    width: u32,
    height: u32,
    step: FrameStep,
    next: FrameStep,
)
    requires
        first.went_on(Acquired::Suboptimal, width, height, second, step),
        second.begun(width, height, third, next),
        width != 0,
        height != 0,
    ensures
        step is Draw,
        next == (FrameStep::Acquire { configure: true }),
        !third.config_dirty,
{
}

/// A lost surface is replaced and configured for the window before a frame is asked for again; where it
/// cannot be replaced, drawing is tried again later.
pub proof fn lost_surface_is_replaced(
    first: Surface,
    second: Surface,
    third: Surface,
    width: u32,
    height: u32,
    created: bool,
    step: FrameStep,
    next: FrameStep,
)
    requires
        first.phase is Acquiring,
        first.went_on(Acquired::Lost, width, height, second, step),
        second.replaced(created, width, height, third, next),
        width != 0,
        height != 0,
    ensures
        step is Recreate,
        second.phase is Recreating,
        !created ==> next == FrameStep::Unavailable(FrameUnavailable::Retry) && third.phase is Idle,
        created ==> {
            &&& next == (FrameStep::Acquire { configure: true })
            &&& third.phase is Recovering
            &&& third.config.width == width && third.config.height == height
            &&& third.config.format == first.config.format
        },
{
}

/// The way a surface is used is one that it offers, and the best of them: colors in sRGB and frames in
/// step with the screen where it can, blending with what lies behind for a transparent window, and
/// none for an opaque one.
pub proof fn best_of_the_capabilities_is_used(
    formats: Seq<SurfaceFormat>,
    alpha_modes: Seq<AlphaMode>,
    present_modes: Seq<PresentMode>,
    transparent: bool,
)
    ensures
        format_choice(formats) is None <==> formats.len() == 0,
        format_choice(formats) matches Some(format) ==> formats.contains(format),
        format_choice(formats) matches Some(format) ==> (format.srgb <==> exists|i: int|
            0 <= i < formats.len() && (#[trigger] formats[i]).srgb),
        format_choice(formats) matches Some(format) ==> !format.srgb ==> format == formats[0],
        alpha_choice(alpha_modes, transparent) is None <==> alpha_modes.len() == 0,
        alpha_choice(alpha_modes, transparent) matches Some(mode) ==> alpha_modes.contains(mode),
        transparent && alpha_modes.contains(AlphaMode::PreMultiplied) ==> alpha_choice(
            alpha_modes,
            transparent,
        ) == Some(AlphaMode::PreMultiplied),
        transparent && alpha_modes.contains(AlphaMode::PostMultiplied) ==> alpha_choice(
            alpha_modes,
            transparent,
        ) == Some(AlphaMode::PreMultiplied) || alpha_choice(alpha_modes, transparent) == Some(
            AlphaMode::PostMultiplied,
        ),
        !transparent && alpha_modes.contains(AlphaMode::Opaque) ==> alpha_choice(
            alpha_modes,
            transparent,
        ) == Some(AlphaMode::Opaque),
        present_choice(present_modes) is None <==> present_modes.len() == 0,
        present_choice(present_modes) matches Some(mode) ==> present_modes.contains(mode),
        present_modes.contains(PresentMode::AutoVsync) ==> present_choice(present_modes) == Some(
            PresentMode::AutoVsync,
        ),
{
    first_srgb_is_found(formats, 0);
    if formats.len() > 0 {
        assert(formats.contains(formats[0]));
    }
    if alpha_modes.len() > 0 {
        assert(alpha_modes.contains(alpha_modes[0]));
    }
    if present_modes.len() > 0 {
        assert(present_modes.contains(present_modes[0]));
    }
}

proof fn first_srgb_is_found(formats: Seq<SurfaceFormat>, from: int)
    requires
        0 <= from,
    ensures
        first_srgb(formats, from) matches Some(format) ==> format.srgb && formats.contains(format),
        first_srgb(formats, from) is None ==> forall|i: int|
            from <= i < formats.len() ==> !(#[trigger] formats[i]).srgb,
        first_srgb(formats, from) is Some ==> exists|i: int|
            from <= i < formats.len() && (#[trigger] formats[i]).srgb,
    decreases formats.len() - from,
{
    if from < formats.len() {
        if formats[from].srgb {
            assert(formats.contains(formats[from]));
        } else {
            first_srgb_is_found(formats, from + 1);
        }
    }
}

} // verus!
