//! The decisions of the OpenGL renderer.

use crate::config::LevelFilter;
use crate::terminal::{saturated_i32, SizeInfo};
use crate::text::{contains_text, is_not_after, join, split_words, write_decimal};
use vstd::prelude::*;
use vstd::string::*;

verus! {

broadcast use vstd::string::group_string_axioms;

/// The status of a call that went well.
pub const NO_ERROR: u32 = 0;

/// The status of a call with an argument that is not known.
pub const INVALID_ENUM: u32 = 0x500;

/// The context was lost because of what this program did.
pub const GUILTY_CONTEXT_RESET: u32 = 0x8253;

/// The context was lost because of what another program did.
pub const INNOCENT_CONTEXT_RESET: u32 = 0x8254;

/// The context was lost for a reason that is not known.
pub const UNKNOWN_CONTEXT_RESET: u32 = 0x8255;

/// The notification strategy that loses the context on a reset.
pub const LOSE_CONTEXT_ON_RESET: i32 = 0x8252;

/// The notification strategy without notifications.
pub const NO_RESET_NOTIFICATION: i32 = 0x8261;

/// Why a renderer cannot be had.
#[derive(Debug)]
pub enum Error {
    /// A shader could not be compiled; the text says why.
    Shader(String),
    /// Something else.
    Other(String),
}

impl Error {
    /// What the error says.
    pub open spec fn text(self) -> Seq<char> {
        match self {
            Error::Shader(error) => "There was an error initializing the shaders: "@ + error@,
            Error::Other(error) => error@,
        }
    }

    /// Describe the error.
    pub fn message(&self) -> (message: String)
        ensures
            message@ == self.text(),
    {
        match self {
            Error::Shader(error) => join(
                "There was an error initializing the shaders: ",
                error.as_str(),
            ),
            Error::Other(error) => error.clone(),
        }
    }
}

/// The string that the driver gave for a question, or an error: `status` is the status of the
/// call, `string` the string that it returned.
pub fn gl_get_string(status: u32, string: Option<String>, description: &str) -> (result: Result<
    String,
    Error,
>)
    ensures
        match result {
            Ok(answer) => status == NO_ERROR && string == Some(answer),
            Err(error) => {
                &&& status != NO_ERROR || string is None
                &&& error matches Error::Other(message)
                &&& message@ == if status == INVALID_ENUM {
                    "OpenGL error requesting "@ + description@ + ": invalid enum"@
                } else {
                    "OpenGL error "@ + crate::text::decimal(status as nat) + " requesting "@
                        + description@
                }
            },
        },
        status == NO_ERROR && string is Some ==> result is Ok,
{
    match string {
        Some(string) if status == NO_ERROR => Ok(string),
        _ => {
            let message = if status == INVALID_ENUM {
                join(join("OpenGL error requesting ", description).as_str(), ": invalid enum")
            } else {
                let number = write_decimal(status as u64);
                let start = join(join("OpenGL error ", number.as_str()).as_str(), " requesting ");
                join(start.as_str(), description)
            };
            Err(Error::Other(message))
        },
    }
}

/// The renderer that the configuration asks for.
#[derive(Clone, Copy, Debug, PartialEq, Eq, Structural)]
pub enum RendererPreference {
    Glsl3,
    Gles2,
    Gles2Pure,
}

/// The shader language, and whether two colors per pixel may be used for blending.
#[derive(Clone, Copy, Debug, PartialEq, Eq, Structural)]
pub struct RendererChoice {
    pub use_glsl3: bool,
    pub allow_dsb: bool,
}

/// The renderer that is used: as the configuration says, or else by the version of the shader language.
pub open spec fn chosen_renderer(
    preference: Option<RendererPreference>,
    shader_version: Seq<char>,
    is_gles_context: bool,
) -> RendererChoice {
    match preference {
        Some(RendererPreference::Glsl3) => RendererChoice { use_glsl3: true, allow_dsb: true },
        Some(RendererPreference::Gles2) => RendererChoice { use_glsl3: false, allow_dsb: true },
        Some(RendererPreference::Gles2Pure) => RendererChoice {
            use_glsl3: false,
            allow_dsb: false,
        },
        None => RendererChoice {
            use_glsl3: crate::text::not_after("3.3"@, shader_version) && !is_gles_context,
            allow_dsb: true,
        },
    }
}

/// Choose the renderer: as the configuration says, or else by the version of the shader language.
pub fn renderer_choice(
    preference: Option<RendererPreference>,
    shader_version: &str,
    is_gles_context: bool,
) -> (choice: RendererChoice)
    ensures
        choice == chosen_renderer(preference, shader_version@, is_gles_context),
{
    match preference {
        Some(RendererPreference::Glsl3) => RendererChoice { use_glsl3: true, allow_dsb: true },
        Some(RendererPreference::Gles2) => RendererChoice { use_glsl3: false, allow_dsb: true },
        Some(RendererPreference::Gles2Pure) => RendererChoice { use_glsl3: false, allow_dsb: false },
        None => RendererChoice {
            use_glsl3: is_not_after("3.3", shader_version) && !is_gles_context,
            allow_dsb: true,
        },
    }
}

/// The extensions of the driver.
#[derive(Debug)]
pub struct GlExtensions {
    pub names: Vec<String>,
}

impl GlExtensions {
    /// The extensions that the driver names in one string, none if that string is not valid text.
    pub fn load_extensions(listed: Option<String>) -> (extensions: GlExtensions)
        ensures
            crate::text::texts(extensions.names@) == (match listed {
                Some(list) => crate::text::words(list@, 0),
                None => Seq::empty(),
            }),
    {
        match listed {
            Some(list) => GlExtensions { names: split_words(list.as_str()) },
            None => {
                let names: Vec<String> = Vec::new();
                assert(crate::text::texts(names@) =~= Seq::empty());
                GlExtensions { names }
            },
        }
    }

    /// The extensions that the driver names one by one.
    pub fn from_names(names: Vec<String>) -> (extensions: GlExtensions)
        ensures
            extensions.names == names,
    {
        GlExtensions { names }
    }

    /// Whether an extension is supported.
    pub fn contains(&self, extension: &str) -> (supported: bool)
        ensures
            supported == crate::text::texts(self.names@).contains(extension@),
    {
        contains_text(&self.names, extension)
    }

    /// Whether the driver says so when the context is lost; `strategy` is its notification
    /// strategy.
    pub fn supports_robustness(&self, strategy: i32) -> (supported: bool)
        ensures
            supported == (crate::text::texts(self.names@).contains("GL_KHR_robustness"@)
                && strategy == LOSE_CONTEXT_ON_RESET),
    {
        let strategy: i32 = if self.contains("GL_KHR_robustness") {
            strategy
        } else {
            NO_RESET_NOTIFICATION
        };
        strategy == LOSE_CONTEXT_ON_RESET
    }

    /// Whether messages of the driver are logged.
    pub open spec fn logs_at(self, level: LevelFilter) -> bool {
        level.rank() >= LevelFilter::Debug.rank() && crate::text::texts(self.names@).contains(
            "GL_KHR_debug"@,
        )
    }

    /// Whether messages of the driver are logged.
    pub fn logs_debug_messages(&self, level: LevelFilter) -> (logs: bool)
        ensures
            logs == self.logs_at(level),
    {
        let verbose = match level {
            LevelFilter::Debug => true,
            LevelFilter::Trace => true,
            _ => false,
        };
        verbose && self.contains("GL_KHR_debug")
    }
}

/// What is logged for a message of the driver.
pub fn gl_debug_text(message: &str) -> (text: String)
    ensures
        text@ == "[gl_render] "@ + message@,
{
    join("[gl_render] ", message)
}

/// The area of the window that cells are drawn in.
#[derive(Clone, Copy, Debug, PartialEq, Eq, Structural)]
pub struct Viewport {
    pub x: i32,
    pub y: i32,
    pub width: i32,
    pub height: i32,
}

/// The window without its padding.
pub open spec fn content_viewport(size: SizeInfo) -> Viewport {
    Viewport {
        x: size.padding_x as i32,
        y: size.padding_y as i32,
        width: (saturated_i32(size.width) - 2 * size.padding_x) as i32,
        height: (saturated_i32(size.height) - 2 * size.padding_y) as i32,
    }
}

/// The two implementations of text rendering.
#[derive(Clone, Copy, Debug, PartialEq, Eq, Structural)]
pub enum TextRendererProvider {
    Gles2,
    Glsl3,
}

/// The way to load glyphs into a text renderer.
#[derive(Clone, Copy, Debug, PartialEq, Eq, Structural)]
pub struct LoaderApi {
    pub text_renderer: TextRendererProvider,
}

/// The OpenGL renderer.
#[derive(Clone, Copy, Debug, PartialEq, Eq, Structural)]
pub struct Renderer {
    pub text_renderer: TextRendererProvider,
    pub robustness: bool,
    pub viewport: Viewport,
    /// The size that the text renderer lays its text out for.
    pub text_size: SizeInfo,
}

impl Renderer {
    /// A renderer for a window that has no size yet.
    pub fn new(choice: RendererChoice, robustness: bool) -> (renderer: Renderer)
        ensures
            renderer.text_renderer == (if choice.use_glsl3 {
                TextRendererProvider::Glsl3
            } else {
                TextRendererProvider::Gles2
            }),
            renderer.robustness == robustness,
            renderer.viewport == (Viewport { x: 0, y: 0, width: 0, height: 0 }),
            renderer.text_size.width == 0 && renderer.text_size.height == 0,
    {
        let text_size = SizeInfo {
            width: 0,
            height: 0,
            cell_width: 0,
            cell_height: 0,
            padding_x: 0,
            padding_y: 0,
            screen_lines: 0,
            columns: 0,
        };
        Renderer {
            text_renderer: if choice.use_glsl3 {
                TextRendererProvider::Glsl3
            } else {
                TextRendererProvider::Gles2
            },
            robustness,
            viewport: Viewport { x: 0, y: 0, width: 0, height: 0 },
            text_size,
        }
    }

    /// Call a function with the way to load glyphs into the text renderer that is in use.
    pub fn with_loader<F, T>(&mut self, func: F) -> (result: T) where F: FnOnce(LoaderApi) -> T
        requires
            call_requires(func, (LoaderApi { text_renderer: old(self).text_renderer },)),
        ensures
            call_ensures(func, (LoaderApi { text_renderer: old(self).text_renderer },), result),
            *final(self) == *old(self),
    {
        match self.text_renderer {
            TextRendererProvider::Gles2 => func(
                LoaderApi { text_renderer: TextRendererProvider::Gles2 },
            ),
            TextRendererProvider::Glsl3 => func(
                LoaderApi { text_renderer: TextRendererProvider::Glsl3 },
            ),
        }
    }

    /// Set the viewport for cell rendering.
    pub fn set_viewport(&mut self, size: &SizeInfo)
        requires
            size.padding_x <= 0x3fff_ffff,
            size.padding_y <= 0x3fff_ffff,
        ensures
            *final(self) == (Renderer { viewport: content_viewport(*size), ..*old(self) }),
    {
        self.viewport = Viewport {
            x: size.padding_x as i32,
            y: size.padding_y as i32,
            width: size.width() - 2 * size.padding_x as i32,
            height: size.height() - 2 * size.padding_y as i32,
        };
    }

    /// Resize the renderer.
    pub fn resize(&mut self, size_info: &SizeInfo)
        requires
            size_info.padding_x <= 0x3fff_ffff,
            size_info.padding_y <= 0x3fff_ffff,
        ensures
            *final(self) == (Renderer {
                viewport: content_viewport(*size_info),
                text_size: *size_info,
                ..*old(self)
            }),
    {
        self.set_viewport(size_info);
        self.text_size = *size_info;
    }

    /// Whether the context was lost, where the driver says so; the text is the reason.
    pub fn was_context_reset(&self, status: u32) -> (reason: Option<String>)
        ensures
            reason is Some <==> self.robustness && status != NO_ERROR,
            reason matches Some(text) ==> text@ == if status == GUILTY_CONTEXT_RESET {
                "guilty"@
            } else if status == INNOCENT_CONTEXT_RESET {
                "innocent"@
            } else if status == UNKNOWN_CONTEXT_RESET {
                "unknown"@
            } else {
                "invalid"@
            },
    {
        if !self.robustness || status == NO_ERROR {
            return None;
        }
        let reason = if status == GUILTY_CONTEXT_RESET {
            "guilty"
        } else if status == INNOCENT_CONTEXT_RESET {
            "innocent"
        } else if status == UNKNOWN_CONTEXT_RESET {
            "unknown"
        } else {
            "invalid"
        };
        Some(reason.to_owned())
    }
}

/// Cells are drawn in the middle of the window: the padding lies on both sides of the viewport, which
/// takes all the rest of the window.
pub proof fn viewport_lies_within_the_padding(size: SizeInfo)
    requires
        size.padding_x <= 0x3fff_ffff,
        size.padding_y <= 0x3fff_ffff,
        size.width <= i32::MAX,
        size.height <= i32::MAX,
    ensures
        content_viewport(size).x == size.padding_x,
        content_viewport(size).y == size.padding_y,
        size.padding_x + content_viewport(size).width + size.padding_x == size.width,
        size.padding_y + content_viewport(size).height + size.padding_y == size.height,
{
}

/// What the configuration asks for is used whatever the driver offers; otherwise the newer renderer is
/// used where the driver has it, which one for embedded systems never does.
pub proof fn configured_renderer_is_used(
    preference: RendererPreference,
    version: Seq<char>,
    other: Seq<char>,
    embedded: bool,
)
    ensures
        chosen_renderer(Some(preference), version, embedded) == chosen_renderer(
            Some(preference),
            other,
            !embedded,
        ),
        chosen_renderer(Some(preference), version, embedded).use_glsl3 <==> preference is Glsl3,
        chosen_renderer(Some(preference), version, embedded).allow_dsb <==> !(preference
            is Gles2Pure),
        !chosen_renderer(None, version, true).use_glsl3,
        chosen_renderer(None, version, embedded).allow_dsb,
        chosen_renderer(None, version, false).use_glsl3 <==> crate::text::not_after(
            "3.3"@,
            version,
        ),
{
}

/// Messages of the driver are logged at the two loudest levels, where the driver can send them.
pub proof fn driver_messages_need_the_extension(extensions: GlExtensions, level: LevelFilter)
    ensures
        extensions.logs_at(level) <==> (level is Debug || level is Trace) && exists|i: int|
            0 <= i < extensions.names@.len() && (#[trigger] extensions.names@[i])@
                == "GL_KHR_debug"@,
{
    let texts = crate::text::texts(extensions.names@);
    if texts.contains("GL_KHR_debug"@) {
        let i = choose|i: int| 0 <= i < texts.len() && texts[i] == "GL_KHR_debug"@;
        assert(extensions.names@[i]@ == "GL_KHR_debug"@);
    }
    if exists|i: int|
        0 <= i < extensions.names@.len() && (#[trigger] extensions.names@[i])@ == "GL_KHR_debug"@ {
        let i = choose|i: int|
            0 <= i < extensions.names@.len() && (#[trigger] extensions.names@[i])@
                == "GL_KHR_debug"@;
        assert(texts[i] == "GL_KHR_debug"@);
    }
}

} // verus!
