use vstd::prelude::*;

verus! {

/// The shader stage a compile diagnostic belongs to.
#[derive(Clone, Copy, PartialEq, Eq, Structural, Debug)]
pub enum ShaderStage {
    Vertex,
    Fragment,
}

/// Every failure the pipeline can surface.
///
/// Shader and framebuffer construction errors are fatal at initialization
/// time; `ResizeFailed` is recoverable (the pipeline keeps its last valid
/// offscreen frame and skips the frame); `Presentation` reports a lost
/// surface during the final swap.
#[derive(Clone, Debug)]
pub enum RenderError {
    /// A shader stage failed to compile; carries the diagnostic log.
    ShaderCompile { stage: ShaderStage, log: Vec<u8> },
    /// The two compiled stages failed to link; carries the diagnostic log.
    ShaderLink { log: Vec<u8> },
    /// A uniform name was requested that the linked program does not declare.
    UniformNotFound { name: Vec<u8> },
    /// A framebuffer did not reach complete status after attachment.
    FramebufferIncomplete,
    /// The offscreen frame could not be recreated at the requested size.
    ResizeFailed,
    /// The visible surface was lost; the swap did not happen.
    Presentation,
}

impl RenderError {
    /// A short, stable description of the error kind, for diagnostics.
    pub fn describe(&self) -> (s: &'static str)
        ensures
            s@ == self.describe_spec(),
    {
        match self {
            RenderError::ShaderCompile { .. } => "shader stage failed to compile",
            RenderError::ShaderLink { .. } => "shader program failed to link",
            RenderError::UniformNotFound { .. } => "uniform name not found in linked program",
            RenderError::FramebufferIncomplete => "framebuffer is not complete",
            RenderError::ResizeFailed => "offscreen frame could not be resized",
            RenderError::Presentation => "the visible surface was lost",
        }
    }

    /// What `describe` returns for each variant.
    pub open spec fn describe_spec(&self) -> Seq<char> {
        match self {
            RenderError::ShaderCompile { .. } => "shader stage failed to compile"@,
            RenderError::ShaderLink { .. } => "shader program failed to link"@,
            RenderError::UniformNotFound { .. } => "uniform name not found in linked program"@,
            RenderError::FramebufferIncomplete => "framebuffer is not complete"@,
            RenderError::ResizeFailed => "offscreen frame could not be resized"@,
            RenderError::Presentation => "the visible surface was lost"@,
        }
    }
}

} // verus!
