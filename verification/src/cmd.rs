use vstd::prelude::*;
use crate::color::Rgb;
use crate::error::ShaderStage;

verus! {

/// One GPU command of the pipeline.
///
/// The verified library decides every state change on its own model; each
/// mutating operation additionally returns the command sequence that realizes
/// the same change on a real OpenGL context. An unverified driver replays the
/// commands one call each; object ids are the model's and the driver maps
/// them to native handles. Colors are 8-bit; the driver normalizes them to
/// floats. `SetUniformMat2Scale { width, height }` stands for the diagonal
/// matrix `(2/width, 2/height)`; uniform commands carry the model location,
/// the index into the program's declared uniform names, from which the
/// driver recovers the name to query the real location. Shader sources are
/// not repeated in the command list: the driver supplies the source text of
/// the stage named by `CreateShader` when it compiles.
#[derive(Clone, Copy, PartialEq, Eq, Structural, Debug)]
pub enum GlCmd {
    Viewport { width: u32, height: u32 },
    ClearColor { color: Rgb },
    ClearStencil { value: u8 },
    /// `stencil_op(KEEP, KEEP, REPLACE)`: write the reference value on pass.
    StencilOpReplace,
    EnableMultisample,
    EnableStencilTest,
    DisableStencilTest,
    StencilFuncAlways { reference: u8 },
    StencilFuncEqual { reference: u8 },
    StencilWriteMask { enabled: bool },
    Clear { color: bool, stencil: bool },
    UseProgram { id: u32 },
    ActiveTextureUnit { unit: u32 },
    BindTexture { id: Option<u32> },
    BindTextureMultisample { id: Option<u32> },
    BindVertexArray { id: Option<u32> },
    DrawArraysTriangleFan { first: u32, count: u32 },
    DrawArraysTriangleStrip { first: u32, count: u32 },
    BindFramebuffer { id: Option<u32> },
    BindReadFramebuffer { id: Option<u32> },
    BindDrawFramebuffer { id: Option<u32> },
    /// Color-only nearest-neighbor blit of `(0,0)..(width,height)` from the
    /// bound read framebuffer into the bound draw framebuffer.
    BlitColorNearest { width: u32, height: u32 },
    /// Swap the visible surface.
    Present,
    CreateFramebuffer { id: u32 },
    CreateTexture { id: u32 },
    CreateRenderbuffer { id: u32 },
    CreateVertexArray { id: u32 },
    CreateBuffer { id: u32 },
    BindBuffer { id: Option<u32> },
    /// Upload the driver-side vertex data of this buffer (the geometry
    /// itself lives outside the model; the model keeps only the count).
    UploadVertices { buffer: u32, vertex_count: u32 },
    VertexAttrib { slot: u32, components: u32, stride: u32, offset: u32 },
    TexImage2dMultisample { samples: u32, width: u32, height: u32 },
    TexImage2dRgb { width: u32, height: u32 },
    TexFilterNearest,
    FramebufferTextureMultisample { texture: u32 },
    FramebufferTexture2d { texture: u32 },
    RenderbufferStorageMultisample { samples: u32, width: u32, height: u32 },
    BindRenderbuffer { id: Option<u32> },
    FramebufferStencilRenderbuffer { renderbuffer: u32 },
    DeleteFramebuffer { id: u32 },
    DeleteTexture { id: u32 },
    DeleteRenderbuffer { id: u32 },
    CreateShader { id: u32, stage: ShaderStage },
    CompileShader { id: u32 },
    CreateProgram { id: u32 },
    AttachShader { program: u32, shader: u32 },
    LinkProgram { program: u32 },
    DetachShader { program: u32, shader: u32 },
    DeleteShader { id: u32 },
    DeleteProgram { id: u32 },
    SetUniformMat2Scale { program: u32, location: u32, width: u32, height: u32 },
    SetUniformVec2 { program: u32, location: u32, x: i32, y: i32 },
    SetUniformSampler { program: u32, location: u32, unit: i32 },
}

} // verus!
