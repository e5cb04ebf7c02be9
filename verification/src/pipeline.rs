use vstd::prelude::*;
use crate::cmd::GlCmd;
use crate::color::Rgb;
use crate::device::{Device, without_ids, MAX_DIM};
use crate::error::RenderError;
use crate::frame::{create_cmds, destroy_cmds, frame_entries, OffscreenFrame};
use crate::geometry::GeometryBuffer;
use crate::raster::{
    cleared, covers, draw_color_spec, draw_stencil_spec, lemma_full_resolve,
    lemma_stencil_clipping, silhouette_then_overlay, stencil_cleared, Pixel, StencilMode,
};
use crate::shader::{first_at, lemma_first_exists, ShaderProgram, UniformValue};

verus! {

/// The fixed stencil reference value of the compositing passes.
pub const STENCIL_REF: u8 = 1;

/// The name of the scale uniform, `mat`, as bytes.
pub open spec fn scale_name() -> Seq<u8> {
    seq![109u8, 97u8, 116u8]
}

/// The name of the scale uniform, `mat`, as a byte vector.
pub fn scale_uniform_name() -> (v: Vec<u8>)
    ensures
        v@ == scale_name(),
{
    let mut v: Vec<u8> = Vec::new();
    v.push(109);
    v.push(97);
    v.push(116);
    proof {
        assert(v@ =~= scale_name());
    }
    v
}

/// One draw call of the frame: the geometry on the GPU, and the pass's
/// model data — the flat color its fragments produce and the pixels its
/// rasterization covers at the current size.
pub struct DrawPass {
    pub geometry: GeometryBuffer,
    pub color: Rgb,
    pub coverage: Vec<Pixel>,
}

/// The optional overlay: its program, its quad pass, and the texture
/// sampled by the quad. The overlay is clipped to the silhouette that the
/// main pass wrote into the stencil buffer.
pub struct Overlay {
    pub program: ShaderProgram,
    pub pass: DrawPass,
    pub texture: u32,
}

/// The compositing pipeline: two or three programs, the main and optional
/// overlay passes, the offscreen frame they render into, and the viewport.
///
/// One `render` call runs the whole frame algorithm: clear, the
/// stencil-writing main pass, the stencil-tested overlay pass, the resolve
/// blit, and presentation. `resize` recreates the offscreen frame at a new
/// surface size and re-pushes the scale uniform.
pub struct CompositingPipeline {
    pub main_program: ShaderProgram,
    pub post_program: ShaderProgram,
    pub main_pass: DrawPass,
    pub overlay: Option<Overlay>,
    pub frame: OffscreenFrame,
    /// An empty vertex array bound for the presentation pass, whose quad is
    /// generated from the vertex index and needs no vertex buffer.
    pub post_vao: u32,
    /// Viewport width; equals the surface and frame width.
    pub width: u32,
    /// Viewport height; equals the surface and frame height.
    pub height: u32,
    /// The fixed background clear color.
    pub clear_color: Rgb,
}

impl CompositingPipeline {
    /// The frame matches the viewport, the programs are well formed, and an
    /// overlay implies a stencil attachment to clip it with.
    pub open spec fn wf(self) -> bool {
        &&& self.frame.wf()
        &&& self.frame.width == self.width
        &&& self.frame.height == self.height
        &&& self.main_program.wf()
        &&& self.post_program.wf()
        &&& match self.overlay {
            Some(ov) => ov.program.wf() && self.frame.has_stencil,
            None => true,
        }
    }

    /// The stencil state of the main pass: write the silhouette when a
    /// stencil attachment exists, else no stencil at all.
    pub open spec fn main_mode(self) -> StencilMode {
        if self.frame.has_stencil {
            StencilMode::WriteAlways { reference: STENCIL_REF }
        } else {
            StencilMode::Off
        }
    }

    /// The pixel count of the viewport.
    pub open spec fn area_n(self) -> nat {
        (self.width * self.height) as nat
    }

    /// The multisample colors after clear and the main pass.
    pub open spec fn colors_after_main(self) -> Seq<Rgb> {
        draw_color_spec(
            cleared(self.area_n(), self.clear_color),
            stencil_cleared(self.area_n(), 0),
            self.main_pass.coverage@,
            self.width,
            self.height,
            self.main_pass.color,
            self.main_mode(),
        )
    }

    /// The stencil buffer after clear and the main pass.
    pub open spec fn stencils_after_main(self) -> Seq<u8> {
        draw_stencil_spec(
            stencil_cleared(self.area_n(), 0),
            self.main_pass.coverage@,
            self.width,
            self.height,
            self.main_mode(),
        )
    }

    /// The multisample colors at the end of the frame: the main pass, then
    /// the overlay pass clipped by the stencil silhouette, if an overlay
    /// exists.
    pub open spec fn rendered_colors(self) -> Seq<Rgb> {
        match self.overlay {
            Some(ov) => draw_color_spec(
                self.colors_after_main(),
                self.stencils_after_main(),
                ov.pass.coverage@,
                self.width,
                self.height,
                ov.pass.color,
                StencilMode::TestEqual { reference: STENCIL_REF },
            ),
            None => self.colors_after_main(),
        }
    }

    /// Render one frame, strictly sequential: bind the offscreen target and
    /// clear it; draw the main geometry, writing the stencil silhouette if
    /// a stencil attachment exists; draw the overlay clipped to that
    /// silhouette, if one exists; resolve the full rectangle into the
    /// single-sample target; present it to the visible surface. Fails with
    /// `Presentation` exactly when the surface has been lost; the offscreen
    /// buffers are rendered either way.
    pub fn render(&mut self, dev: &mut Device) -> (r: Result<Vec<GlCmd>, RenderError>)
        requires
            old(self).wf(),
            old(dev).wf(),
            old(self).width == old(dev).surface_w,
            old(self).height == old(dev).surface_h,
        ensures
            final(self).wf(),
            final(dev).wf(),
            final(self).main_program == old(self).main_program,
            final(self).post_program == old(self).post_program,
            final(self).main_pass == old(self).main_pass,
            final(self).overlay == old(self).overlay,
            final(self).post_vao == old(self).post_vao,
            final(self).width == old(self).width,
            final(self).height == old(self).height,
            final(self).clear_color == old(self).clear_color,
            final(self).frame.same_shape(old(self).frame),
            final(dev).next_id == old(dev).next_id,
            final(dev).live@ == old(dev).live@,
            final(dev).surface_w == old(dev).surface_w,
            final(dev).surface_h == old(dev).surface_h,
            final(dev).surface_lost == old(dev).surface_lost,
            r is Ok <==> !old(dev).surface_lost,
            r matches Err(e) ==> e is Presentation,
            final(self).frame.ms_color@ == old(self).rendered_colors(),
            final(self).frame.resolve_color@ == old(self).rendered_colors(),
            old(self).frame.has_stencil ==> final(self).frame.ms_stencil@ == old(
                self,
            ).stencils_after_main(),
            !old(self).frame.has_stencil ==> final(self).frame.ms_stencil@ == old(
                self,
            ).frame.ms_stencil@,
            final(dev).surface@ == if old(dev).surface_lost {
                old(dev).surface@
            } else {
                old(self).rendered_colors()
            },
            r matches Ok(cmds) ==> cmds@ == render_cmds(*old(self)),
    {
        let ghost p0 = *self;
        let w = self.width;
        let h = self.height;

        self.frame.clear(self.clear_color);
        let mode_a = if self.frame.has_stencil {
            StencilMode::WriteAlways { reference: STENCIL_REF }
        } else {
            StencilMode::Off
        };
        proof {
            assert(cleared(old(self).frame.ms_color@.len(), p0.clear_color) =~= cleared(
                p0.area_n(),
                p0.clear_color,
            ));
            if p0.frame.has_stencil {
                assert(stencil_cleared(old(self).frame.ms_stencil@.len(), 0) =~= stencil_cleared(
                    p0.area_n(),
                    0,
                ));
            }
        }
        self.frame.draw(&self.main_pass.coverage, self.main_pass.color, mode_a);
        proof {
            if p0.frame.has_stencil {
                assert(self.frame.ms_color@ == p0.colors_after_main());
                assert(self.frame.ms_stencil@ == p0.stencils_after_main());
            } else {
                assert(self.frame.ms_color@ =~= p0.colors_after_main());
                assert(self.frame.ms_stencil@ == p0.frame.ms_stencil@);
            }
        }

        match &self.overlay {
            Some(ov) => {
                self.frame.draw(
                    &ov.pass.coverage,
                    ov.pass.color,
                    StencilMode::TestEqual { reference: STENCIL_REF },
                );
            },
            None => {},
        }
        proof {
            assert(self.frame.ms_color@ == p0.rendered_colors());
        }

        self.frame.resolve(w, h);
        proof {
            lemma_full_resolve(
                self.frame.ms_color@,
                old(self).frame.resolve_color@,
                w,
                h,
            );
            assert(self.frame.resolve_color@ == p0.rendered_colors());
        }

        let presented = dev.present(&self.frame.resolve_color);
        if let Err(e) = presented {
            return Err(e);
        }

        let mut cmds: Vec<GlCmd> = Vec::new();
        cmds.push(GlCmd::BindFramebuffer { id: Some(self.frame.fbo_ms) });
        cmds.push(GlCmd::StencilWriteMask { enabled: true });
        cmds.push(GlCmd::Clear { color: true, stencil: self.frame.has_stencil });
        if self.frame.has_stencil {
            cmds.push(GlCmd::EnableStencilTest);
            cmds.push(GlCmd::StencilFuncAlways { reference: STENCIL_REF });
        }
        cmds.push(GlCmd::UseProgram { id: self.main_program.id });
        cmds.push(GlCmd::BindVertexArray { id: Some(self.main_pass.geometry.vao) });
        cmds.push(GlCmd::DrawArraysTriangleFan {
            first: 0,
            count: self.main_pass.geometry.vertex_count,
        });
        match &self.overlay {
            Some(ov) => {
                cmds.push(GlCmd::StencilFuncEqual { reference: STENCIL_REF });
                cmds.push(GlCmd::StencilWriteMask { enabled: false });
                cmds.push(GlCmd::UseProgram { id: ov.program.id });
                cmds.push(GlCmd::BindTexture { id: Some(ov.texture) });
                cmds.push(GlCmd::ActiveTextureUnit { unit: 0 });
                cmds.push(GlCmd::BindVertexArray { id: Some(ov.pass.geometry.vao) });
                cmds.push(GlCmd::DrawArraysTriangleStrip {
                    first: 0,
                    count: ov.pass.geometry.vertex_count,
                });
            },
            None => {},
        }
        cmds.push(GlCmd::BindReadFramebuffer { id: Some(self.frame.fbo_ms) });
        cmds.push(GlCmd::BindDrawFramebuffer { id: Some(self.frame.fbo_resolve) });
        cmds.push(GlCmd::BlitColorNearest { width: w, height: h });
        cmds.push(GlCmd::BindFramebuffer { id: None });
        cmds.push(GlCmd::DisableStencilTest);
        cmds.push(GlCmd::UseProgram { id: self.post_program.id });
        cmds.push(GlCmd::BindTexture { id: Some(self.frame.tex_resolve) });
        cmds.push(GlCmd::ActiveTextureUnit { unit: 0 });
        cmds.push(GlCmd::BindVertexArray { id: Some(self.post_vao) });
        cmds.push(GlCmd::DrawArraysTriangleStrip { first: 0, count: 4 });
        cmds.push(GlCmd::Present);
        proof {
            assert(cmds@ =~= render_cmds(p0));
        }
        Ok(cmds)
    }
    /// Recreate the offscreen frame for a new surface size: adopt the new
    /// viewport, destroy the old frame, create a fresh one at the new size
    /// (never two live frames for the slot), and push the scale uniform
    /// `(2/width, 2/height)` to every program that declares it. A size with
    /// a zero or oversized dimension fails with `ResizeFailed` and changes
    /// nothing: the pipeline keeps its last valid frame and skips the
    /// frame.
    pub fn resize(&mut self, dev: &mut Device, new_width: u32, new_height: u32) -> (r: Result<
        Vec<GlCmd>,
        RenderError,
    >)
        requires
            old(self).wf(),
            old(dev).wf(),
            old(dev).next_id + 8 <= u32::MAX,
        ensures
            final(self).wf(),
            final(dev).wf(),
            r is Ok <==> (1 <= new_width <= MAX_DIM && 1 <= new_height <= MAX_DIM),
            r matches Err(e) ==> e is ResizeFailed && *final(self) == *old(self)
                && final(dev).model_eq(*old(dev)),
            r matches Ok(cmds) ==> ({
                &&& resized_to(*final(self), new_width, new_height)
                &&& final(self).frame.samples == old(self).frame.samples
                &&& final(self).frame.has_stencil == old(self).frame.has_stencil
                &&& final(self).main_program.id == old(self).main_program.id
                &&& final(self).main_program.names() == old(self).main_program.names()
                &&& final(self).main_program.uniform_values@.len() == old(
                    self,
                ).main_program.uniform_values@.len()
                &&& forall|k: int|
                    0 <= k < old(self).main_program.uniform_values@.len() && !first_at(
                        old(self).main_program.names(),
                        scale_name(),
                        k,
                    ) ==> final(self).main_program.uniform_values@[k] == old(
                        self,
                    ).main_program.uniform_values@[k]
                &&& final(self).post_program == old(self).post_program
                &&& final(self).main_pass == old(self).main_pass
                &&& final(self).clear_color == old(self).clear_color
                &&& (final(self).overlay is Some <==> old(self).overlay is Some)
                &&& final(dev).surface_w == new_width
                &&& final(dev).surface_h == new_height
                &&& final(dev).surface_lost == old(dev).surface_lost
                &&& final(dev).live@ == without_ids(old(dev).live@, old(self).frame.ids())
                    + frame_entries(old(dev).next_id, old(self).frame.has_stencil)
                &&& cmds@ == resize_cmds(*old(self), old(dev).next_id, new_width, new_height)
            }),
    {
        if new_width < 1 || new_width > MAX_DIM || new_height < 1 || new_height > MAX_DIM {
            return Err(RenderError::ResizeFailed);
        }
        let ghost p0 = *self;
        let samples = self.frame.samples;
        let with_stencil = self.frame.has_stencil;

        let mut cmds: Vec<GlCmd> = Vec::new();
        cmds.push(GlCmd::Viewport { width: new_width, height: new_height });

        dev.resize_surface(new_width, new_height);

        let mut retired = OffscreenFrame {
            fbo_ms: 0,
            tex_ms: 0,
            rb_stencil: 0,
            has_stencil: false,
            fbo_resolve: 0,
            tex_resolve: 0,
            width: 0,
            height: 0,
            samples: 0,
            ms_color: Vec::new(),
            ms_stencil: Vec::new(),
            resolve_color: Vec::new(),
        };
        core::mem::swap(&mut self.frame, &mut retired);
        let mut destroy_part = retired.destroy(dev);
        cmds.append(&mut destroy_part);

        let ghost n1 = dev.next_id;
        match OffscreenFrame::create(dev, new_width, new_height, samples, with_stencil) {
            Ok((fresh, mut create_part)) => {
                self.frame = fresh;
                cmds.append(&mut create_part);
            },
            Err(_) => {
                proof {
                    assert(false);
                }
                return Err(RenderError::ResizeFailed);
            },
        }

        let name = scale_uniform_name();
        proof {
            if p0.main_program.declares(scale_name()) {
                lemma_first_exists(p0.main_program.names(), scale_name());
                assert(first_at(p0.main_program.names(), scale_name(), mat_loc(p0.main_program)));
            }
        }
        match self.main_program.set_mat_scale(name.as_slice(), new_width, new_height) {
            Ok(cmd) => {
                cmds.push(cmd);
            },
            Err(_) => {},
        }
        match &mut self.overlay {
            Some(ov) => {
                proof {
                    match p0.overlay {
                        Some(ov0) => {
                            if ov0.program.declares(scale_name()) {
                                lemma_first_exists(ov0.program.names(), scale_name());
                                assert(first_at(
                                    ov0.program.names(),
                                    scale_name(),
                                    mat_loc(ov0.program),
                                ));
                            }
                        },
                        None => {},
                    }
                }
                match ov.program.set_mat_scale(name.as_slice(), new_width, new_height) {
                    Ok(cmd) => {
                        cmds.push(cmd);
                    },
                    Err(_) => {},
                }
            },
            None => {},
        }
        self.width = new_width;
        self.height = new_height;
        proof {
            assert(cmds@ =~= resize_cmds(p0, n1, new_width, new_height));
        }
        Ok(cmds)
    }
}

/// The command sequence of one rendered frame.
pub open spec fn render_cmds(p: CompositingPipeline) -> Seq<GlCmd> {
    let head = seq![
        GlCmd::BindFramebuffer { id: Some(p.frame.fbo_ms) },
        GlCmd::StencilWriteMask { enabled: true },
        GlCmd::Clear { color: true, stencil: p.frame.has_stencil },
    ];
    let stencil_on = if p.frame.has_stencil {
        seq![GlCmd::EnableStencilTest, GlCmd::StencilFuncAlways { reference: STENCIL_REF }]
    } else {
        Seq::empty()
    };
    let main_draw = seq![
        GlCmd::UseProgram { id: p.main_program.id },
        GlCmd::BindVertexArray { id: Some(p.main_pass.geometry.vao) },
        GlCmd::DrawArraysTriangleFan { first: 0, count: p.main_pass.geometry.vertex_count },
    ];
    let overlay_draw = match p.overlay {
        Some(ov) => seq![
            GlCmd::StencilFuncEqual { reference: STENCIL_REF },
            GlCmd::StencilWriteMask { enabled: false },
            GlCmd::UseProgram { id: ov.program.id },
            GlCmd::BindTexture { id: Some(ov.texture) },
            GlCmd::ActiveTextureUnit { unit: 0 },
            GlCmd::BindVertexArray { id: Some(ov.pass.geometry.vao) },
            GlCmd::DrawArraysTriangleStrip { first: 0, count: ov.pass.geometry.vertex_count },
        ],
        None => Seq::empty(),
    };
    let resolve_part = seq![
        GlCmd::BindReadFramebuffer { id: Some(p.frame.fbo_ms) },
        GlCmd::BindDrawFramebuffer { id: Some(p.frame.fbo_resolve) },
        GlCmd::BlitColorNearest { width: p.width, height: p.height },
    ];
    let present_part = seq![
        GlCmd::BindFramebuffer { id: None },
        GlCmd::DisableStencilTest,
        GlCmd::UseProgram { id: p.post_program.id },
        GlCmd::BindTexture { id: Some(p.frame.tex_resolve) },
        GlCmd::ActiveTextureUnit { unit: 0 },
        GlCmd::BindVertexArray { id: Some(p.post_vao) },
        GlCmd::DrawArraysTriangleStrip { first: 0, count: 4 },
        GlCmd::Present,
    ];
    head + stencil_on + main_draw + overlay_draw + resolve_part + present_part
}

/// The first location of the scale uniform in the program's names.
pub open spec fn mat_loc(p: ShaderProgram) -> int {
    choose|k: int| first_at(p.names(), scale_name(), k)
}

/// The scale-uniform command a resize pushes to this program: one command
/// when the program declares the scale uniform, none when it does not.
pub open spec fn scale_cmd_part(p: ShaderProgram, w: u32, h: u32) -> Seq<GlCmd> {
    if p.declares(scale_name()) {
        seq![
            GlCmd::SetUniformMat2Scale {
                program: p.id,
                location: mat_loc(p) as u32,
                width: w,
                height: h,
            },
        ]
    } else {
        Seq::empty()
    }
}

/// The command sequence of a resize to `w` by `h`, with `next` the first
/// free object id when the new frame is created.
pub open spec fn resize_cmds(p: CompositingPipeline, next: u32, w: u32, h: u32) -> Seq<GlCmd> {
    seq![GlCmd::Viewport { width: w, height: h }] + destroy_cmds(p.frame) + create_cmds(
        next,
        w,
        h,
        p.frame.samples,
        p.frame.has_stencil,
    ) + scale_cmd_part(p.main_program, w, h) + (match p.overlay {
        Some(ov) => scale_cmd_part(ov.program, w, h),
        None => Seq::empty(),
    })
}

/// The scale uniform of this program reflects the size `w` by `h`,
/// wherever the program declares it.
pub open spec fn scale_bound(p: ShaderProgram, w: u32, h: u32) -> bool {
    p.declares(scale_name()) ==> (forall|k: int|
        first_at(p.names(), scale_name(), k) ==> p.uniform_values@[k] == Some(
            UniformValue::Mat2Scale { width: w, height: h },
        ))
}

/// The pipeline state a resize to `w` by `h` leaves behind: the viewport
/// and the frame have the new size, and every program that declares the
/// scale uniform carries the new scale.
pub open spec fn resized_to(p: CompositingPipeline, w: u32, h: u32) -> bool {
    &&& p.width == w
    &&& p.height == h
    &&& p.frame.width == w
    &&& p.frame.height == h
    &&& scale_bound(p.main_program, w, h)
    &&& match p.overlay {
        Some(ov) => scale_bound(ov.program, w, h),
        None => true,
    }
}

/// Resize idempotence: two pipeline states that both satisfy the resize
/// postcondition for the same size — the state after one resize and the
/// state after resizing to the same size again — agree on the viewport and
/// on every scale-uniform binding. Resizing twice to one size leaves the
/// same viewport and uniform scale as resizing once.
pub proof fn lemma_resize_idempotent(
    p1: CompositingPipeline,
    p2: CompositingPipeline,
    w: u32,
    h: u32,
)
    requires
        resized_to(p1, w, h),
        resized_to(p2, w, h),
        p1.main_program.names() == p2.main_program.names(),
    ensures
        p1.width == p2.width,
        p1.height == p2.height,
        p1.frame.width == p2.frame.width,
        p1.frame.height == p2.frame.height,
        forall|k: int|
            first_at(p1.main_program.names(), scale_name(), k)
                ==> p1.main_program.uniform_values@[k] == p2.main_program.uniform_values@[k],
{
    assert forall|k: int|
        first_at(p1.main_program.names(), scale_name(), k) implies p1
        .main_program
        .uniform_values@[k] == p2.main_program.uniform_values@[k] by {
        assert(p1.main_program.names()[k] == scale_name());
        assert(p1.main_program.declares(scale_name()));
        assert(p2.main_program.declares(scale_name()));
        assert(first_at(p2.main_program.names(), scale_name(), k));
    }
}

/// Resolve correctness at the pipeline level: without an overlay, a main
/// pass whose coverage spans the whole viewport renders every pixel — and,
/// through the full-rectangle resolve that `render` performs, every pixel
/// of the resolve texture — in the pass color.
pub proof fn lemma_render_full_coverage_uniform(p: CompositingPipeline)
    requires
        p.wf(),
        p.overlay is None,
        forall|i: int|
            0 <= i < p.width * p.height ==> covers(
                p.main_pass.coverage@,
                p.width,
                p.height,
                i,
            ),
    ensures
        forall|i: int| 0 <= i < p.width * p.height ==> p.rendered_colors()[i]
            == p.main_pass.color,
{
    assert forall|i: int|
        0 <= i < p.width * p.height implies p.rendered_colors()[i] == p.main_pass.color by {
        assert(covers(p.main_pass.coverage@, p.width, p.height, i));
        assert(!(p.main_mode() is TestEqual));
    }
}

/// Stencil clipping at the pipeline level: with an overlay whose coverage
/// spans the whole viewport, the rendered frame holds the overlay color on
/// exactly the pixels the main pass covered, and the background clear
/// color everywhere else.
pub proof fn lemma_render_clips_overlay(p: CompositingPipeline, ov: Overlay)
    requires
        p.wf(),
        p.overlay == Some(ov),
        forall|i: int|
            0 <= i < p.width * p.height ==> covers(ov.pass.coverage@, p.width, p.height, i),
    ensures
        forall|i: int|
            0 <= i < p.width * p.height ==> p.rendered_colors()[i] == (if covers(
                p.main_pass.coverage@,
                p.width,
                p.height,
                i,
            ) {
                ov.pass.color
            } else {
                p.clear_color
            }),
{
    let base = cleared(p.area_n(), p.clear_color);
    lemma_stencil_clipping(
        base,
        p.width,
        p.height,
        p.main_pass.coverage@,
        p.main_pass.color,
        ov.pass.coverage@,
        ov.pass.color,
    );
    assert(p.rendered_colors() == silhouette_then_overlay(
        base,
        p.width,
        p.height,
        p.main_pass.coverage@,
        p.main_pass.color,
        ov.pass.coverage@,
        ov.pass.color,
    ));
    assert forall|i: int|
        0 <= i < p.width * p.height implies p.rendered_colors()[i] == (if covers(
        p.main_pass.coverage@,
        p.width,
        p.height,
        i,
    ) {
        ov.pass.color
    } else {
        p.clear_color
    }) by {
        assert(base[i] == p.clear_color);
    }
}

} // verus!
