use vstd::prelude::*;
use crate::cmd::GlCmd;
use crate::color::Rgb;
use crate::device::{Device, GlObject, ObjKind, without_ids, filled, area_usize, lemma_without_ids_split, MAX_DIM};
use crate::error::RenderError;
use crate::raster::{
    cleared, covers, draw_color_spec, draw_stencil_spec, lemma_covers_push_at, resolve_spec,
    stencil_cleared, stencil_passes, in_frame, pix_index, Pixel, StencilMode,
};

verus! {

/// Whether a frame of this size and sample count reaches complete
/// framebuffer status. There is no fallback sample-count negotiation: the
/// caller chooses the sample count and accepts failure.
pub open spec fn size_complete(width: u32, height: u32, samples: u32) -> bool {
    &&& 1 <= width <= MAX_DIM
    &&& 1 <= height <= MAX_DIM
    &&& 1 <= samples
}

/// The ledger entries a frame creation adds, in creation order: the
/// multisample framebuffer, its color texture, the optional stencil
/// renderbuffer, then the resolve framebuffer and its color texture.
pub open spec fn frame_entries(next: u32, with_stencil: bool) -> Seq<GlObject> {
    if with_stencil {
        seq![
            GlObject { id: next, kind: ObjKind::Framebuffer },
            GlObject { id: (next + 1) as u32, kind: ObjKind::Texture },
            GlObject { id: (next + 2) as u32, kind: ObjKind::Renderbuffer },
            GlObject { id: (next + 3) as u32, kind: ObjKind::Framebuffer },
            GlObject { id: (next + 4) as u32, kind: ObjKind::Texture },
        ]
    } else {
        seq![
            GlObject { id: next, kind: ObjKind::Framebuffer },
            GlObject { id: (next + 1) as u32, kind: ObjKind::Texture },
            GlObject { id: (next + 2) as u32, kind: ObjKind::Framebuffer },
            GlObject { id: (next + 3) as u32, kind: ObjKind::Texture },
        ]
    }
}

/// The ids of those entries, in the same order.
pub open spec fn frame_ids(next: u32, with_stencil: bool) -> Seq<u32> {
    frame_entries(next, with_stencil).map(|i: int, o: GlObject| o.id)
}

/// A multisampled offscreen render target together with its single-sampled
/// resolve target.
///
/// The frame owns two framebuffer objects, the multisample color texture, an
/// optional multisample stencil renderbuffer, and the single-sample color
/// texture that the presentation pass samples. The model keeps the contents
/// of all attached buffers as plain row-major vectors. A frame is created at
/// one size and never mutated in place: resizing destroys it and creates a
/// fresh one.
pub struct OffscreenFrame {
    /// Framebuffer object of the multisample target.
    pub fbo_ms: u32,
    /// Multisample color texture attached to `fbo_ms`.
    pub tex_ms: u32,
    /// Multisample stencil renderbuffer attached to `fbo_ms`, if present.
    pub rb_stencil: u32,
    /// Whether the stencil attachment exists (and `rb_stencil` is an id).
    pub has_stencil: bool,
    /// Framebuffer object of the single-sample resolve target.
    pub fbo_resolve: u32,
    /// Single-sample color texture attached to `fbo_resolve`.
    pub tex_resolve: u32,
    /// Width in pixels; matches the surface it was created for.
    pub width: u32,
    /// Height in pixels; matches the surface it was created for.
    pub height: u32,
    /// Samples per pixel of the multisample target.
    pub samples: u32,
    /// Modelled contents of the multisample color buffer.
    pub ms_color: Vec<Rgb>,
    /// Modelled contents of the multisample stencil buffer.
    pub ms_stencil: Vec<u8>,
    /// Modelled contents of the single-sample resolve texture.
    pub resolve_color: Vec<Rgb>,
}

impl OffscreenFrame {
    /// Size, sample count and buffer lengths are consistent.
    pub open spec fn wf(self) -> bool {
        &&& size_complete(self.width, self.height, self.samples)
        &&& self.ms_color@.len() == self.width * self.height
        &&& self.ms_stencil@.len() == self.width * self.height
        &&& self.resolve_color@.len() == self.width * self.height
    }

    /// The ids of the GPU objects this frame owns, in creation order.
    pub open spec fn ids(self) -> Seq<u32> {
        if self.has_stencil {
            seq![self.fbo_ms, self.tex_ms, self.rb_stencil, self.fbo_resolve, self.tex_resolve]
        } else {
            seq![self.fbo_ms, self.tex_ms, self.fbo_resolve, self.tex_resolve]
        }
    }

    /// Create a frame of the given size: allocate both framebuffers and
    /// their attachments, and fail with `FramebufferIncomplete`, leaving the
    /// device untouched, exactly when the requested size or sample count
    /// cannot give a complete framebuffer.
    pub fn create(
        dev: &mut Device,
        width: u32,
        height: u32,
        samples: u32,
        with_stencil: bool,
    ) -> (r: Result<(OffscreenFrame, Vec<GlCmd>), RenderError>)
        requires
            old(dev).wf(),
            old(dev).next_id + 5 <= u32::MAX,
        ensures
            final(dev).wf(),
            final(dev).same_surface(*old(dev)),
            r is Ok <==> size_complete(width, height, samples),
            r matches Err(e) ==> e is FramebufferIncomplete && final(dev).model_eq(*old(dev)),
            r matches Ok(fc) ==> ({
                let f = fc.0;
                &&& f.wf()
                &&& f.width == width
                &&& f.height == height
                &&& f.samples == samples
                &&& f.has_stencil == with_stencil
                &&& f.ids() == frame_ids(old(dev).next_id, with_stencil)
                &&& f.ms_color@ == cleared((width * height) as nat, Rgb { r: 0, g: 0, b: 0 })
                &&& f.ms_stencil@ == stencil_cleared((width * height) as nat, 0)
                &&& f.resolve_color@ == cleared((width * height) as nat, Rgb { r: 0, g: 0, b: 0 })
                &&& final(dev).live@ == old(dev).live@ + frame_entries(
                    old(dev).next_id,
                    with_stencil,
                )
                &&& final(dev).next_id == old(dev).next_id + (if with_stencil {
                    5int
                } else {
                    4int
                })
                &&& fc.1@ == create_cmds(
                    old(dev).next_id,
                    width,
                    height,
                    samples,
                    with_stencil,
                )
            }),
    {
        if !(width >= 1 && width <= MAX_DIM && height >= 1 && height <= MAX_DIM && samples >= 1) {
            return Err(RenderError::FramebufferIncomplete);
        }
        let ghost n0 = dev.next_id;
        let fbo_ms = dev.new_object(ObjKind::Framebuffer);
        let tex_ms = dev.new_object(ObjKind::Texture);
        let rb_stencil = if with_stencil {
            dev.new_object(ObjKind::Renderbuffer)
        } else {
            0
        };
        let fbo_resolve = dev.new_object(ObjKind::Framebuffer);
        let tex_resolve = dev.new_object(ObjKind::Texture);
        proof {
            assert(dev.live@ =~= old(dev).live@ + frame_entries(n0, with_stencil));
        }

        let area = area_usize(width, height);
        let frame = OffscreenFrame {
            fbo_ms,
            tex_ms,
            rb_stencil,
            has_stencil: with_stencil,
            fbo_resolve,
            tex_resolve,
            width,
            height,
            samples,
            ms_color: filled(area, Rgb { r: 0, g: 0, b: 0 }),
            ms_stencil: filled(area, 0u8),
            resolve_color: filled(area, Rgb { r: 0, g: 0, b: 0 }),
        };
        proof {
            assert(frame.ids() =~= frame_ids(n0, with_stencil));
            assert(frame.ms_color@ =~= cleared((width * height) as nat, Rgb { r: 0, g: 0, b: 0 }));
            assert(frame.ms_stencil@ =~= stencil_cleared((width * height) as nat, 0));
            assert(frame.resolve_color@ =~= cleared(
                (width * height) as nat,
                Rgb { r: 0, g: 0, b: 0 },
            ));
        }

        let mut cmds: Vec<GlCmd> = Vec::new();
        cmds.push(GlCmd::CreateFramebuffer { id: fbo_ms });
        cmds.push(GlCmd::BindFramebuffer { id: Some(fbo_ms) });
        cmds.push(GlCmd::CreateTexture { id: tex_ms });
        cmds.push(GlCmd::BindTextureMultisample { id: Some(tex_ms) });
        cmds.push(GlCmd::TexImage2dMultisample { samples, width, height });
        cmds.push(GlCmd::FramebufferTextureMultisample { texture: tex_ms });
        if with_stencil {
            cmds.push(GlCmd::CreateRenderbuffer { id: rb_stencil });
            cmds.push(GlCmd::BindRenderbuffer { id: Some(rb_stencil) });
            cmds.push(GlCmd::RenderbufferStorageMultisample { samples, width, height });
            cmds.push(GlCmd::FramebufferStencilRenderbuffer { renderbuffer: rb_stencil });
        }
        cmds.push(GlCmd::CreateFramebuffer { id: fbo_resolve });
        cmds.push(GlCmd::BindFramebuffer { id: Some(fbo_resolve) });
        cmds.push(GlCmd::CreateTexture { id: tex_resolve });
        cmds.push(GlCmd::BindTexture { id: Some(tex_resolve) });
        cmds.push(GlCmd::TexImage2dRgb { width, height });
        cmds.push(GlCmd::TexFilterNearest);
        cmds.push(GlCmd::FramebufferTexture2d { texture: tex_resolve });
        cmds.push(GlCmd::BindFramebuffer { id: None });
        proof {
            assert(cmds@ =~= create_cmds(n0, width, height, samples, with_stencil));
        }
        Ok((frame, cmds))
    }

    /// Destroy the frame: release every GPU object it owns. Consuming the
    /// frame makes a second destroy, or any operation on a destroyed frame,
    /// impossible by ownership.
    pub fn destroy(self, dev: &mut Device) -> (cmds: Vec<GlCmd>)
        requires
            old(dev).wf(),
        ensures
            final(dev).wf(),
            final(dev).next_id == old(dev).next_id,
            final(dev).same_surface(*old(dev)),
            final(dev).live@ == without_ids(old(dev).live@, self.ids()),
            cmds@ == destroy_cmds(self),
    {
        let mut ids: Vec<u32> = Vec::new();
        ids.push(self.fbo_ms);
        ids.push(self.tex_ms);
        if self.has_stencil {
            ids.push(self.rb_stencil);
        }
        ids.push(self.fbo_resolve);
        ids.push(self.tex_resolve);
        proof {
            assert(ids@ =~= self.ids());
        }
        dev.release(&ids);

        let mut cmds: Vec<GlCmd> = Vec::new();
        cmds.push(GlCmd::DeleteFramebuffer { id: self.fbo_ms });
        cmds.push(GlCmd::DeleteFramebuffer { id: self.fbo_resolve });
        cmds.push(GlCmd::DeleteTexture { id: self.tex_ms });
        if self.has_stencil {
            cmds.push(GlCmd::DeleteRenderbuffer { id: self.rb_stencil });
        }
        cmds.push(GlCmd::DeleteTexture { id: self.tex_resolve });
        proof {
            assert(cmds@ =~= destroy_cmds(self));
        }
        cmds
    }

    /// Clear the multisample color buffer to `color` and, when a stencil
    /// attachment exists, the stencil buffer to zero. The resolve target is
    /// not touched.
    pub fn clear(&mut self, color: Rgb)
        requires
            old(self).wf(),
        ensures
            final(self).wf(),
            final(self).same_shape(*old(self)),
            final(self).ms_color@ == cleared(old(self).ms_color@.len(), color),
            final(self).ms_stencil@ == if old(self).has_stencil {
                stencil_cleared(old(self).ms_stencil@.len(), 0)
            } else {
                old(self).ms_stencil@
            },
            final(self).resolve_color@ == old(self).resolve_color@,
    {
        let len = self.ms_color.len();
        self.ms_color = filled(len, color);
        if self.has_stencil {
            let slen = self.ms_stencil.len();
            self.ms_stencil = filled(slen, 0u8);
        }
        proof {
            assert(self.ms_color@ =~= cleared(old(self).ms_color@.len(), color));
            if self.has_stencil {
                assert(self.ms_stencil@ =~= stencil_cleared(old(self).ms_stencil@.len(), 0));
            }
        }
    }

    /// The frames agree on everything except buffer contents.
    pub open spec fn same_shape(self, other: OffscreenFrame) -> bool {
        &&& self.fbo_ms == other.fbo_ms
        &&& self.tex_ms == other.tex_ms
        &&& self.rb_stencil == other.rb_stencil
        &&& self.has_stencil == other.has_stencil
        &&& self.fbo_resolve == other.fbo_resolve
        &&& self.tex_resolve == other.tex_resolve
        &&& self.width == other.width
        &&& self.height == other.height
        &&& self.samples == other.samples
    }

    /// Rasterize one draw pass into the multisample target: write `color`
    /// to every covered in-bounds pixel that passes the stencil test, and
    /// update the stencil buffer as the mode prescribes.
    pub fn draw(&mut self, cov: &Vec<Pixel>, color: Rgb, mode: StencilMode)
        requires
            old(self).wf(),
            mode is Off || old(self).has_stencil,
        ensures
            final(self).wf(),
            final(self).same_shape(*old(self)),
            final(self).ms_color@ == draw_color_spec(
                old(self).ms_color@,
                old(self).ms_stencil@,
                cov@,
                old(self).width,
                old(self).height,
                color,
                mode,
            ),
            final(self).ms_stencil@ == draw_stencil_spec(
                old(self).ms_stencil@,
                cov@,
                old(self).width,
                old(self).height,
                mode,
            ),
            final(self).resolve_color@ == old(self).resolve_color@,
    {
        let w = self.width;
        let h = self.height;
        let mut j: usize = 0;
        while j < cov.len()
            invariant
                old(self).wf(),
                mode is Off || old(self).has_stencil,
                w == old(self).width,
                h == old(self).height,
                j <= cov@.len(),
                self.same_shape(*old(self)),
                self.resolve_color@ == old(self).resolve_color@,
                self.ms_color@ == draw_color_spec(
                    old(self).ms_color@,
                    old(self).ms_stencil@,
                    cov@.subrange(0, j as int),
                    w,
                    h,
                    color,
                    mode,
                ),
                self.ms_stencil@ == draw_stencil_spec(
                    old(self).ms_stencil@,
                    cov@.subrange(0, j as int),
                    w,
                    h,
                    mode,
                ),
            decreases cov@.len() - j,
        {
            let p = cov[j];
            let ghost prev_cov = cov@.subrange(0, j as int);
            proof {
                assert(cov@.subrange(0, j as int + 1) =~= prev_cov.push(p));
            }
            let ghost next_colors = draw_color_spec(
                old(self).ms_color@,
                old(self).ms_stencil@,
                cov@.subrange(0, j as int + 1),
                w,
                h,
                color,
                mode,
            );
            let ghost next_stencils = draw_stencil_spec(
                old(self).ms_stencil@,
                cov@.subrange(0, j as int + 1),
                w,
                h,
                mode,
            );
            let ghost prev_colors = self.ms_color@;
            let ghost prev_stencils = self.ms_stencil@;
            if p.x < w && p.y < h {
                proof {
                    assert((p.y as int) * (w as int) + (p.x as int) < (w as int) * (h as int))
                        by (nonlinear_arith)
                        requires
                            p.x < w,
                            p.y < h,
                    ;
                    assert((p.y as int) * (w as int) + (p.x as int) < 0x4000_0000)
                        by (nonlinear_arith)
                        requires
                            p.x < w,
                            p.y < h,
                            w <= MAX_DIM,
                            h <= MAX_DIM,
                    ;
                }
                let idx = (p.y as usize) * (w as usize) + (p.x as usize);
                let st = self.ms_stencil[idx];
                let pass = match mode {
                    StencilMode::Off => true,
                    StencilMode::WriteAlways { .. } => true,
                    StencilMode::TestEqual { reference } => st == reference,
                };
                proof {
                    assert(pass == stencil_passes(mode, old(self).ms_stencil@[idx as int]));
                }
                if pass {
                    self.ms_color.set(idx, color);
                }
                match mode {
                    StencilMode::WriteAlways { reference } => {
                        self.ms_stencil.set(idx, reference);
                    },
                    _ => {},
                }
                proof {
                    assert forall|i: int|
                        0 <= i < self.ms_color@.len() implies self.ms_color@[i]
                        == next_colors[i] by {
                        lemma_covers_push_at(prev_cov, p, w, h, i);
                        assert(covers(cov@.subrange(0, j as int + 1), w, h, i) == (covers(
                            prev_cov,
                            w,
                            h,
                            i,
                        ) || pix_index(p, w) == i));
                    }
                    assert(self.ms_color@ =~= next_colors);
                    assert forall|i: int|
                        0 <= i < self.ms_stencil@.len() implies self.ms_stencil@[i]
                        == next_stencils[i] by {
                        lemma_covers_push_at(prev_cov, p, w, h, i);
                        assert(covers(cov@.subrange(0, j as int + 1), w, h, i) == (covers(
                            prev_cov,
                            w,
                            h,
                            i,
                        ) || pix_index(p, w) == i));
                    }
                    assert(self.ms_stencil@ =~= next_stencils);
                }
            } else {
                proof {
                    assert forall|i: int|
                        0 <= i < self.ms_color@.len() implies self.ms_color@[i]
                        == next_colors[i] by {
                        lemma_covers_push_at(prev_cov, p, w, h, i);
                        assert(covers(cov@.subrange(0, j as int + 1), w, h, i) == covers(
                            prev_cov,
                            w,
                            h,
                            i,
                        ));
                    }
                    assert(self.ms_color@ =~= next_colors);
                    assert forall|i: int|
                        0 <= i < self.ms_stencil@.len() implies self.ms_stencil@[i]
                        == next_stencils[i] by {
                        lemma_covers_push_at(prev_cov, p, w, h, i);
                        assert(covers(cov@.subrange(0, j as int + 1), w, h, i) == covers(
                            prev_cov,
                            w,
                            h,
                            i,
                        ));
                    }
                    assert(self.ms_stencil@ =~= next_stencils);
                }
            }
            j += 1;
        }
        proof {
            assert(cov@.subrange(0, cov@.len() as int) =~= cov@);
        }
    }

    /// Resolve (blit) the rectangle `(0,0)..(rect_w,rect_h)` of the
    /// multisample color buffer into the single-sample target,
    /// nearest-neighbor, color only. Pixels outside the rectangle keep what
    /// the previous resolve left there.
    pub fn resolve(&mut self, rect_w: u32, rect_h: u32)
        requires
            old(self).wf(),
            rect_w <= old(self).width,
            rect_h <= old(self).height,
        ensures
            final(self).wf(),
            final(self).same_shape(*old(self)),
            final(self).ms_color@ == old(self).ms_color@,
            final(self).ms_stencil@ == old(self).ms_stencil@,
            final(self).resolve_color@ == resolve_spec(
                old(self).ms_color@,
                old(self).resolve_color@,
                old(self).width,
                rect_w,
                rect_h,
            ),
    {
        let w = self.width;
        let len = self.resolve_color.len();
        let mut i: usize = 0;
        while i < len
            invariant
                old(self).wf(),
                w == old(self).width,
                len == old(self).resolve_color@.len(),
                i <= len,
                self.same_shape(*old(self)),
                self.ms_color@ == old(self).ms_color@,
                self.ms_stencil@ == old(self).ms_stencil@,
                self.resolve_color@.len() == len,
                forall|k: int|
                    0 <= k < i ==> self.resolve_color@[k] == resolve_spec(
                        old(self).ms_color@,
                        old(self).resolve_color@,
                        w,
                        rect_w,
                        rect_h,
                    )[k],
                forall|k: int|
                    i <= k < len ==> self.resolve_color@[k] == old(self).resolve_color@[k],
            decreases len - i,
        {
            let x = i % (w as usize);
            let y = i / (w as usize);
            if x < rect_w as usize && y < rect_h as usize {
                let c = self.ms_color[i];
                self.resolve_color.set(i, c);
            }
            i += 1;
        }
        proof {
            assert(self.resolve_color@ =~= resolve_spec(
                old(self).ms_color@,
                old(self).resolve_color@,
                old(self).width,
                rect_w,
                rect_h,
            ));
        }
    }
}

/// The command sequence that realizes a frame creation.
pub open spec fn create_cmds(
    next: u32,
    width: u32,
    height: u32,
    samples: u32,
    with_stencil: bool,
) -> Seq<GlCmd> {
    let fbo_ms = next;
    let tex_ms = (next + 1) as u32;
    let head = seq![
        GlCmd::CreateFramebuffer { id: fbo_ms },
        GlCmd::BindFramebuffer { id: Some(fbo_ms) },
        GlCmd::CreateTexture { id: tex_ms },
        GlCmd::BindTextureMultisample { id: Some(tex_ms) },
        GlCmd::TexImage2dMultisample { samples, width, height },
        GlCmd::FramebufferTextureMultisample { texture: tex_ms },
    ];
    let stencil_part = if with_stencil {
        let rb = (next + 2) as u32;
        seq![
            GlCmd::CreateRenderbuffer { id: rb },
            GlCmd::BindRenderbuffer { id: Some(rb) },
            GlCmd::RenderbufferStorageMultisample { samples, width, height },
            GlCmd::FramebufferStencilRenderbuffer { renderbuffer: rb },
        ]
    } else {
        Seq::empty()
    };
    let fbo_resolve = if with_stencil {
        (next + 3) as u32
    } else {
        (next + 2) as u32
    };
    let tex_resolve = if with_stencil {
        (next + 4) as u32
    } else {
        (next + 3) as u32
    };
    let tail = seq![
        GlCmd::CreateFramebuffer { id: fbo_resolve },
        GlCmd::BindFramebuffer { id: Some(fbo_resolve) },
        GlCmd::CreateTexture { id: tex_resolve },
        GlCmd::BindTexture { id: Some(tex_resolve) },
        GlCmd::TexImage2dRgb { width, height },
        GlCmd::TexFilterNearest,
        GlCmd::FramebufferTexture2d { texture: tex_resolve },
        GlCmd::BindFramebuffer { id: None },
    ];
    head + stencil_part + tail
}

/// The command sequence that realizes a frame destruction.
pub open spec fn destroy_cmds(f: OffscreenFrame) -> Seq<GlCmd> {
    let head = seq![
        GlCmd::DeleteFramebuffer { id: f.fbo_ms },
        GlCmd::DeleteFramebuffer { id: f.fbo_resolve },
        GlCmd::DeleteTexture { id: f.tex_ms },
    ];
    let stencil_part = if f.has_stencil {
        seq![GlCmd::DeleteRenderbuffer { id: f.rb_stencil }]
    } else {
        Seq::empty()
    };
    head + stencil_part + seq![GlCmd::DeleteTexture { id: f.tex_resolve }]
}

/// Creating a frame and destroying it again leaves no leaked GPU objects:
/// the resource ledger returns to exactly what it was. `live` is any ledger
/// whose ids are all below the allocator cursor, as device well-formedness
/// guarantees.
pub proof fn lemma_create_destroy_leaves_no_objects(
    live: Seq<GlObject>,
    next: u32,
    with_stencil: bool,
)
    requires
        forall|i: int| 0 <= i < live.len() ==> (#[trigger] live[i]).id < next,
        next + 5 <= u32::MAX,
    ensures
        without_ids(
            live + frame_entries(next, with_stencil),
            frame_ids(next, with_stencil),
        ) == live,
{
    let entries = frame_entries(next, with_stencil);
    let ids = frame_ids(next, with_stencil);

    assert forall|i: int| 0 <= i < live.len() implies !ids.contains((#[trigger] live[i]).id) by {
        if ids.contains(live[i].id) {
            let k = choose|k: int| 0 <= k < ids.len() && ids[k] == live[i].id;
            assert(ids[k] == entries[k].id);
            assert(entries[k].id >= next);
        }
    }
    assert forall|i: int|
        0 <= i < entries.len() implies ids.contains((#[trigger] entries[i]).id) by {
        assert(ids[i] == entries[i].id);
    }
    lemma_without_ids_split(live, entries, ids);
}

} // verus!
