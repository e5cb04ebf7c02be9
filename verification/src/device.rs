use vstd::prelude::*;
use crate::color::Rgb;
use crate::error::RenderError;

verus! {

/// Largest surface dimension the model supports; keeps every pixel index
/// inside `usize` without further side conditions.
pub const MAX_DIM: u32 = 32768;

/// The kind of a GPU object in the resource ledger.
#[derive(Clone, Copy, PartialEq, Eq, Structural, Debug)]
pub enum ObjKind {
    Framebuffer,
    Texture,
    Renderbuffer,
    VertexArray,
    Buffer,
    Shader,
    Program,
}

/// One live GPU object: its id and its kind.
#[derive(Clone, Copy, PartialEq, Eq, Structural, Debug)]
pub struct GlObject {
    pub id: u32,
    pub kind: ObjKind,
}

/// The model of the rendering context: a ledger of live GPU objects, an id
/// allocator, and the visible surface that presentation writes to.
///
/// Every object the pipeline creates is entered here and removed again when
/// it is released, so leaving no leaked objects is a statement about `live`
/// alone.
pub struct Device {
    /// The next object id to hand out; ids are never reused.
    pub next_id: u32,
    /// Every currently live GPU object, in creation order.
    pub live: Vec<GlObject>,
    /// Visible surface width in pixels.
    pub surface_w: u32,
    /// Visible surface height in pixels.
    pub surface_h: u32,
    /// The presented contents of the visible surface, row-major.
    pub surface: Vec<Rgb>,
    /// Whether the surface has been lost; presentation then fails.
    pub surface_lost: bool,
}

/// Keeping exactly the objects whose id is not in `ids`, in order.
pub open spec fn without_ids(live: Seq<GlObject>, ids: Seq<u32>) -> Seq<GlObject>
    decreases live.len(),
{
    if live.len() == 0 {
        Seq::empty()
    } else {
        let rest = without_ids(live.drop_last(), ids);
        if ids.contains(live.last().id) {
            rest
        } else {
            rest.push(live.last())
        }
    }
}

/// No element's id is in `ids`, so removal keeps the sequence unchanged.
pub proof fn lemma_without_ids_keeps_all(live: Seq<GlObject>, ids: Seq<u32>)
    requires
        forall|i: int| 0 <= i < live.len() ==> !ids.contains((#[trigger] live[i]).id),
    ensures
        without_ids(live, ids) == live,
    decreases live.len(),
{
    if live.len() == 0 {
        assert(without_ids(live, ids) =~= live);
    } else {
        lemma_without_ids_keeps_all(live.drop_last(), ids);
        assert(without_ids(live, ids) =~= live);
    }
}

/// Removing ids that only the appended part carries gives back the front
/// part: the front's ids are all outside `ids`, the back's are all inside.
pub proof fn lemma_without_ids_split(a: Seq<GlObject>, b: Seq<GlObject>, ids: Seq<u32>)
    requires
        forall|i: int| 0 <= i < a.len() ==> !ids.contains((#[trigger] a[i]).id),
        forall|i: int| 0 <= i < b.len() ==> ids.contains((#[trigger] b[i]).id),
    ensures
        without_ids(a + b, ids) == a,
    decreases b.len(),
{
    if b.len() == 0 {
        assert(a + b =~= a);
        lemma_without_ids_keeps_all(a, ids);
    } else {
        let x = b.last();
        assert((a + b).drop_last() =~= a + b.drop_last());
        assert((a + b).last() == x);
        assert(ids.contains(x.id));
        lemma_without_ids_split(a, b.drop_last(), ids);
        assert(without_ids(a + b, ids) == without_ids((a + b).drop_last(), ids));
    }
}

impl Device {
    /// The ledger and the surface are consistent: all ids are below the
    /// allocator cursor and the surface buffer matches its dimensions.
    pub open spec fn wf(self) -> bool {
        &&& forall|i: int|
            0 <= i < self.live@.len() ==> (#[trigger] self.live@[i]).id < self.next_id
        &&& self.surface_w <= MAX_DIM
        &&& self.surface_h <= MAX_DIM
        &&& self.surface@.len() == self.surface_w * self.surface_h
    }

    /// The two devices agree on the surface and its state.
    pub open spec fn same_surface(self, other: Device) -> bool {
        &&& self.surface_w == other.surface_w
        &&& self.surface_h == other.surface_h
        &&& self.surface@ == other.surface@
        &&& self.surface_lost == other.surface_lost
    }

    /// The two devices are equal as models.
    pub open spec fn model_eq(self, other: Device) -> bool {
        &&& self.next_id == other.next_id
        &&& self.live@ == other.live@
        &&& self.same_surface(other)
    }

    /// A fresh context for a surface of the given size: no live objects, a
    /// black surface, nothing lost.
    pub fn new(surface_w: u32, surface_h: u32) -> (d: Device)
        requires
            surface_w <= MAX_DIM,
            surface_h <= MAX_DIM,
        ensures
            d.wf(),
            d.next_id == 1,
            d.live@ == Seq::<GlObject>::empty(),
            d.surface_w == surface_w,
            d.surface_h == surface_h,
            d.surface@ == Seq::new(
                (surface_w * surface_h) as nat,
                |i: int| Rgb { r: 0, g: 0, b: 0 },
            ),
            !d.surface_lost,
    {
        proof {
            assert((surface_w as int) * (surface_h as int) <= 0x4000_0000) by (nonlinear_arith)
                requires
                    surface_w <= MAX_DIM,
                    surface_h <= MAX_DIM,
            ;
        }
        let n: usize = (surface_w as usize) * (surface_h as usize);
        let surface = filled(n, Rgb { r: 0, g: 0, b: 0 });
        proof {
            assert(surface@ =~= Seq::new(
                (surface_w * surface_h) as nat,
                |i: int| Rgb { r: 0, g: 0, b: 0 },
            ));
        }
        let d = Device {
            next_id: 1,
            live: Vec::new(),
            surface_w,
            surface_h,
            surface,
            surface_lost: false,
        };
        proof {
            assert(d.live@ =~= Seq::<GlObject>::empty());
        }
        d
    }

    /// Enter a fresh object of the given kind into the ledger and return its
    /// id.
    pub fn new_object(&mut self, kind: ObjKind) -> (id: u32)
        requires
            old(self).wf(),
            old(self).next_id < u32::MAX,
        ensures
            final(self).wf(),
            id == old(self).next_id,
            final(self).next_id == old(self).next_id + 1,
            final(self).live@ == old(self).live@.push(GlObject { id, kind }),
            final(self).same_surface(*old(self)),
    {
        let id = self.next_id;
        self.next_id = id + 1;
        self.live.push(GlObject { id, kind });
        id
    }

    /// Remove every object whose id occurs in `ids` from the ledger.
    pub fn release(&mut self, ids: &Vec<u32>)
        requires
            old(self).wf(),
        ensures
            final(self).wf(),
            final(self).next_id == old(self).next_id,
            final(self).live@ == without_ids(old(self).live@, ids@),
            final(self).same_surface(*old(self)),
    {
        let mut kept: Vec<GlObject> = Vec::new();
        let mut i: usize = 0;
        proof {
            assert(without_ids(self.live@.subrange(0, 0), ids@) =~= Seq::<GlObject>::empty());
        }
        while i < self.live.len()
            invariant
                old(self).wf(),
                *self == *old(self),
                i <= self.live@.len(),
                kept@ == without_ids(self.live@.subrange(0, i as int), ids@),
                forall|j: int|
                    0 <= j < kept@.len() ==> (#[trigger] kept@[j]).id < old(self).next_id,
            decreases self.live@.len() - i,
        {
            let o = self.live[i];
            proof {
                let t = self.live@.subrange(0, i as int).push(o);
                assert(self.live@.subrange(0, i as int + 1) =~= t);
                assert(t.drop_last() =~= self.live@.subrange(0, i as int));
                assert(t.last() == o);
            }
            if !id_in(ids, o.id) {
                kept.push(o);
            }
            i += 1;
        }
        proof {
            assert(self.live@.subrange(0, self.live@.len() as int) =~= self.live@);
        }
        self.live = kept;
    }

    /// Present a resolved color buffer: copy it to the visible surface, or
    /// fail without any effect when the surface has been lost.
    pub fn present(&mut self, resolved: &Vec<Rgb>) -> (r: Result<(), RenderError>)
        requires
            old(self).wf(),
            resolved@.len() == old(self).surface@.len(),
        ensures
            final(self).wf(),
            r is Ok <==> !old(self).surface_lost,
            r matches Err(e) ==> e is Presentation,
            final(self).next_id == old(self).next_id,
            final(self).live@ == old(self).live@,
            final(self).surface_w == old(self).surface_w,
            final(self).surface_h == old(self).surface_h,
            final(self).surface_lost == old(self).surface_lost,
            final(self).surface@ == if old(self).surface_lost {
                old(self).surface@
            } else {
                resolved@
            },
    {
        if self.surface_lost {
            Err(RenderError::Presentation)
        } else {
            self.surface = copy_pixels(resolved);
            Ok(())
        }
    }

    /// Record that the windowing system reported the surface lost.
    pub fn mark_surface_lost(&mut self)
        ensures
            final(self).surface_lost,
            final(self).next_id == old(self).next_id,
            final(self).live@ == old(self).live@,
            final(self).surface_w == old(self).surface_w,
            final(self).surface_h == old(self).surface_h,
            final(self).surface@ == old(self).surface@,
    {
        self.surface_lost = true;
    }

    /// Adopt a new surface size reported by the windowing system: the
    /// surface buffer is recreated black at the new dimensions.
    pub fn resize_surface(&mut self, surface_w: u32, surface_h: u32)
        requires
            old(self).wf(),
            surface_w <= MAX_DIM,
            surface_h <= MAX_DIM,
        ensures
            final(self).wf(),
            final(self).next_id == old(self).next_id,
            final(self).live@ == old(self).live@,
            final(self).surface_lost == old(self).surface_lost,
            final(self).surface_w == surface_w,
            final(self).surface_h == surface_h,
            final(self).surface@ == Seq::new(
                (surface_w * surface_h) as nat,
                |i: int| Rgb { r: 0, g: 0, b: 0 },
            ),
    {
        let n = area_usize(surface_w, surface_h);
        self.surface_w = surface_w;
        self.surface_h = surface_h;
        self.surface = filled(n, Rgb { r: 0, g: 0, b: 0 });
        proof {
            assert(self.surface@ =~= Seq::new(
                (surface_w * surface_h) as nat,
                |i: int| Rgb { r: 0, g: 0, b: 0 },
            ));
        }
    }

    /// How many GPU objects are currently live.
    pub fn live_count(&self) -> (n: usize)
        ensures
            n == self.live@.len(),
    {
        self.live.len()
    }
}

/// The pixel count of a frame, as a machine integer.
pub fn area_usize(width: u32, height: u32) -> (n: usize)
    requires
        width <= MAX_DIM,
        height <= MAX_DIM,
    ensures
        n == width * height,
{
    proof {
        assert((width as int) * (height as int) <= 0x4000_0000) by (nonlinear_arith)
            requires
                width <= MAX_DIM,
                height <= MAX_DIM,
        ;
    }
    (width as usize) * (height as usize)
}

/// Whether `x` occurs in `ids`.
pub fn id_in(ids: &Vec<u32>, x: u32) -> (r: bool)
    ensures
        r == ids@.contains(x),
{
    let mut j: usize = 0;
    while j < ids.len()
        invariant
            j <= ids@.len(),
            forall|k: int| 0 <= k < j ==> ids@[k] != x,
        decreases ids@.len() - j,
    {
        if ids[j] == x {
            return true;
        }
        j += 1;
    }
    false
}

/// A vector of `n` copies of `x`.
pub fn filled<T: Copy>(n: usize, x: T) -> (v: Vec<T>)
    ensures
        v@ == Seq::new(n as nat, |i: int| x),
{
    let mut v: Vec<T> = Vec::new();
    let mut i: usize = 0;
    while i < n
        invariant
            i <= n,
            v@ =~= Seq::new(i as nat, |j: int| x),
        decreases n - i,
    {
        v.push(x);
        i += 1;
    }
    proof {
        assert(v@ =~= Seq::new(n as nat, |i: int| x));
    }
    v
}

/// An element-for-element copy of a pixel buffer.
pub fn copy_pixels(src: &Vec<Rgb>) -> (v: Vec<Rgb>)
    ensures
        v@ == src@,
{
    let mut v: Vec<Rgb> = Vec::new();
    let mut i: usize = 0;
    while i < src.len()
        invariant
            i <= src@.len(),
            v@ == src@.subrange(0, i as int),
        decreases src@.len() - i,
    {
        let p = src[i];
        proof {
            assert(src@.subrange(0, i as int + 1)
                =~= src@.subrange(0, i as int).push(src@[i as int]));
        }
        v.push(p);
        i += 1;
    }
    proof {
        assert(src@.subrange(0, src@.len() as int) =~= src@);
    }
    v
}

} // verus!
