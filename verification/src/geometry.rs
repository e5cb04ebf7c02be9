use vstd::prelude::*;
use crate::cmd::GlCmd;
use crate::device::{Device, GlObject, ObjKind};

verus! {

/// One vertex attribute of a layout: its shader slot, how many float
/// components it has, and its byte offset inside one vertex record.
#[derive(Clone, Copy, PartialEq, Eq, Structural, Debug)]
pub struct AttributeDesc {
    pub slot: u32,
    pub components: u32,
    pub offset: u32,
}

/// The attribute layout of one vertex buffer: an ordered list of attribute
/// descriptors over a single interleaved record. The invariant: attributes
/// are packed back to back, each component is four bytes, and the stride is
/// exactly the byte size of one vertex record.
#[derive(Clone, Debug)]
pub struct VertexLayout {
    pub attributes: Vec<AttributeDesc>,
    pub stride: u32,
}

/// The byte offset of attribute `i` in a packed layout: four bytes for
/// every component of every earlier attribute.
pub open spec fn packed_offset(counts: Seq<u32>, i: int) -> int
    decreases i,
{
    if i <= 0 {
        0
    } else {
        packed_offset(counts, i - 1) + 4 * counts[i - 1]
    }
}

impl VertexLayout {
    /// The layout is packed: slot `i` holds attribute `i`, component counts
    /// are between one and four, offsets are the packed offsets, and the
    /// stride is the full record size.
    pub open spec fn wf(self) -> bool {
        let counts = self.attributes@.map(|i: int, a: AttributeDesc| a.components);
        &&& forall|i: int|
            0 <= i < self.attributes@.len() ==> {
                let a = #[trigger] self.attributes@[i];
                &&& a.slot == i
                &&& 1 <= a.components <= 4
                &&& a.offset == packed_offset(counts, i)
            }
        &&& self.stride == packed_offset(counts, self.attributes@.len() as int)
    }

    /// The packed layout for the given per-attribute component counts:
    /// attribute `i` takes slot `i`, offsets accumulate four bytes per
    /// component, and the stride is the total record size.
    pub fn packed(component_counts: &Vec<u32>) -> (layout: VertexLayout)
        requires
            component_counts@.len() <= 16,
            forall|i: int|
                0 <= i < component_counts@.len() ==> 1 <= #[trigger] component_counts@[i] <= 4,
        ensures
            layout.wf(),
            layout.attributes@.len() == component_counts@.len(),
            layout.attributes@.map(|i: int, a: AttributeDesc| a.components)
                == component_counts@,
    {
        let mut attributes: Vec<AttributeDesc> = Vec::new();
        let mut offset: u32 = 0;
        let mut i: usize = 0;
        while i < component_counts.len()
            invariant
                i <= component_counts@.len(),
                component_counts@.len() <= 16,
                forall|k: int|
                    0 <= k < component_counts@.len() ==> 1 <= #[trigger] component_counts@[k]
                        <= 4,
                attributes@.len() == i,
                forall|k: int|
                    0 <= k < i ==> {
                        let a = #[trigger] attributes@[k];
                        &&& a.slot == k
                        &&& a.components == component_counts@[k]
                        &&& a.offset == packed_offset(component_counts@, k)
                    },
                offset == packed_offset(component_counts@, i as int),
                offset <= 64 * i,
            decreases component_counts@.len() - i,
        {
            let c = component_counts[i];
            attributes.push(AttributeDesc { slot: i as u32, components: c, offset });
            offset = offset + 4 * c;
            i += 1;
        }
        let layout = VertexLayout { attributes, stride: offset };
        proof {
            let counts = layout.attributes@.map(|k: int, a: AttributeDesc| a.components);
            assert(counts =~= component_counts@);
            assert forall|k: int| 0 <= k <= layout.attributes@.len() implies packed_offset(
                counts,
                k,
            ) == packed_offset(component_counts@, k) by {
                lemma_packed_offset_congruence(counts, component_counts@, k);
            }
        }
        layout
    }
}

/// Equal count sequences give equal packed offsets.
proof fn lemma_packed_offset_congruence(a: Seq<u32>, b: Seq<u32>, i: int)
    requires
        a == b,
    ensures
        packed_offset(a, i) == packed_offset(b, i),
    decreases i,
{
    if i > 0 {
        lemma_packed_offset_congruence(a, b, i - 1);
    }
}

/// A GPU-resident vertex buffer: the vertex array and buffer object ids,
/// the number of vertices uploaded, and the attribute layout. The buffer is
/// immutable after upload; new geometry means a new buffer.
#[derive(Clone, Debug)]
pub struct GeometryBuffer {
    /// The vertex array object id.
    pub vao: u32,
    /// The array buffer object id.
    pub buffer: u32,
    /// How many vertices the buffer holds; zero draws nothing.
    pub vertex_count: u32,
    /// The attribute layout of one vertex record.
    pub layout: VertexLayout,
}

/// The commands that realize an upload: create and bind the vertex array
/// and buffer, hand the driver-side vertex data over, then describe each
/// attribute of the layout.
pub open spec fn upload_cmds(
    vao: u32,
    buffer: u32,
    vertex_count: u32,
    attributes: Seq<AttributeDesc>,
    stride: u32,
) -> Seq<GlCmd> {
    seq![
        GlCmd::CreateVertexArray { id: vao },
        GlCmd::BindVertexArray { id: Some(vao) },
        GlCmd::CreateBuffer { id: buffer },
        GlCmd::BindBuffer { id: Some(buffer) },
        GlCmd::UploadVertices { buffer, vertex_count },
    ] + attributes.map(
        |i: int, a: AttributeDesc| GlCmd::VertexAttrib {
            slot: a.slot,
            components: a.components,
            stride,
            offset: a.offset,
        },
    ) + seq![GlCmd::BindVertexArray { id: None }]
}

impl GeometryBuffer {
    /// Upload a vertex buffer: allocate the vertex array and buffer
    /// objects and describe the layout. The vertex count is the length of
    /// the caller's vertex list; zero vertices are permitted and draw
    /// nothing.
    pub fn upload(dev: &mut Device, vertex_count: u32, layout: VertexLayout) -> (r: (
        GeometryBuffer,
        Vec<GlCmd>,
    ))
        requires
            old(dev).wf(),
            old(dev).next_id + 2 <= u32::MAX,
            layout.wf(),
        ensures
            final(dev).wf(),
            final(dev).same_surface(*old(dev)),
            final(dev).next_id == old(dev).next_id + 2,
            final(dev).live@ == old(dev).live@ + seq![
                GlObject { id: old(dev).next_id, kind: ObjKind::VertexArray },
                GlObject { id: (old(dev).next_id + 1) as u32, kind: ObjKind::Buffer },
            ],
            r.0.vao == old(dev).next_id,
            r.0.buffer == old(dev).next_id + 1,
            r.0.vertex_count == vertex_count,
            r.0.layout.attributes@ == layout.attributes@,
            r.0.layout.stride == layout.stride,
            r.0.layout.wf(),
            r.1@ == upload_cmds(
                old(dev).next_id,
                (old(dev).next_id + 1) as u32,
                vertex_count,
                layout.attributes@,
                layout.stride,
            ),
    {
        let vao = dev.new_object(ObjKind::VertexArray);
        let buffer = dev.new_object(ObjKind::Buffer);
        proof {
            assert(dev.live@ =~= old(dev).live@ + seq![
                GlObject { id: vao, kind: ObjKind::VertexArray },
                GlObject { id: buffer, kind: ObjKind::Buffer },
            ]);
        }

        let stride = layout.stride;
        let mut cmds: Vec<GlCmd> = Vec::new();
        cmds.push(GlCmd::CreateVertexArray { id: vao });
        cmds.push(GlCmd::BindVertexArray { id: Some(vao) });
        cmds.push(GlCmd::CreateBuffer { id: buffer });
        cmds.push(GlCmd::BindBuffer { id: Some(buffer) });
        cmds.push(GlCmd::UploadVertices { buffer, vertex_count });
        let ghost head = cmds@;
        let ghost attr_cmd = |i: int, a: AttributeDesc| GlCmd::VertexAttrib {
            slot: a.slot,
            components: a.components,
            stride,
            offset: a.offset,
        };
        let mut i: usize = 0;
        while i < layout.attributes.len()
            invariant
                i <= layout.attributes@.len(),
                stride == layout.stride,
                attr_cmd == (|k: int, a: AttributeDesc| GlCmd::VertexAttrib {
                    slot: a.slot,
                    components: a.components,
                    stride,
                    offset: a.offset,
                }),
                cmds@ == head + layout.attributes@.subrange(0, i as int).map(attr_cmd),
            decreases layout.attributes@.len() - i,
        {
            let a = layout.attributes[i];
            cmds.push(GlCmd::VertexAttrib {
                slot: a.slot,
                components: a.components,
                stride,
                offset: a.offset,
            });
            proof {
                assert(layout.attributes@.subrange(0, i as int + 1).map(attr_cmd)
                    =~= layout.attributes@.subrange(0, i as int).map(attr_cmd).push(
                    attr_cmd(i as int, a),
                ));
            }
            i += 1;
        }
        cmds.push(GlCmd::BindVertexArray { id: None });
        proof {
            assert(layout.attributes@.subrange(0, layout.attributes@.len() as int)
                =~= layout.attributes@);
            assert(cmds@ =~= upload_cmds(
                vao,
                buffer,
                vertex_count,
                layout.attributes@,
                layout.stride,
            ));
        }
        (GeometryBuffer { vao, buffer, vertex_count, layout }, cmds)
    }
}

} // verus!
