use vstd::prelude::*;
use vstd::string::StrSliceExecFns;
use crate::cmd::GlCmd;
use crate::device::{Device, GlObject, ObjKind, lemma_without_ids_split, without_ids};
use crate::error::{RenderError, ShaderStage};

verus! {

/// Opening brace byte `{`.
pub const LBRACE: u8 = 123;

/// Closing brace byte `}`.
pub const RBRACE: u8 = 125;

/// Space byte.
pub const SPACE: u8 = 32;

/// Whether the remainder of `s` from position `i`, entered with `d` braces
/// open, closes every open brace and never closes one that is not open.
pub open spec fn balanced_from(s: Seq<u8>, i: int, d: int) -> bool
    decreases s.len() - i,
{
    if i < 0 || i >= s.len() {
        d == 0
    } else if s[i] == LBRACE {
        balanced_from(s, i + 1, d + 1)
    } else if s[i] == RBRACE {
        d > 0 && balanced_from(s, i + 1, d - 1)
    } else {
        balanced_from(s, i + 1, d)
    }
}

/// The compile check of the model shading language: braces must balance.
/// A source whose braces do not balance fails to compile.
pub open spec fn braces_balanced(s: Seq<u8>) -> bool {
    balanced_from(s, 0, 0)
}

/// Whether the source text compiles: balanced braces.
pub fn check_braces(src: &[u8]) -> (r: bool)
    ensures
        r == braces_balanced(src@),
{
    let mut i: usize = 0;
    let mut depth: usize = 0;
    while i < src.len()
        invariant
            i <= src@.len(),
            depth <= i,
            braces_balanced(src@) == balanced_from(src@, i as int, depth as int),
        decreases src@.len() - i,
    {
        let b = src[i];
        if b == LBRACE {
            depth += 1;
        } else if b == RBRACE {
            if depth == 0 {
                proof {
                    assert(!balanced_from(src@, i as int, 0));
                }
                return false;
            }
            depth -= 1;
        }
        i += 1;
    }
    depth == 0
}

/// Whether the byte may appear in an identifier: a letter, digit or
/// underscore.
pub open spec fn is_ident_byte(b: u8) -> bool {
    (97 <= b <= 122) || (65 <= b <= 90) || (48 <= b <= 57) || b == 95
}

/// The length of the identifier run starting at position `i`.
pub open spec fn ident_len(s: Seq<u8>, i: int) -> nat
    decreases s.len() - i,
{
    if i < 0 || i >= s.len() {
        0
    } else if is_ident_byte(s[i]) {
        (1 + ident_len(s, i + 1)) as nat
    } else {
        0
    }
}

/// Whether the keyword `uniform` followed by a space stands at position `i`.
pub open spec fn kw_at(s: Seq<u8>, i: int) -> bool {
    &&& 0 <= i
    &&& i + 8 <= s.len()
    &&& s[i] == 117
    &&& s[i + 1] == 110
    &&& s[i + 2] == 105
    &&& s[i + 3] == 102
    &&& s[i + 4] == 111
    &&& s[i + 5] == 114
    &&& s[i + 6] == 109
    &&& s[i + 7] == SPACE
}

/// Whether a uniform declaration `uniform <type> <name>` stands at position
/// `i`: the keyword, a nonempty type identifier, one space, and a nonempty
/// name identifier.
pub open spec fn decl_at(s: Seq<u8>, i: int) -> bool {
    let tl = ident_len(s, i + 8);
    let ns = i + 9 + tl;
    &&& kw_at(s, i)
    &&& tl >= 1
    &&& i + 8 + tl < s.len()
    &&& s[i + 8 + tl] == SPACE
    &&& ident_len(s, ns) >= 1
}

/// The declared name of the uniform declaration at position `i`.
pub open spec fn decl_name(s: Seq<u8>, i: int) -> Seq<u8> {
    let tl = ident_len(s, i + 8);
    let ns = i + 9 + tl;
    s.subrange(ns, ns + ident_len(s, ns))
}

/// The position following the declaration at position `i`.
pub open spec fn decl_end(s: Seq<u8>, i: int) -> int {
    let tl = ident_len(s, i + 8);
    i + 9 + tl + ident_len(s, i + 9 + tl)
}

/// The uniform names declared from position `i` on, in order of
/// declaration.
pub open spec fn scan_uniforms(s: Seq<u8>, i: int) -> Seq<Seq<u8>>
    decreases (if i <= s.len() { s.len() - i } else { 0int }),
{
    if i < 0 || i >= s.len() {
        Seq::empty()
    } else if decl_at(s, i) {
        seq![decl_name(s, i)] + scan_uniforms(s, decl_end(s, i))
    } else {
        scan_uniforms(s, i + 1)
    }
}

/// The uniform names a source declares, in order. After linking, a
/// uniform's location is its index in the vertex-stage names followed by
/// the fragment-stage names.
pub open spec fn uniforms_of(s: Seq<u8>) -> Seq<Seq<u8>> {
    scan_uniforms(s, 0)
}

/// Whether the byte may appear in an identifier.
pub fn is_ident_byte_exec(b: u8) -> (r: bool)
    ensures
        r == is_ident_byte(b),
{
    (97 <= b && b <= 122) || (65 <= b && b <= 90) || (48 <= b && b <= 57) || b == 95
}

/// The length of the identifier run starting at `start`.
pub fn ident_run(src: &[u8], start: usize) -> (n: usize)
    requires
        start <= src@.len(),
    ensures
        n == ident_len(src@, start as int),
        start + n <= src@.len(),
{
    let end = src.len();
    let mut n: usize = 0;
    while start + n < end && is_ident_byte_exec(src[start + n])
        invariant
            end == src@.len(),
            start + n <= end,
            ident_len(src@, start as int) == n + ident_len(src@, start as int + n),
        decreases src@.len() - start - n,
    {
        n += 1;
    }
    proof {
        assert(ident_len(src@, start as int + n) == 0);
    }
    n
}

/// Whether the keyword `uniform ` stands at position `i`.
pub fn kw_check(src: &[u8], i: usize) -> (r: bool)
    requires
        i <= src@.len(),
    ensures
        r == kw_at(src@, i as int),
{
    if src.len() < 8 || i > src.len() - 8 {
        return false;
    }
    src[i] == 117 && src[i + 1] == 110 && src[i + 2] == 105 && src[i + 3] == 102 && src[i + 4]
        == 111 && src[i + 5] == 114 && src[i + 6] == 109 && src[i + 7] == SPACE
}

/// The bytes of `src` from `a` to `b`, as a fresh vector.
pub fn copy_bytes(src: &[u8], a: usize, b: usize) -> (v: Vec<u8>)
    requires
        a <= b <= src@.len(),
    ensures
        v@ == src@.subrange(a as int, b as int),
{
    let mut v: Vec<u8> = Vec::new();
    let mut k: usize = a;
    while k < b
        invariant
            a <= k <= b <= src@.len(),
            v@ == src@.subrange(a as int, k as int),
        decreases b - k,
    {
        let x = src[k];
        proof {
            assert(src@.subrange(a as int, k as int + 1)
                =~= src@.subrange(a as int, k as int).push(src@[k as int]));
        }
        v.push(x);
        k += 1;
    }
    v
}

/// The uniform names the source declares, in declaration order.
pub fn scan_uniform_names(src: &[u8]) -> (names: Vec<Vec<u8>>)
    ensures
        names.deep_view() == uniforms_of(src@),
{
    let mut names: Vec<Vec<u8>> = Vec::new();
    let mut i: usize = 0;
    while i < src.len()
        invariant
            i <= src@.len(),
            uniforms_of(src@) == names.deep_view() + scan_uniforms(src@, i as int),
        decreases src@.len() - i,
    {
        let ghost pre = names.deep_view();
        if kw_check(src, i) {
            let tl = ident_run(src, i + 8);
            if tl >= 1 && i + 8 + tl < src.len() && src[i + 8 + tl] == SPACE {
                let ns = i + 9 + tl;
                let nl = ident_run(src, ns);
                if nl >= 1 {
                    let name = copy_bytes(src, ns, ns + nl);
                    proof {
                        assert(decl_at(src@, i as int));
                        assert(name@ == decl_name(src@, i as int));
                        assert(decl_end(src@, i as int) == ns + nl);
                    }
                    names.push(name);
                    proof {
                        assert(names.deep_view() =~~= pre.push(name@));
                        assert(scan_uniforms(src@, i as int) == seq![decl_name(src@, i as int)]
                            + scan_uniforms(src@, decl_end(src@, i as int)));
                        assert(seq![decl_name(src@, i as int)] + scan_uniforms(
                            src@,
                            ns + nl as int,
                        ) =~= scan_uniforms(src@, i as int));
                        assert(pre.push(name@) + scan_uniforms(src@, ns + nl as int)
                            =~= pre + scan_uniforms(src@, i as int));
                    }
                    i = ns + nl;
                } else {
                    proof {
                        assert(!decl_at(src@, i as int));
                    }
                    i += 1;
                }
            } else {
                proof {
                    assert(!decl_at(src@, i as int));
                }
                i += 1;
            }
        } else {
            proof {
                assert(!decl_at(src@, i as int));
            }
            i += 1;
        }
    }
    proof {
        assert(scan_uniforms(src@, i as int) =~= Seq::<Seq<u8>>::empty());
        assert(names.deep_view() =~= names.deep_view() + Seq::<Seq<u8>>::empty());
    }
    names
}

/// A uniform value the pipeline sets on a program, as the model records it.
///
/// `Mat2Scale { width, height }` stands for the diagonal matrix
/// `(2/width, 2/height)` that maps pixel-space geometry to normalized device
/// coordinates; `Vec2` is a translation in pixel space; `Sampler` selects a
/// texture unit.
#[derive(Clone, Copy, PartialEq, Eq, Structural, Debug)]
pub enum UniformValue {
    Mat2Scale { width: u32, height: u32 },
    Vec2 { x: i32, y: i32 },
    Sampler { unit: i32 },
}

/// No two names in the list are equal.
pub open spec fn unique_names(names: Seq<Seq<u8>>) -> bool {
    forall|a: int, b: int| 0 <= a < b < names.len() ==> names[a] != names[b]
}

/// The uniform names of a linked program: the vertex stage's declarations
/// followed by the fragment stage's.
pub open spec fn program_uniforms(vs: Seq<u8>, fs: Seq<u8>) -> Seq<Seq<u8>> {
    uniforms_of(vs) + uniforms_of(fs)
}

/// `k` is the first index at which `n` occurs in `names`.
pub open spec fn first_at(names: Seq<Seq<u8>>, n: Seq<u8>, k: int) -> bool {
    &&& 0 <= k < names.len()
    &&& names[k] == n
    &&& forall|j: int| 0 <= j < k ==> names[j] != n
}

/// A name the list contains has a first occurrence.
pub proof fn lemma_first_exists(names: Seq<Seq<u8>>, n: Seq<u8>)
    requires
        names.contains(n),
    ensures
        exists|k: int| first_at(names, n, k),
    decreases names.len(),
{
    let j = choose|j: int| 0 <= j < names.len() && names[j] == n;
    if exists|i: int| 0 <= i < j && names[i] == n {
        let s = names.subrange(0, j);
        assert(s.contains(n)) by {
            let i = choose|i: int| 0 <= i < j && names[i] == n;
            assert(s[i] == n);
        }
        lemma_first_exists(s, n);
        let k = choose|k: int| first_at(s, n, k);
        assert(names[k] == s[k]);
        assert forall|t: int| 0 <= t < k implies names[t] != n by {
            assert(s[t] == names[t]);
            assert(s[t] != n);
        }
        assert(first_at(names, n, k));
    } else {
        assert(first_at(names, n, j));
    }
}

/// Whether the two byte strings are equal.
pub fn bytes_eq(a: &[u8], b: &[u8]) -> (r: bool)
    ensures
        r == (a@ == b@),
{
    if a.len() != b.len() {
        return false;
    }
    let mut i: usize = 0;
    while i < a.len()
        invariant
            a@.len() == b@.len(),
            i <= a@.len(),
            forall|k: int| 0 <= k < i ==> a@[k] == b@[k],
        decreases a@.len() - i,
    {
        if a[i] != b[i] {
            return false;
        }
        i += 1;
    }
    proof {
        assert(a@ =~= b@);
    }
    true
}

/// Whether some name occurs twice in the list.
pub fn has_duplicate(names: &Vec<Vec<u8>>) -> (r: bool)
    ensures
        r == !unique_names(names.deep_view()),
{
    let ghost dv = names.deep_view();
    let mut a: usize = 0;
    while a < names.len()
        invariant
            dv == names.deep_view(),
            a <= names@.len(),
            forall|x: int, y: int| 0 <= x < y < dv.len() && x < a ==> dv[x] != dv[y],
        decreases names@.len() - a,
    {
        let mut b: usize = a + 1;
        while b < names.len()
            invariant
                dv == names.deep_view(),
                a < names@.len(),
                a < b,
                b <= names@.len(),
                forall|x: int, y: int| 0 <= x < y < dv.len() && x < a ==> dv[x] != dv[y],
                forall|y: int| a < y < b ==> dv[a as int] != dv[y],
            decreases names@.len() - b,
        {
            proof {
                assert(dv[a as int] =~= names@[a as int]@);
                assert(dv[b as int] =~= names@[b as int]@);
            }
            if bytes_eq(names[a].as_slice(), names[b].as_slice()) {
                proof {
                    assert(dv[a as int] == dv[b as int]);
                }
                return true;
            }
            b += 1;
        }
        a += 1;
    }
    false
}

/// The command sequence that realizes a program build: create the program,
/// compile and attach both stages, link, then detach and delete the
/// per-stage shader objects, keeping only the linked program.
pub open spec fn build_cmds(next: u32) -> Seq<GlCmd> {
    let p = next;
    let v = (next + 1) as u32;
    let f = (next + 2) as u32;
    seq![
        GlCmd::CreateProgram { id: p },
        GlCmd::CreateShader { id: v, stage: ShaderStage::Vertex },
        GlCmd::CompileShader { id: v },
        GlCmd::AttachShader { program: p, shader: v },
        GlCmd::CreateShader { id: f, stage: ShaderStage::Fragment },
        GlCmd::CompileShader { id: f },
        GlCmd::AttachShader { program: p, shader: f },
        GlCmd::LinkProgram { program: p },
        GlCmd::DetachShader { program: p, shader: v },
        GlCmd::DeleteShader { id: v },
        GlCmd::DetachShader { program: p, shader: f },
        GlCmd::DeleteShader { id: f },
    ]
}

/// The uniform names of the linked program: vertex stage's declarations
/// followed by the fragment stage's.
pub fn combined_uniform_names(vertex_src: &[u8], fragment_src: &[u8]) -> (names: Vec<Vec<u8>>)
    ensures
        names.deep_view() == program_uniforms(vertex_src@, fragment_src@),
{
    let mut names = scan_uniform_names(vertex_src);
    let mut fragment_names = scan_uniform_names(fragment_src);
    let ghost vs_names = names.deep_view();
    let ghost fs_names = fragment_names.deep_view();
    names.append(&mut fragment_names);
    proof {
        assert(names.deep_view() =~~= vs_names + fs_names);
    }
    names
}

/// Enter the program object into the ledger, together with the two
/// per-stage shader objects that the build creates and releases again: the
/// ledger gains exactly the program, and three ids are consumed.
fn alloc_program_object(dev: &mut Device) -> (ids: (u32, u32, u32))
    requires
        old(dev).wf(),
        old(dev).next_id + 3 <= u32::MAX,
    ensures
        final(dev).wf(),
        final(dev).same_surface(*old(dev)),
        ids.0 == old(dev).next_id,
        ids.1 == old(dev).next_id + 1,
        ids.2 == old(dev).next_id + 2,
        final(dev).next_id == old(dev).next_id + 3,
        final(dev).live@ == old(dev).live@.push(
            GlObject { id: ids.0, kind: ObjKind::Program },
        ),
{
    let ghost n0 = dev.next_id;
    let program_id = dev.new_object(ObjKind::Program);
    let vertex_id = dev.new_object(ObjKind::Shader);
    let fragment_id = dev.new_object(ObjKind::Shader);
    let mut shader_ids: Vec<u32> = Vec::new();
    shader_ids.push(vertex_id);
    shader_ids.push(fragment_id);
    proof {
        assert(shader_ids@ =~= seq![vertex_id, fragment_id]);
    }
    let ghost before = dev.live@;
    dev.release(&shader_ids);
    proof {
        let kept_part = old(dev).live@.push(GlObject { id: n0, kind: ObjKind::Program });
        let dropped_part = seq![
            GlObject { id: (n0 + 1) as u32, kind: ObjKind::Shader },
            GlObject { id: (n0 + 2) as u32, kind: ObjKind::Shader },
        ];
        assert(before =~= kept_part + dropped_part);
        assert forall|i: int|
            0 <= i < kept_part.len() implies !shader_ids@.contains(
            (#[trigger] kept_part[i]).id,
        ) by {
            if shader_ids@.contains(kept_part[i].id) {
                let k = choose|k: int|
                    0 <= k < shader_ids@.len() && shader_ids@[k] == kept_part[i].id;
            }
        }
        assert forall|i: int|
            0 <= i < dropped_part.len() implies shader_ids@.contains(
            (#[trigger] dropped_part[i]).id,
        ) by {
            assert(shader_ids@[i] == dropped_part[i].id);
        }
        lemma_without_ids_split(kept_part, dropped_part, shader_ids@);
        assert(dev.live@ == kept_part);
    }
    (program_id, vertex_id, fragment_id)
}

/// The commands of a program build, for the three consecutive ids starting
/// at `next`.
fn build_cmd_vec(next: u32) -> (cmds: Vec<GlCmd>)
    requires
        next + 3 <= u32::MAX,
    ensures
        cmds@ == build_cmds(next),
{
    let program_id = next;
    let vertex_id = next + 1;
    let fragment_id = next + 2;
    let mut cmds: Vec<GlCmd> = Vec::new();
    cmds.push(GlCmd::CreateProgram { id: program_id });
    cmds.push(GlCmd::CreateShader { id: vertex_id, stage: ShaderStage::Vertex });
    cmds.push(GlCmd::CompileShader { id: vertex_id });
    cmds.push(GlCmd::AttachShader { program: program_id, shader: vertex_id });
    cmds.push(GlCmd::CreateShader { id: fragment_id, stage: ShaderStage::Fragment });
    cmds.push(GlCmd::CompileShader { id: fragment_id });
    cmds.push(GlCmd::AttachShader { program: program_id, shader: fragment_id });
    cmds.push(GlCmd::LinkProgram { program: program_id });
    cmds.push(GlCmd::DetachShader { program: program_id, shader: vertex_id });
    cmds.push(GlCmd::DeleteShader { id: vertex_id });
    cmds.push(GlCmd::DetachShader { program: program_id, shader: fragment_id });
    cmds.push(GlCmd::DeleteShader { id: fragment_id });
    proof {
        assert(cmds@ =~= build_cmds(next));
    }
    cmds
}

/// A linked shader program: its GPU object id, the uniform names it
/// declares (a uniform's location is its index here), and the value last
/// set at each location, if any.
pub struct ShaderProgram {
    /// The program's GPU object id.
    pub id: u32,
    /// The declared uniform names, vertex stage first.
    pub uniform_names: Vec<Vec<u8>>,
    /// The value last set at each location; `None` until first set.
    pub uniform_values: Vec<Option<UniformValue>>,
}

impl ShaderProgram {
    /// The name and value tables stay parallel, and every location fits in
    /// a `u32`.
    pub open spec fn wf(self) -> bool {
        &&& self.uniform_values@.len() == self.uniform_names@.len()
        &&& self.uniform_names@.len() <= u32::MAX
    }

    /// The declared uniform names.
    pub open spec fn names(self) -> Seq<Seq<u8>> {
        self.uniform_names.deep_view()
    }

    /// Whether the program declares a uniform of this name.
    pub open spec fn declares(self, n: Seq<u8>) -> bool {
        self.names().contains(n)
    }

    /// Compile and link a program from the two stage sources.
    ///
    /// Each stage is checked in order, vertex first; a stage whose braces do
    /// not balance fails the build with `ShaderCompile` for that stage, and
    /// nothing is attached or left allocated. Both stages compiled, the link
    /// fails with `ShaderLink` exactly when the two stages' uniform
    /// declarations collide. On success only the linked program object is
    /// retained: the per-stage shader objects are released again, and every
    /// declared uniform starts out unset.
    pub fn build(dev: &mut Device, vertex_src: &[u8], fragment_src: &[u8]) -> (r: Result<
        (ShaderProgram, Vec<GlCmd>),
        RenderError,
    >)
        requires
            old(dev).wf(),
            old(dev).next_id + 3 <= u32::MAX,
        ensures
            final(dev).wf(),
            final(dev).same_surface(*old(dev)),
            r is Ok <==> (braces_balanced(vertex_src@) && braces_balanced(fragment_src@)
                && unique_names(program_uniforms(vertex_src@, fragment_src@))
                && program_uniforms(vertex_src@, fragment_src@).len() <= u32::MAX),
            r matches Err(e) ==> final(dev).model_eq(*old(dev)),
            r matches Err(e) ==> ({
                &&& !braces_balanced(vertex_src@) ==> (e matches RenderError::ShaderCompile {
                    stage,
                    ..
                } && stage is Vertex)
                &&& braces_balanced(vertex_src@) && !braces_balanced(fragment_src@) ==> (
                e matches RenderError::ShaderCompile { stage, .. } && stage is Fragment)
                &&& braces_balanced(vertex_src@) && braces_balanced(fragment_src@) ==> e
                    is ShaderLink
            }),
            r matches Ok(pc) ==> ({
                let p = pc.0;
                &&& p.wf()
                &&& p.id == old(dev).next_id
                &&& p.names() == program_uniforms(vertex_src@, fragment_src@)
                &&& p.uniform_values@ == Seq::new(
                    p.names().len(),
                    |i: int| None::<UniformValue>,
                )
                &&& final(dev).live@ == old(dev).live@.push(
                    GlObject { id: p.id, kind: ObjKind::Program },
                )
                &&& final(dev).next_id == old(dev).next_id + 3
                &&& pc.1@ == build_cmds(old(dev).next_id)
            }),
    {
        if !check_braces(vertex_src) {
            return Err(RenderError::ShaderCompile {
                stage: ShaderStage::Vertex,
                log: compile_log(),
            });
        }
        if !check_braces(fragment_src) {
            return Err(RenderError::ShaderCompile {
                stage: ShaderStage::Fragment,
                log: compile_log(),
            });
        }
        let names = combined_uniform_names(vertex_src, fragment_src);
        if names.len() > 0xFFFF_FFFF {
            // More declared uniforms than locations exist; the model treats
            // this as a link failure.
            return Err(RenderError::ShaderLink { log: link_log() });
        }
        if has_duplicate(&names) {
            return Err(RenderError::ShaderLink { log: link_log() });
        }

        let ghost n0 = dev.next_id;
        let (program_id, _vertex_id, _fragment_id) = alloc_program_object(dev);
        let cmds = build_cmd_vec(program_id);
        let count = names.len();
        let uniform_values: Vec<Option<UniformValue>> = crate::device::filled(
            count,
            None::<UniformValue>,
        );
        let program = ShaderProgram { id: program_id, uniform_names: names, uniform_values };
        proof {
            assert(program.uniform_values@ =~= Seq::new(
                program.names().len(),
                |i: int| None::<UniformValue>,
            ));
        }
        Ok((program, cmds))
    }

    /// The location of the named uniform in this program, or
    /// `UniformNotFound` exactly when no declared uniform has that name.
    /// Asking for a name the linked program does not declare is a hard
    /// error, never a silent no-op.
    pub fn locate(&self, name: &[u8]) -> (r: Result<u32, RenderError>)
        requires
            self.wf(),
        ensures
            r is Ok <==> self.declares(name@),
            r matches Ok(loc) ==> first_at(self.names(), name@, loc as int),
            r matches Err(e) ==> (e matches RenderError::UniformNotFound { name: n } && n@
                == name@),
    {
        let ghost dv = self.names();
        let mut k: usize = 0;
        while k < self.uniform_names.len()
            invariant
                self.wf(),
                dv == self.names(),
                k <= dv.len(),
                forall|j: int| 0 <= j < k ==> dv[j] != name@,
            decreases dv.len() - k,
        {
            proof {
                assert(dv[k as int] =~= self.uniform_names@[k as int]@);
            }
            if bytes_eq(self.uniform_names[k].as_slice(), name) {
                proof {
                    assert(dv[k as int] == name@);
                }
                return Ok(k as u32);
            }
            k += 1;
        }
        proof {
            assert(!self.declares(name@)) by {
                if self.declares(name@) {
                    let j = choose|j: int| 0 <= j < dv.len() && dv[j] == name@;
                }
            }
        }
        Err(RenderError::UniformNotFound { name: crate::shader::copy_whole(name) })
    }

    /// Set the scale uniform of this name to the diagonal matrix
    /// `(2/width, 2/height)`: record the binding and return the command that
    /// realizes it. Fails with `UniformNotFound` exactly when the program
    /// does not declare the name.
    pub fn set_mat_scale(&mut self, name: &[u8], width: u32, height: u32) -> (r: Result<
        GlCmd,
        RenderError,
    >)
        requires
            old(self).wf(),
        ensures
            final(self).wf(),
            final(self).id == old(self).id,
            final(self).names() == old(self).names(),
            r is Ok <==> old(self).declares(name@),
            r is Err ==> final(self).uniform_values@ == old(self).uniform_values@,
            r matches Err(e) ==> (e matches RenderError::UniformNotFound { name: n } && n@
                == name@),
            r matches Ok(cmd) ==> (forall|k: int|
                first_at(old(self).names(), name@, k) ==> (final(self).uniform_values@
                    == old(self).uniform_values@.update(
                    k,
                    Some(UniformValue::Mat2Scale { width, height }),
                ) && cmd == (GlCmd::SetUniformMat2Scale {
                    program: old(self).id,
                    location: k as u32,
                    width,
                    height,
                }))),
    {
        match self.locate(name) {
            Err(e) => Err(e),
            Ok(loc) => {
                self.uniform_values.set(loc as usize, Some(
                    UniformValue::Mat2Scale { width, height },
                ));
                Ok(GlCmd::SetUniformMat2Scale { program: self.id, location: loc, width, height })
            },
        }
    }

    /// Set the translation uniform of this name, in pixel space. Fails with
    /// `UniformNotFound` exactly when the program does not declare the name.
    pub fn set_vec2(&mut self, name: &[u8], x: i32, y: i32) -> (r: Result<GlCmd, RenderError>)
        requires
            old(self).wf(),
        ensures
            final(self).wf(),
            final(self).id == old(self).id,
            final(self).names() == old(self).names(),
            r is Ok <==> old(self).declares(name@),
            r is Err ==> final(self).uniform_values@ == old(self).uniform_values@,
            r matches Err(e) ==> (e matches RenderError::UniformNotFound { name: n } && n@
                == name@),
            r matches Ok(cmd) ==> (forall|k: int|
                first_at(old(self).names(), name@, k) ==> (final(self).uniform_values@
                    == old(self).uniform_values@.update(k, Some(UniformValue::Vec2 { x, y }))
                    && cmd == (GlCmd::SetUniformVec2 {
                    program: old(self).id,
                    location: k as u32,
                    x,
                    y,
                }))),
    {
        match self.locate(name) {
            Err(e) => Err(e),
            Ok(loc) => {
                self.uniform_values.set(loc as usize, Some(UniformValue::Vec2 { x, y }));
                Ok(GlCmd::SetUniformVec2 { program: self.id, location: loc, x, y })
            },
        }
    }

    /// Set the sampler uniform of this name to a texture unit. Fails with
    /// `UniformNotFound` exactly when the program does not declare the name.
    pub fn set_sampler(&mut self, name: &[u8], unit: i32) -> (r: Result<GlCmd, RenderError>)
        requires
            old(self).wf(),
        ensures
            final(self).wf(),
            final(self).id == old(self).id,
            final(self).names() == old(self).names(),
            r is Ok <==> old(self).declares(name@),
            r is Err ==> final(self).uniform_values@ == old(self).uniform_values@,
            r matches Err(e) ==> (e matches RenderError::UniformNotFound { name: n } && n@
                == name@),
            r matches Ok(cmd) ==> (forall|k: int|
                first_at(old(self).names(), name@, k) ==> (final(self).uniform_values@
                    == old(self).uniform_values@.update(k, Some(UniformValue::Sampler { unit }))
                    && cmd == (GlCmd::SetUniformSampler {
                    program: old(self).id,
                    location: k as u32,
                    unit,
                }))),
    {
        match self.locate(name) {
            Err(e) => Err(e),
            Ok(loc) => {
                self.uniform_values.set(loc as usize, Some(UniformValue::Sampler { unit }));
                Ok(GlCmd::SetUniformSampler { program: self.id, location: loc, unit })
            },
        }
    }

    /// Release the linked program's GPU object.
    pub fn destroy(self, dev: &mut Device) -> (cmds: Vec<GlCmd>)
        requires
            old(dev).wf(),
        ensures
            final(dev).wf(),
            final(dev).next_id == old(dev).next_id,
            final(dev).same_surface(*old(dev)),
            final(dev).live@ == without_ids(old(dev).live@, seq![self.id]),
            cmds@ == seq![GlCmd::DeleteProgram { id: self.id }],
    {
        let mut ids: Vec<u32> = Vec::new();
        ids.push(self.id);
        proof {
            assert(ids@ =~= seq![self.id]);
        }
        dev.release(&ids);
        let mut cmds: Vec<GlCmd> = Vec::new();
        cmds.push(GlCmd::DeleteProgram { id: self.id });
        proof {
            assert(cmds@ =~= seq![GlCmd::DeleteProgram { id: self.id }]);
        }
        cmds
    }
}

/// The diagnostic log of the model's compile failure.
fn compile_log() -> Vec<u8> {
    "unbalanced braces in shader source".as_bytes_vec()
}

/// The diagnostic log of the model's link failure.
fn link_log() -> Vec<u8> {
    "conflicting uniform declarations between stages".as_bytes_vec()
}

/// A fresh copy of the whole byte string.
pub fn copy_whole(src: &[u8]) -> (v: Vec<u8>)
    ensures
        v@ == src@,
{
    let v = copy_bytes(src, 0, src.len());
    proof {
        assert(src@.subrange(0, src@.len() as int) =~= src@);
    }
    v
}

} // verus!
