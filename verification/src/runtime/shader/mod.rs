use vstd::prelude::*;

use std::collections::HashMap;

use crate::bindings::gl;
use crate::error::FogleError;
use crate::runtime::shader::cache::ProgramCacheEntry;
use crate::runtime::shader::transpilation::{
    assigned_in_sequence, bindings_extend, lemma_assigned_in_sequence_refl_trans,
    lemma_bindings_extend_refl_trans, spec_spv_to_essl, spv_to_essl, SpirvRequest,
    TranspileContext,
};
use crate::traits::gl::{spec_from_gl_bool, spec_stage_enum, spec_stage_key, AsStageKey, FromStageKey};
use crate::traits::shaderc::spec_shader_kind;
use vstd::string::StringExecFns;

pub mod cache;
pub mod transpilation;

verus! {

broadcast use vstd::std_specs::hash::group_hash_axioms;

/// A shader object: its GL id and type, its GLSL source, and the SPIR-V it
/// compiled to, if it compiled.
pub struct Shader {
    id: u32,
    type_: u32,
    compiled: bool,
    source: String,
    spirv: Vec<u8>,
}

/// What a shader object holds.
pub struct ShaderView {
    pub id: u32,
    pub type_: u32,
    pub compiled: bool,
    pub source: Seq<char>,
    pub spirv: Seq<u8>,
}

impl View for Shader {
    type V = ShaderView;

    closed spec fn view(&self) -> ShaderView {
        ShaderView {
            id: self.id,
            type_: self.type_,
            compiled: self.compiled,
            source: self.source@,
            spirv: self.spirv@,
        }
    }
}

impl Shader {
    /// A fresh shader object of type `type_` whose GL name is `id`: no
    /// source, not compiled.
    pub fn new(type_: u32, id: u32) -> (r: Self)
        ensures
            r@.id == id,
            r@.type_ == type_,
            !r@.compiled,
            r@.source.len() == 0,
            r@.spirv.len() == 0,
    {
        Shader { id, type_, compiled: false, source: String::new(), spirv: Vec::new() }
    }

    pub fn id(&self) -> (r: u32)
        ensures
            r == self@.id,
    {
        self.id
    }

    pub fn type_(&self) -> (r: u32)
        ensures
            r == self@.type_,
    {
        self.type_
    }

    pub fn compiled(&self) -> (r: bool)
        ensures
            r == self@.compiled,
    {
        self.compiled
    }

    pub fn source(&self) -> (r: &String)
        ensures
            r@ == self@.source,
    {
        &self.source
    }

    pub fn spirv(&self) -> (r: &Vec<u8>)
        ensures
            r@ == self@.spirv,
    {
        &self.spirv
    }

    /// Replaces the shader's source.
    pub fn set_source(&mut self, source: String)
        ensures
            final(self)@ == (ShaderView { source: source@, ..old(self)@ }),
    {
        self.source = source;
    }

    /// Starts compiling the source to SPIR-V: for a shader type the
    /// compiler does not know, the shader is marked not compiled and there
    /// is nothing to do; otherwise the shader is left as it is and the
    /// compilation request is handed back (see `finish_compile`).
    pub fn compile_source(&mut self) -> (r: Option<SpirvRequest>)
        ensures
            spec_shader_kind(old(self)@.type_) is None ==> r is None && final(self)@ == (
            ShaderView { compiled: false, ..old(self)@ }),
            spec_shader_kind(old(self)@.type_) matches Some(k) ==> (r matches Some(req)
                && req.source@ == old(self)@.source && req.kind == k && final(self)@ == old(
            self)@),
    {
        match transpilation::glsl_to_spv(self.source.as_str(), self.type_) {
            Ok(req) => Some(req),
            Err(_) => {
                self.compiled = false;
                None
            },
        }
    }

    /// Records how a compilation ended: with SPIR-V, which the shader keeps
    /// and is then compiled, or with an error, after which it is not.
    pub fn finish_compile(&mut self, outcome: Option<Vec<u8>>) -> (r: bool)
        ensures
            r == outcome is Some,
            outcome matches Some(spv) ==> final(self)@ == (ShaderView {
                compiled: true,
                spirv: spv@,
                ..old(self)@
            }),
            outcome is None ==> final(self)@ == (ShaderView { compiled: false, ..old(self)@ }),
    {
        match outcome {
            Some(spv) => {
                self.spirv = spv;
                self.compiled = true;
                true
            },
            None => {
                self.compiled = false;
                false
            },
        }
    }

    /// Takes SPIR-V from the cache in place of a compilation.
    pub fn load_from_cache(&mut self, spv: &Vec<u8>)
        ensures
            final(self)@ == (ShaderView { compiled: true, spirv: spv@, ..old(self)@ }),
    {
        self.spirv = spv.clone();
        self.compiled = true;
    }
}

/// The shaders attached to one stage of a program, by GL id.
pub struct ShaderStage {
    pub shaders: Vec<u32>,
}


/// The six stages of a program, indexed by stage slot.
pub open spec fn stage_lists(stages: Seq<ShaderStage>) -> Seq<Seq<u32>> {
    Seq::new(stages.len(), |i: int| stages[i].shaders@)
}

/// A copy of `stages` in which `id` joins the end of stage `key`.
fn stages_with_push(stages: &Vec<ShaderStage>, key: usize, id: u32) -> (r: Vec<ShaderStage>)
    requires
        key < stages@.len(),
    ensures
        r@.len() == stages@.len(),
        stage_lists(r@) == stage_lists(stages@).update(
            key as int,
            stage_lists(stages@)[key as int].push(id),
        ),
{
    let mut r: Vec<ShaderStage> = Vec::new();
    let mut i: usize = 0;
    while i < stages.len()
        invariant
            i <= stages@.len(),
            key < stages@.len(),
            r@.len() == i,
            forall|j: int|
                0 <= j < i ==> #[trigger] r@[j].shaders@ == (if j == key {
                    stages@[j].shaders@.push(id)
                } else {
                    stages@[j].shaders@
                }),
        decreases stages@.len() - i,
    {
        let mut shaders = stages[i].shaders.clone();
        if i == key {
            shaders.push(id);
        }
        r.push(ShaderStage { shaders });
        i = i + 1;
    }
    assert(stage_lists(r@) =~= stage_lists(stages@).update(
        key as int,
        stage_lists(stages@)[key as int].push(id),
    ));
    r
}

/// What building the GLSL ES source of one stage gives, for the shaders
/// `ids` in attach order, the shader objects `shaders`, and the program's
/// bindings `m` and next binding `next`: the transpiled sources of the
/// shaders joined in order and the bindings afterwards, or the error of the
/// first shader that fails (`ShaderNotFound` for an id that `shaders` does
/// not hold).
pub open spec fn spec_stage_text(
    shaders: Map<u32, Shader>,
    ids: Seq<u32>,
    m: Map<Seq<char>, u32>,
    next: u32,
) -> Result<(Seq<char>, Map<Seq<char>, u32>, u32), FogleError>
    decreases ids.len(),
{
    if ids.len() == 0 {
        Ok((Seq::empty(), m, next))
    } else {
        match spec_stage_text(shaders, ids.drop_last(), m, next) {
            Err(e) => Err(e),
            Ok((text, m0, n0)) => {
                let id = ids.last();
                if !shaders.contains_key(id) {
                    Err(FogleError::ShaderNotFound(id))
                } else {
                    match spec_spv_to_essl(shaders[id]@.spirv, shaders[id]@.type_, m0, n0) {
                        Err(e) => Err(e),
                        Ok((s, m1, n1)) => Ok((text + s, m1, n1)),
                    }
                }
            },
        }
    }
}

proof fn lemma_stage_text_step(
    shaders: Map<u32, Shader>,
    ids: Seq<u32>,
    i: int,
    m: Map<Seq<char>, u32>,
    next: u32,
)
    requires
        0 <= i < ids.len(),
    ensures
        spec_stage_text(shaders, ids.take(i + 1), m, next) == (match spec_stage_text(
            shaders,
            ids.take(i),
            m,
            next,
        ) {
            Err(e) => Err(e),
            Ok((text, m0, n0)) => if !shaders.contains_key(ids[i]) {
                Err(FogleError::ShaderNotFound(ids[i]))
            } else {
                match spec_spv_to_essl(shaders[ids[i]]@.spirv, shaders[ids[i]]@.type_, m0, n0) {
                    Err(e) => Err(e),
                    Ok((s, m1, n1)) => Ok((text + s, m1, n1)),
                }
            },
        }),
{
    assert(ids.take(i + 1).drop_last() =~= ids.take(i));
}

/// Once a stage's build stops with an error, the whole stage stops with it.
proof fn lemma_stage_text_err(
    shaders: Map<u32, Shader>,
    ids: Seq<u32>,
    k: int,
    m: Map<Seq<char>, u32>,
    next: u32,
)
    requires
        0 <= k <= ids.len(),
        spec_stage_text(shaders, ids.take(k), m, next) is Err,
    ensures
        spec_stage_text(shaders, ids, m, next) == spec_stage_text(shaders, ids.take(k), m, next),
    decreases ids.len() - k,
{
    if k < ids.len() {
        lemma_stage_text_step(shaders, ids, k, m, next);
        lemma_stage_text_err(shaders, ids, k + 1, m, next);
    } else {
        assert(ids.take(k) =~= ids);
    }
}

/// A program object: its GL id, whether it linked, the transpile context
/// its stages share, and the shaders attached to each of its six stages.
pub struct Program {
    id: u32,
    linked: bool,
    transpile_context: TranspileContext,
    stages: Vec<ShaderStage>,
}

/// What a program object holds.
pub struct ProgramView {
    pub id: u32,
    pub linked: bool,
    pub stages: Seq<Seq<u32>>,
    pub bindings: Map<Seq<char>, u32>,
    pub next_binding: u32,
}

impl View for Program {
    type V = ProgramView;

    closed spec fn view(&self) -> ProgramView {
        ProgramView {
            id: self.id,
            linked: self.linked,
            stages: stage_lists(self.stages@),
            bindings: self.transpile_context.binding_view(),
            next_binding: self.transpile_context.next_binding,
        }
    }
}

impl Program {
    #[verifier::type_invariant]
    spec fn inv(&self) -> bool {
        &&& self.stages@.len() == 6
        &&& self.transpile_context.wf()
    }

    /// A fresh program object whose GL name is `id`: not linked, no
    /// bindings, no shaders in any stage.
    pub fn new(id: u32) -> (r: Self)
        ensures
            r@.id == id,
            !r@.linked,
            r@.stages == Seq::new(6, |i: int| Seq::<u32>::empty()),
            r@.bindings == Map::<Seq<char>, u32>::empty(),
            r@.next_binding == 0,
    {
        let mut stages: Vec<ShaderStage> = Vec::new();
        let mut i: usize = 0;
        while i < 6
            invariant
                i <= 6,
                stages@.len() == i,
                forall|j: int| 0 <= j < i ==> #[trigger] stages@[j].shaders@.len() == 0,
            decreases 6 - i,
        {
            stages.push(ShaderStage { shaders: Vec::new() });
            i = i + 1;
        }
        let r = Program { id, linked: false, transpile_context: TranspileContext::new(), stages };
        assert forall|j: int| 0 <= j < 6 implies #[trigger] stage_lists(r.stages@)[j] =~= Seq::<
            u32,
        >::empty() by {
            assert(r.stages@[j].shaders@.len() == 0);
        }
        assert(r@.stages =~= Seq::new(6, |i: int| Seq::<u32>::empty()));
        r
    }

    pub fn id(&self) -> (r: u32)
        ensures
            r == self@.id,
    {
        self.id
    }

    /// The number of stages, which is always six.
    pub fn stage_count(&self) -> (r: usize)
        ensures
            r == 6,
            self@.stages.len() == 6,
    {
        proof {
            use_type_invariant(self);
        }
        self.stages.len()
    }

    /// The shaders attached to stage `index`.
    pub fn stage_shaders(&self, index: usize) -> (r: &Vec<u32>)
        requires
            index < 6,
        ensures
            r@ == self@.stages[index as int],
    {
        proof {
            use_type_invariant(self);
        }
        &self.stages[index].shaders
    }

    pub fn linked(&self) -> (r: bool)
        ensures
            r == self@.linked,
    {
        self.linked
    }

    /// Attaches `shader` to the stage of its type: refused for a shader
    /// whose type is no shader stage, else its id joins the end of that
    /// stage's list.
    pub fn attach(&mut self, shader: &Shader) -> (r: Result<(), FogleError>)
        ensures
            spec_stage_key(shader@.type_) is None ==> r == Err::<(), FogleError>(
                FogleError::UnsupportedShaderStage(shader@.type_),
            ) && final(self)@ == old(self)@,
            spec_stage_key(shader@.type_) matches Some(k) ==> r is Ok && final(self)@ == (
            ProgramView {
                stages: old(self)@.stages.update(k as int, old(self)@.stages[k as int].push(
                    shader@.id,
                )),
                ..old(self)@
            }),
    {
        proof {
            use_type_invariant(&*self);
        }
        let key = shader.type_.as_stage_key()?;
        if key >= self.stages.len() {
            return Err(FogleError::StageOutOfBounds(key));
        }
        let stages = stages_with_push(&self.stages, key, shader.id);
        self.stages = stages;
        Ok(())
    }

    /// Records the driver's link status of the program.
    pub fn link(&mut self, link_status: i32)
        requires
            spec_from_gl_bool(link_status as u8) is Some,
        ensures
            final(self)@ == (ProgramView {
                linked: spec_from_gl_bool(link_status as u8)->0,
                ..old(self)@
            }),
    {
        proof {
            use_type_invariant(&*self);
        }
        let linked = link_status as u8 == gl::TRUE;
        self.linked = linked;
    }

    /// Restores the program from a cache entry: its transpile context
    /// becomes the entry's, and its link status is what the driver reports
    /// after loading the entry's binary.
    pub fn restore_and_link_from_entry(&mut self, entry: &ProgramCacheEntry, link_status: i32)
        requires
            entry.transpile_context.wf(),
            spec_from_gl_bool(link_status as u8) is Some,
        ensures
            final(self)@ == (ProgramView {
                linked: spec_from_gl_bool(link_status as u8)->0,
                bindings: entry.transpile_context.binding_view(),
                next_binding: entry.transpile_context.next_binding,
                ..old(self)@
            }),
    {
        proof {
            use_type_invariant(&*self);
        }
        self.transpile_context = entry.transpile_context.duplicate();
        self.linked = link_status as u8 == gl::TRUE;
    }

    /// The GLSL ES source of stage `index`: `None` for a stage with no
    /// shaders, else the stage's shader-type enum and the transpiled sources
    /// of its shaders, in attach order, joined, with the bindings that the
    /// transpilations leave (see `spec_stage_text`); the first shader that
    /// fails, or whose id `shaders` does not hold (`ShaderNotFound`), stops
    /// the stage with its error.  Whatever the outcome, the bindings of the
    /// program change only by bindings handed out to block names one after
    /// the other.
    pub fn stage_essl(&mut self, index: usize, shaders: &HashMap<u32, Shader>) -> (r: Result<
        Option<(u32, String)>,
        FogleError,
    >)
        requires
            index < 6,
            forall|j: int|
                0 <= j < old(self)@.stages[index as int].len() ==> shaders@.contains_key(
                    #[trigger] old(self)@.stages[index as int][j],
                ) ==> shaders@[old(self)@.stages[index as int][j]]@.spirv.len() > 0
                    && shaders@[old(self)@.stages[index as int][j]]@.spirv.len() % 4 == 0,
        ensures
            final(self)@.id == old(self)@.id,
            final(self)@.linked == old(self)@.linked,
            final(self)@.stages == old(self)@.stages,
            bindings_extend(
                old(self)@.bindings,
                old(self)@.next_binding,
                final(self)@.bindings,
                final(self)@.next_binding,
            ),
            assigned_in_sequence(
                old(self)@.bindings,
                old(self)@.next_binding,
                final(self)@.bindings,
                final(self)@.next_binding,
            ),
            old(self)@.stages[index as int].len() == 0 ==> r == Ok::<
                Option<(u32, String)>,
                FogleError,
            >(None) && final(self)@ == old(self)@,
            old(self)@.stages[index as int].len() > 0 ==> match spec_stage_text(
                shaders@,
                old(self)@.stages[index as int],
                old(self)@.bindings,
                old(self)@.next_binding,
            ) {
                Ok((text, m1, n1)) => r matches Ok(Some((e, merged))) && e == spec_stage_enum(
                    index,
                )->0 && merged@ == text && final(self)@.bindings == m1 && final(self)@.next_binding
                    == n1,
                Err(x) => r == Err::<Option<(u32, String)>, FogleError>(x),
            },
    {
        proof {
            use_type_invariant(&*self);
            lemma_bindings_extend_refl_trans(
                self@.bindings,
                self@.next_binding,
                self@.bindings,
                self@.next_binding,
                self@.bindings,
                self@.next_binding,
            );
            lemma_assigned_in_sequence_refl_trans(
                self@.bindings,
                self@.next_binding,
                self@.bindings,
                self@.next_binding,
                self@.bindings,
                self@.next_binding,
            );
        }
        if self.stages[index].shaders.len() == 0 {
            return Ok(None);
        }
        let ids = self.stages[index].shaders.clone();
        let mut ctx = TranspileContext::new();
        std::mem::swap(&mut self.transpile_context, &mut ctx);
        let ghost start = ctx;
        assert(ids@ == old(self)@.stages[index as int]);
        assert forall|j: int|
            0 <= j < ids@.len() && shaders@.contains_key(#[trigger] ids@[j]) implies shaders@[ids@[
                j]]@.spirv.len() > 0 && shaders@[ids@[j]]@.spirv.len() % 4 == 0 by {
            assert(ids@[j] == old(self)@.stages[index as int][j]);
        }
        let mut merged = String::new();
        let mut i: usize = 0;
        assert(ids@.take(0) =~= Seq::<u32>::empty());
        assert(merged@ =~= Seq::<char>::empty());
        while i < ids.len()
            invariant
                i <= ids@.len(),
                index < 6,
                self.stages@.len() == 6,
                self.stages@ == old(self).stages@,
                self.id == old(self).id,
                self.linked == old(self).linked,
                old(self)@.stages.len() == 6,
                ids@ == old(self)@.stages[index as int],
                ctx.wf(),
                start.wf(),
                start.binding_view() == old(self)@.bindings,
                start.next_binding == old(self)@.next_binding,
                bindings_extend(
                    start.binding_view(),
                    start.next_binding,
                    ctx.binding_view(),
                    ctx.next_binding,
                ),
                assigned_in_sequence(
                    start.binding_view(),
                    start.next_binding,
                    ctx.binding_view(),
                    ctx.next_binding,
                ),
                spec_stage_text(shaders@, ids@.take(i as int), start.binding_view(), start.next_binding)
                    == Ok::<(Seq<char>, Map<Seq<char>, u32>, u32), FogleError>(
                    (merged@, ctx.binding_view(), ctx.next_binding),
                ),
                forall|j: int|
                    0 <= j < ids@.len() ==> shaders@.contains_key(#[trigger] ids@[j])
                        ==> shaders@[ids@[j]]@.spirv.len() > 0 && shaders@[ids@[j]]@.spirv.len()
                        % 4 == 0,
            decreases ids@.len() - i,
        {
            let id = ids[i];
            proof {
                lemma_stage_text_step(shaders@, ids@, i as int, start.binding_view(), start.next_binding);
            }
            let shader = match shaders.get(&id) {
                Some(shader) => shader,
                None => {
                    proof {
                        lemma_stage_text_err(shaders@, ids@, i + 1, start.binding_view(), start.next_binding);
                    }
                    std::mem::swap(&mut self.transpile_context, &mut ctx);
                    return Err(FogleError::ShaderNotFound(id));
                },
            };
            let ghost before = ctx;
            let essl = match spv_to_essl(&shader.spirv, shader.type_, &mut ctx) {
                Ok(essl) => essl,
                Err(e) => {
                    proof {
                        lemma_bindings_extend_refl_trans(
                            start.binding_view(),
                            start.next_binding,
                            before.binding_view(),
                            before.next_binding,
                            ctx.binding_view(),
                            ctx.next_binding,
                        );
                        lemma_assigned_in_sequence_refl_trans(
                            start.binding_view(),
                            start.next_binding,
                            before.binding_view(),
                            before.next_binding,
                            ctx.binding_view(),
                            ctx.next_binding,
                        );
                    }
                    proof {
                        lemma_stage_text_err(shaders@, ids@, i + 1, start.binding_view(), start.next_binding);
                    }
                    std::mem::swap(&mut self.transpile_context, &mut ctx);
                    return Err(e);
                },
            };
            proof {
                lemma_bindings_extend_refl_trans(
                    start.binding_view(),
                    start.next_binding,
                    before.binding_view(),
                    before.next_binding,
                    ctx.binding_view(),
                    ctx.next_binding,
                );
                lemma_assigned_in_sequence_refl_trans(
                    start.binding_view(),
                    start.next_binding,
                    before.binding_view(),
                    before.next_binding,
                    ctx.binding_view(),
                    ctx.next_binding,
                );
            }
            merged.append(essl.as_str());
            i = i + 1;
        }
        assert(ids@.take(ids@.len() as int) =~= ids@);
        std::mem::swap(&mut self.transpile_context, &mut ctx);
        match index.from_stage_key() {
            Some(stage_type) => Ok(Some((stage_type, merged))),
            None => Err(FogleError::StageOutOfBounds(index)),
        }
    }

    /// Hands over the program's transpile context and leaves it an empty one.
    pub fn take_transpile_context(&mut self) -> (r: TranspileContext)
        ensures
            r.wf(),
            r.binding_view() == old(self)@.bindings,
            r.next_binding == old(self)@.next_binding,
            final(self)@ == (ProgramView {
                bindings: Map::empty(),
                next_binding: 0,
                ..old(self)@
            }),
    {
        proof {
            use_type_invariant(&*self);
        }
        let mut taken = TranspileContext::new();
        std::mem::swap(&mut self.transpile_context, &mut taken);
        taken
    }
}

/// The shader and program objects of a context, by GL id.
pub struct PipelineState {
    pub shaders: HashMap<u32, Shader>,
    pub programs: HashMap<u32, Program>,
}

impl PipelineState {
    /// No shader and no program objects.
    pub fn new() -> (r: Self)
        ensures
            r.shaders@ == Map::<u32, Shader>::empty(),
            r.programs@ == Map::<u32, Program>::empty(),
    {
        PipelineState { shaders: HashMap::new(), programs: HashMap::new() }
    }

    /// Adds a fresh shader object of type `type_` under the GL name `id`
    /// (replacing one of that name) and returns the name.
    pub fn new_shader(&mut self, type_: u32, id: u32) -> (r: u32)
        ensures
            r == id,
            final(self).shaders@.dom() == old(self).shaders@.dom().insert(id),
            final(self).shaders@[id]@ == (ShaderView {
                id,
                type_,
                compiled: false,
                source: Seq::empty(),
                spirv: Seq::empty(),
            }),
            forall|k: u32| k != id ==> #[trigger] final(self).shaders@.get(k) == old(self).shaders@.get(k),
            final(self).programs@ == old(self).programs@,
    {
        let shader = Shader::new(type_, id);
        let shader_id = shader.id();
        assert(shader@.source =~= Seq::<char>::empty());
        assert(shader@.spirv =~= Seq::<u8>::empty());
        self.shaders.insert(shader_id, shader);
        shader_id
    }

    /// Adds a fresh program object under the GL name `id` (replacing one of
    /// that name) and returns the name.
    pub fn new_program(&mut self, id: u32) -> (r: u32)
        ensures
            r == id,
            final(self).programs@.dom() == old(self).programs@.dom().insert(id),
            final(self).programs@[id]@ == (ProgramView {
                id,
                linked: false,
                stages: Seq::new(6, |i: int| Seq::<u32>::empty()),
                bindings: Map::empty(),
                next_binding: 0,
            }),
            forall|k: u32| k != id ==> #[trigger] final(self).programs@.get(k) == old(self).programs@.get(k),
            final(self).shaders@ == old(self).shaders@,
    {
        let program = Program::new(id);
        let program_id = program.id();
        self.programs.insert(program_id, program);
        program_id
    }
}

} // verus!
