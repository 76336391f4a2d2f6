use vstd::prelude::*;

pub mod preprocess;
pub mod spirv;

use crate::error::FogleError;
use crate::traits::shaderc::{spec_shader_kind, ShaderKind, ToShaderType};
use self::preprocess::{process_spv_bytecode, spec_process};
use self::spirv::{spirv_cross_essl, spirv_cross_parses, EsslModule, EsslOptions, EsslVersion};

verus! {

/// The options of the GLSL-to-SPIR-V compilation: debug information, GLSL
/// input, an OpenGL 4.5 target environment, optimisation for performance,
/// and automatic locations and uniform bindings.
pub struct GlslCompileOptions {
    pub generate_debug_info: bool,
    pub target_opengl_4_5: bool,
    pub optimize_for_performance: bool,
    pub auto_map_locations: bool,
    pub auto_bind_uniforms: bool,
}

/// What a GLSL-to-SPIR-V compilation is asked to do: compile `source` as a
/// shader of kind `kind`, under the file name `shader` with entry point
/// `main`, with `options`.
pub struct SpirvRequest {
    pub source: String,
    pub kind: ShaderKind,
    pub options: GlslCompileOptions,
}

/// The options that every GLSL-to-SPIR-V compilation uses.
pub fn glsl_compile_options() -> (r: GlslCompileOptions)
    ensures
        r.generate_debug_info && r.target_opengl_4_5 && r.optimize_for_performance
            && r.auto_map_locations && r.auto_bind_uniforms,
{
    GlslCompileOptions {
        generate_debug_info: true,
        target_opengl_4_5: true,
        optimize_for_performance: true,
        auto_map_locations: true,
        auto_bind_uniforms: true,
    }
}

/// The GLSL-to-SPIR-V compilation of `source` as a shader of type
/// `shader_type`: refused for a type the compiler does not know, else the
/// request that the compiler is to carry out.
pub fn glsl_to_spv(source: &str, shader_type: u32) -> (r: Result<SpirvRequest, FogleError>)
    ensures
        spec_shader_kind(shader_type) is None ==> r == Err::<SpirvRequest, FogleError>(
            FogleError::UnsupportedShaderType(shader_type),
        ),
        spec_shader_kind(shader_type) matches Some(k) ==> (r matches Ok(req) && req.source@
            == source@ && req.kind == k && req.options.generate_debug_info
            && req.options.target_opengl_4_5 && req.options.optimize_for_performance
            && req.options.auto_map_locations && req.options.auto_bind_uniforms),
{
    let kind = shader_type.to_shader_type()?;
    Ok(SpirvRequest { source: source.to_owned(), kind, options: glsl_compile_options() })
}

/// The GLSL ES output options: GLSL 3.20 ES, no Vulkan semantics, no
/// 420pack extension, flattened I/O blocks, no storage-image qualifier
/// deduction.
pub open spec fn spec_essl_options() -> EsslOptions {
    EsslOptions {
        version: EsslVersion::Glsl320Es,
        vulkan_semantics: false,
        enable_420pack_extension: false,
        force_flattened_io_blocks: true,
        enable_storage_image_qualifier_deduction: false,
    }
}

/// The GLSL ES output options (see `spec_essl_options`).
pub fn essl_options() -> (r: EsslOptions)
    ensures
        r == spec_essl_options(),
{
    EsslOptions {
        version: EsslVersion::Glsl320Es,
        vulkan_semantics: false,
        enable_420pack_extension: false,
        force_flattened_io_blocks: true,
        enable_storage_image_qualifier_deduction: false,
    }
}

/// The 32-bit words of a SPIR-V module given as bytes, each read
/// little-endian from four bytes (the lowest byte first).
pub open spec fn le_words(b: Seq<u8>) -> Seq<u32> {
    Seq::new(
        b.len() / 4,
        |i: int|
            (b[4 * i] + b[4 * i + 1] * 256 + b[4 * i + 2] * 65536 + b[4 * i + 3] * 16777216) as u32,
    )
}

/// Copies the bytes of a SPIR-V module into its 32-bit words, reading each
/// word little-endian (see `le_words`).
fn spirv_words(spv: &Vec<u8>) -> (r: Vec<u32>)
    requires
        spv@.len() % 4 == 0,
    ensures
        r@ == le_words(spv@),
{
    let mut r: Vec<u32> = Vec::new();
    let mut j: usize = 0;
    while j < spv.len()
        invariant
            j <= spv@.len(),
            j % 4 == 0,
            spv@.len() % 4 == 0,
            r@.len() == j / 4,
            forall|k: int| 0 <= k < r@.len() ==> #[trigger] r@[k] == le_words(spv@)[k],
        decreases spv@.len() - j,
    {
        let w: u32 = spv[j] as u32 + (spv[j + 1] as u32) * 256 + (spv[j + 2] as u32) * 65536 + (spv[j
            + 3] as u32) * 16777216;
        assert(w == le_words(spv@)[(j / 4) as int]);
        r.push(w);
        j = j + 4;
    }
    assert(r@ =~= le_words(spv@));
    r
}

/// What turning a SPIR-V module back into GLSL ES gives, for a shader of type
/// `shader_type` whose program has the bindings `m` and next binding `next`:
/// the source and the bindings afterwards, or the error.  SPIRV-Cross reads
/// the module, preprocessing edits its decorations (see `spec_process`), and
/// SPIRV-Cross writes GLSL ES with `spec_essl_options`.
pub open spec fn spec_spv_to_essl(
    spv: Seq<u8>,
    shader_type: u32,
    m: Map<Seq<char>, u32>,
    next: u32,
) -> Result<(Seq<char>, Map<Seq<char>, u32>, u32), FogleError> {
    let words = le_words(spv);
    if !spirv_cross_parses(words) {
        Err(FogleError::SpirvCross)
    } else {
        match spec_process(words, shader_type, m, next) {
            Err(e) => Err(e),
            Ok((edits, m1, n1)) => match spirv_cross_essl(words, edits, spec_essl_options()) {
                Some(s) => Ok((s, m1, n1)),
                None => Err(FogleError::SpirvCross),
            },
        }
    }
}

/// Turns a SPIR-V module back into GLSL ES source for a GLES driver (see
/// `spec_spv_to_essl`); uniform buffers take their bindings from `ctx`,
/// whose bindings change only by bindings handed out to block names one
/// after the other, whatever the outcome.
pub fn spv_to_essl(spv: &Vec<u8>, shader_type: u32, ctx: &mut TranspileContext) -> (r: Result<
    String,
    FogleError,
>)
    requires
        spv@.len() > 0,
        spv@.len() % 4 == 0,
        old(ctx).wf(),
    ensures
        final(ctx).wf(),
        bindings_extend(
            old(ctx).binding_view(),
            old(ctx).next_binding,
            final(ctx).binding_view(),
            final(ctx).next_binding,
        ),
        assigned_in_sequence(
            old(ctx).binding_view(),
            old(ctx).next_binding,
            final(ctx).binding_view(),
            final(ctx).next_binding,
        ),
        match spec_spv_to_essl(spv@, shader_type, old(ctx).binding_view(), old(ctx).next_binding) {
            Ok((s, m1, n1)) => r matches Ok(t) && t@ == s && final(ctx).binding_view() == m1
                && final(ctx).next_binding == n1,
            Err(e) => r == Err::<String, FogleError>(e),
        },
{
    proof {
        lemma_bindings_extend_refl_trans(
            ctx.binding_view(),
            ctx.next_binding,
            ctx.binding_view(),
            ctx.next_binding,
            ctx.binding_view(),
            ctx.next_binding,
        );
        lemma_assigned_in_sequence_refl_trans(
            ctx.binding_view(),
            ctx.next_binding,
            ctx.binding_view(),
            ctx.next_binding,
            ctx.binding_view(),
            ctx.next_binding,
        );
    }
    let words = spirv_words(spv);
    let module = EsslModule::new(&words)?;
    assert(module.edits() + Seq::<spirv::DecorationEdit>::empty() =~= module.edits());
    let module = process_spv_bytecode(module, shader_type, ctx)?;
    proof {
        let edits = spec_process(le_words(spv@), shader_type, old(ctx).binding_view(), old(
            ctx,
        ).next_binding)->Ok_0.0;
        assert(module.edits() =~= edits);
    }
    module.compile(&essl_options())
}

/// What a shader program remembers across its transpiled stages: the
/// uniform-buffer bindings handed out so far, by block name, and the next
/// binding to hand out.
#[derive(Clone)]
pub struct TranspileContext {
    pub bindings: Vec<(String, u32)>,
    pub next_binding: u32,
}

/// No block name occurs twice among the recorded bindings.
pub open spec fn names_distinct(b: Seq<(String, u32)>) -> bool {
    forall|i: int, j: int| 0 <= i < j < b.len() ==> #[trigger] b[i].0@ != #[trigger] b[j].0@
}

/// Whether some recorded binding carries the block name `name`.
pub open spec fn has_name(b: Seq<(String, u32)>, name: Seq<char>) -> bool {
    exists|i: int| 0 <= i < b.len() && #[trigger] b[i].0@ == name
}

/// The recorded bindings as a map from block name to binding.
pub open spec fn bindings_map(b: Seq<(String, u32)>) -> Map<Seq<char>, u32> {
    Map::new(
        |name: Seq<char>| has_name(b, name),
        |name: Seq<char>| b[choose|i: int| 0 <= i < b.len() && #[trigger] b[i].0@ == name].1,
    )
}

/// Every recorded binding lies below `next` and no two names share one:
/// what holds of a context whose bindings were all handed out here.
pub open spec fn bindings_fresh(m: Map<Seq<char>, u32>, next: u32) -> bool {
    &&& forall|n: Seq<char>| #[trigger] m.contains_key(n) ==> m[n] < next
    &&& forall|n1: Seq<char>, n2: Seq<char>|
        #[trigger] m.contains_key(n1) && #[trigger] m.contains_key(n2) && n1 != n2 ==> m[n1]
            != m[n2]
}

/// What handing out a binding for the block `name` gives: the binding,
/// and the bindings and next binding afterwards.
pub open spec fn spec_assign(m: Map<Seq<char>, u32>, next: u32, name: Seq<char>) -> (
    u32,
    Map<Seq<char>, u32>,
    u32,
) {
    if m.contains_key(name) {
        (m[name], m, next)
    } else {
        (next, m.insert(name, next), (next + 1) as u32)
    }
}

/// A block keeps the binding it was first given: handing out a binding for
/// the same name again gives the same binding and changes nothing.
pub proof fn lemma_assign_idempotent(m: Map<Seq<char>, u32>, next: u32, name: Seq<char>)
    requires
        m.contains_key(name) || next < u32::MAX,
    ensures
        ({
            let (b, m1, n1) = spec_assign(m, next, name);
            spec_assign(m1, n1, name) == (b, m1, n1)
        }),
{
}

/// The bindings and next binding after handing out bindings for `names`,
/// one after the other, starting from `m` and `next`.
pub open spec fn assign_all(m: Map<Seq<char>, u32>, next: u32, names: Seq<Seq<char>>) -> (
    Map<Seq<char>, u32>,
    u32,
)
    decreases names.len(),
{
    if names.len() == 0 {
        (m, next)
    } else {
        let (m0, n0) = assign_all(m, next, names.drop_last());
        let (_, m1, n1) = spec_assign(m0, n0, names.last());
        (m1, n1)
    }
}

/// The bindings went from `(old_m, old_next)` to `(new_m, new_next)` only by
/// handing out bindings for some block names, one after the other.
pub open spec fn assigned_in_sequence(
    old_m: Map<Seq<char>, u32>,
    old_next: u32,
    new_m: Map<Seq<char>, u32>,
    new_next: u32,
) -> bool {
    exists|names: Seq<Seq<char>>| #[trigger] assign_all(old_m, old_next, names) == (new_m, new_next)
}

/// The names among `names` that `m` does not bind yet, each once.
pub open spec fn new_names(m: Map<Seq<char>, u32>, names: Seq<Seq<char>>) -> Set<Seq<char>> {
    Set::new(|n: Seq<char>| names.contains(n) && !m.contains_key(n))
}

/// Whether the last of `names` is new to `m` decides how the new names grow
/// with it.
pub proof fn lemma_new_names_step(m: Map<Seq<char>, u32>, names: Seq<Seq<char>>)
    requires
        names.len() > 0,
    ensures
        forall|n: Seq<char>|
            #[trigger] names.contains(n) == (names.drop_last().contains(n) || n == names.last()),
        (m.contains_key(names.last()) || names.drop_last().contains(names.last())) ==> new_names(
            m,
            names,
        ) == new_names(m, names.drop_last()),
        !(m.contains_key(names.last()) || names.drop_last().contains(names.last())) ==> new_names(
            m,
            names,
        ) == new_names(m, names.drop_last()).insert(names.last()) && !new_names(
            m,
            names.drop_last(),
        ).contains(names.last()),
{
    let dl = names.drop_last();
    let x = names.last();
    assert forall|n: Seq<char>| #[trigger] names.contains(n) == (dl.contains(n) || n == x) by {
        if names.contains(n) {
            let i = choose|i: int| 0 <= i < names.len() && names[i] == n;
            if i < names.len() - 1 {
                assert(dl[i] == n);
            }
        }
        if dl.contains(n) {
            let i = choose|i: int| 0 <= i < dl.len() && dl[i] == n;
            assert(names[i] == n);
        }
        if n == x {
            assert(names[names.len() - 1] == n);
        }
    }
    if m.contains_key(x) || dl.contains(x) {
        assert(new_names(m, names) =~= new_names(m, dl));
    } else {
        assert(new_names(m, names) =~= new_names(m, dl).insert(x));
    }
}

/// Handing out bindings for `names` binds exactly the names bound before and
/// the names of `names`, and raises the next binding by the number of names
/// of `names` that were not bound yet, each counted once (as long as the
/// next binding does not run past `u32::MAX`).
pub proof fn lemma_assign_all_count(m: Map<Seq<char>, u32>, next: u32, names: Seq<Seq<char>>)
    ensures
        new_names(m, names).finite(),
        forall|n: Seq<char>|
            #[trigger] assign_all(m, next, names).0.contains_key(n) == (m.contains_key(n)
                || names.contains(n)),
        next + new_names(m, names).len() <= u32::MAX ==> assign_all(m, next, names).1 == next
            + new_names(m, names).len(),
    decreases names.len(),
{
    if names.len() == 0 {
        assert(new_names(m, names) =~= Set::<Seq<char>>::empty());
    } else {
        let dl = names.drop_last();
        let x = names.last();
        lemma_assign_all_count(m, next, dl);
        lemma_new_names_step(m, names);
        let (m0, n0) = assign_all(m, next, dl);
        assert(m0.contains_key(x) == (m.contains_key(x) || dl.contains(x)));
        if !(m.contains_key(x) || dl.contains(x)) {
            assert(new_names(m, names).len() == new_names(m, dl).len() + 1);
        }
    }
}

/// Handing out bindings for `a` and then for `b` is handing them out for
/// `a + b`.
pub proof fn lemma_assign_all_append(
    m: Map<Seq<char>, u32>,
    next: u32,
    a: Seq<Seq<char>>,
    b: Seq<Seq<char>>,
)
    ensures
        ({
            let (m1, n1) = assign_all(m, next, a);
            assign_all(m1, n1, b) == assign_all(m, next, a + b)
        }),
    decreases b.len(),
{
    if b.len() == 0 {
        assert(a + b =~= a);
    } else {
        lemma_assign_all_append(m, next, a, b.drop_last());
        assert((a + b).drop_last() =~= a + b.drop_last());
        assert((a + b).last() == b.last());
    }
}

/// Handing out bindings in sequence is reflexive and transitive.
pub proof fn lemma_assigned_in_sequence_refl_trans(
    m1: Map<Seq<char>, u32>,
    n1: u32,
    m2: Map<Seq<char>, u32>,
    n2: u32,
    m3: Map<Seq<char>, u32>,
    n3: u32,
)
    ensures
        assigned_in_sequence(m1, n1, m1, n1),
        assigned_in_sequence(m1, n1, m2, n2) && assigned_in_sequence(m2, n2, m3, n3)
            ==> assigned_in_sequence(m1, n1, m3, n3),
{
    assert(assign_all(m1, n1, Seq::<Seq<char>>::empty()) == (m1, n1));
    if assigned_in_sequence(m1, n1, m2, n2) && assigned_in_sequence(m2, n2, m3, n3) {
        let a = choose|a: Seq<Seq<char>>| #[trigger] assign_all(m1, n1, a) == (m2, n2);
        let b = choose|b: Seq<Seq<char>>| #[trigger] assign_all(m2, n2, b) == (m3, n3);
        lemma_assign_all_append(m1, n1, a, b);
        assert(assign_all(m1, n1, a + b) == (m3, n3));
    }
}

/// Handing out a binding for one more name extends a sequence by it.
pub proof fn lemma_assign_all_push(
    m: Map<Seq<char>, u32>,
    next: u32,
    names: Seq<Seq<char>>,
    name: Seq<char>,
)
    ensures
        ({
            let (m0, n0) = assign_all(m, next, names);
            let (_, m1, n1) = spec_assign(m0, n0, name);
            assign_all(m, next, names.push(name)) == (m1, n1)
        }),
{
    assert(names.push(name).drop_last() =~= names);
}

impl TranspileContext {
    /// The bindings as a map from block name to binding.
    pub open spec fn binding_view(&self) -> Map<Seq<char>, u32> {
        bindings_map(self.bindings@)
    }

    /// The context's well-formedness: block names are unique.
    pub open spec fn wf(&self) -> bool {
        names_distinct(self.bindings@)
    }

    /// A context with no bindings, whose next binding is 0.
    pub fn new() -> (r: Self)
        ensures
            r.bindings@.len() == 0,
            r.next_binding == 0,
            r.wf(),
            r.binding_view() == Map::<Seq<char>, u32>::empty(),
    {
        let r = TranspileContext { bindings: Vec::new(), next_binding: 0 };
        assert(r.binding_view() =~= Map::<Seq<char>, u32>::empty());
        r
    }

    /// The binding recorded for `name`, if any.
    pub fn lookup_binding(&self, name: &String) -> (r: Option<u32>)
        requires
            self.wf(),
        ensures
            r == (if self.binding_view().contains_key(name@) {
                Some(self.binding_view()[name@])
            } else {
                None
            }),
    {
        let mut i: usize = 0;
        while i < self.bindings.len()
            invariant
                i <= self.bindings@.len(),
                self.wf(),
                forall|j: int| 0 <= j < i ==> #[trigger] self.bindings@[j].0@ != name@,
            decreases self.bindings@.len() - i,
        {
            if self.bindings[i].0 == *name {
                proof {
                    assert(has_name(self.bindings@, name@));
                    let k = choose|k: int|
                        0 <= k < self.bindings@.len() && #[trigger] self.bindings@[k].0@ == name@;
                    if k != i {
                        assert(self.bindings@[k].0@ == self.bindings@[i as int].0@);
                    }
                }
                return Some(self.bindings[i].1);
            }
            i = i + 1;
        }
        None
    }

    /// The uniform-buffer binding for the block `name`: the one recorded for
    /// it, or else the next binding, which is then recorded for it.
    #[verifier::spinoff_prover]
    pub fn assign_binding(&mut self, name: String) -> (r: u32)
        requires
            old(self).wf(),
            old(self).binding_view().contains_key(name@) || old(self).next_binding < u32::MAX,
        ensures
            final(self).wf(),
            (r, final(self).binding_view(), final(self).next_binding) == spec_assign(
                old(self).binding_view(),
                old(self).next_binding,
                name@,
            ),
            old(self).binding_view().contains_key(name@) ==> {
                &&& r == old(self).binding_view()[name@]
                &&& final(self).binding_view() == old(self).binding_view()
                &&& final(self).next_binding == old(self).next_binding
            },
            !old(self).binding_view().contains_key(name@) ==> {
                &&& r == old(self).next_binding
                &&& final(self).binding_view() == old(self).binding_view().insert(name@, r)
                &&& final(self).next_binding == old(self).next_binding + 1
            },
    {
        match self.lookup_binding(&name) {
            Some(existing) => existing,
            None => {
                let new_binding = self.next_binding;
                self.next_binding = self.next_binding + 1;
                let ghost old_b = self.bindings@;
                let ghost n = name@;
                self.bindings.push((name, new_binding));
                proof {
                    let b = self.bindings@;
                    assert(b.len() == old_b.len() + 1);
                    assert(b[old_b.len() as int].0@ == n);
                    assert forall|i: int, j: int| 0 <= i < j < b.len() implies #[trigger] b[i].0@
                        != #[trigger] b[j].0@ by {
                        if j == old_b.len() {
                            assert(!has_name(old_b, n));
                            assert(b[i] == old_b[i]);
                        } else {
                            assert(b[i] == old_b[i] && b[j] == old_b[j]);
                        }
                    }
                    assert forall|m: Seq<char>| #[trigger] bindings_map(b).contains_key(m)
                        == bindings_map(old_b).insert(n, new_binding).contains_key(m) by {
                        if has_name(old_b, m) {
                            let k = choose|k: int|
                                0 <= k < old_b.len() && #[trigger] old_b[k].0@ == m;
                            assert(b[k] == old_b[k]);
                        }
                        if has_name(b, m) && m != n {
                            let k = choose|k: int| 0 <= k < b.len() && #[trigger] b[k].0@ == m;
                            assert(k < old_b.len());
                            assert(old_b[k] == b[k]);
                        }
                    }
                    assert forall|m: Seq<char>| #[trigger] bindings_map(b).contains_key(m)
                        implies bindings_map(b)[m] == bindings_map(old_b).insert(
                        n,
                        new_binding,
                    )[m] by {
                        let k = choose|k: int| 0 <= k < b.len() && #[trigger] b[k].0@ == m;
                        if m == n {
                            if k < old_b.len() {
                                assert(old_b[k] == b[k]);
                                assert(has_name(old_b, n));
                            }
                        } else {
                            assert(k < old_b.len());
                            assert(old_b[k] == b[k]);
                            let k2 = choose|k2: int|
                                0 <= k2 < old_b.len() && #[trigger] old_b[k2].0@ == m;
                            if k2 != k {
                                assert(b[k2] == old_b[k2]);
                            }
                        }
                    }
                    assert(bindings_map(b) =~= bindings_map(old_b).insert(n, new_binding));
                }
                new_binding
            },
        }
    }

    /// Whether `other` holds the same bindings, in the same order, and the
    /// same next binding.
    pub open spec fn same_as(&self, other: &Self) -> bool {
        &&& self.bindings@.len() == other.bindings@.len()
        &&& forall|i: int|
            0 <= i < self.bindings@.len() ==> #[trigger] self.bindings@[i].0@
                == other.bindings@[i].0@ && self.bindings@[i].1 == other.bindings@[i].1
        &&& self.next_binding == other.next_binding
    }

    /// A copy of the context.
    #[verifier::spinoff_prover]
    pub fn duplicate(&self) -> (r: Self)
        ensures
            r.same_as(self),
            self.wf() ==> r.wf(),
            self.wf() ==> r.binding_view() == self.binding_view(),
    {
        let mut bindings: Vec<(String, u32)> = Vec::new();
        let mut i: usize = 0;
        while i < self.bindings.len()
            invariant
                i <= self.bindings@.len(),
                bindings@.len() == i,
                forall|j: int|
                    0 <= j < i ==> #[trigger] bindings@[j].0@ == self.bindings@[j].0@
                        && bindings@[j].1 == self.bindings@[j].1,
            decreases self.bindings@.len() - i,
        {
            let name = self.bindings[i].0.clone();
            bindings.push((name, self.bindings[i].1));
            i = i + 1;
        }
        let r = TranspileContext { bindings, next_binding: self.next_binding };
        proof {
            if self.wf() {
                lemma_same_bindings_same_view(self, &r);
            }
        }
        r
    }

    /// Hands the context over and leaves an empty one in its place.
    pub fn take(&mut self) -> (r: Self)
        ensures
            r == *old(self),
            final(self).bindings@.len() == 0,
            final(self).next_binding == 0,
    {
        let mut taken = TranspileContext::new();
        std::mem::swap(self, &mut taken);
        taken
    }
}

proof fn lemma_same_bindings_same_view(a: &TranspileContext, b: &TranspileContext)
    requires
        b.same_as(a),
        a.wf(),
    ensures
        b.wf(),
        b.binding_view() == a.binding_view(),
{
    let ab = a.bindings@;
    let bb = b.bindings@;
    assert forall|i: int, j: int| 0 <= i < j < bb.len() implies #[trigger] bb[i].0@
        != #[trigger] bb[j].0@ by {
        assert(b.bindings@[i].0@ == a.bindings@[i].0@);
        assert(b.bindings@[j].0@ == a.bindings@[j].0@);
    }
    assert forall|n: Seq<char>| #[trigger] has_name(bb, n) == has_name(ab, n) by {
        if has_name(bb, n) {
            let k = choose|k: int| 0 <= k < bb.len() && #[trigger] bb[k].0@ == n;
            assert(ab[k].0@ == n);
        }
        if has_name(ab, n) {
            let k = choose|k: int| 0 <= k < ab.len() && #[trigger] ab[k].0@ == n;
            assert(bb[k].0@ == n);
        }
    }
    assert forall|n: Seq<char>| #[trigger] bindings_map(bb).contains_key(n) implies bindings_map(
        bb,
    )[n] == bindings_map(ab)[n] by {
        let k = choose|k: int| 0 <= k < bb.len() && #[trigger] bb[k].0@ == n;
        let k2 = choose|k2: int| 0 <= k2 < ab.len() && #[trigger] ab[k2].0@ == n;
        assert(ab[k].0@ == n);
        if k != k2 {
            assert(ab[k].0@ == ab[k2].0@);
        }
    }
    assert(bindings_map(bb) =~= bindings_map(ab));
}

/// How the bindings of a context may grow: every recorded binding stays,
/// the next binding only rises, every new binding lies between the old and
/// the new next binding, and fresh bindings stay fresh.
pub open spec fn bindings_extend(
    old_m: Map<Seq<char>, u32>,
    old_next: u32,
    new_m: Map<Seq<char>, u32>,
    new_next: u32,
) -> bool {
    &&& old_next <= new_next
    &&& forall|n: Seq<char>| #[trigger]
        old_m.contains_key(n) ==> new_m.contains_key(n) && new_m[n] == old_m[n]
    &&& forall|n: Seq<char>| #[trigger]
        new_m.contains_key(n) && !old_m.contains_key(n) ==> old_next <= new_m[n] < new_next
    &&& bindings_fresh(old_m, old_next) ==> bindings_fresh(new_m, new_next)
}

/// Growth of bindings is reflexive and transitive.
pub proof fn lemma_bindings_extend_refl_trans(
    m1: Map<Seq<char>, u32>,
    n1: u32,
    m2: Map<Seq<char>, u32>,
    n2: u32,
    m3: Map<Seq<char>, u32>,
    n3: u32,
)
    ensures
        bindings_extend(m1, n1, m1, n1),
        bindings_extend(m1, n1, m2, n2) && bindings_extend(m2, n2, m3, n3) ==> bindings_extend(
            m1,
            n1,
            m3,
            n3,
        ),
{
    if bindings_extend(m1, n1, m2, n2) && bindings_extend(m2, n2, m3, n3) {
        assert forall|n: Seq<char>| #[trigger]
            m3.contains_key(n) && !m1.contains_key(n) implies n1 <= m3[n] < n3 by {
            if m2.contains_key(n) {
                assert(m3[n] == m2[n]);
            }
        }
    }
}

/// Handing out a binding keeps bindings fresh: if every recorded binding
/// was below the next one and no two names shared one, the same holds
/// after a new name is given the next binding.
pub proof fn lemma_assign_keeps_fresh(m: Map<Seq<char>, u32>, next: u32, name: Seq<char>)
    requires
        !m.contains_key(name),
        next < u32::MAX,
    ensures
        bindings_fresh(m, next) ==> bindings_fresh(m.insert(name, next), (next + 1) as u32),
        bindings_extend(m, next, m.insert(name, next), (next + 1) as u32),
{
    let m2 = m.insert(name, next);
    if bindings_fresh(m, next) {
        assert forall|n1: Seq<char>, n2: Seq<char>|
            #[trigger] m2.contains_key(n1) && #[trigger] m2.contains_key(n2) && n1 != n2 implies m2[n1]
            != m2[n2] by {
            if n1 == name {
                assert(m.contains_key(n2));
            } else if n2 == name {
                assert(m.contains_key(n1));
            }
        }
    }
}

} // verus!
