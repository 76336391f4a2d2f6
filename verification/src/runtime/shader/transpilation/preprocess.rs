use vstd::prelude::*;

use crate::bindings::gl;
use crate::error::FogleError;
use crate::runtime::shader::transpilation::spirv::{
    spirv_cross_reflects, spirv_cross_resources, DecorationEdit, DecorationKind, EsslModule,
    Reflection, ResourceKind,
};
use crate::runtime::shader::transpilation::{
    assign_all, assigned_in_sequence, bindings_extend, lemma_assign_all_push,
    lemma_assign_keeps_fresh, lemma_assigned_in_sequence_refl_trans,
    lemma_bindings_extend_refl_trans, lemma_new_names_step, new_names, spec_assign,
    TranspileContext,
};

verus! {

/// The edits that strip one variable's binding and descriptor set, and its
/// location first when `with_location` holds.
pub open spec fn unset_one(var: u32, with_location: bool) -> Seq<DecorationEdit> {
    let tail = seq![
        DecorationEdit { var, decoration: DecorationKind::Binding, value: None },
        DecorationEdit { var, decoration: DecorationKind::DescriptorSet, value: None },
    ];
    if with_location {
        seq![DecorationEdit { var, decoration: DecorationKind::Location, value: None }] + tail
    } else {
        tail
    }
}

/// The edits that strip every resource of a list, one after the other.
pub open spec fn unset_all(list: Seq<(u32, Seq<char>)>, with_location: bool) -> Seq<DecorationEdit>
    decreases list.len(),
{
    if list.len() == 0 {
        Seq::empty()
    } else {
        unset_all(list.drop_last(), with_location) + unset_one(list.last().0, with_location)
    }
}

/// The edits that strip every resource of one kind of the module `words`,
/// or the refusal when SPIRV-Cross cannot list them.
pub open spec fn spec_unset(words: Seq<u32>, kind: ResourceKind, with_location: bool) -> Result<
    Seq<DecorationEdit>,
    FogleError,
> {
    match spirv_cross_resources(words, kind) {
        Some(list) => Ok(unset_all(list, with_location)),
        None => Err(FogleError::SpirvCross),
    }
}

/// Binding the uniform buffers of `list` in order, starting from the
/// bindings `m` and the next binding `next`: each block name gets the binding
/// recorded for it or else the next one, and its buffer is decorated with
/// that binding.  Gives the edits and the bindings afterwards, or
/// `BindingsExhausted` when a new name finds no binding number left.
pub open spec fn bind_buffers(
    list: Seq<(u32, Seq<char>)>,
    m: Map<Seq<char>, u32>,
    next: u32,
) -> Result<(Seq<DecorationEdit>, Map<Seq<char>, u32>, u32), FogleError>
    decreases list.len(),
{
    if list.len() == 0 {
        Ok((Seq::empty(), m, next))
    } else {
        match bind_buffers(list.drop_last(), m, next) {
            Err(e) => Err(e),
            Ok((edits, m0, n0)) => {
                let var = list.last().0;
                let name = list.last().1;
                if !m0.contains_key(name) && n0 == u32::MAX {
                    Err(FogleError::BindingsExhausted)
                } else {
                    let (b, m1, n1) = spec_assign(m0, n0, name);
                    Ok(
                        (
                            edits.push(
                                DecorationEdit {
                                    var,
                                    decoration: DecorationKind::Binding,
                                    value: Some(b),
                                },
                            ),
                            m1,
                            n1,
                        ),
                    )
                }
            },
        }
    }
}

/// What preprocessing does to the module `words` of a shader of type
/// `shader_type`, given the bindings `m` and next binding `next`: the
/// decoration edits it makes, in order, and the bindings afterwards, or the
/// error it stops with.  A compute shader is left as it is.  Otherwise
/// sampled images, separate images, separate samplers, plain uniforms and
/// stage inputs lose location, binding and descriptor set; uniform buffers
/// lose binding and descriptor set and are then bound by `bind_buffers`;
/// stage outputs lose binding and descriptor set, and their location too
/// unless the shader is a fragment shader with more than one output.
pub open spec fn spec_process(
    words: Seq<u32>,
    shader_type: u32,
    m: Map<Seq<char>, u32>,
    next: u32,
) -> Result<(Seq<DecorationEdit>, Map<Seq<char>, u32>, u32), FogleError> {
    if shader_type == gl::COMPUTE_SHADER {
        Ok((Seq::empty(), m, next))
    } else if !spirv_cross_reflects(words) {
        Err(FogleError::SpirvCross)
    } else {
        match (
            spirv_cross_resources(words, ResourceKind::SampledImage),
            spirv_cross_resources(words, ResourceKind::SeparateImage),
            spirv_cross_resources(words, ResourceKind::SeparateSamplers),
            spirv_cross_resources(words, ResourceKind::GlPlainUniform),
            spirv_cross_resources(words, ResourceKind::StageInput),
            spirv_cross_resources(words, ResourceKind::UniformBuffer),
        ) {
            (Some(a), Some(b), Some(c), Some(d), Some(e), Some(u)) => match bind_buffers(u, m, next) {
                Err(x) => Err(x),
                Ok((bound, m1, n1)) => match spirv_cross_resources(words, ResourceKind::StageOutput) {
                    None => Err(FogleError::SpirvCross),
                    Some(o) => {
                        let keep = shader_type == gl::FRAGMENT_SHADER && o.len() > 1;
                        Ok(
                            (
                                unset_all(a, true) + unset_all(b, true) + unset_all(c, true)
                                    + unset_all(d, true) + unset_all(e, true) + unset_all(u, false)
                                    + bound + unset_all(o, !keep),
                                m1,
                                n1,
                            ),
                        )
                    },
                },
            },
            _ => Err(FogleError::SpirvCross),
        }
    }
}

proof fn lemma_unset_all_step(list: Seq<(u32, Seq<char>)>, i: int, with_location: bool)
    requires
        0 <= i < list.len(),
    ensures
        unset_all(list.take(i + 1), with_location) == unset_all(list.take(i), with_location)
            + unset_one(list[i].0, with_location),
{
    assert(list.take(i + 1).drop_last() =~= list.take(i));
}

proof fn lemma_bind_buffers_step(
    list: Seq<(u32, Seq<char>)>,
    i: int,
    m: Map<Seq<char>, u32>,
    next: u32,
)
    requires
        0 <= i < list.len(),
    ensures
        bind_buffers(list.take(i + 1), m, next) == (match bind_buffers(list.take(i), m, next) {
            Err(e) => Err(e),
            Ok((edits, m0, n0)) => if !m0.contains_key(list[i].1) && n0 == u32::MAX {
                Err(FogleError::BindingsExhausted)
            } else {
                let (b, m1, n1) = spec_assign(m0, n0, list[i].1);
                Ok(
                    (
                        edits.push(
                            DecorationEdit {
                                var: list[i].0,
                                decoration: DecorationKind::Binding,
                                value: Some(b),
                            },
                        ),
                        m1,
                        n1,
                    ),
                )
            },
        }),
{
    assert(list.take(i + 1).drop_last() =~= list.take(i));
}

/// Once binding stops with an error, binding a longer list stops with it
/// too.
proof fn lemma_bind_buffers_err(
    list: Seq<(u32, Seq<char>)>,
    k: int,
    m: Map<Seq<char>, u32>,
    next: u32,
)
    requires
        0 <= k <= list.len(),
        bind_buffers(list.take(k), m, next) is Err,
    ensures
        bind_buffers(list, m, next) == bind_buffers(list.take(k), m, next),
    decreases list.len() - k,
{
    if k < list.len() {
        lemma_bind_buffers_step(list, k, m, next);
        lemma_bind_buffers_err(list, k + 1, m, next);
    } else {
        assert(list.take(k) =~= list);
    }
}

/// Every uniform buffer is decorated with the binding that its block name
/// holds once all are bound: the edits of `bind_buffers` are, in order, one
/// `Binding` edit per buffer, whose value is the binding recorded for the
/// buffer's name afterwards; bindings handed out before stay.
pub proof fn lemma_bind_buffers_bindings(
    list: Seq<(u32, Seq<char>)>,
    m: Map<Seq<char>, u32>,
    next: u32,
)
    ensures
        bind_buffers(list, m, next) matches Ok((edits, m1, n1)) ==> {
            &&& edits.len() == list.len()
            &&& forall|i: int|
                0 <= i < list.len() ==> m1.contains_key(list[i].1) && #[trigger] edits[i]
                    == DecorationEdit {
                    var: list[i].0,
                    decoration: DecorationKind::Binding,
                    value: Some(m1[list[i].1]),
                }
            &&& forall|n: Seq<char>| #[trigger] m.contains_key(n) ==> m1.contains_key(n) && m1[n] == m[n]
        },
    decreases list.len(),
{
    if list.len() > 0 {
        lemma_bind_buffers_bindings(list.drop_last(), m, next);
        if let Ok((edits, m1, n1)) = bind_buffers(list, m, next) {
            let (e0, m0, n0) = bind_buffers(list.drop_last(), m, next)->Ok_0;
            let name = list.last().1;
            assert forall|i: int| 0 <= i < list.len() implies m1.contains_key(list[i].1)
                && #[trigger] edits[i] == DecorationEdit {
                var: list[i].0,
                decoration: DecorationKind::Binding,
                value: Some(m1[list[i].1]),
            } by {
                if i < list.len() - 1 {
                    assert(list.drop_last()[i] == list[i]);
                    assert(edits[i] == e0[i]);
                }
            }
        }
    }
}

/// The block names of a list of uniform buffers, in order.
pub open spec fn buffer_names(list: Seq<(u32, Seq<char>)>) -> Seq<Seq<char>> {
    list.map_values(|p: (u32, Seq<char>)| p.1)
}

/// Binding uniform buffers binds exactly the names bound before and the
/// buffers' block names, and raises the next binding by the number of block
/// names not bound before, each counted once.
pub proof fn lemma_bind_buffers_count(list: Seq<(u32, Seq<char>)>, m: Map<Seq<char>, u32>, next: u32)
    ensures
        bind_buffers(list, m, next) matches Ok((edits, m1, n1)) ==> {
            &&& new_names(m, buffer_names(list)).finite()
            &&& n1 == next + new_names(m, buffer_names(list)).len()
            &&& forall|n: Seq<char>|
                #[trigger] m1.contains_key(n) == (m.contains_key(n) || buffer_names(list).contains(
                    n,
                ))
        },
    decreases list.len(),
{
    if list.len() == 0 {
        assert(new_names(m, buffer_names(list)) =~= Set::<Seq<char>>::empty());
        assert forall|n: Seq<char>| !#[trigger] buffer_names(list).contains(n) by {}
    } else {
        let dl = list.drop_last();
        lemma_bind_buffers_count(dl, m, next);
        let names = buffer_names(list);
        assert(names.drop_last() =~= buffer_names(dl));
        assert(names.last() == list.last().1);
        lemma_new_names_step(m, names);
        if let Ok((e, m1, n1)) = bind_buffers(list, m, next) {
            let x = list.last().1;
            if !(m.contains_key(x) || buffer_names(dl).contains(x)) {
                assert(new_names(m, names).len() == new_names(m, buffer_names(dl)).len() + 1);
            }
        }
    }
}

/// Strips the binding and descriptor set, and the location too when
/// `with_location` holds, from every resource of one kind.
fn unset_decorations(reflection: &mut Reflection, kind: ResourceKind, with_location: bool) -> (r:
    Result<(), FogleError>)
    ensures
        final(reflection).module().words() == old(reflection).module().words(),
        match spec_unset(old(reflection).module().words(), kind, with_location) {
            Ok(edits) => r is Ok && final(reflection).module().edits()
                == old(reflection).module().edits() + edits,
            Err(e) => r == Err::<(), FogleError>(e) && final(reflection).module().edits()
                == old(reflection).module().edits(),
        },
{
    let ghost words = reflection.module().words();
    let ghost start = reflection.module().edits();
    let n = reflection.list(kind)?;
    let ghost list = reflection.listed();
    let mut i: usize = 0;
    assert(list.take(0) =~= Seq::<(u32, Seq<char>)>::empty());
    assert(start + unset_all(list.take(0), with_location) =~= start);
    while i < n
        invariant
            i <= n,
            n == list.len(),
            reflection.listed() == list,
            reflection.module().words() == words,
            words == old(reflection).module().words(),
            start == old(reflection).module().edits(),
            spirv_cross_resources(words, kind) == Some(list),
            reflection.module().edits() == start + unset_all(list.take(i as int), with_location),
        decreases n - i,
    {
        let ghost before = reflection.module().edits();
        if with_location {
            reflection.decorate(i, DecorationKind::Location, None);
        }
        reflection.decorate(i, DecorationKind::Binding, None);
        reflection.decorate(i, DecorationKind::DescriptorSet, None);
        proof {
            lemma_unset_all_step(list, i as int, with_location);
            assert(reflection.module().edits() =~= before + unset_one(list[i as int].0, with_location));
            assert(start + unset_all(list.take(i + 1), with_location) =~= start + unset_all(
                list.take(i as int),
                with_location,
            ) + unset_one(list[i as int].0, with_location));
        }
        i = i + 1;
    }
    assert(list.take(n as int) =~= list);
    Ok(())
}

/// Gives every uniform buffer of the module the binding that its block name
/// already has in `state`, or the next free one, and decorates it with it.
fn assign_uniform_buffer_bindings(reflection: &mut Reflection, state: &mut TranspileContext) -> (r:
    Result<(), FogleError>)
    requires
        old(state).wf(),
    ensures
        final(state).wf(),
        final(reflection).module().words() == old(reflection).module().words(),
        bindings_extend(
            old(state).binding_view(),
            old(state).next_binding,
            final(state).binding_view(),
            final(state).next_binding,
        ),
        assigned_in_sequence(
            old(state).binding_view(),
            old(state).next_binding,
            final(state).binding_view(),
            final(state).next_binding,
        ),
        match spirv_cross_resources(old(reflection).module().words(), ResourceKind::UniformBuffer) {
            None => r == Err::<(), FogleError>(FogleError::SpirvCross),
            Some(list) => match bind_buffers(
                list,
                old(state).binding_view(),
                old(state).next_binding,
            ) {
                Ok((edits, m1, n1)) => r is Ok && final(reflection).module().edits()
                    == old(reflection).module().edits() + edits && final(state).binding_view()
                    == m1 && final(state).next_binding == n1 && final(state).next_binding
                    == old(state).next_binding + new_names(
                    old(state).binding_view(),
                    buffer_names(list),
                ).len(),
                Err(e) => r == Err::<(), FogleError>(e),
            },
        },
{
    proof {
        lemma_bindings_extend_refl_trans(
            state.binding_view(),
            state.next_binding,
            state.binding_view(),
            state.next_binding,
            state.binding_view(),
            state.next_binding,
        );
        lemma_assigned_in_sequence_refl_trans(
            state.binding_view(),
            state.next_binding,
            state.binding_view(),
            state.next_binding,
            state.binding_view(),
            state.next_binding,
        );
    }
    let ghost words = reflection.module().words();
    let ghost start_edits = reflection.module().edits();
    let n = reflection.list(ResourceKind::UniformBuffer)?;
    let ghost list = reflection.listed();
    let ghost start_m = state.binding_view();
    let ghost start_next = state.next_binding;
    let ghost mut names: Seq<Seq<char>> = Seq::empty();
    let ghost mut delta: Seq<DecorationEdit> = Seq::empty();
    assert(list.take(0) =~= Seq::<(u32, Seq<char>)>::empty());
    assert(start_edits + delta =~= start_edits);
    let mut i: usize = 0;
    while i < n
        invariant
            i <= n,
            n == list.len(),
            reflection.listed() == list,
            reflection.module().words() == words,
            words == old(reflection).module().words(),
            start_edits == old(reflection).module().edits(),
            spirv_cross_resources(words, ResourceKind::UniformBuffer) == Some(list),
            state.wf(),
            start_m == old(state).binding_view(),
            start_next == old(state).next_binding,
            bindings_extend(start_m, start_next, state.binding_view(), state.next_binding),
            assign_all(start_m, start_next, names) == (state.binding_view(), state.next_binding),
            reflection.module().edits() == start_edits + delta,
            bind_buffers(list.take(i as int), start_m, start_next) == Ok::<
                (Seq<DecorationEdit>, Map<Seq<char>, u32>, u32),
                FogleError,
            >((delta, state.binding_view(), state.next_binding)),
        decreases n - i,
    {
        proof {
            lemma_bind_buffers_step(list, i as int, start_m, start_next);
        }
        let name = reflection.name(i).clone();
        if state.lookup_binding(&name).is_none() && state.next_binding == u32::MAX {
            proof {
                lemma_bind_buffers_err(list, i + 1, start_m, start_next);
            }
            return Err(FogleError::BindingsExhausted);
        }
        let ghost m0 = state.binding_view();
        let ghost n0 = state.next_binding;
        let ghost nv = name@;
        let binding = state.assign_binding(name);
        proof {
            lemma_assign_all_push(start_m, start_next, names, nv);
            names = names.push(nv);
            if !m0.contains_key(nv) {
                lemma_assign_keeps_fresh(m0, n0, nv);
            } else {
                lemma_bindings_extend_refl_trans(m0, n0, m0, n0, m0, n0);
            }
            lemma_bindings_extend_refl_trans(
                start_m,
                start_next,
                m0,
                n0,
                state.binding_view(),
                state.next_binding,
            );
        }
        let ghost before = reflection.module().edits();
        reflection.decorate(i, DecorationKind::Binding, Some(binding));
        proof {
            let e = DecorationEdit {
                var: list[i as int].0,
                decoration: DecorationKind::Binding,
                value: Some(binding),
            };
            delta = delta.push(e);
            assert(reflection.module().edits() =~= start_edits + delta);
        }
        i = i + 1;
    }
    assert(list.take(n as int) =~= list);
    proof {
        lemma_bind_buffers_count(list, start_m, start_next);
    }
    Ok(())
}

/// Rewrites the decorations of a SPIR-V module so that SPIRV-Cross emits
/// GLSL ES that a GLES driver accepts (see `spec_process`), taking the
/// bindings of uniform buffers from `state`; the module comes back with the
/// edits made.
#[verifier::spinoff_prover]
#[verifier::rlimit(50)]
pub fn process_spv_bytecode(
    module: EsslModule,
    shader_type: u32,
    state: &mut TranspileContext,
) -> (r: Result<EsslModule, FogleError>)
    requires
        old(state).wf(),
    ensures
        final(state).wf(),
        bindings_extend(
            old(state).binding_view(),
            old(state).next_binding,
            final(state).binding_view(),
            final(state).next_binding,
        ),
        assigned_in_sequence(
            old(state).binding_view(),
            old(state).next_binding,
            final(state).binding_view(),
            final(state).next_binding,
        ),
        match spec_process(
            module.words(),
            shader_type,
            old(state).binding_view(),
            old(state).next_binding,
        ) {
            Ok((edits, m1, n1)) => r matches Ok(out) && out.words() == module.words()
                && out.edits() == module.edits() + edits && final(state).binding_view() == m1
                && final(state).next_binding == n1,
            Err(e) => r == Err::<EsslModule, FogleError>(e),
        },
        shader_type == gl::COMPUTE_SHADER ==> r == Ok::<EsslModule, FogleError>(module)
            && *final(state) == *old(state),
{
    proof {
        lemma_bindings_extend_refl_trans(
            state.binding_view(),
            state.next_binding,
            state.binding_view(),
            state.next_binding,
            state.binding_view(),
            state.next_binding,
        );
        lemma_assigned_in_sequence_refl_trans(
            state.binding_view(),
            state.next_binding,
            state.binding_view(),
            state.next_binding,
            state.binding_view(),
            state.next_binding,
        );
    }
    if shader_type == gl::COMPUTE_SHADER {
        return Ok(module);
    }
    let ghost words = module.words();
    let ghost e0 = module.edits();
    let mut reflection = module.reflect()?;
    unset_decorations(&mut reflection, ResourceKind::SampledImage, true)?;
    let ghost e1 = reflection.module().edits();
    unset_decorations(&mut reflection, ResourceKind::SeparateImage, true)?;
    let ghost e2 = reflection.module().edits();
    unset_decorations(&mut reflection, ResourceKind::SeparateSamplers, true)?;
    let ghost e3 = reflection.module().edits();
    unset_decorations(&mut reflection, ResourceKind::GlPlainUniform, true)?;
    let ghost e4 = reflection.module().edits();
    unset_decorations(&mut reflection, ResourceKind::StageInput, true)?;
    let ghost e5 = reflection.module().edits();
    unset_decorations(&mut reflection, ResourceKind::UniformBuffer, false)?;
    let ghost e6 = reflection.module().edits();
    assign_uniform_buffer_bindings(&mut reflection, state)?;
    let ghost e7 = reflection.module().edits();
    let keep_location = if shader_type == gl::FRAGMENT_SHADER {
        let outputs = reflection.list(ResourceKind::StageOutput)?;
        outputs > 1
    } else {
        false
    };
    unset_decorations(&mut reflection, ResourceKind::StageOutput, !keep_location)?;
    let out = reflection.into_module();
    proof {
        let a = spirv_cross_resources(words, ResourceKind::SampledImage)->Some_0;
        let b = spirv_cross_resources(words, ResourceKind::SeparateImage)->Some_0;
        let c = spirv_cross_resources(words, ResourceKind::SeparateSamplers)->Some_0;
        let d = spirv_cross_resources(words, ResourceKind::GlPlainUniform)->Some_0;
        let e = spirv_cross_resources(words, ResourceKind::StageInput)->Some_0;
        let u = spirv_cross_resources(words, ResourceKind::UniformBuffer)->Some_0;
        let bound = bind_buffers(u, old(state).binding_view(), old(state).next_binding)->Ok_0.0;
        let o = spirv_cross_resources(words, ResourceKind::StageOutput)->Some_0;
        let keep = shader_type == gl::FRAGMENT_SHADER && o.len() > 1;
        assert(keep_location == keep);
        assert(out.edits() =~= e0 + (unset_all(a, true) + unset_all(b, true) + unset_all(c, true)
            + unset_all(d, true) + unset_all(e, true) + unset_all(u, false) + bound + unset_all(
            o,
            !keep,
        )));
    }
    Ok(out)
}

/// Whether `edits` holds the edit `e`.
pub open spec fn has_edit(edits: Seq<DecorationEdit>, e: DecorationEdit) -> bool {
    exists|i: int| 0 <= i < edits.len() && edits[i] == e
}

/// The edit that unsets decoration `decoration` of variable `var`.
pub open spec fn unset_edit(var: u32, decoration: DecorationKind) -> DecorationEdit {
    DecorationEdit { var, decoration, value: None }
}

proof fn lemma_has_edit_concat(s: Seq<DecorationEdit>, t: Seq<DecorationEdit>, e: DecorationEdit)
    ensures
        has_edit(s + t, e) <==> (has_edit(s, e) || has_edit(t, e)),
{
    if has_edit(s + t, e) {
        let i = choose|i: int| 0 <= i < (s + t).len() && (s + t)[i] == e;
        if i < s.len() {
            assert(s[i] == e);
        } else {
            assert(t[i - s.len()] == e);
        }
    }
    if has_edit(s, e) {
        let i = choose|i: int| 0 <= i < s.len() && s[i] == e;
        assert((s + t)[i] == e);
    }
    if has_edit(t, e) {
        let i = choose|i: int| 0 <= i < t.len() && t[i] == e;
        assert((s + t)[s.len() + i] == e);
    }
}

/// Every edit that strips a list unsets a decoration of one of the list's
/// variables, and unsets a location only when asked to.
proof fn lemma_unset_all_shape(list: Seq<(u32, Seq<char>)>, with_location: bool)
    ensures
        forall|i: int|
            0 <= i < unset_all(list, with_location).len() ==> {
                let e = #[trigger] unset_all(list, with_location)[i];
                &&& e.value is None
                &&& (e.decoration == DecorationKind::Location ==> with_location)
                &&& exists|j: int| 0 <= j < list.len() && list[j].0 == e.var
            },
    decreases list.len(),
{
    if list.len() > 0 {
        let dl = list.drop_last();
        lemma_unset_all_shape(dl, with_location);
        let pre = unset_all(dl, with_location);
        let one = unset_one(list.last().0, with_location);
        assert forall|i: int| 0 <= i < unset_all(list, with_location).len() implies {
            let e = #[trigger] unset_all(list, with_location)[i];
            &&& e.value is None
            &&& (e.decoration == DecorationKind::Location ==> with_location)
            &&& exists|j: int| 0 <= j < list.len() && list[j].0 == e.var
        } by {
            if i < pre.len() {
                let e = pre[i];
                assert(unset_all(list, with_location)[i] == e);
                let j = choose|j: int| 0 <= j < dl.len() && dl[j].0 == e.var;
                assert(list[j] == dl[j]);
            } else {
                assert(unset_all(list, with_location)[i] == one[i - pre.len()]);
                assert(list[list.len() - 1].0 == list.last().0);
            }
        }
    }
}

/// Stripping a list unsets the binding and descriptor set of every one of its
/// variables, and its location too when asked to.
proof fn lemma_unset_all_covers(list: Seq<(u32, Seq<char>)>, with_location: bool)
    ensures
        forall|k: int|
            0 <= k < list.len() ==> {
                &&& has_edit(
                    unset_all(list, with_location),
                    unset_edit(#[trigger] list[k].0, DecorationKind::Binding),
                )
                &&& has_edit(
                    unset_all(list, with_location),
                    unset_edit(list[k].0, DecorationKind::DescriptorSet),
                )
                &&& with_location ==> has_edit(
                    unset_all(list, with_location),
                    unset_edit(list[k].0, DecorationKind::Location),
                )
            },
    decreases list.len(),
{
    if list.len() > 0 {
        let dl = list.drop_last();
        lemma_unset_all_covers(dl, with_location);
        let pre = unset_all(dl, with_location);
        let one = unset_one(list.last().0, with_location);
        assert forall|k: int| 0 <= k < list.len() implies {
            &&& has_edit(
                unset_all(list, with_location),
                unset_edit(#[trigger] list[k].0, DecorationKind::Binding),
            )
            &&& has_edit(
                unset_all(list, with_location),
                unset_edit(list[k].0, DecorationKind::DescriptorSet),
            )
            &&& with_location ==> has_edit(
                unset_all(list, with_location),
                unset_edit(list[k].0, DecorationKind::Location),
            )
        } by {
            let v = list[k].0;
            lemma_has_edit_concat(pre, one, unset_edit(v, DecorationKind::Binding));
            lemma_has_edit_concat(pre, one, unset_edit(v, DecorationKind::DescriptorSet));
            lemma_has_edit_concat(pre, one, unset_edit(v, DecorationKind::Location));
            if k < list.len() - 1 {
                assert(dl[k] == list[k]);
            } else {
                if with_location {
                    assert(one[0] == unset_edit(v, DecorationKind::Location));
                    assert(one[1] == unset_edit(v, DecorationKind::Binding));
                    assert(one[2] == unset_edit(v, DecorationKind::DescriptorSet));
                } else {
                    assert(one[0] == unset_edit(v, DecorationKind::Binding));
                    assert(one[1] == unset_edit(v, DecorationKind::DescriptorSet));
                }
            }
        }
    }
}

/// Whether the stage outputs of the module `words` are variables of their
/// own: none of them is listed among the module's other resources (as SPIR-V
/// has it, a variable lies in one storage class).
pub open spec fn outputs_apart(words: Seq<u32>) -> bool {
    forall|kind: ResourceKind, j: int, k: int|
        kind != ResourceKind::StageOutput && spirv_cross_resources(words, kind) is Some
            && spirv_cross_resources(words, ResourceKind::StageOutput) is Some && 0 <= j
            < spirv_cross_resources(words, kind)->0.len() && 0 <= k < spirv_cross_resources(
            words,
            ResourceKind::StageOutput,
        )->0.len() ==> #[trigger] spirv_cross_resources(words, kind)->0[j].0
            != #[trigger] spirv_cross_resources(words, ResourceKind::StageOutput)->0[k].0
}

/// What preprocessing does to every shader but a compute shader, whenever it
/// succeeds:
/// - every stage input loses its location, binding and descriptor set;
/// - every uniform buffer gets a `Binding` edit whose value is the binding
///   that the bindings afterwards record for its block name;
/// - every stage output loses its binding and descriptor set, and loses its
///   location when the shader is not a fragment shader or has at most one
///   output;
/// - in a fragment shader with several outputs, no output loses its
///   location (given that outputs are variables of their own).
pub proof fn lemma_process_effects(
    words: Seq<u32>,
    shader_type: u32,
    m: Map<Seq<char>, u32>,
    next: u32,
)
    requires
        shader_type != gl::COMPUTE_SHADER,
    ensures
        spec_process(words, shader_type, m, next) matches Ok((edits, m1, n1)) ==> {
            let inputs = spirv_cross_resources(words, ResourceKind::StageInput)->0;
            let buffers = spirv_cross_resources(words, ResourceKind::UniformBuffer)->0;
            let outputs = spirv_cross_resources(words, ResourceKind::StageOutput)->0;
            let keep = shader_type == gl::FRAGMENT_SHADER && outputs.len() > 1;
            &&& spirv_cross_resources(words, ResourceKind::StageInput) is Some
            &&& spirv_cross_resources(words, ResourceKind::UniformBuffer) is Some
            &&& spirv_cross_resources(words, ResourceKind::StageOutput) is Some
            &&& forall|kind: ResourceKind, k: int|
                (kind == ResourceKind::SampledImage || kind == ResourceKind::SeparateImage || kind
                    == ResourceKind::SeparateSamplers || kind == ResourceKind::GlPlainUniform)
                    && spirv_cross_resources(words, kind) is Some && 0 <= k
                    < spirv_cross_resources(words, kind)->0.len() ==> {
                    let v = #[trigger] spirv_cross_resources(words, kind)->0[k].0;
                    &&& has_edit(edits, unset_edit(v, DecorationKind::Location))
                    &&& has_edit(edits, unset_edit(v, DecorationKind::Binding))
                    &&& has_edit(edits, unset_edit(v, DecorationKind::DescriptorSet))
                }
            &&& forall|k: int|
                0 <= k < buffers.len() ==> has_edit(
                    edits,
                    unset_edit(#[trigger] buffers[k].0, DecorationKind::DescriptorSet),
                )
            &&& forall|k: int|
                0 <= k < inputs.len() ==> has_edit(
                    edits,
                    unset_edit(#[trigger] inputs[k].0, DecorationKind::Location),
                ) && has_edit(edits, unset_edit(inputs[k].0, DecorationKind::Binding))
                    && has_edit(edits, unset_edit(inputs[k].0, DecorationKind::DescriptorSet))
            &&& forall|k: int|
                0 <= k < buffers.len() ==> m1.contains_key(#[trigger] buffers[k].1) && has_edit(
                    edits,
                    DecorationEdit {
                        var: buffers[k].0,
                        decoration: DecorationKind::Binding,
                        value: Some(m1[buffers[k].1]),
                    },
                )
            &&& forall|k: int|
                0 <= k < outputs.len() ==> has_edit(
                    edits,
                    unset_edit(#[trigger] outputs[k].0, DecorationKind::Binding),
                ) && has_edit(edits, unset_edit(outputs[k].0, DecorationKind::DescriptorSet))
            &&& !keep ==> forall|k: int|
                0 <= k < outputs.len() ==> has_edit(
                    edits,
                    unset_edit(#[trigger] outputs[k].0, DecorationKind::Location),
                )
            &&& keep && outputs_apart(words) ==> forall|k: int|
                0 <= k < outputs.len() ==> !has_edit(
                    edits,
                    unset_edit(#[trigger] outputs[k].0, DecorationKind::Location),
                )
        },
{
    if let Ok((edits, m1, n1)) = spec_process(words, shader_type, m, next) {
        let a = spirv_cross_resources(words, ResourceKind::SampledImage)->0;
        let b = spirv_cross_resources(words, ResourceKind::SeparateImage)->0;
        let c = spirv_cross_resources(words, ResourceKind::SeparateSamplers)->0;
        let d = spirv_cross_resources(words, ResourceKind::GlPlainUniform)->0;
        let e = spirv_cross_resources(words, ResourceKind::StageInput)->0;
        let u = spirv_cross_resources(words, ResourceKind::UniformBuffer)->0;
        let o = spirv_cross_resources(words, ResourceKind::StageOutput)->0;
        let keep = shader_type == gl::FRAGMENT_SHADER && o.len() > 1;
        let bound = bind_buffers(u, m, next)->Ok_0.0;
        lemma_bind_buffers_bindings(u, m, next);
        let pa = unset_all(a, true);
        let pb = unset_all(b, true);
        let pc = unset_all(c, true);
        let pd = unset_all(d, true);
        let pe = unset_all(e, true);
        let pu = unset_all(u, false);
        let po = unset_all(o, !keep);
        let s1 = pa + pb;
        let s2 = s1 + pc;
        let s3 = s2 + pd;
        let s4 = s3 + pe;
        let s5 = s4 + pu;
        let s6 = s5 + bound;
        assert(edits == s6 + po);
        lemma_unset_all_covers(a, true);
        lemma_unset_all_covers(b, true);
        lemma_unset_all_covers(c, true);
        lemma_unset_all_covers(d, true);
        lemma_unset_all_covers(e, true);
        lemma_unset_all_covers(u, false);
        lemma_unset_all_covers(o, !keep);
        lemma_unset_all_shape(a, true);
        lemma_unset_all_shape(b, true);
        lemma_unset_all_shape(c, true);
        lemma_unset_all_shape(d, true);
        lemma_unset_all_shape(e, true);
        lemma_unset_all_shape(u, false);
        lemma_unset_all_shape(o, !keep);
        assert forall|x: DecorationEdit| has_edit(edits, x) <==> (has_edit(pa, x) || has_edit(pb, x)
            || has_edit(pc, x) || has_edit(pd, x) || has_edit(pe, x) || has_edit(pu, x) || has_edit(
            bound,
            x,
        ) || has_edit(po, x)) by {
            lemma_has_edit_concat(pa, pb, x);
            lemma_has_edit_concat(s1, pc, x);
            lemma_has_edit_concat(s2, pd, x);
            lemma_has_edit_concat(s3, pe, x);
            lemma_has_edit_concat(s4, pu, x);
            lemma_has_edit_concat(s5, bound, x);
            lemma_has_edit_concat(s6, po, x);
        }
        assert forall|k: int| 0 <= k < u.len() implies m1.contains_key(#[trigger] u[k].1)
            && has_edit(
            edits,
            DecorationEdit { var: u[k].0, decoration: DecorationKind::Binding, value: Some(m1[u[k].1]) },
        ) by {
            assert(bound[k] == DecorationEdit {
                var: u[k].0,
                decoration: DecorationKind::Binding,
                value: Some(m1[u[k].1]),
            });
        }
        if keep && outputs_apart(words) {
            assert forall|k: int| 0 <= k < o.len() implies !has_edit(
                edits,
                unset_edit(#[trigger] o[k].0, DecorationKind::Location),
            ) by {
                let x = unset_edit(o[k].0, DecorationKind::Location);
                if has_edit(edits, x) {
                    if has_edit(bound, x) {
                        let i = choose|i: int| 0 <= i < bound.len() && bound[i] == x;
                        assert(bound[i].decoration == DecorationKind::Binding);
                    } else if has_edit(po, x) {
                        let i = choose|i: int| 0 <= i < po.len() && po[i] == x;
                        assert(po[i] == x);
                    } else if has_edit(pu, x) {
                        let i = choose|i: int| 0 <= i < pu.len() && pu[i] == x;
                        assert(pu[i] == x);
                    } else {
                        let (list, kind) = if has_edit(pa, x) {
                            (a, ResourceKind::SampledImage)
                        } else if has_edit(pb, x) {
                            (b, ResourceKind::SeparateImage)
                        } else if has_edit(pc, x) {
                            (c, ResourceKind::SeparateSamplers)
                        } else if has_edit(pd, x) {
                            (d, ResourceKind::GlPlainUniform)
                        } else {
                            (e, ResourceKind::StageInput)
                        };
                        let piece = unset_all(list, true);
                        assert(has_edit(piece, x));
                        let i = choose|i: int| 0 <= i < piece.len() && piece[i] == x;
                        assert(piece[i] == x);
                        let j = choose|j: int| 0 <= j < list.len() && list[j].0 == x.var;
                        assert(spirv_cross_resources(words, kind)->0[j].0
                            != spirv_cross_resources(words, ResourceKind::StageOutput)->0[k].0);
                    }
                }
            }
        }
    }
}

/// Whether the uniform buffers of the module `words` are variables of their
/// own: no two share a variable, and none is a stage output.
pub open spec fn buffers_apart(words: Seq<u32>) -> bool {
    let u = spirv_cross_resources(words, ResourceKind::UniformBuffer)->0;
    let o = spirv_cross_resources(words, ResourceKind::StageOutput)->0;
    &&& forall|j: int, k: int| 0 <= j < k < u.len() ==> #[trigger] u[j].0 != #[trigger] u[k].0
    &&& forall|j: int, k: int|
        0 <= j < u.len() && 0 <= k < o.len() ==> #[trigger] u[j].0 != #[trigger] o[k].0
}

/// Whether the last edit of the `Binding` decoration of `var` in `edits`
/// sets it to `value`: the decoration the compiler is left with.
pub open spec fn last_binding_is(edits: Seq<DecorationEdit>, var: u32, value: Option<u32>) -> bool {
    exists|i: int|
        0 <= i < edits.len() && edits[i] == DecorationEdit {
            var,
            decoration: DecorationKind::Binding,
            value,
        } && forall|j: int|
            i < j < edits.len() && (#[trigger] edits[j]).var == var ==> edits[j].decoration
                != DecorationKind::Binding
}

/// In every shader but a compute shader, whenever preprocessing succeeds,
/// each uniform buffer is left bound at the binding that the bindings
/// afterwards record for its block name: no later edit touches its
/// `Binding` (given that buffers are variables of their own).
pub proof fn lemma_process_buffer_bindings(
    words: Seq<u32>,
    shader_type: u32,
    m: Map<Seq<char>, u32>,
    next: u32,
)
    requires
        shader_type != gl::COMPUTE_SHADER,
    ensures
        spec_process(words, shader_type, m, next) matches Ok((edits, m1, n1)) ==> buffers_apart(
            words,
        ) ==> {
            let buffers = spirv_cross_resources(words, ResourceKind::UniformBuffer)->0;
            forall|k: int|
                0 <= k < buffers.len() ==> m1.contains_key(#[trigger] buffers[k].1)
                    && last_binding_is(edits, buffers[k].0, Some(m1[buffers[k].1]))
        },
{
    if let Ok((edits, m1, n1)) = spec_process(words, shader_type, m, next) {
        if buffers_apart(words) {
            let a = spirv_cross_resources(words, ResourceKind::SampledImage)->0;
            let b = spirv_cross_resources(words, ResourceKind::SeparateImage)->0;
            let c = spirv_cross_resources(words, ResourceKind::SeparateSamplers)->0;
            let d = spirv_cross_resources(words, ResourceKind::GlPlainUniform)->0;
            let e = spirv_cross_resources(words, ResourceKind::StageInput)->0;
            let u = spirv_cross_resources(words, ResourceKind::UniformBuffer)->0;
            let o = spirv_cross_resources(words, ResourceKind::StageOutput)->0;
            let keep = shader_type == gl::FRAGMENT_SHADER && o.len() > 1;
            let bound = bind_buffers(u, m, next)->Ok_0.0;
            lemma_bind_buffers_bindings(u, m, next);
            lemma_unset_all_shape(o, !keep);
            let s5 = unset_all(a, true) + unset_all(b, true) + unset_all(c, true) + unset_all(d, true)
                + unset_all(e, true) + unset_all(u, false);
            let po = unset_all(o, !keep);
            assert(edits == s5 + bound + po);
            assert forall|k: int| 0 <= k < u.len() implies m1.contains_key(#[trigger] u[k].1)
                && last_binding_is(edits, u[k].0, Some(m1[u[k].1])) by {
                let i = s5.len() + k;
                assert(edits[i] == bound[k]);
                assert forall|j: int| i < j < edits.len() && (#[trigger] edits[j]).var == u[k].0
                    implies edits[j].decoration != DecorationKind::Binding by {
                    if j < s5.len() + bound.len() {
                        let jj = j - s5.len();
                        assert(edits[j] == bound[jj]);
                        assert(u[k].0 != u[jj].0);
                    } else {
                        let jj = j - s5.len() - bound.len();
                        assert(edits[j] == po[jj]);
                        let t = choose|t: int| 0 <= t < o.len() && o[t].0 == po[jj].var;
                        assert(u[k].0 != o[t].0);
                    }
                }
            }
        }
    }
}

} // verus!
