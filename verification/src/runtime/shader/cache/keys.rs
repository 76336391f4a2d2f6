//! The byte chunks that the shader cache hashes into its keys.

use vstd::prelude::*;
use vstd::utf8::encode_utf8;

use crate::runtime::contexts::es::ESContext;
use crate::runtime::shader::{Program, Shader};
use crate::traits::gl::{spec_stage_enum, FromStageKey};

verus! {

/// The seed of the cache-key hash.
pub const HASH_SEED: i64 = 694206721;

/// The version of the transpilation scheme; it enters every SPIR-V key, so
/// that a change of the scheme leaves old cache entries unused.
pub const TRANSPILE_VERSION: u32 = 1;

/// The four little-endian bytes of `x`.
pub open spec fn le_bytes_u32(x: u32) -> Seq<u8> {
    seq![(x & 0xff) as u8, ((x >> 8u32) & 0xff) as u8, ((x >> 16u32) & 0xff) as u8, ((x >> 24u32) & 0xff) as u8]
}

/// The eight little-endian bytes of `x`.
pub open spec fn le_bytes_u64(x: u64) -> Seq<u8> {
    Seq::new(8, |i: int| ((x >> ((8 * i) as u64)) & 0xff) as u8)
}

/// The little-endian bytes of `x`.
pub fn u32_le_bytes(x: u32) -> (r: Vec<u8>)
    ensures
        r@ == le_bytes_u32(x),
{
    let mut r = Vec::new();
    r.push((x & 0xff) as u8);
    r.push(((x >> 8) & 0xff) as u8);
    r.push(((x >> 16) & 0xff) as u8);
    r.push(((x >> 24) & 0xff) as u8);
    assert(r@ =~= le_bytes_u32(x));
    r
}

/// The little-endian bytes of `x`.
pub fn u64_le_bytes(x: u64) -> (r: Vec<u8>)
    ensures
        r@ == le_bytes_u64(x),
{
    let mut r: Vec<u8> = Vec::new();
    let mut i: u64 = 0;
    while i < 8
        invariant
            i <= 8,
            r@ == le_bytes_u64(x).take(i as int),
        decreases 8 - i,
    {
        r.push(((x >> (8 * i)) & 0xff) as u8);
        assert(le_bytes_u64(x).take(i + 1) =~= le_bytes_u64(x).take(i as int).push(
            ((x >> (8 * i)) & 0xff) as u8,
        ));
        i = i + 1;
    }
    assert(le_bytes_u64(x).take(8) =~= le_bytes_u64(x));
    r
}

/// What the SPIR-V key of a shader hashes, chunk by chunk: the
/// transpilation version, the shader type and the source text.
pub open spec fn spec_spv_key_chunks(type_: u32, source: Seq<char>) -> Seq<Seq<u8>> {
    seq![le_bytes_u32(TRANSPILE_VERSION), le_bytes_u32(type_), encode_utf8(source)]
}

/// The chunks of a text prefixed by its length.
pub open spec fn sized_text_chunks(text: Seq<char>) -> Seq<Seq<u8>> {
    seq![le_bytes_u64(encode_utf8(text).len() as u64), encode_utf8(text)]
}

/// The chunks of the first `n` stages: each stage's type, then the ids of
/// its shaders.
pub open spec fn stage_chunks(stages: Seq<Seq<u32>>, n: int) -> Seq<Seq<u8>>
    decreases n,
{
    if n <= 0 {
        Seq::empty()
    } else {
        stage_chunks(stages, n - 1) + seq![le_bytes_u32(spec_stage_enum((n - 1) as usize)->0)]
            + stages[n - 1].map_values(|id: u32| le_bytes_u32(id))
    }
}

/// What the key of a linked program hashes, chunk by chunk: the driver's
/// version, renderer and shading-language texts, each after its length,
/// then every stage's type and shader ids.
pub open spec fn spec_program_key_chunks(
    version: Seq<char>,
    renderer: Seq<char>,
    shading_language_version: Seq<char>,
    stages: Seq<Seq<u32>>,
) -> Seq<Seq<u8>> {
    sized_text_chunks(version) + sized_text_chunks(renderer) + sized_text_chunks(
        shading_language_version,
    ) + stage_chunks(stages, 6)
}

/// The chunks that the SPIR-V key of `shader` hashes.
pub fn spv_key_chunks(shader: &Shader) -> (r: Vec<Vec<u8>>)
    ensures
        r@.map_values(|c: Vec<u8>| c@) == spec_spv_key_chunks(shader@.type_, shader@.source),
{
    let mut r: Vec<Vec<u8>> = Vec::new();
    r.push(u32_le_bytes(TRANSPILE_VERSION));
    r.push(u32_le_bytes(shader.type_()));
    r.push(crate::utils::bytes::str_bytes(shader.source().as_str()));
    assert(r@.map_values(|c: Vec<u8>| c@) =~= spec_spv_key_chunks(shader@.type_, shader@.source));
    r
}

/// Appends the length-prefixed bytes of `text` to `chunks`.
fn push_sized_text(chunks: &mut Vec<Vec<u8>>, text: &String)
    ensures
        final(chunks)@.map_values(|c: Vec<u8>| c@) == old(chunks)@.map_values(|c: Vec<u8>| c@)
            + sized_text_chunks(text@),
{
    let bytes = crate::utils::bytes::str_bytes(text.as_str());
    chunks.push(u64_le_bytes(bytes.len() as u64));
    chunks.push(bytes);
    assert(final(chunks)@.map_values(|c: Vec<u8>| c@) =~= old(chunks)@.map_values(|c: Vec<u8>| c@)
        + sized_text_chunks(text@));
}

/// The chunks that the key of `program`, linked on the driver that `es`
/// describes, hashes.
pub fn program_key_chunks(es: &ESContext, program: &Program) -> (r: Vec<Vec<u8>>)
    ensures
        r@.map_values(|c: Vec<u8>| c@) == spec_program_key_chunks(
            es.version@,
            es.renderer@,
            es.shading_language_version@,
            program@.stages,
        ),
{
    let mut r: Vec<Vec<u8>> = Vec::new();
    push_sized_text(&mut r, &es.version);
    push_sized_text(&mut r, &es.renderer);
    push_sized_text(&mut r, &es.shading_language_version);
    let ghost head = r@.map_values(|c: Vec<u8>| c@);
    assert(head == sized_text_chunks(es.version@) + sized_text_chunks(es.renderer@)
        + sized_text_chunks(es.shading_language_version@));
    let n = program.stage_count();
    let mut i: usize = 0;
    while i < n
        invariant
            n == 6,
            program@.stages.len() == 6,
            i <= n,
            r@.map_values(|c: Vec<u8>| c@) == head + stage_chunks(program@.stages, i as int),
        decreases n - i,
    {
        let ghost before = r@.map_values(|c: Vec<u8>| c@);
        let stage_type = match i.from_stage_key() {
            Some(t) => t,
            None => 0,
        };
        r.push(u32_le_bytes(stage_type));
        let ids = program.stage_shaders(i);
        let ghost mid = r@.map_values(|c: Vec<u8>| c@);
        assert(mid =~= before + seq![le_bytes_u32(spec_stage_enum(i)->0)]);
        let mut j: usize = 0;
        while j < ids.len()
            invariant
                j <= ids@.len(),
                r@.map_values(|c: Vec<u8>| c@) == mid + ids@.take(j as int).map_values(
                    |id: u32| le_bytes_u32(id),
                ),
            decreases ids@.len() - j,
        {
            let ghost prev = r@;
            r.push(u32_le_bytes(ids[j]));
            assert(r@.map_values(|c: Vec<u8>| c@) =~= prev.map_values(|c: Vec<u8>| c@).push(
                le_bytes_u32(ids@[j as int]),
            ));
            assert(ids@.take(j + 1).map_values(|id: u32| le_bytes_u32(id)) =~= ids@.take(
                j as int,
            ).map_values(|id: u32| le_bytes_u32(id)).push(le_bytes_u32(ids@[j as int])));
            assert(r@.map_values(|c: Vec<u8>| c@) =~= mid + ids@.take(j + 1).map_values(
                |id: u32| le_bytes_u32(id),
            ));
            j = j + 1;
        }
        assert(ids@.take(ids@.len() as int) =~= ids@);
        assert(stage_chunks(program@.stages, i + 1) == stage_chunks(program@.stages, i as int)
            + seq![le_bytes_u32(spec_stage_enum(i)->0)] + program@.stages[i as int].map_values(
            |id: u32| le_bytes_u32(id),
        ));
        assert(r@.map_values(|c: Vec<u8>| c@) =~= head + stage_chunks(program@.stages, i + 1));
        i = i + 1;
    }
    r
}

} // verus!
