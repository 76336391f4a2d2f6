use vstd::prelude::*;

use crate::bindings::gl;

verus! {

/// What `glGetIntegerv` answers on its own, for the queries through which a
/// desktop-GL application learns what context it got (a 3.3 core,
/// forward-compatible context without listed extensions); other queries go
/// to the driver.
pub open spec fn spec_integer_override(pname: u32) -> Option<i32> {
    if pname == gl::MAJOR_VERSION {
        Some(3i32)
    } else if pname == gl::MINOR_VERSION {
        Some(3i32)
    } else if pname == gl::CONTEXT_FLAGS {
        Some(gl::CONTEXT_FLAG_FORWARD_COMPATIBLE_BIT as i32)
    } else if pname == gl::CONTEXT_PROFILE_MASK {
        Some(gl::CONTEXT_CORE_PROFILE_BIT as i32)
    } else if pname == gl::NUM_EXTENSIONS {
        Some(0i32)
    } else {
        None
    }
}

/// The answer `glGetIntegerv` gives on its own for `pname`, if it does.
pub fn integer_override(pname: u32) -> (r: Option<i32>)
    ensures
        r == spec_integer_override(pname),
{
    if pname == gl::MAJOR_VERSION {
        Some(3)
    } else if pname == gl::MINOR_VERSION {
        Some(3)
    } else if pname == gl::CONTEXT_FLAGS {
        Some(gl::CONTEXT_FLAG_FORWARD_COMPATIBLE_BIT as i32)
    } else if pname == gl::CONTEXT_PROFILE_MASK {
        Some(gl::CONTEXT_CORE_PROFILE_BIT as i32)
    } else if pname == gl::NUM_EXTENSIONS {
        Some(0)
    } else {
        None
    }
}

/// The strings that `glGetString` answers on its own.
#[derive(Debug, PartialEq, Eq, Structural, Clone, Copy)]
pub enum StringQuery {
    /// The context's version text.
    Version,
    /// The context's renderer text.
    Renderer,
    /// The vendor text `ThatMG393, AltIsBacc`.
    Vendor,
    /// The shading-language text `4.00 FOGLTLOGLES`.
    ShadingLanguageVersion,
}

/// Which string `glGetString` answers on its own for `pname`, if any;
/// other queries go to the driver.
pub open spec fn spec_string_override(pname: u32) -> Option<StringQuery> {
    if pname == gl::VERSION {
        Some(StringQuery::Version)
    } else if pname == gl::RENDERER {
        Some(StringQuery::Renderer)
    } else if pname == gl::VENDOR {
        Some(StringQuery::Vendor)
    } else if pname == gl::SHADING_LANGUAGE_VERSION {
        Some(StringQuery::ShadingLanguageVersion)
    } else {
        None
    }
}

/// The string `glGetString` answers on its own for `pname`, if any.
pub fn string_override(pname: u32) -> (r: Option<StringQuery>)
    ensures
        r == spec_string_override(pname),
{
    if pname == gl::VERSION {
        Some(StringQuery::Version)
    } else if pname == gl::RENDERER {
        Some(StringQuery::Renderer)
    } else if pname == gl::VENDOR {
        Some(StringQuery::Vendor)
    } else if pname == gl::SHADING_LANGUAGE_VERSION {
        Some(StringQuery::ShadingLanguageVersion)
    } else {
        None
    }
}

/// The draws that the fallback of `glMultiDrawElementsBaseVertex` issues
/// one by one: the indices below `drawcount` whose count is positive, in
/// order (none when `drawcount` is not positive).
pub open spec fn spec_draws_to_issue(counts: Seq<i32>) -> Seq<usize> {
    Seq::new(counts.len(), |i: int| i as usize).filter(|i: usize| counts[i as int] > 0)
}

/// The indices of the draws that the multi-draw fallback issues.
pub fn draws_to_issue(counts: &Vec<i32>) -> (r: Vec<usize>)
    ensures
        r@ == spec_draws_to_issue(counts@),
{
    let ghost all = Seq::new(counts@.len(), |i: int| i as usize);
    let ghost pred = |i: usize| counts@[i as int] > 0;
    let mut r: Vec<usize> = Vec::new();
    let mut i: usize = 0;
    while i < counts.len()
        invariant
            i <= counts@.len(),
            all == Seq::new(counts@.len(), |i: int| i as usize),
            pred == (|i: usize| counts@[i as int] > 0),
            r@ == all.take(i as int).filter(pred),
        decreases counts@.len() - i,
    {
        proof {
            reveal_with_fuel(Seq::<_>::filter, 1);
            assert(all.take(i + 1).drop_last() =~= all.take(i as int));
        }
        if counts[i] > 0 {
            r.push(i);
        }
        i = i + 1;
    }
    assert(all.take(counts@.len() as int) =~= all);
    r
}

/// The layer answers an integer query itself for exactly five queries: the
/// major and minor version (3.3), the context flags (forward compatible),
/// the profile mask (core) and the number of extensions (none listed); every
/// other query goes to the driver.
pub proof fn lemma_integer_override_domain(pname: u32)
    ensures
        spec_integer_override(pname) is Some <==> (pname == gl::MAJOR_VERSION || pname
            == gl::MINOR_VERSION || pname == gl::CONTEXT_FLAGS || pname
            == gl::CONTEXT_PROFILE_MASK || pname == gl::NUM_EXTENSIONS),
        pname == gl::MAJOR_VERSION || pname == gl::MINOR_VERSION ==> spec_integer_override(pname)
            == Some(3i32),
        pname == gl::CONTEXT_FLAGS ==> spec_integer_override(pname) == Some(
            gl::CONTEXT_FLAG_FORWARD_COMPATIBLE_BIT as i32,
        ),
        pname == gl::CONTEXT_PROFILE_MASK ==> spec_integer_override(pname) == Some(
            gl::CONTEXT_CORE_PROFILE_BIT as i32,
        ),
        pname == gl::NUM_EXTENSIONS ==> spec_integer_override(pname) == Some(0i32),
{
}

/// The layer answers a string query itself for exactly four queries: the
/// version, the renderer, the vendor and the shading-language version; every
/// other query goes to the driver.
pub proof fn lemma_string_override_domain(pname: u32)
    ensures
        spec_string_override(pname) is Some <==> (pname == gl::VERSION || pname == gl::RENDERER
            || pname == gl::VENDOR || pname == gl::SHADING_LANGUAGE_VERSION),
{
}

proof fn lemma_filter_from(s: Seq<usize>, p: spec_fn(usize) -> bool)
    ensures
        forall|k: int| 0 <= k < s.filter(p).len() ==> s.contains(#[trigger] s.filter(p)[k]),
    decreases s.len(),
{
    reveal_with_fuel(Seq::<_>::filter, 1);
    if s.len() > 0 {
        let dl = s.drop_last();
        lemma_filter_from(dl, p);
        assert forall|k: int| 0 <= k < s.filter(p).len() implies s.contains(
            #[trigger] s.filter(p)[k],
        ) by {
            if k < dl.filter(p).len() {
                assert(s.filter(p)[k] == dl.filter(p)[k]);
                let j = choose|j: int| 0 <= j < dl.len() && dl[j] == dl.filter(p)[k];
                assert(s[j] == dl[j]);
            } else {
                assert(s.filter(p)[k] == s.last());
                assert(s[s.len() - 1] == s.last());
            }
        }
    }
}

/// The multi-draw fallback issues exactly the draws whose count is positive:
/// every index it issues names a draw with a positive count, and every draw
/// with a positive count is issued.
pub proof fn lemma_draws_to_issue(counts: Seq<i32>)
    requires
        counts.len() <= usize::MAX,
    ensures
        forall|k: int|
            0 <= k < spec_draws_to_issue(counts).len() ==> {
                let i = #[trigger] spec_draws_to_issue(counts)[k];
                i < counts.len() && counts[i as int] > 0
            },
        forall|i: int|
            0 <= i < counts.len() && counts[i] > 0 ==> #[trigger] spec_draws_to_issue(
                counts,
            ).contains(i as usize),
{
    broadcast use vstd::seq_lib::group_filter_ensures;

    let all = Seq::new(counts.len(), |i: int| i as usize);
    let pred = |i: usize| counts[i as int] > 0;
    lemma_filter_from(all, pred);
    assert forall|k: int| 0 <= k < spec_draws_to_issue(counts).len() implies {
        let i = #[trigger] spec_draws_to_issue(counts)[k];
        i < counts.len() && counts[i as int] > 0
    } by {
        let x = all.filter(pred)[k];
        let j = choose|j: int| 0 <= j < all.len() && all[j] == x;
        all.lemma_filter_pred(pred, k);
    }
    assert forall|i: int| 0 <= i < counts.len() && counts[i] > 0 implies #[trigger] spec_draws_to_issue(
        counts,
    ).contains(i as usize) by {
        assert(all[i] == i as usize);
        all.lemma_filter_contains(pred, i);
    }
}

} // verus!
