use vstd::prelude::*;

use crate::runtime::contexts::registry::{spec_bind, ContextRegistry};
use crate::runtime::contexts::TranslationContext;

verus! {

/// `eglCreateContext` succeeded: the new handle carries a fresh
/// translation context.
pub fn register(registry: &mut ContextRegistry<TranslationContext>, handle: usize)
    ensures
        final(registry).handles() == old(registry).handles().insert(handle),
        final(registry).context(handle).es.version_double == (0u8, 0u8),
        final(registry).context(handle).es.version@ == "Open GL ES 0.0"@,
        final(registry).context(handle).es.renderer@ == "Maldreno (TM) GPU (Couldn't load GL_RENDERER)"@,
        final(registry).context(handle).es.shading_language_version@ == "0.0 Maldreno"@,
        final(registry).context(handle).fogle.version@ == "4.5 (on ES 0.0)"@,
        final(registry).context(handle).fogle.renderer@ == "FOGLTLOGLES 0.0 (on Unknown)"@,
        final(registry).context(handle).fogle.fake_extensions@ == Set::<Seq<char>>::empty(),
        final(registry).context(handle).fogle.current_error == 0,
        final(registry).context(handle).es.real_extensions@ == Set::<Seq<char>>::empty(),
        final(registry).context(handle).fogle.shader_pipeline.shaders@.dom() == Set::<u32>::empty(),
        final(registry).context(handle).fogle.shader_pipeline.programs@.dom() == Set::<u32>::empty(),
        forall|h: usize|
            h != handle && old(registry).handles().contains(h) ==> #[trigger] final(registry).context(h)
                == old(registry).context(h),
{
    registry.insert(handle, TranslationContext::new());
}

/// `eglDestroyContext` succeeded: the handle's context is dropped.
pub fn unregister(registry: &mut ContextRegistry<TranslationContext>, handle: usize)
    ensures
        final(registry).handles() == old(registry).handles().remove(handle),
        forall|h: usize|
            h != handle && old(registry).handles().contains(h) ==> #[trigger] final(registry).context(h)
                == old(registry).context(h),
{
    registry.remove(handle);
}

/// `eglMakeCurrent` succeeded: the handle's context becomes current on the
/// thread (see `spec_bind`); on `true` for a non-null handle the driver is
/// then asked about itself.
pub fn bind(
    registry: &ContextRegistry<TranslationContext>,
    current: &mut Option<usize>,
    handle: usize,
) -> (r: bool)
    ensures
        (r, *final(current)) == spec_bind(registry.handles(), *old(current), handle),
{
    registry.bind(current, handle)
}

/// The context current on the thread, if any.
pub fn current(registry: &ContextRegistry<TranslationContext>, bound: Option<usize>) -> (r: Option<
    &TranslationContext,
>)
    ensures
        r is Some == (bound matches Some(h) && registry.handles().contains(h)),
        r matches Some(c) ==> *c == registry.context(bound->0),
{
    registry.current(bound)
}

} // verus!
