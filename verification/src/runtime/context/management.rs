use vstd::prelude::*;

use crate::runtime::context::FogleContext;
use crate::runtime::contexts::registry::{spec_bind, ContextRegistry};

verus! {

/// `eglCreateContext` succeeded: the new handle carries a fresh context.
pub fn register(registry: &mut ContextRegistry<FogleContext>, handle: usize)
    ensures
        final(registry).handles() == old(registry).handles().insert(handle),
        final(registry).context(handle).es_version == (0u8, 0u8),
        final(registry).context(handle).gl_version@ == Seq::<char>::empty(),
        final(registry).context(handle).gl_renderer@ == Seq::<char>::empty(),
        forall|h: usize|
            h != handle && old(registry).handles().contains(h) ==> #[trigger] final(registry).context(h)
                == old(registry).context(h),
{
    registry.insert(handle, FogleContext::new());
}

/// `eglDestroyContext` succeeded: the handle's context is dropped.
pub fn unregister(registry: &mut ContextRegistry<FogleContext>, handle: usize)
    ensures
        final(registry).handles() == old(registry).handles().remove(handle),
        forall|h: usize|
            h != handle && old(registry).handles().contains(h) ==> #[trigger] final(registry).context(h)
                == old(registry).context(h),
{
    registry.remove(handle);
}

/// `eglMakeCurrent` succeeded: the handle's context becomes current on the
/// thread (see `spec_bind`).
pub fn bind(registry: &ContextRegistry<FogleContext>, current: &mut Option<usize>, handle: usize) -> (r:
    bool)
    ensures
        (r, *final(current)) == spec_bind(registry.handles(), *old(current), handle),
{
    registry.bind(current, handle)
}

/// The context current on the thread, if any.
pub fn current(registry: &ContextRegistry<FogleContext>, bound: Option<usize>) -> (r: Option<
    &FogleContext,
>)
    ensures
        r is Some == (bound matches Some(h) && registry.handles().contains(h)),
        r matches Some(c) ==> *c == registry.context(bound->0),
{
    registry.current(bound)
}

} // verus!
