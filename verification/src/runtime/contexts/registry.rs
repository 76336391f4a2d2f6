use vstd::prelude::*;

use std::collections::HashMap;

verus! {

broadcast use vstd::std_specs::hash::group_hash_axioms;

/// The contexts of a process, by EGL context handle (an address; 0 is the
/// null handle).
pub struct ContextRegistry<C> {
    contexts: HashMap<usize, Box<C>>,
}

/// What `bind` makes of a handle, given the handles that carry a context
/// and the context current on the thread: whether the bind succeeds, and
/// the context current afterwards.  The null handle unbinds; an unknown
/// handle is refused and changes nothing.
pub open spec fn spec_bind(
    handles: Set<usize>,
    current: Option<usize>,
    handle: usize,
) -> (bool, Option<usize>) {
    if handle == 0 {
        (true, None)
    } else if handles.contains(handle) {
        (true, Some(handle))
    } else {
        (false, current)
    }
}

impl<C> ContextRegistry<C> {
    /// The handles that carry a context.
    pub closed spec fn handles(&self) -> Set<usize> {
        self.contexts@.dom()
    }

    /// The context that `handle` carries.
    pub closed spec fn context(&self, handle: usize) -> C {
        *self.contexts@[handle]
    }

    /// No contexts.
    pub fn new() -> (r: Self)
        ensures
            r.handles() == Set::<usize>::empty(),
    {
        ContextRegistry { contexts: HashMap::new() }
    }

    /// Lets `handle` carry `context` (replacing what it carried).
    pub fn insert(&mut self, handle: usize, context: C)
        ensures
            final(self).handles() == old(self).handles().insert(handle),
            final(self).context(handle) == context,
            forall|h: usize|
                h != handle && old(self).handles().contains(h) ==> #[trigger] final(self).context(h)
                    == old(self).context(h),
    {
        self.contexts.insert(handle, Box::new(context));
    }

    /// Drops the context that `handle` carries, if any.
    pub fn remove(&mut self, handle: usize)
        ensures
            final(self).handles() == old(self).handles().remove(handle),
            forall|h: usize|
                h != handle && old(self).handles().contains(h) ==> #[trigger] final(self).context(h)
                    == old(self).context(h),
    {
        self.contexts.remove(&handle);
    }

    /// Takes the context that `handle` carries out of the registry, if any.
    pub fn take(&mut self, handle: usize) -> (r: Option<C>)
        ensures
            final(self).handles() == old(self).handles().remove(handle),
            r is Some == old(self).handles().contains(handle),
            r matches Some(c) ==> c == old(self).context(handle),
            forall|h: usize|
                h != handle && old(self).handles().contains(h) ==> #[trigger] final(self).context(h)
                    == old(self).context(h),
    {
        match self.contexts.remove(&handle) {
            Some(b) => Some(*b),
            None => None,
        }
    }

    /// Whether `handle` carries a context.
    pub fn contains(&self, handle: usize) -> (r: bool)
        ensures
            r == self.handles().contains(handle),
    {
        self.contexts.contains_key(&handle)
    }

    /// The context that `handle` carries, if any.
    pub fn get(&self, handle: usize) -> (r: Option<&C>)
        ensures
            r is Some == self.handles().contains(handle),
            r matches Some(c) ==> *c == self.context(handle),
    {
        match self.contexts.get(&handle) {
            Some(b) => Some(&**b),
            None => None,
        }
    }

    /// Makes `handle`'s context current on the thread whose current context
    /// is `current` (see `spec_bind`); `true` when the bind succeeds.
    pub fn bind(&self, current: &mut Option<usize>, handle: usize) -> (r: bool)
        ensures
            (r, *final(current)) == spec_bind(self.handles(), *old(current), handle),
    {
        if handle == 0 {
            *current = None;
            return true;
        }
        if self.contains(handle) {
            *current = Some(handle);
            true
        } else {
            false
        }
    }

    /// The context current on the thread, if one is bound and still carried.
    pub fn current(&self, current: Option<usize>) -> (r: Option<&C>)
        ensures
            r is Some == (current matches Some(h) && self.handles().contains(h)),
            r matches Some(c) ==> *c == self.context(current->0),
    {
        match current {
            Some(h) => self.get(h),
            None => None,
        }
    }
}

/// A handle that has just been registered binds, and becomes current.
pub proof fn lemma_register_then_bind(handles: Set<usize>, current: Option<usize>, handle: usize)
    requires
        handle != 0,
    ensures
        spec_bind(handles.insert(handle), current, handle) == (true, Some(handle)),
{
}

/// A handle that has just been unregistered no longer binds, and the
/// current context stays as it was.
pub proof fn lemma_unregister_then_bind(handles: Set<usize>, current: Option<usize>, handle: usize)
    requires
        handle != 0,
    ensures
        spec_bind(handles.remove(handle), current, handle) == (false, current),
{
}

/// The null handle always binds and leaves no context current.
pub proof fn lemma_bind_null(handles: Set<usize>, current: Option<usize>)
    ensures
        spec_bind(handles, current, 0) == (true, None::<usize>),
{
}

} // verus!
