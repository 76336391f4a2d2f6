//! How `*GetProcAddress` lookups are answered: by the layer's own entry
//! points where it has one under the asked name, else by the driver.

use vstd::prelude::*;

verus! {

/// The name a lookup asks for, as read from the caller's C string.
pub enum ProcName {
    /// A null pointer.
    Null,
    /// A C string that is not valid UTF-8.
    Unreadable,
    /// A readable name.
    Text(String),
}

/// Who answers a lookup.
#[derive(Debug, PartialEq, Eq, Structural, Clone, Copy)]
pub enum ProcResolution {
    /// The null pointer.
    Null,
    /// The layer's entry point at this position of its registry.
    Intercepted(usize),
    /// The driver's own lookup.
    Driver,
}

/// `intercepts[i]` is the first entry named `name`.
pub open spec fn is_first_match(intercepts: Seq<String>, name: Seq<char>, i: int) -> bool {
    &&& 0 <= i < intercepts.len()
    &&& intercepts[i]@ == name
    &&& forall|j: int| 0 <= j < i ==> #[trigger] intercepts[j]@ != name
}

/// Who answers a lookup of `name` given the names of the layer's entry
/// points: the null pointer for a null name, the first entry point of that
/// name, or else the driver (also for an unreadable name).
pub open spec fn spec_resolve_proc(intercepts: Seq<String>, name: ProcName) -> ProcResolution {
    match name {
        ProcName::Null => ProcResolution::Null,
        ProcName::Unreadable => ProcResolution::Driver,
        ProcName::Text(s) => if exists|i: int| is_first_match(intercepts, s@, i) {
            ProcResolution::Intercepted(
                (choose|i: int| is_first_match(intercepts, s@, i)) as usize,
            )
        } else {
            ProcResolution::Driver
        },
    }
}

/// Decides who answers a lookup of `name`.
pub fn resolve_proc(intercepts: &Vec<String>, name: &ProcName) -> (r: ProcResolution)
    ensures
        r == spec_resolve_proc(intercepts@, *name),
        r matches ProcResolution::Intercepted(i) ==> i < intercepts@.len() && (*name matches ProcName::Text(s) && intercepts@[i as int]@ == s@),
{
    match name {
        ProcName::Null => ProcResolution::Null,
        ProcName::Unreadable => ProcResolution::Driver,
        ProcName::Text(s) => {
            let mut i: usize = 0;
            while i < intercepts.len()
                invariant
                    i <= intercepts@.len(),
                    *name == ProcName::Text(*s),
                    forall|j: int| 0 <= j < i ==> #[trigger] intercepts@[j]@ != s@,
                decreases intercepts@.len() - i,
            {
                if intercepts[i] == *s {
                    proof {
                        assert(is_first_match(intercepts@, s@, i as int));
                        let c = choose|c: int| is_first_match(intercepts@, s@, c);
                        if c < i {
                            assert(intercepts@[c]@ == s@);
                        } else if c > i {
                            assert(intercepts@[i as int]@ != s@);
                        }
                    }
                    return ProcResolution::Intercepted(i);
                }
                i = i + 1;
            }
            proof {
                assert forall|c: int| !is_first_match(intercepts@, s@, c) by {
                    if is_first_match(intercepts@, s@, c) {
                        assert(intercepts@[c]@ != s@);
                    }
                }
            }
            ProcResolution::Driver
        },
    }
}

} // verus!
