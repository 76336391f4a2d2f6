pub mod management;

use vstd::prelude::*;

verus! {

/// The per-context state of the first generation of the layer: the GLES
/// version underneath and the version and renderer texts it reports.
pub struct FogleContext {
    pub es_version: (u8, u8),
    pub gl_version: String,
    pub gl_renderer: String,
}

impl FogleContext {
    /// Version 0.0 and empty texts.
    pub fn new() -> (r: Self)
        ensures
            r.es_version == (0u8, 0u8),
            r.gl_version@ == Seq::<char>::empty(),
            r.gl_renderer@ == Seq::<char>::empty(),
    {
        FogleContext { es_version: (0, 0), gl_version: String::new(), gl_renderer: String::new() }
    }
}

} // verus!
