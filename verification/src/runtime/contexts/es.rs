use vstd::prelude::*;
use vstd::string::StringExecFns;

use crate::utils::strset::StringSet;

verus! {

/// What the GLES driver underneath reports about itself.
pub struct ESContext {
    pub version_double: (u8, u8),
    pub version: String,
    pub renderer: String,
    pub shading_language_version: String,
    pub real_extensions: StringSet,
}

impl ESContext {
    /// The placeholders that stand until the driver has been asked.
    pub fn new() -> (r: Self)
        ensures
            r.version_double == (0u8, 0u8),
            r.version@ == "Open GL ES 0.0"@,
            r.renderer@ == "Maldreno (TM) GPU (Couldn't load GL_RENDERER)"@,
            r.shading_language_version@ == "0.0 Maldreno"@,
            r.real_extensions@ == Set::<Seq<char>>::empty(),
    {
        ESContext {
            version_double: (0, 0),
            version: String::from_str("Open GL ES 0.0"),
            renderer: String::from_str("Maldreno (TM) GPU (Couldn't load GL_RENDERER)"),
            shading_language_version: String::from_str("0.0 Maldreno"),
            real_extensions: StringSet::new(),
        }
    }
}

} // verus!
