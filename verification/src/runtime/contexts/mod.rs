pub mod errors;
pub mod es;
pub mod fogle;
pub mod management;
pub mod registry;

use vstd::prelude::*;

use crate::runtime::contexts::es::ESContext;
use crate::runtime::contexts::fogle::FogleContext;

verus! {

/// A translation context: the GLES driver's side and the desktop-GL side
/// of one EGL context.
pub struct TranslationContext {
    pub es: ESContext,
    pub fogle: FogleContext,
}

/// The set of the strings in a list.
pub open spec fn string_set(v: Seq<String>) -> Set<Seq<char>> {
    Set::new(|s: Seq<char>| exists|i: int| 0 <= i < v.len() && #[trigger] v[i]@ == s)
}

impl TranslationContext {
    /// A context with the placeholder driver report and nothing else.
    pub fn new() -> (r: Self)
        ensures
            r.es.version_double == (0u8, 0u8),
            r.es.version@ == "Open GL ES 0.0"@,
            r.es.renderer@ == "Maldreno (TM) GPU (Couldn't load GL_RENDERER)"@,
            r.es.shading_language_version@ == "0.0 Maldreno"@,
            r.es.real_extensions@ == Set::<Seq<char>>::empty(),
            r.fogle.version@ == "4.5 (on ES 0.0)"@,
            r.fogle.renderer@ == "FOGLTLOGLES 0.0 (on Unknown)"@,
            r.fogle.current_error == 0,
            r.fogle.fake_extensions@ == Set::<Seq<char>>::empty(),
            r.fogle.shader_pipeline.shaders@.dom() == Set::<u32>::empty(),
            r.fogle.shader_pipeline.programs@.dom() == Set::<u32>::empty(),
    {
        let r = TranslationContext { es: ESContext::new(), fogle: FogleContext::new() };
        assert(r.fogle.shader_pipeline.shaders@.dom() =~= Set::<u32>::empty());
        assert(r.fogle.shader_pipeline.programs@.dom() =~= Set::<u32>::empty());
        r
    }

    /// Takes in what the GLES driver reports once the context is current:
    /// its version (text and number), renderer and shading-language version
    /// replace the placeholders, its extensions join the real ones, and the
    /// advertised extensions become the real ones.
    pub fn record_driver_report(
        &mut self,
        version: String,
        version_double: (u8, u8),
        renderer: String,
        shading_language_version: String,
        extensions: &Vec<String>,
    )
        ensures
            final(self).es.version@ == version@,
            final(self).es.version_double == version_double,
            final(self).es.renderer@ == renderer@,
            final(self).es.shading_language_version@ == shading_language_version@,
            final(self).es.real_extensions@ == old(self).es.real_extensions@.union(
                string_set(extensions@),
            ),
            final(self).fogle.fake_extensions@ == final(self).es.real_extensions@,
            final(self).fogle.version == old(self).fogle.version,
            final(self).fogle.renderer == old(self).fogle.renderer,
            final(self).fogle.current_error == old(self).fogle.current_error,
            final(self).fogle.shader_pipeline == old(self).fogle.shader_pipeline,
    {
        let ghost version_v = version@;
        let ghost renderer_v = renderer@;
        let ghost slv_v = shading_language_version@;
        self.es.version_double = version_double;
        self.es.version = version;
        self.es.renderer = renderer;
        self.es.shading_language_version = shading_language_version;
        let ghost start = self.es.real_extensions@;
        let mut i: usize = 0;
        while i < extensions.len()
            invariant
                i <= extensions@.len(),
                self.es.version@ == version_v,
                self.es.version_double == version_double,
                self.es.renderer@ == renderer_v,
                self.es.shading_language_version@ == slv_v,
                self.fogle.version == old(self).fogle.version,
                self.fogle.renderer == old(self).fogle.renderer,
                self.fogle.current_error == old(self).fogle.current_error,
                self.fogle.shader_pipeline == old(self).fogle.shader_pipeline,
                self.es.real_extensions@ == start.union(string_set(extensions@.take(i as int))),
            decreases extensions@.len() - i,
        {
            let ghost before = self.es.real_extensions@;
            self.es.real_extensions.insert(extensions[i].clone());
            assert(string_set(extensions@.take(i + 1)) =~= string_set(extensions@.take(i as int)).insert(
                extensions@[i as int]@,
            )) by {
                assert forall|s: Seq<char>| #[trigger] string_set(extensions@.take(i + 1)).contains(s)
                    implies string_set(extensions@.take(i as int)).insert(extensions@[i as int]@).contains(s) by {
                    let k = choose|k: int| 0 <= k < i + 1 && #[trigger] extensions@.take(i + 1)[k]@ == s;
                    if k < i {
                        assert(extensions@.take(i as int)[k] == extensions@.take(i + 1)[k]);
                    }
                }
                assert forall|s: Seq<char>| string_set(extensions@.take(i as int)).insert(extensions@[i as int]@).contains(s)
                    implies #[trigger] string_set(extensions@.take(i + 1)).contains(s) by {
                    if s == extensions@[i as int]@ {
                        assert(extensions@.take(i + 1)[i as int]@ == s);
                    } else {
                        let k = choose|k: int| 0 <= k < i && #[trigger] extensions@.take(i as int)[k]@ == s;
                        assert(extensions@.take(i + 1)[k] == extensions@.take(i as int)[k]);
                    }
                }
            }
            assert(self.es.real_extensions@ =~= start.union(string_set(extensions@.take(i + 1))));
            i = i + 1;
        }
        assert(extensions@.take(extensions@.len() as int) =~= extensions@);
        self.fogle.fake_extensions = self.es.real_extensions.duplicate();
    }

    /// Registers the desktop-GL extension `name`: advertised, and `true`,
    /// when every extension it requires is among the driver's real ones;
    /// otherwise nothing changes and the answer is `false`.
    pub fn register_extension(&mut self, name: String, required: &Vec<String>) -> (r: bool)
        ensures
            r == string_set(required@).subset_of(old(self).es.real_extensions@),
            r ==> final(self).fogle.fake_extensions@ == old(self).fogle.fake_extensions@.insert(
                name@,
            ),
            !r ==> final(self).fogle.fake_extensions@ == old(self).fogle.fake_extensions@,
            final(self).es == old(self).es,
            final(self).fogle.version == old(self).fogle.version,
            final(self).fogle.renderer == old(self).fogle.renderer,
            final(self).fogle.current_error == old(self).fogle.current_error,
            final(self).fogle.shader_pipeline == old(self).fogle.shader_pipeline,
    {
        let mut i: usize = 0;
        while i < required.len()
            invariant
                i <= required@.len(),
                forall|j: int| 0 <= j < i ==> self.es.real_extensions@.contains(#[trigger] required@[j]@),
            decreases required@.len() - i,
        {
            if !self.es.real_extensions.contains(&required[i]) {
                assert(string_set(required@).contains(required@[i as int]@));
                return false;
            }
            i = i + 1;
        }
        assert forall|s: Seq<char>| #[trigger] string_set(required@).contains(s) implies self.es.real_extensions@.contains(s) by {
            let k = choose|k: int| 0 <= k < required@.len() && #[trigger] required@[k]@ == s;
        }
        self.fogle.fake_extensions.insert(name);
        true
    }
}

} // verus!
