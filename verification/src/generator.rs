//! The plan by which the GL and EGL dispatch tables of the layer are
//! generated: which APIs, at which versions, written where.

use vstd::prelude::*;
use vstd::string::{StrSliceExecFns, StringExecFns};

use crate::utils::chars::to_char_vec;
use crate::utils::path::{join, spec_join};

verus! {

/// How the generated bindings reach the API's functions.
#[derive(Debug, PartialEq, Eq, Structural, Clone, Copy)]
pub enum GeneratorType {
    Global,
    Struct,
    Static,
}

/// The Khronos APIs that bindings can be generated for.
#[derive(Debug, PartialEq, Eq, Structural, Clone, Copy)]
pub enum GlApi {
    Gl,
    Gles1,
    Gles2,
    Glsc2,
    GlCore,
    Glx,
    Wgl,
    Egl,
}

/// The API profiles that bindings can be generated for.
#[derive(Debug, PartialEq, Eq, Structural, Clone, Copy)]
pub enum GlProfile {
    Core,
    Compatibility,
}

/// One API to generate bindings for.
pub struct ApiConfig {
    pub api: GlApi,
    pub version: (u8, u8),
    pub profile: GlProfile,
    pub generator: GeneratorType,
}

/// The name of the module that holds an API's bindings.
pub open spec fn spec_api_mod_name(api: GlApi) -> Seq<char> {
    match api {
        GlApi::Gl => "gl"@,
        GlApi::Gles1 => "gles1"@,
        GlApi::Gles2 => "gles2"@,
        GlApi::Glsc2 => "glsc2"@,
        GlApi::GlCore => "glcore"@,
        GlApi::Glx => "glx"@,
        GlApi::Wgl => "wgl"@,
        GlApi::Egl => "egl"@,
    }
}

/// `s` with every `{}` replaced by `with`, scanning from the left (what
/// `str::replace` does with the pattern `{}`).
pub open spec fn replace_braces(s: Seq<char>, with: Seq<char>) -> Seq<char>
    decreases s.len(),
{
    if s.len() == 0 {
        s
    } else if s.len() >= 2 && s[0] == '{' && s[1] == '}' {
        with + replace_braces(s.skip(2), with)
    } else {
        seq![s[0]] + replace_braces(s.skip(1), with)
    }
}

/// The first lines of the module that holds an API's bindings in a single
/// bindings file.
pub open spec fn spec_module_header(api: GlApi) -> Seq<char> {
    "pub mod "@ + spec_api_mod_name(api) + " {\n    #![allow(unsafe_op_in_unsafe_fn)]\n"@
}

/// The name of the module that holds an API's bindings.
pub fn api_mod_name(api: GlApi) -> (r: &'static str)
    ensures
        r@ == spec_api_mod_name(api),
{
    match api {
        GlApi::Gl => "gl",
        GlApi::Gles1 => "gles1",
        GlApi::Gles2 => "gles2",
        GlApi::Glsc2 => "glsc2",
        GlApi::GlCore => "glcore",
        GlApi::Glx => "glx",
        GlApi::Wgl => "wgl",
        GlApi::Egl => "egl",
    }
}

/// The first lines of an API's module in a single bindings file.
pub fn module_header(api: GlApi) -> (r: String)
    ensures
        r@ == spec_module_header(api),
{
    let mut r = String::from_str("pub mod ");
    r.append(api_mod_name(api));
    r.append(" {\n    #![allow(unsafe_op_in_unsafe_fn)]\n");
    r
}

/// The last line of an API's module in a single bindings file.
pub fn module_footer() -> (r: String)
    ensures
        r@ == "}\n"@,
{
    String::from_str("}\n")
}

/// `pattern` with every `{}` replaced by `with`.
pub fn replace_braces_exec(pattern: &str, with: &str) -> (r: String)
    ensures
        r@ == replace_braces(pattern@, with@),
{
    let s = to_char_vec(pattern);
    let mut r = String::new();
    let mut start: usize = 0;
    let mut i: usize = 0;
    assert(s@.skip(0) =~= s@);
    assert(s@.subrange(0, 0) =~= Seq::<char>::empty());
    assert(r@ + s@.subrange(0, 0) + replace_braces(s@.skip(0), with@) =~= replace_braces(
        pattern@,
        with@,
    ));
    while i < s.len()
        invariant
            s@ == pattern@,
            start <= i <= s@.len(),
            r@ + s@.subrange(start as int, i as int) + replace_braces(s@.skip(i as int), with@)
                == replace_braces(pattern@, with@),
        decreases s@.len() - i,
    {
        let ghost rest = s@.skip(i as int);
        if i + 1 < s.len() && s[i] == '{' && s[i + 1] == '}' {
            assert(rest.skip(2) =~= s@.skip(i + 2));
            r.append(pattern.substring_char(start, i));
            r.append(with);
            assert(s@.subrange(i + 2, i + 2) =~= Seq::<char>::empty());
            i = i + 2;
            start = i;
        } else {
            assert(rest.skip(1) =~= s@.skip(i + 1));
            assert(s@.subrange(start as int, i + 1) =~= s@.subrange(start as int, i as int) + seq![
                s@[i as int],
            ]);
            i = i + 1;
        }
    }
    r.append(pattern.substring_char(start, i));
    assert(s@.skip(i as int) =~= Seq::<char>::empty());
    r
}

/// Collects the APIs to generate bindings for and where to write them.
pub struct BindingsBuilder {
    out_dir: String,
    apis: Vec<ApiConfig>,
}

impl BindingsBuilder {
    /// The directory the bindings go to.
    pub closed spec fn spec_out_dir(&self) -> Seq<char> {
        self.out_dir@
    }

    /// The APIs collected so far, in order.
    pub closed spec fn spec_apis(&self) -> Seq<ApiConfig> {
        self.apis@
    }

    /// No APIs yet; bindings go to `out_dir`.
    pub fn new(out_dir: String) -> (r: Self)
        ensures
            r.spec_out_dir() == out_dir@,
            r.spec_apis() == Seq::<ApiConfig>::empty(),
    {
        BindingsBuilder { out_dir, apis: Vec::new() }
    }

    /// Adds an API, after those collected so far.
    pub fn with_api(
        self,
        api: GlApi,
        version: (u8, u8),
        profile: GlProfile,
        generator: GeneratorType,
    ) -> (r: Self)
        ensures
            r.spec_out_dir() == self.spec_out_dir(),
            r.spec_apis() == self.spec_apis().push(ApiConfig { api, version, profile, generator }),
    {
        let mut b = self;
        b.apis.push(ApiConfig { api, version, profile, generator });
        b
    }

    /// The APIs collected so far.
    pub fn apis(&self) -> (r: &Vec<ApiConfig>)
        ensures
            r@ == self.spec_apis(),
    {
        &self.apis
    }

    /// The path of the single bindings file `filename`.
    pub fn single_file_path(&self, filename: &str) -> (r: String)
        ensures
            r@ == spec_join(self.spec_out_dir(), filename@),
    {
        join(&self.out_dir, filename)
    }

    /// The path of the bindings file of each collected API, in order: the
    /// pattern with `{}` replaced by the API's module name.
    pub fn separate_file_paths(&self, filename_pattern: &str) -> (r: Vec<String>)
        ensures
            r@.len() == self.spec_apis().len(),
            forall|i: int|
                0 <= i < r@.len() ==> #[trigger] r@[i]@ == spec_join(
                    self.spec_out_dir(),
                    replace_braces(filename_pattern@, spec_api_mod_name(self.spec_apis()[i].api)),
                ),
    {
        let mut r: Vec<String> = Vec::new();
        let mut i: usize = 0;
        while i < self.apis.len()
            invariant
                i <= self.apis@.len(),
                r@.len() == i,
                forall|j: int|
                    0 <= j < i ==> #[trigger] r@[j]@ == spec_join(
                        self.out_dir@,
                        replace_braces(filename_pattern@, spec_api_mod_name(self.apis@[j].api)),
                    ),
            decreases self.apis@.len() - i,
        {
            let name = replace_braces_exec(filename_pattern, api_mod_name(self.apis[i].api));
            r.push(join(&self.out_dir, name.as_str()));
            i = i + 1;
        }
        r
    }
}

} // verus!
