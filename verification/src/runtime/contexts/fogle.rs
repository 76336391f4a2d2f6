use vstd::prelude::*;
use vstd::string::StringExecFns;

use crate::bindings::gl;
use crate::runtime::contexts::errors::{
    errors_readable, is_lowest_set_bit, record_error, spec_bit_error, spec_error_bit, take_error,
};
use crate::runtime::contexts::es::ESContext;
use crate::runtime::shader::{PipelineState, ShaderView};
use crate::traits::gl::{AsGLBool, spec_stage_key};
use crate::utils::strset::StringSet;
use crate::utils::text::{append_decimal_u8, spec_decimal};

verus! {

broadcast use vstd::std_specs::hash::group_hash_axioms;

/// The desktop-GL face of a context: what it reports as its version and
/// renderer, the GL errors raised and not yet fetched (one bit each), its
/// shader and program objects, and the extensions it advertises.
pub struct FogleContext {
    pub version: String,
    pub renderer: String,
    pub current_error: u32,
    pub shader_pipeline: PipelineState,
    pub fake_extensions: StringSet,
}

/// The text `4.5 (on ES <major>.<minor>)`.
pub open spec fn spec_version_text(es: (u8, u8)) -> Seq<char> {
    "4.5 (on ES "@ + spec_decimal(es.0 as nat) + "."@ + spec_decimal(es.1 as nat) + ")"@
}

/// The text `FOGLTLOGLES <build> (on <renderer>)`.
pub open spec fn spec_renderer_text(renderer: Seq<char>) -> Seq<char> {
    "FOGLTLOGLES crate::build_info::get_version() (on "@ + renderer + ")"@
}

impl FogleContext {
    /// The placeholders that stand until the context is first made current:
    /// no pending errors, no objects, no extensions.
    pub fn new() -> (r: Self)
        ensures
            r.version@ == "4.5 (on ES 0.0)"@,
            r.renderer@ == "FOGLTLOGLES 0.0 (on Unknown)"@,
            r.current_error == 0,
            r.shader_pipeline.shaders@ == Map::<u32, crate::runtime::shader::Shader>::empty(),
            r.shader_pipeline.programs@ == Map::<u32, crate::runtime::shader::Program>::empty(),
            r.fake_extensions@ == Set::<Seq<char>>::empty(),
    {
        FogleContext {
            version: String::from_str("4.5 (on ES 0.0)"),
            renderer: String::from_str("FOGLTLOGLES 0.0 (on Unknown)"),
            current_error: 0,
            shader_pipeline: PipelineState::new(),
            fake_extensions: StringSet::new(),
        }
    }

    /// Records `error` as raised, if it is one of the seven GL errors that
    /// a context keeps; any other enum is ignored.
    pub fn raise_error(&mut self, error: u32)
        ensures
            final(self).current_error == (match spec_error_bit(error) {
                Some(b) => old(self).current_error | (1u32 << b),
                None => old(self).current_error,
            }),
            final(self).version == old(self).version,
            final(self).renderer == old(self).renderer,
            final(self).shader_pipeline == old(self).shader_pipeline,
            final(self).fake_extensions == old(self).fake_extensions,
    {
        self.current_error = record_error(self.current_error, error);
    }

    /// Fetches a raised error, as `glGetError` does: `GL_NO_ERROR` when none
    /// is pending, else the one with the lowest bit, which stops being
    /// pending.
    pub fn get_error(&mut self) -> (r: u32)
        requires
            errors_readable(old(self).current_error),
        ensures
            old(self).current_error == 0 ==> r == gl::NO_ERROR && final(self).current_error == 0,
            old(self).current_error != 0 ==> exists|i: u32|
                #![trigger is_lowest_set_bit(old(self).current_error, i)]
                {
                    &&& is_lowest_set_bit(old(self).current_error, i)
                    &&& i < 7
                    &&& r == spec_bit_error(i)
                    &&& final(self).current_error == old(self).current_error & !(1u32 << i)
                },
            final(self).version == old(self).version,
            final(self).renderer == old(self).renderer,
            final(self).shader_pipeline == old(self).shader_pipeline,
            final(self).fake_extensions == old(self).fake_extensions,
    {
        let (error, rest) = take_error(self.current_error);
        self.current_error = rest;
        error
    }

    /// Sets the version and renderer texts from what the GLES driver
    /// reported.
    pub fn describe_driver(&mut self, es: &ESContext)
        ensures
            final(self).version@ == spec_version_text(es.version_double),
            final(self).renderer@ == spec_renderer_text(es.renderer@),
            final(self).current_error == old(self).current_error,
            final(self).shader_pipeline == old(self).shader_pipeline,
            final(self).fake_extensions == old(self).fake_extensions,
    {
        let mut version = String::from_str("4.5 (on ES ");
        append_decimal_u8(&mut version, es.version_double.0);
        version.append(".");
        append_decimal_u8(&mut version, es.version_double.1);
        version.append(")");
        let mut renderer = String::from_str("FOGLTLOGLES crate::build_info::get_version() (on ");
        renderer.append(es.renderer.as_str());
        renderer.append(")");
        self.version = version;
        self.renderer = renderer;
    }

    /// `glShaderSource`: replaces the source of a shader object, or raises
    /// `GL_INVALID_OPERATION` for a name no shader object carries.
    pub fn shader_source(&mut self, shader_id: u32, source: String)
        ensures
            old(self).shader_pipeline.shaders@.contains_key(shader_id) ==> {
                &&& final(self).current_error == old(self).current_error
                &&& final(self).shader_pipeline.shaders@.dom() == old(self).shader_pipeline.shaders@.dom()
                &&& final(self).shader_pipeline.shaders@[shader_id]@ == (ShaderView {
                    source: source@,
                    ..old(self).shader_pipeline.shaders@[shader_id]@
                })
                &&& forall|k: u32|
                    k != shader_id ==> #[trigger] final(self).shader_pipeline.shaders@.get(k)
                        == old(self).shader_pipeline.shaders@.get(k)
            },
            !old(self).shader_pipeline.shaders@.contains_key(shader_id) ==> {
                &&& final(self).current_error == old(self).current_error | (1u32 << 2u32)
                &&& final(self).shader_pipeline.shaders@ == old(self).shader_pipeline.shaders@
            },
            final(self).shader_pipeline.programs@ == old(self).shader_pipeline.programs@,
            final(self).version == old(self).version,
            final(self).renderer == old(self).renderer,
            final(self).fake_extensions == old(self).fake_extensions,
    {
        match self.shader_pipeline.shaders.remove(&shader_id) {
            Some(mut shader) => {
                shader.set_source(source);
                self.shader_pipeline.shaders.insert(shader_id, shader);
                assert(self.shader_pipeline.shaders@.dom() =~= old(self).shader_pipeline.shaders@.dom());
            },
            None => {
                self.raise_error(gl::INVALID_OPERATION);
            },
        }
    }

    /// `glAttachShader`: attaches a shader object to a program object (the
    /// program's stage list gains the id that the shader object carries);
    /// raises `GL_INVALID_OPERATION` when either name carries no object or
    /// the shader's type is no shader stage.
    pub fn attach_shader(&mut self, program_id: u32, shader_id: u32)
        ensures
            final(self).shader_pipeline.shaders@ == old(self).shader_pipeline.shaders@,
            final(self).shader_pipeline.programs@.dom() == old(self).shader_pipeline.programs@.dom(),
            forall|k: u32|
                k != program_id ==> #[trigger] final(self).shader_pipeline.programs@.get(k) == old(self).shader_pipeline.programs@.get(k),
            old(self).shader_pipeline.programs@.contains_key(program_id)
                && old(self).shader_pipeline.shaders@.contains_key(shader_id) && spec_stage_key(
                old(self).shader_pipeline.shaders@[shader_id]@.type_,
            ) is Some ==> {
                let k = spec_stage_key(old(self).shader_pipeline.shaders@[shader_id]@.type_)->0 as int;
                let p = old(self).shader_pipeline.programs@[program_id]@;
                &&& final(self).current_error == old(self).current_error
                &&& final(self).shader_pipeline.programs@[program_id]@ == (
                crate::runtime::shader::ProgramView {
                    stages: p.stages.update(
                        k,
                        p.stages[k].push(old(self).shader_pipeline.shaders@[shader_id]@.id),
                    ),
                    ..p
                })
            },
            !(old(self).shader_pipeline.programs@.contains_key(program_id)
                && old(self).shader_pipeline.shaders@.contains_key(shader_id) && spec_stage_key(
                old(self).shader_pipeline.shaders@[shader_id]@.type_,
            ) is Some) ==> final(self).current_error == old(self).current_error | (1u32 << 2u32),
            !(old(self).shader_pipeline.programs@.contains_key(program_id)
                && old(self).shader_pipeline.shaders@.contains_key(shader_id) && spec_stage_key(
                old(self).shader_pipeline.shaders@[shader_id]@.type_,
            ) is Some) && old(self).shader_pipeline.programs@.contains_key(program_id)
                ==> final(self).shader_pipeline.programs@[program_id]@ == old(self).shader_pipeline.programs@[program_id]@,
            final(self).version == old(self).version,
            final(self).renderer == old(self).renderer,
            final(self).fake_extensions == old(self).fake_extensions,
    {
        let mut program = match self.shader_pipeline.programs.remove(&program_id) {
            Some(program) => program,
            None => {
                self.raise_error(gl::INVALID_OPERATION);
                return ;
            },
        };
        let ghost p0 = program@;
        let attached = match self.shader_pipeline.shaders.get(&shader_id) {
            Some(shader) => {
                let res = program.attach(shader);
                assert(res is Ok <==> spec_stage_key(shader@.type_) is Some);
                res.is_ok()
            },
            None => false,
        };
        assert(!attached ==> program@ == p0);
        assert(p0 == old(self).shader_pipeline.programs@[program_id]@);
        self.shader_pipeline.programs.insert(program_id, program);
        assert(self.shader_pipeline.programs@.dom() =~= old(self).shader_pipeline.programs@.dom());
        if !attached {
            self.raise_error(gl::INVALID_OPERATION);
        }
    }

    /// Whether a shader object carries the name `shader_id`, as
    /// `glCompileShader` asks first; when none does, `GL_INVALID_OPERATION`
    /// is raised.
    pub fn require_shader(&mut self, shader_id: u32) -> (r: bool)
        ensures
            r == old(self).shader_pipeline.shaders@.contains_key(shader_id),
            final(self).current_error == (if r {
                old(self).current_error
            } else {
                old(self).current_error | (1u32 << 2u32)
            }),
            final(self).shader_pipeline == old(self).shader_pipeline,
            final(self).version == old(self).version,
            final(self).renderer == old(self).renderer,
            final(self).fake_extensions == old(self).fake_extensions,
    {
        if self.shader_pipeline.shaders.contains_key(&shader_id) {
            true
        } else {
            self.raise_error(gl::INVALID_OPERATION);
            false
        }
    }

    /// Whether a program object carries the name `program_id`, as
    /// `glLinkProgram` asks first; when none does, `GL_INVALID_VALUE` is
    /// raised.
    pub fn require_program(&mut self, program_id: u32) -> (r: bool)
        ensures
            r == old(self).shader_pipeline.programs@.contains_key(program_id),
            final(self).current_error == (if r {
                old(self).current_error
            } else {
                old(self).current_error | (1u32 << 1u32)
            }),
            final(self).shader_pipeline == old(self).shader_pipeline,
            final(self).version == old(self).version,
            final(self).renderer == old(self).renderer,
            final(self).fake_extensions == old(self).fake_extensions,
    {
        if self.shader_pipeline.programs.contains_key(&program_id) {
            true
        } else {
            self.raise_error(gl::INVALID_VALUE);
            false
        }
    }

    /// `glGetShaderiv(GL_COMPILE_STATUS)`: whether the shader object
    /// compiled, as a GL boolean (false for a name that carries none).
    pub fn shader_compile_status(&self, shader_id: u32) -> (r: u8)
        ensures
            r == (if self.shader_pipeline.shaders@.contains_key(shader_id)
                && self.shader_pipeline.shaders@[shader_id]@.compiled {
                gl::TRUE
            } else {
                gl::FALSE
            }),
    {
        let compiled = match self.shader_pipeline.shaders.get(&shader_id) {
            Some(shader) => shader.compiled(),
            None => false,
        };
        compiled.as_gl_bool()
    }

    /// `glGetProgramiv(GL_LINK_STATUS)`: whether the program object linked,
    /// as a GL boolean (false for a name that carries none).
    pub fn program_link_status(&self, program_id: u32) -> (r: u8)
        ensures
            r == (if self.shader_pipeline.programs@.contains_key(program_id)
                && self.shader_pipeline.programs@[program_id]@.linked {
                gl::TRUE
            } else {
                gl::FALSE
            }),
    {
        let linked = match self.shader_pipeline.programs.get(&program_id) {
            Some(program) => program.linked(),
            None => false,
        };
        linked.as_gl_bool()
    }
}

} // verus!
