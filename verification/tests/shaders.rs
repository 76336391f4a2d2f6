use std::collections::HashMap;

use fogltlogles::bindings::gl;
use fogltlogles::error::FogleError;
use fogltlogles::runtime::contexts::fogle::FogleContext;
use fogltlogles::runtime::shader::cache::ProgramCacheEntry;
use fogltlogles::runtime::shader::transpilation::{
    essl_options, glsl_to_spv, spv_to_essl, TranspileContext,
};
use fogltlogles::runtime::shader::transpilation::spirv::EsslVersion;
use fogltlogles::runtime::shader::{PipelineState, Program, Shader};
use fogltlogles::traits::gl::{AsGLBool, AsStageKey, FromGLBool, FromStageKey};
use fogltlogles::traits::shaderc::{FromShaderType, ShaderKind, ToShaderType};

/// A SPIR-V vertex shader whose `main` does nothing.
fn empty_vertex_module() -> Vec<u8> {
    let words: [u32; 27] = [
        0x0723_0203, 0x0001_0000, 0, 5, 0,
        0x0002_0011, 1,
        0x0003_000E, 0, 1,
        0x0005_000F, 0, 1, 0x6E69_616D, 0,
        0x0002_0013, 2,
        0x0003_0021, 3, 2,
        0x0005_0036, 2, 1, 0, 3,
        0x0002_00F8, 4,
    ];
    let mut bytes: Vec<u8> = Vec::new();
    for w in words.iter().chain([0x0001_00FDu32, 0x0001_0038u32].iter()) {
        bytes.extend_from_slice(&w.to_le_bytes());
    }
    bytes
}

/// A SPIR-V vertex shader that declares the uniform block `Matrices`
/// (one float) at descriptor set 0, binding 7.
fn uniform_block_module() -> Vec<u8> {
    let words: Vec<u32> = vec![
        0x0723_0203, 0x0001_0000, 0, 9, 0,
        0x0002_0011, 1,
        0x0003_000E, 0, 1,
        0x0005_000F, 0, 1, 0x6E69_616D, 0,
        0x0005_0005, 6, 0x7274_614D, 0x7365_6369, 0,
        0x0003_0047, 6, 2,
        0x0005_0048, 6, 0, 35, 0,
        0x0004_0047, 8, 34, 0,
        0x0004_0047, 8, 33, 7,
        0x0002_0013, 2,
        0x0003_0021, 3, 2,
        0x0003_0016, 5, 32,
        0x0003_001E, 6, 5,
        0x0004_0020, 7, 2, 6,
        0x0004_003B, 7, 8, 2,
        0x0005_0036, 2, 1, 0, 3,
        0x0002_00F8, 4,
        0x0001_00FD,
        0x0001_0038,
    ];
    words.iter().flat_map(|w| w.to_le_bytes()).collect()
}

#[test]
fn stage_keys_round_trip() {
    let types = [
        gl::VERTEX_SHADER,
        gl::FRAGMENT_SHADER,
        gl::GEOMETRY_SHADER,
        gl::TESS_CONTROL_SHADER,
        gl::TESS_EVALUATION_SHADER,
        gl::COMPUTE_SHADER,
    ];
    for (i, t) in types.iter().enumerate() {
        assert_eq!(t.as_stage_key(), Ok(i));
        assert_eq!(i.from_stage_key(), Some(*t));
    }
    assert_eq!(6usize.from_stage_key(), None);
    assert_eq!(0x1234u32.as_stage_key(), Err(FogleError::UnsupportedShaderStage(0x1234)));
}

#[test]
fn gl_booleans() {
    assert_eq!(true.as_gl_bool(), gl::TRUE);
    assert_eq!(false.as_gl_bool(), gl::FALSE);
    assert_eq!(1u8.from_gl_bool(), Some(true));
    assert_eq!(0u8.from_gl_bool(), Some(false));
    assert_eq!(2u8.from_gl_bool(), None);
    assert_eq!(1i32.from_gl_bool(), Some(true));
    assert_eq!(256i32.from_gl_bool(), Some(false));
    assert_eq!(257i32.from_gl_bool(), Some(true));
    assert_eq!((-1i32).from_gl_bool(), None);
}

#[test]
fn shader_kinds() {
    assert_eq!(gl::VERTEX_SHADER.to_shader_type(), Ok(ShaderKind::Vertex));
    assert_eq!(gl::FRAGMENT_SHADER.to_shader_type(), Ok(ShaderKind::Fragment));
    assert_eq!(gl::COMPUTE_SHADER.to_shader_type(), Ok(ShaderKind::Compute));
    assert_eq!(ShaderKind::from_shader_type(gl::GEOMETRY_SHADER), Ok(ShaderKind::Geometry));
    assert_eq!(ShaderKind::from_shader_type(gl::TESS_CONTROL_SHADER), Ok(ShaderKind::TessControl));
    assert_eq!(
        ShaderKind::from_shader_type(gl::TESS_EVALUATION_SHADER),
        Ok(ShaderKind::TessEvaluation)
    );
    assert_eq!(ShaderKind::from_shader_type(7), Err(FogleError::UnsupportedShaderType(7)));
}

#[test]
fn glsl_requests_carry_the_source() {
    let req = glsl_to_spv("void main() {}", gl::FRAGMENT_SHADER).ok().unwrap();
    assert_eq!(req.source, "void main() {}");
    assert_eq!(req.kind, ShaderKind::Fragment);
    assert!(req.options.generate_debug_info && req.options.auto_bind_uniforms);
    assert!(matches!(glsl_to_spv("x", 0x8B32), Err(FogleError::UnsupportedShaderType(0x8B32))));
    let opts = essl_options();
    assert_eq!(opts.version, EsslVersion::Glsl320Es);
    assert!(opts.force_flattened_io_blocks && !opts.vulkan_semantics);
}

#[test]
fn shader_compile_lifecycle() {
    let mut shader = Shader::new(gl::VERTEX_SHADER, 3);
    assert_eq!((shader.id(), shader.type_(), shader.compiled()), (3, gl::VERTEX_SHADER, false));
    shader.set_source("void main() {}".to_string());
    assert_eq!(shader.source(), "void main() {}");
    let req = shader.compile_source().unwrap();
    assert_eq!(req.source, "void main() {}");
    assert_eq!(req.kind, ShaderKind::Vertex);
    assert!(!shader.finish_compile(None));
    assert!(!shader.compiled());
    assert!(shader.finish_compile(Some(vec![1, 2, 3, 4])));
    assert!(shader.compiled());
    assert_eq!(shader.spirv(), &vec![1, 2, 3, 4]);

    let mut odd = Shader::new(0x1234, 4);
    odd.load_from_cache(&vec![9, 9, 9, 9]);
    assert!(odd.compiled());
    assert!(odd.compile_source().is_none());
    assert!(!odd.compiled());
    assert_eq!(odd.spirv(), &vec![9, 9, 9, 9]);
}

#[test]
fn attaching_fills_the_stage_lists() {
    let mut program = Program::new(10);
    assert_eq!(program.stage_count(), 6);
    let vs = Shader::new(gl::VERTEX_SHADER, 1);
    let fs = Shader::new(gl::FRAGMENT_SHADER, 2);
    let cs = Shader::new(gl::COMPUTE_SHADER, 5);
    let bad = Shader::new(0x1234, 9);
    assert_eq!(program.attach(&vs), Ok(()));
    assert_eq!(program.attach(&fs), Ok(()));
    assert_eq!(program.attach(&vs), Ok(()));
    assert_eq!(program.attach(&cs), Ok(()));
    assert_eq!(program.attach(&bad), Err(FogleError::UnsupportedShaderStage(0x1234)));
    assert_eq!(program.stage_shaders(0), &vec![1, 1]);
    assert_eq!(program.stage_shaders(1), &vec![2]);
    assert_eq!(program.stage_shaders(2), &Vec::<u32>::new());
    assert_eq!(program.stage_shaders(5), &vec![5]);
}

#[test]
fn linking_records_the_driver_status() {
    let mut program = Program::new(1);
    assert!(!program.linked());
    program.link(1);
    assert!(program.linked());
    program.link(0);
    assert!(!program.linked());
}

#[test]
fn restoring_from_a_cache_entry_takes_its_bindings() {
    let mut ctx = TranspileContext::new();
    assert_eq!(ctx.assign_binding("Matrices".to_string()), 0);
    assert_eq!(ctx.assign_binding("Lights".to_string()), 1);
    let entry = ProgramCacheEntry { format: 0x8741, binary: vec![1, 2], transpile_context: ctx };
    let mut program = Program::new(4);
    program.restore_and_link_from_entry(&entry, 1);
    assert!(program.linked());
    let taken = program.take_transpile_context();
    assert_eq!(taken.lookup_binding(&"Lights".to_string()), Some(1));
    assert_eq!(taken.next_binding, 2);
    let again = program.take_transpile_context();
    assert_eq!(again.bindings.len(), 0);
    assert_eq!(again.next_binding, 0);
}

#[test]
fn bindings_are_handed_out_once_per_block() {
    let mut ctx = TranspileContext::new();
    assert_eq!(ctx.assign_binding("A".to_string()), 0);
    assert_eq!(ctx.assign_binding("B".to_string()), 1);
    assert_eq!(ctx.assign_binding("A".to_string()), 0);
    assert_eq!(ctx.assign_binding("C".to_string()), 2);
    assert_eq!(ctx.next_binding, 3);
    assert_eq!(ctx.lookup_binding(&"B".to_string()), Some(1));
    assert_eq!(ctx.lookup_binding(&"D".to_string()), None);
    let copy = ctx.duplicate();
    assert_eq!(copy.lookup_binding(&"C".to_string()), Some(2));
    let taken = ctx.take();
    assert_eq!(taken.next_binding, 3);
    assert_eq!(ctx.next_binding, 0);
    assert_eq!(ctx.lookup_binding(&"A".to_string()), None);
}

#[test]
fn malformed_spirv_is_refused() {
    let mut ctx = TranspileContext::new();
    let r = spv_to_essl(&vec![0, 0, 0, 0], gl::VERTEX_SHADER, &mut ctx);
    assert_eq!(r, Err(FogleError::SpirvCross));
    assert_eq!(ctx.next_binding, 0);
}

#[test]
fn spirv_goes_back_to_glsl_es() {
    let mut ctx = TranspileContext::new();
    let essl = spv_to_essl(&empty_vertex_module(), gl::VERTEX_SHADER, &mut ctx).unwrap();
    assert!(essl.starts_with("#version 320 es"));
    assert!(essl.contains("void main()"));
    assert_eq!(ctx.next_binding, 0);
}

#[test]
fn stage_sources_are_transpiled_and_joined() {
    let mut shaders: HashMap<u32, Shader> = HashMap::new();
    let mut vs = Shader::new(gl::VERTEX_SHADER, 1);
    vs.load_from_cache(&empty_vertex_module());
    shaders.insert(1, vs);
    let mut program = Program::new(8);
    program.attach(shaders.get(&1).unwrap()).unwrap();
    assert_eq!(program.stage_essl(1, &shaders), Ok(None));
    let (stage, essl) = program.stage_essl(0, &shaders).unwrap().unwrap();
    assert_eq!(stage, gl::VERTEX_SHADER);
    assert!(essl.contains("void main()"));

    let lone = Shader::new(gl::FRAGMENT_SHADER, 77);
    program.attach(&lone).unwrap();
    assert_eq!(program.stage_essl(1, &shaders), Err(FogleError::ShaderNotFound(77)));
}

#[test]
fn context_shader_objects() {
    let mut ctx = FogleContext::new();
    assert_eq!(ctx.shader_pipeline.new_shader(gl::VERTEX_SHADER, 1), 1);
    assert_eq!(ctx.shader_pipeline.new_shader(0x1234, 2), 2);
    assert_eq!(ctx.shader_pipeline.new_program(3), 3);
    ctx.shader_source(1, "void main() {}".to_string());
    assert_eq!(ctx.shader_pipeline.shaders.get(&1).unwrap().source(), "void main() {}");
    assert_eq!(ctx.current_error, 0);
    ctx.shader_source(42, "x".to_string());
    assert_eq!(ctx.get_error(), gl::INVALID_OPERATION);

    ctx.attach_shader(3, 1);
    assert_eq!(ctx.current_error, 0);
    assert_eq!(ctx.shader_pipeline.programs.get(&3).unwrap().stage_shaders(0), &vec![1]);
    ctx.attach_shader(3, 2);
    assert_eq!(ctx.get_error(), gl::INVALID_OPERATION);
    ctx.attach_shader(99, 1);
    assert_eq!(ctx.get_error(), gl::INVALID_OPERATION);
    ctx.attach_shader(3, 99);
    assert_eq!(ctx.get_error(), gl::INVALID_OPERATION);
    assert_eq!(ctx.shader_pipeline.programs.get(&3).unwrap().stage_shaders(0), &vec![1]);

    assert_eq!(ctx.shader_compile_status(1), gl::FALSE);
    ctx.shader_pipeline.shaders.get_mut(&1).unwrap().finish_compile(Some(vec![0, 0, 0, 0]));
    assert_eq!(ctx.shader_compile_status(1), gl::TRUE);
    assert_eq!(ctx.shader_compile_status(50), gl::FALSE);
    assert_eq!(ctx.program_link_status(3), gl::FALSE);
    ctx.shader_pipeline.programs.get_mut(&3).unwrap().link(1);
    assert_eq!(ctx.program_link_status(3), gl::TRUE);
    assert_eq!(ctx.program_link_status(4), gl::FALSE);

    let fresh = PipelineState::new();
    assert!(fresh.shaders.is_empty() && fresh.programs.is_empty());
}

#[test]
fn uniform_blocks_get_bindings_from_the_context() {
    let mut ctx = TranspileContext::new();
    let essl = spv_to_essl(&uniform_block_module(), gl::VERTEX_SHADER, &mut ctx).unwrap();
    assert_eq!(ctx.lookup_binding(&"Matrices".to_string()), Some(0));
    assert_eq!(ctx.next_binding, 1);
    assert!(essl.contains("binding = 0"));
    assert!(!essl.contains("binding = 7"));

    let mut shared = TranspileContext::new();
    assert_eq!(shared.assign_binding("Lights".to_string()), 0);
    assert_eq!(shared.assign_binding("Matrices".to_string()), 1);
    let essl = spv_to_essl(&uniform_block_module(), gl::VERTEX_SHADER, &mut shared).unwrap();
    assert!(essl.contains("binding = 1"));
    assert_eq!(shared.next_binding, 2);

    let mut compute = TranspileContext::new();
    let essl = spv_to_essl(&uniform_block_module(), gl::COMPUTE_SHADER, &mut compute).unwrap();
    assert!(essl.contains("binding = 7"));
    assert_eq!(compute.next_binding, 0);
}

#[test]
fn a_stage_joins_its_shaders_in_attach_order() {
    let mut shaders: HashMap<u32, Shader> = HashMap::new();
    let mut a = Shader::new(gl::VERTEX_SHADER, 1);
    a.load_from_cache(&uniform_block_module());
    let mut b = Shader::new(gl::VERTEX_SHADER, 2);
    b.load_from_cache(&empty_vertex_module());
    shaders.insert(1, a);
    shaders.insert(2, b);

    let mut ctx = TranspileContext::new();
    let first = spv_to_essl(&uniform_block_module(), gl::VERTEX_SHADER, &mut ctx).unwrap();
    let second = spv_to_essl(&empty_vertex_module(), gl::VERTEX_SHADER, &mut ctx).unwrap();

    let mut program = Program::new(3);
    program.attach(shaders.get(&1).unwrap()).unwrap();
    program.attach(shaders.get(&2).unwrap()).unwrap();
    let (stage, merged) = program.stage_essl(0, &shaders).unwrap().unwrap();
    assert_eq!(stage, gl::VERTEX_SHADER);
    assert_eq!(merged, format!("{first}{second}"));
    let taken = program.take_transpile_context();
    assert_eq!(taken.lookup_binding(&"Matrices".to_string()), Some(0));
}

#[test]
fn a_missing_later_shader_fails_the_stage() {
    let mut shaders: HashMap<u32, Shader> = HashMap::new();
    let mut a = Shader::new(gl::VERTEX_SHADER, 1);
    a.load_from_cache(&empty_vertex_module());
    shaders.insert(1, a);
    let mut program = Program::new(3);
    program.attach(shaders.get(&1).unwrap()).unwrap();
    program.attach(&Shader::new(gl::VERTEX_SHADER, 99)).unwrap();
    assert_eq!(program.stage_essl(0, &shaders), Err(FogleError::ShaderNotFound(99)));
}
