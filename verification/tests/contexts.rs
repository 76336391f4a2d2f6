use fogltlogles::api::{resolve_proc, ProcName, ProcResolution};
use fogltlogles::bindings::gl;
use fogltlogles::runtime::context::management as legacy;
use fogltlogles::runtime::context::FogleContext as LegacyContext;
use fogltlogles::runtime::contexts::es::ESContext;
use fogltlogles::runtime::contexts::fogle::FogleContext;
use fogltlogles::runtime::contexts::management::{bind, current, register, unregister};
use fogltlogles::runtime::contexts::registry::ContextRegistry;
use fogltlogles::runtime::contexts::TranslationContext;

fn strings(items: &[&str]) -> Vec<String> {
    items.iter().map(|s| s.to_string()).collect()
}

#[test]
fn fresh_contexts_hold_placeholders() {
    let ctx = TranslationContext::new();
    assert_eq!(ctx.es.version_double, (0, 0));
    assert_eq!(ctx.es.version, "Open GL ES 0.0");
    assert_eq!(ctx.es.renderer, "Maldreno (TM) GPU (Couldn't load GL_RENDERER)");
    assert_eq!(ctx.es.shading_language_version, "0.0 Maldreno");
    assert_eq!(ctx.es.real_extensions.len(), 0);
    assert_eq!(ctx.fogle.version, "4.5 (on ES 0.0)");
    assert_eq!(ctx.fogle.renderer, "FOGLTLOGLES 0.0 (on Unknown)");
    assert_eq!(ctx.fogle.current_error, 0);

    let legacy_ctx = LegacyContext::new();
    assert_eq!(legacy_ctx.es_version, (0, 0));
    assert_eq!(legacy_ctx.gl_version, "");
}

#[test]
fn get_error_drains_raised_errors_in_order() {
    let mut ctx = FogleContext::new();
    assert_eq!(ctx.get_error(), gl::NO_ERROR);
    ctx.raise_error(gl::INVALID_OPERATION);
    ctx.raise_error(gl::INVALID_ENUM);
    ctx.raise_error(0x1234);
    assert_eq!(ctx.get_error(), gl::INVALID_ENUM);
    assert_eq!(ctx.get_error(), gl::INVALID_OPERATION);
    assert_eq!(ctx.get_error(), gl::NO_ERROR);
    assert_eq!(ctx.current_error, 0);
}

#[test]
fn driver_description_texts() {
    let mut es = ESContext::new();
    es.version_double = (3, 2);
    es.renderer = "Adreno (TM) 650".to_string();
    let mut ctx = FogleContext::new();
    ctx.describe_driver(&es);
    assert_eq!(ctx.version, "4.5 (on ES 3.2)");
    assert_eq!(ctx.renderer, "FOGLTLOGLES crate::build_info::get_version() (on Adreno (TM) 650)");

    es.version_double = (10, 255);
    ctx.describe_driver(&es);
    assert_eq!(ctx.version, "4.5 (on ES 10.255)");
}

#[test]
fn driver_report_fills_real_and_fake_extensions() {
    let mut ctx = TranslationContext::new();
    ctx.fogle.raise_error(gl::OUT_OF_MEMORY);
    ctx.record_driver_report(
        "OpenGL ES 3.2 V@0502.0".to_string(),
        (3, 2),
        "Adreno (TM) 650".to_string(),
        "OpenGL ES GLSL ES 3.20".to_string(),
        &strings(&["GL_EXT_a", "GL_EXT_b", "GL_EXT_a"]),
    );
    assert_eq!(ctx.es.version, "OpenGL ES 3.2 V@0502.0");
    assert_eq!(ctx.es.version_double, (3, 2));
    assert_eq!(ctx.es.renderer, "Adreno (TM) 650");
    assert_eq!(ctx.es.shading_language_version, "OpenGL ES GLSL ES 3.20");
    assert_eq!(ctx.es.real_extensions.len(), 2);
    assert!(ctx.es.real_extensions.contains(&"GL_EXT_b".to_string()));
    assert_eq!(ctx.fogle.fake_extensions.len(), 2);
    assert!(ctx.fogle.fake_extensions.contains(&"GL_EXT_a".to_string()));
    assert_eq!(ctx.fogle.current_error, 1 << 5);
}

#[test]
fn extension_registers_only_when_its_requirements_are_real() {
    let mut ctx = TranslationContext::new();
    ctx.record_driver_report(
        "v".to_string(),
        (3, 2),
        "r".to_string(),
        "s".to_string(),
        &strings(&["GL_EXT_multi_draw_arrays"]),
    );
    assert!(ctx.register_extension(
        "GL_EXT_multi_draw_arrays".to_string(),
        &strings(&["GL_EXT_multi_draw_arrays"])
    ));
    assert!(!ctx.register_extension(
        "GL_ARB_blend_func_extended".to_string(),
        &strings(&["GL_EXT_blend_func_extended"])
    ));
    assert!(!ctx.fogle.fake_extensions.contains(&"GL_ARB_blend_func_extended".to_string()));
    assert!(ctx.register_extension("GL_ARB_nothing_needed".to_string(), &Vec::new()));
    assert_eq!(ctx.fogle.fake_extensions.len(), 2);
}

#[test]
fn register_bind_unregister() {
    let mut registry: ContextRegistry<TranslationContext> = ContextRegistry::new();
    let mut bound: Option<usize> = None;
    assert!(!bind(&registry, &mut bound, 0x1000));
    assert_eq!(bound, None);
    register(&mut registry, 0x1000);
    assert!(registry.contains(0x1000));
    assert!(bind(&registry, &mut bound, 0x1000));
    assert_eq!(bound, Some(0x1000));
    assert!(current(&registry, bound).is_some());
    assert!(!bind(&registry, &mut bound, 0x2000));
    assert_eq!(bound, Some(0x1000));
    assert!(bind(&registry, &mut bound, 0));
    assert_eq!(bound, None);
    assert!(current(&registry, bound).is_none());
    unregister(&mut registry, 0x1000);
    assert!(!registry.contains(0x1000));
    assert!(!bind(&registry, &mut bound, 0x1000));
    assert!(current(&registry, Some(0x1000)).is_none());
}

#[test]
fn registry_keeps_contexts_apart() {
    let mut registry: ContextRegistry<TranslationContext> = ContextRegistry::new();
    register(&mut registry, 1);
    register(&mut registry, 2);
    let mut ctx = TranslationContext::new();
    ctx.fogle.raise_error(gl::INVALID_VALUE);
    registry.insert(2, ctx);
    assert_eq!(registry.get(1).map(|c| c.fogle.current_error), Some(0));
    assert_eq!(registry.get(2).map(|c| c.fogle.current_error), Some(2));
    registry.remove(1);
    assert!(registry.get(1).is_none());
    assert_eq!(registry.get(2).map(|c| c.fogle.current_error), Some(2));
}

#[test]
fn legacy_context_management() {
    let mut registry: ContextRegistry<LegacyContext> = ContextRegistry::new();
    let mut bound: Option<usize> = None;
    legacy::register(&mut registry, 7);
    assert!(legacy::bind(&registry, &mut bound, 7));
    assert_eq!(legacy::current(&registry, bound).map(|c| c.es_version), Some((0, 0)));
    legacy::unregister(&mut registry, 7);
    assert!(legacy::current(&registry, bound).is_none());
    assert!(!legacy::bind(&registry, &mut bound, 7));
    assert!(legacy::bind(&registry, &mut bound, 0));
    assert_eq!(bound, None);
}

#[test]
fn lookups_prefer_the_layers_entry_points() {
    let intercepts = strings(&["glGetString", "glGetError", "glGetString"]);
    assert_eq!(
        resolve_proc(&intercepts, &ProcName::Text("glGetString".to_string())),
        ProcResolution::Intercepted(0)
    );
    assert_eq!(
        resolve_proc(&intercepts, &ProcName::Text("glGetError".to_string())),
        ProcResolution::Intercepted(1)
    );
    assert_eq!(
        resolve_proc(&intercepts, &ProcName::Text("glDrawArrays".to_string())),
        ProcResolution::Driver
    );
    assert_eq!(resolve_proc(&intercepts, &ProcName::Unreadable), ProcResolution::Driver);
    assert_eq!(resolve_proc(&intercepts, &ProcName::Null), ProcResolution::Null);
    assert_eq!(resolve_proc(&Vec::new(), &ProcName::Text("x".to_string())), ProcResolution::Driver);
}

#[test]
fn compiling_or_linking_an_unknown_name_raises_an_error() {
    let mut ctx = FogleContext::new();
    ctx.shader_pipeline.new_shader(gl::VERTEX_SHADER, 1);
    ctx.shader_pipeline.new_program(2);
    assert!(ctx.require_shader(1));
    assert!(ctx.require_program(2));
    assert_eq!(ctx.current_error, 0);
    assert!(!ctx.require_shader(2));
    assert_eq!(ctx.get_error(), gl::INVALID_OPERATION);
    assert!(!ctx.require_program(1));
    assert_eq!(ctx.get_error(), gl::INVALID_VALUE);
    assert_eq!(ctx.get_error(), gl::NO_ERROR);
}
