use fogltlogles::generator::{
    api_mod_name, module_footer, module_header, replace_braces_exec, BindingsBuilder,
    GeneratorType, GlApi, GlProfile,
};
use fogltlogles::utils::bytes::str_bytes;
use fogltlogles::utils::chars::{is_whitespace, parse_u32, parse_u64, to_char_vec};
use fogltlogles::utils::ffi::combine_gl_strings;
use fogltlogles::utils::path::join;
use fogltlogles::utils::strset::StringSet;
use fogltlogles::utils::text::{append_decimal_u8, append_hex16};

#[test]
fn shader_source_pieces_are_joined() {
    let pieces = vec![
        Some(b"#version 330 core\n".to_vec()),
        None,
        Some(vec![0xff, 0xfe]),
        Some(Vec::new()),
        Some("void main() { /* \u{e9} */ }\n".as_bytes().to_vec()),
    ];
    assert_eq!(combine_gl_strings(&pieces), "#version 330 core\nvoid main() { /* \u{e9} */ }\n");
    assert_eq!(combine_gl_strings(&Vec::new()), "");
    assert_eq!(combine_gl_strings(&vec![None, Some(vec![0xc3])]), "");
}

#[test]
fn paths_are_joined_like_pathbuf() {
    assert_eq!(join(&"/a/b".to_string(), "c"), "/a/b/c");
    assert_eq!(join(&"/a/b/".to_string(), "c"), "/a/b/c");
    assert_eq!(join(&String::new(), "c"), "c");
}

#[test]
fn string_sets_hold_each_string_once() {
    let mut set = StringSet::new();
    assert!(set.insert("a".to_string()));
    assert!(set.insert("b".to_string()));
    assert!(!set.insert("a".to_string()));
    assert_eq!(set.len(), 2);
    assert!(set.contains(&"b".to_string()));
    assert!(!set.contains(&"c".to_string()));
    let copy = set.duplicate();
    assert_eq!(copy.len(), 2);
    assert!(copy.contains(&"a".to_string()));
}

#[test]
fn numbers_parse_like_from_str() {
    let v = to_char_vec("x+123y");
    assert_eq!(parse_u32(&v, 1, 5), Some(123));
    assert_eq!(parse_u32(&v, 2, 5), Some(123));
    assert_eq!(parse_u32(&v, 1, 2), None);
    assert_eq!(parse_u32(&v, 2, 2), None);
    assert_eq!(parse_u32(&v, 0, 5), None);
    let big = to_char_vec("4294967296");
    assert_eq!(parse_u32(&big, 0, big.len()), None);
    assert_eq!(parse_u64(&big, 0, big.len()), Some(4294967296));
    let max = to_char_vec("18446744073709551615");
    assert_eq!(parse_u64(&max, 0, max.len()), Some(u64::MAX));
    let over = to_char_vec("18446744073709551616");
    assert_eq!(parse_u64(&over, 0, over.len()), None);
    let minus = to_char_vec("-1");
    assert_eq!(parse_u32(&minus, 0, 2), None);
}

#[test]
fn whitespace_is_unicode_white_space() {
    for c in [' ', '\t', '\n', '\r', '\u{0b}', '\u{0c}', '\u{85}', '\u{a0}', '\u{2003}', '\u{3000}'] {
        assert!(is_whitespace(c));
        assert_eq!(is_whitespace(c), c.is_whitespace());
    }
    for c in ['a', '0', '\u{200b}', '\u{feff}', '_'] {
        assert!(!is_whitespace(c));
        assert_eq!(is_whitespace(c), c.is_whitespace());
    }
}

#[test]
fn numerals() {
    let mut s = "v".to_string();
    append_decimal_u8(&mut s, 0);
    append_decimal_u8(&mut s, 42);
    append_decimal_u8(&mut s, 255);
    assert_eq!(s, "v042255");
    let mut h = String::new();
    append_hex16(&mut h, 0xdead_beef);
    assert_eq!(h, "00000000deadbeef");
    assert_eq!(str_bytes("\u{e9}a"), vec![0xc3, 0xa9, b'a']);
}

#[test]
fn bindings_plan() {
    assert_eq!(api_mod_name(GlApi::Gles2), "gles2");
    assert_eq!(api_mod_name(GlApi::Egl), "egl");
    assert_eq!(api_mod_name(GlApi::GlCore), "glcore");
    assert_eq!(module_header(GlApi::Gl), "pub mod gl {\n    #![allow(unsafe_op_in_unsafe_fn)]\n");
    assert_eq!(module_footer(), "}\n");
    assert_eq!(replace_braces_exec("{}_bindings{}.rs", "egl"), "egl_bindingsegl.rs");
    assert_eq!(replace_braces_exec("{{}}", "x"), "{x}");
    assert_eq!(replace_braces_exec("none", "x"), "none");

    let builder = BindingsBuilder::new("/out".to_string())
        .with_api(GlApi::Gles2, (3, 2), GlProfile::Core, GeneratorType::Struct)
        .with_api(GlApi::Egl, (1, 5), GlProfile::Core, GeneratorType::Struct);
    assert_eq!(builder.apis().len(), 2);
    assert_eq!(builder.apis()[1].api, GlApi::Egl);
    assert_eq!(builder.apis()[0].version, (3, 2));
    assert_eq!(builder.single_file_path("bindings.rs"), "/out/bindings.rs");
    assert_eq!(
        builder.separate_file_paths("{}_bindings.rs"),
        vec!["/out/gles2_bindings.rs".to_string(), "/out/egl_bindings.rs".to_string()]
    );
}
