use fogltlogles::bindings::gl;
use fogltlogles::requirements::{
    check_requirements, ensure_requirements, parse_gl_version, VersionError,
};
use fogltlogles::runtime::contexts::errors::{
    bit_index_to_error, error_to_bit_index, record_error, take_error,
};
use fogltlogles::runtime::formats::texture::fix_tex_image_2d;
use fogltlogles::runtime::queries::{draws_to_issue, integer_override, string_override, StringQuery};

#[test]
fn version_of_a_typical_driver_is_accepted() {
    assert_eq!(
        check_requirements("OpenGL ES 3.2 V@0502.0 (GIT@d4cfdf3, Ic907de5ed0) (Date:11/26/20)"),
        Ok((3, 2))
    );
}

#[test]
fn version_above_the_floor_is_accepted() {
    assert_eq!(check_requirements("OpenGL ES 4.0 Mesa"), Ok((4, 0)));
    assert_eq!(check_requirements("OpenGL ES 3.10"), Ok((3, 10)));
}

#[test]
fn version_below_the_floor_is_too_old() {
    assert_eq!(check_requirements("OpenGL ES 3.1 Mesa 23.0"), Err(VersionError::TooOld(3, 1)));
    assert_eq!(check_requirements("OpenGL ES 2.0"), Err(VersionError::TooOld(2, 0)));
}

#[test]
fn version_beyond_a_byte_is_out_of_range() {
    assert_eq!(check_requirements("OpenGL ES 300.2"), Err(VersionError::OutOfRange(300, 2)));
    assert_eq!(check_requirements("OpenGL ES 3.256"), Err(VersionError::OutOfRange(3, 256)));
}

#[test]
fn version_without_the_es_prefix_is_unparsable() {
    assert_eq!(check_requirements("4.6.0 NVIDIA 535.54"), Err(VersionError::Unparsable));
    assert_eq!(check_requirements("OpenGL ES"), Err(VersionError::Unparsable));
    assert_eq!(check_requirements("OpenGL ES 3"), Err(VersionError::Unparsable));
    assert_eq!(check_requirements("OpenGL ES 3.x"), Err(VersionError::Unparsable));
    assert_eq!(check_requirements(""), Err(VersionError::Unparsable));
}

#[test]
fn version_parsing_follows_the_first_word_and_first_dot() {
    assert_eq!(parse_gl_version("OpenGL ES   3.2 build"), Some((3, 2)));
    assert_eq!(parse_gl_version("OpenGL ES +3.+2"), Some((3, 2)));
    assert_eq!(parse_gl_version("OpenGL ES 3.2.1"), None);
    assert_eq!(parse_gl_version("OpenGL ES 99999999999.0"), None);
    assert_eq!(parse_gl_version("OpenGL ES 3.2\tx"), Some((3, 2)));
}

#[test]
fn error_bits_round_trip() {
    assert_eq!(error_to_bit_index(gl::INVALID_ENUM), Some(0));
    assert_eq!(error_to_bit_index(gl::INVALID_FRAMEBUFFER_OPERATION), Some(6));
    assert_eq!(error_to_bit_index(gl::NO_ERROR), None);
    assert_eq!(error_to_bit_index(0x1234), None);
    for i in 0..7u32 {
        assert_eq!(error_to_bit_index(bit_index_to_error(i)), Some(i));
    }
}

#[test]
fn errors_come_back_lowest_bit_first() {
    let mut bits = 0u32;
    bits = record_error(bits, gl::OUT_OF_MEMORY);
    bits = record_error(bits, gl::INVALID_VALUE);
    bits = record_error(bits, 0x9999);
    assert_eq!(bits, (1 << 5) | (1 << 1));
    let (e1, bits) = take_error(bits);
    assert_eq!(e1, gl::INVALID_VALUE);
    let (e2, bits) = take_error(bits);
    assert_eq!(e2, gl::OUT_OF_MEMORY);
    assert_eq!(take_error(bits), (gl::NO_ERROR, 0));
}

#[test]
fn raising_one_error_then_fetching_gives_it_back() {
    for e in [gl::INVALID_ENUM, gl::INVALID_OPERATION, gl::STACK_UNDERFLOW] {
        let bits = record_error(0, e);
        assert_eq!(take_error(bits), (e, 0));
    }
}

#[test]
fn repeated_errors_are_kept_once() {
    let bits = record_error(record_error(0, gl::INVALID_ENUM), gl::INVALID_ENUM);
    assert_eq!(bits, 1);
    let (e, rest) = take_error(bits);
    assert_eq!((e, rest), (gl::INVALID_ENUM, 0));
}

#[test]
fn depth32_becomes_depth32f() {
    let mut internal = gl::DEPTH_COMPONENT32;
    let mut format = 0x1902u32;
    let mut type_ = 0x1405u32;
    fix_tex_image_2d(&mut internal, &mut format, &mut type_);
    assert_eq!((internal, format, type_), (gl::DEPTH_COMPONENT32F, 0x1902, 0x1405));
}

#[test]
fn other_texture_formats_stay() {
    let mut internal = 0x8058u32;
    let mut format = 0x1908u32;
    let mut type_ = 0x1401u32;
    fix_tex_image_2d(&mut internal, &mut format, &mut type_);
    assert_eq!((internal, format, type_), (0x8058, 0x1908, 0x1401));
}

#[test]
fn integer_queries_report_a_core_context() {
    assert_eq!(integer_override(gl::MAJOR_VERSION), Some(3));
    assert_eq!(integer_override(gl::MINOR_VERSION), Some(3));
    assert_eq!(integer_override(gl::CONTEXT_FLAGS), Some(1));
    assert_eq!(integer_override(gl::CONTEXT_PROFILE_MASK), Some(1));
    assert_eq!(integer_override(gl::NUM_EXTENSIONS), Some(0));
    assert_eq!(integer_override(0x0D33), None);
}

#[test]
fn string_queries_answered_by_the_layer() {
    assert_eq!(string_override(gl::VERSION), Some(StringQuery::Version));
    assert_eq!(string_override(gl::RENDERER), Some(StringQuery::Renderer));
    assert_eq!(string_override(gl::VENDOR), Some(StringQuery::Vendor));
    assert_eq!(
        string_override(gl::SHADING_LANGUAGE_VERSION),
        Some(StringQuery::ShadingLanguageVersion)
    );
    assert_eq!(string_override(0x1F03), None);
}

#[test]
fn multi_draw_skips_empty_draws() {
    assert_eq!(draws_to_issue(&vec![3, 0, -1, 6, 1]), vec![0, 3, 4]);
    assert_eq!(draws_to_issue(&vec![]), Vec::<usize>::new());
    assert_eq!(draws_to_issue(&vec![0, 0]), Vec::<usize>::new());
}

#[test]
fn accepted_versions_as_bytes() {
    assert_eq!(ensure_requirements("OpenGL ES 3.2 V@0502.0"), (3, 2));
    assert_eq!(ensure_requirements("OpenGL ES 255.255"), (255, 255));
}
