//! The error-buffer codec, the load decision, the flat-array
//! marshaller, and the geometry-kind codes.

use mujoco::geom::geom_type_try_from;
use mujoco::geom_type_from;
use mujoco::helpers::convert_err_buf;
use mujoco::helpers::extract_indices;
use mujoco::helpers::extract_mesh_attribute;
use mujoco::helpers::extract_quads;
use mujoco::helpers::extract_sextets;
use mujoco::helpers::extract_vector;
use mujoco::helpers::filled;
use mujoco::model::load_outcome;
use mujoco::model::LoadOutcome;
use mujoco::GeomType;

#[test]
fn err_buf_cuts_at_first_terminator() {
    let mut buf = b"bad XML on line 3".to_vec();
    buf.push(0);
    buf.extend_from_slice(b"leftover junk");
    assert_eq!(convert_err_buf(&buf).unwrap(), "bad XML on line 3");
}

#[test]
fn err_buf_empty_when_terminator_first() {
    let buf = vec![0u8; 1000];
    assert_eq!(convert_err_buf(&buf).unwrap(), "");
}

#[test]
fn err_buf_without_terminator_reads_whole() {
    let buf = b"oops".to_vec();
    assert_eq!(convert_err_buf(&buf).unwrap(), "oops");
}

#[test]
fn err_buf_decodes_multibyte_text() {
    let mut buf = "d\u{e9}faut".as_bytes().to_vec();
    buf.push(0);
    assert_eq!(convert_err_buf(&buf).unwrap(), "d\u{e9}faut");
}

#[test]
fn err_buf_rejects_invalid_utf8() {
    let buf = vec![0xffu8, 0xfe, 0x00];
    assert!(convert_err_buf(&buf).is_none());
}

#[test]
fn load_outcome_reports_error_text() {
    let mut buf = b"schema violation".to_vec();
    buf.resize(1000, 0);
    match load_outcome(true, &buf) {
        LoadOutcome::NativeError(text) => assert_eq!(text, "schema violation"),
        _ => panic!("expected the error text"),
    }
}

#[test]
fn load_outcome_accepts_clean_buffer_with_handle() {
    let buf = vec![0u8; 1000];
    assert!(matches!(load_outcome(true, &buf), LoadOutcome::Loaded));
}

#[test]
fn load_outcome_flags_missing_handle() {
    let buf = vec![0u8; 1000];
    assert!(matches!(load_outcome(false, &buf), LoadOutcome::BrokenInvariant));
}

#[test]
fn load_outcome_flags_undecodable_buffer() {
    let buf = vec![0x80u8, 0x80, 0x00];
    assert!(matches!(load_outcome(true, &buf), LoadOutcome::BrokenInvariant));
}

#[test]
fn extract_vector_copies_prefix() {
    let data = vec![1.0f64, 2.0, 3.0, 4.0, 5.0, 6.0, 7.0];
    assert_eq!(extract_vector(&data, 3, 2), vec![1.0, 2.0, 3.0, 4.0, 5.0, 6.0]);
}

#[test]
fn extract_mesh_attribute_groups_triples() {
    let flat = vec![0.0f64, 0.1, 0.2, 1.0, 1.1, 1.2, 2.0, 2.1, 2.2];
    let got = extract_mesh_attribute(&flat, 1, 2);
    assert_eq!(got, vec![[1.0, 1.1, 1.2], [2.0, 2.1, 2.2]]);
}

#[test]
fn extract_indices_reads_window() {
    let faces = vec![0i32, 1, 2, 2, 3, 0, 4, 5, 6];
    assert_eq!(extract_indices(&faces, 1, 2), vec![2u32, 3, 0, 4, 5, 6]);
}

#[test]
fn extract_quads_groups_quadruples() {
    let flat = vec![1.0f64, 0.0, 0.0, 0.0, 0.5, 0.5, 0.5, 0.5];
    assert_eq!(extract_quads(&flat, 0, 2), vec![[1.0, 0.0, 0.0, 0.0], [0.5, 0.5, 0.5, 0.5]]);
}

#[test]
fn extract_sextets_groups_sextets() {
    let flat = vec![1.0f64, 2.0, 3.0, 4.0, 5.0, 6.0];
    assert_eq!(extract_sextets(&flat, 0, 1), vec![[1.0, 2.0, 3.0, 4.0, 5.0, 6.0]]);
}

#[test]
fn filled_repeats_value() {
    assert_eq!(filled(4, 7u32), vec![7, 7, 7, 7]);
}

#[test]
fn geom_codes_decode() {
    assert_eq!(geom_type_from(0), GeomType::PLANE);
    assert_eq!(geom_type_from(1), GeomType::HFIELD);
    assert_eq!(geom_type_from(2), GeomType::SPHERE);
    assert_eq!(geom_type_from(3), GeomType::CAPSULE);
    assert_eq!(geom_type_from(4), GeomType::ELLIPSOID);
    assert_eq!(geom_type_from(5), GeomType::CYLINDER);
    assert_eq!(geom_type_from(6), GeomType::BOX);
    assert_eq!(geom_type_from(7), GeomType::MESH);
    assert_eq!(geom_type_from(1001), GeomType::NONE);
}

#[test]
fn unknown_geom_code_is_rejected() {
    assert_eq!(geom_type_try_from(8), None);
    assert_eq!(geom_type_try_from(1000), None);
    assert_eq!(geom_type_try_from(1001), Some(GeomType::NONE));
}
