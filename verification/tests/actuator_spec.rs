use rudydae::actuator_spec::{
    check_model_against_stem, index_from_number, is_robstride_spec_file, parse_index_text,
    register_model,
    validate_actuator_model_against_filename, ProtocolIdLayout, ProtocolSpec, SpecFileError,
};
use rudydae::inventory::RobstrideModel;

#[test]
fn robstride_filename_mismatch_errors() {
    match validate_actuator_model_against_filename("RS04", "/tmp/x/robstride_rs03.yaml") {
        Err(SpecFileError::ModelMismatch { found, expected }) => {
            assert_eq!(found, "RS04");
            assert_eq!(expected, "RS03");
        }
        other => panic!("unexpected {other:?}"),
    }
}

#[test]
fn non_robstride_filename_skips_model_check() {
    assert!(validate_actuator_model_against_filename("ANYTHING", "/tmp/x/spec.yaml").is_ok());
}

#[test]
fn model_check_ignores_ascii_case() {
    assert!(validate_actuator_model_against_filename("rs03", "robstride_RS03.yaml").is_ok());
    assert!(check_model_against_stem("RS02", Some("robstride_rs02")).is_ok());
    assert!(check_model_against_stem("RS02", None).is_ok());
    assert!(check_model_against_stem("RS02", Some("robstride_rs01")).is_err());
}

#[test]
fn spec_file_names() {
    assert!(is_robstride_spec_file("robstride_rs03.yaml"));
    assert!(is_robstride_spec_file("robstride_rs01.YML"));
    assert!(!is_robstride_spec_file("robstride_rs03.json"));
    assert!(!is_robstride_spec_file("rs03.yaml"));
    assert!(!is_robstride_spec_file("Robstride_rs03.yaml"));
}

#[test]
fn duplicate_models_are_refused() {
    let mut seen = Vec::new();
    assert!(register_model(&mut seen, RobstrideModel::Rs03));
    assert!(register_model(&mut seen, RobstrideModel::Rs04));
    assert!(!register_model(&mut seen, RobstrideModel::Rs03));
    assert_eq!(seen, vec![RobstrideModel::Rs03, RobstrideModel::Rs04]);
}

#[test]
fn protocol_defaults_are_empty() {
    let p = ProtocolSpec::default();
    assert_eq!(p.bitrate_bps, 0);
    assert!(p.comm_types.is_empty());
    let l = ProtocolIdLayout::default();
    assert_eq!(l.comm_type_bits, [0, 0]);
}

#[test]
fn index_text_accepts_hex_with_or_without_prefix() {
    assert_eq!(parse_index_text("0x700B"), Some(0x700b));
    assert_eq!(parse_index_text("0X700b"), Some(0x700b));
    assert_eq!(parse_index_text("700B"), Some(0x700b));
    assert_eq!(parse_index_text("  0x7005 "), Some(0x7005));
    assert_eq!(parse_index_text("+ff"), Some(0xff));
    assert_eq!(parse_index_text("0xffff"), Some(0xffff));
}

#[test]
fn index_text_rejects_non_hex_and_overflow() {
    assert_eq!(parse_index_text(""), None);
    assert_eq!(parse_index_text("0x"), None);
    assert_eq!(parse_index_text("0x10000"), None);
    assert_eq!(parse_index_text("70g0"), None);
    assert_eq!(parse_index_text("-1"), None);
}

#[test]
fn index_numbers_must_fit_u16() {
    assert_eq!(index_from_number(0x7019), Some(0x7019));
    assert_eq!(index_from_number(65535), Some(65535));
    assert_eq!(index_from_number(65536), None);
}
