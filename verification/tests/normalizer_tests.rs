use ipynb::error::IPyNbError;
use ipynb::json::JsonValue;
use ipynb::utils::{normalize_output, vec_to_string};
use ipynb::{Metadata, OutputType};

fn obj(entries: Vec<(&str, JsonValue)>) -> JsonValue {
    JsonValue::Obj(
        entries
            .into_iter()
            .map(|(k, v)| (k.to_string(), v))
            .collect(),
    )
}

fn string_arr(lines: Vec<&str>) -> JsonValue {
    JsonValue::Arr(lines.into_iter().map(|s| JsonValue::Str(s.to_string())).collect())
}

#[test]
fn test_normalize_stream() {
    let record = obj(vec![
        ("output_type", JsonValue::Str("stream".to_string())),
        ("name", JsonValue::Str("stderr".to_string())),
        ("text", string_arr(vec!["warning\n", "more"])),
    ]);
    let out = normalize_output(&record).unwrap();
    assert_eq!(out.get_name(), "stderr");
    assert!(matches!(out.get_type(), OutputType::Stream));
    assert_eq!(out.get_text(), &vec!["warning\n".to_string(), "more".to_string()]);
    assert_eq!(out.get_text_as_string(), "warning\nmore");
    assert!(!out.is_error());
    assert!(out.get_evalue().is_none());
}

#[test]
fn test_normalize_execute_result() {
    let record = obj(vec![
        ("output_type", JsonValue::Str("execute_result".to_string())),
        ("data", obj(vec![("text/plain", string_arr(vec!["42"]))])),
    ]);
    let out = normalize_output(&record).unwrap();
    assert_eq!(out.get_name(), "result");
    assert!(matches!(out.get_type(), OutputType::ExecuteResult));
    assert_eq!(out.get_text_as_string(), "42");
    assert!(!out.is_error());
}

#[test]
fn test_normalize_error() {
    let record = obj(vec![
        ("output_type", JsonValue::Str("error".to_string())),
        ("ename", JsonValue::Str("ValueError".to_string())),
        ("evalue", JsonValue::Str("bad value".to_string())),
        ("traceback", string_arr(vec!["tb1\n", "tb2"])),
    ]);
    let out = normalize_output(&record).unwrap();
    assert_eq!(out.get_name(), "ValueError");
    assert!(matches!(out.get_type(), OutputType::Error));
    assert!(out.is_error());
    assert_eq!(out.get_evalue().as_deref(), Some("bad value"));
    assert_eq!(out.get_traceback().as_deref(), Some("tb1\ntb2"));
    assert_eq!(out.to_text(), "bad value\ntb1\ntb2");
}

#[test]
fn test_normalize_rejects_unknown_discriminator() {
    let record = obj(vec![
        ("output_type", JsonValue::Str("display_data".to_string())),
        ("name", JsonValue::Str("x".to_string())),
    ]);
    assert_eq!(
        normalize_output(&record).unwrap_err(),
        IPyNbError::MalformedOutputRecord
    );
}

#[test]
fn test_normalize_rejects_non_object() {
    assert_eq!(
        normalize_output(&JsonValue::Null).unwrap_err(),
        IPyNbError::MalformedOutputRecord
    );
    assert_eq!(
        normalize_output(&JsonValue::Str("stream".to_string())).unwrap_err(),
        IPyNbError::MalformedOutputRecord
    );
    assert_eq!(
        normalize_output(&string_arr(vec!["x"])).unwrap_err(),
        IPyNbError::MalformedOutputRecord
    );
}

#[test]
fn test_normalize_missing_discriminator() {
    let record = obj(vec![("name", JsonValue::Str("stdout".to_string()))]);
    assert_eq!(
        normalize_output(&record).unwrap_err(),
        IPyNbError::MissingRequiredField
    );
    let record = obj(vec![("output_type", JsonValue::UInt(3))]);
    assert_eq!(
        normalize_output(&record).unwrap_err(),
        IPyNbError::MissingRequiredField
    );
}

#[test]
fn test_normalize_missing_shape_fields() {
    let record = obj(vec![("output_type", JsonValue::Str("stream".to_string()))]);
    assert_eq!(
        normalize_output(&record).unwrap_err(),
        IPyNbError::MalformedOutputRecord
    );
    let record = obj(vec![
        ("output_type", JsonValue::Str("execute_result".to_string())),
        ("data", obj(vec![])),
    ]);
    assert_eq!(
        normalize_output(&record).unwrap_err(),
        IPyNbError::MalformedOutputRecord
    );
    let record = obj(vec![
        ("output_type", JsonValue::Str("error".to_string())),
        ("ename", JsonValue::Str("E".to_string())),
    ]);
    assert_eq!(
        normalize_output(&record).unwrap_err(),
        IPyNbError::MalformedOutputRecord
    );
}

#[test]
fn test_vec_to_string() {
    assert_eq!(vec_to_string(&vec![]), "");
    assert_eq!(
        vec_to_string(&vec!["a\n".to_string(), "".to_string(), "b".to_string()]),
        "a\nb"
    );
}

#[test]
fn test_metadata_new() {
    let m = Metadata::new();
    assert_eq!(m, Metadata {});
}
