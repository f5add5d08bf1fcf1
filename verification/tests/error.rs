use diff_harness::encoding::encode;
use diff_harness::error::EngineError;

#[test]
fn a_text_becomes_an_error_of_the_last_kind() {
    let error = EngineError::from("something else".to_string());
    assert!(matches!(error, EngineError::Other(ref text) if text == "something else"));
    let error: EngineError = String::new().into();
    assert!(matches!(error, EngineError::Other(ref text) if text.is_empty()));
}

#[test]
fn a_message_becomes_an_error_of_the_last_kind() {
    let error = EngineError::other("unexpected");
    assert!(matches!(error, EngineError::Other(ref text) if text == "unexpected"));
}

#[test]
fn an_encoder_error_is_kept_as_it_is() {
    let mut writer = csv::Writer::from_writer(Vec::new());
    writer.write_record(["a", "b"]).unwrap();
    let inner = writer.write_record(["c"]).unwrap_err();
    let shown = format!("{:?}", inner);
    let error = EngineError::from(inner);
    match error {
        EngineError::CSV(kept) => assert_eq!(format!("{:?}", kept), shown),
        other => panic!("expected an encoder error, got {:?}", other),
    }
}

#[test]
fn every_kind_of_error_can_be_printed() {
    let errors = vec![
        EngineError::IO(std::io::Error::new(std::io::ErrorKind::NotFound, "io")),
        EngineError::SendPath("path".to_string()),
        EngineError::ColorEyre(color_eyre::Report::msg("report")),
        EngineError::Other("other".to_string()),
        encode(&vec![vec!["a".to_string()], Vec::new()]).unwrap_err(),
    ];
    let shown: Vec<String> = errors.iter().map(|e| format!("{:?}", e)).collect();
    assert!(shown[0].starts_with("IO(") && shown[0].contains("NotFound"));
    assert_eq!(shown[1], "SendPath(\"path\")");
    assert!(shown[2].starts_with("ColorEyre(") && shown[2].contains("report"));
    assert_eq!(shown[3], "Other(\"other\")");
    assert!(shown[4].starts_with("CSV("));
}

#[test]
fn an_io_error_keeps_its_kind() {
    let inner = std::io::Error::new(std::io::ErrorKind::PermissionDenied, "repos: denied");
    match EngineError::from(inner) {
        EngineError::IO(kept) => {
            assert_eq!(kept.kind(), std::io::ErrorKind::PermissionDenied);
            assert_eq!(kept.to_string(), "repos: denied");
        }
        other => panic!("expected an I/O error, got {:?}", other),
    }
}

#[test]
fn a_report_is_kept_as_it_is() {
    let report = color_eyre::Report::msg("hook already set");
    match EngineError::from(report) {
        EngineError::ColorEyre(kept) => assert_eq!(kept.to_string(), "hook already set"),
        other => panic!("expected a report, got {:?}", other),
    }
}
