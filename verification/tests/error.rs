use bg3_save::error::SaveError;

#[test]
fn error_display() {
    let err = SaveError::Package("bad package".into());
    assert_eq!(err.message(), "bad package");

    let err = SaveError::FileNotFound("globals.lsf".into());
    assert_eq!(err.message(), "File 'globals.lsf' not found in package");

    let err = SaveError::Other("something went wrong".into());
    assert_eq!(err.message(), "something went wrong");
}

#[test]
fn error_from_io() {
    let io_err = std::io::Error::new(std::io::ErrorKind::NotFound, "file not found");
    let err: SaveError = io_err.into();
    assert!(matches!(err, SaveError::Io(_)));
}

#[test]
fn error_from_json() {
    let json_err = serde_json::from_str::<serde_json::Value>("invalid").unwrap_err();
    let err: SaveError = json_err.into();
    assert!(matches!(err, SaveError::Json(_)));
}

#[test]
fn wrapped_errors_keep_their_message() {
    let err: SaveError = std::io::Error::new(std::io::ErrorKind::NotFound, "file not found").into();
    assert_eq!(err.message(), "file not found");

    let json_err = serde_json::from_str::<serde_json::Value>("invalid").unwrap_err();
    let text = json_err.to_string();
    let err: SaveError = json_err.into();
    assert_eq!(err.message(), text);

    let utf8_err = String::from_utf8(vec![0xff, 0xfe]).unwrap_err();
    let text = utf8_err.to_string();
    let err: SaveError = utf8_err.into();
    assert!(matches!(err, SaveError::Utf8(_)));
    assert_eq!(err.message(), text);

    let toml_err = toml::from_str::<toml::Table>("= broken").unwrap_err();
    let text = toml_err.to_string();
    let err: SaveError = toml_err.into();
    assert!(matches!(err, SaveError::Toml(_)));
    assert_eq!(err.message(), text);
}
