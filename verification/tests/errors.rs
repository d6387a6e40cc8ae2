use dicom_model::error::{DicomError, OptionExt, SyntaxErrorKind};

#[test]
fn every_error_has_its_message() {
    let s = |t: &str| t.to_string();
    assert_eq!(DicomError::InvalidTag(s("(0010,0010)")).to_string(), "Invalid tag: (0010,0010)");
    assert_eq!(DicomError::InvalidVR(s("ZZ")).to_string(), "Invalid value representation: ZZ");
    assert_eq!(DicomError::InvalidValue(s("x")).to_string(), "Invalid value: x");
    assert_eq!(DicomError::InvalidLength(s("3")).to_string(), "Invalid length: 3");
    assert_eq!(DicomError::InvalidFile(s("a.dcm")).to_string(), "Invalid file: a.dcm");
    assert_eq!(DicomError::InvalidDataset(s("empty")).to_string(), "Invalid dataset: empty");
    assert_eq!(
        DicomError::ObsoleteElement(s("Old")).to_string(),
        "Obsolete element: Old. Use a Force flag to allow legacy properties."
    );
    assert_eq!(DicomError::IOError(s("denied")).to_string(), "IO error: denied");
    assert_eq!(DicomError::Error(s("?")).to_string(), "Unknown error: ?");
    assert_eq!(DicomError::InvalidValue(s("")).to_string(), "Invalid value: ");
}

#[test]
fn every_syntax_error_has_its_message() {
    let s = |t: &str| t.to_string();
    assert_eq!(SyntaxErrorKind::InvalidCharacter('é').to_string(), "Invalid character: é");
    assert_eq!(SyntaxErrorKind::InvalidToken(s("<")).to_string(), "Invalid token: <");
    assert_eq!(SyntaxErrorKind::InvalidNumber(s("1x")).to_string(), "Invalid number: 1x");
    assert_eq!(SyntaxErrorKind::InvalidString(s("\"")).to_string(), "Invalid string: \"");
    assert_eq!(SyntaxErrorKind::InvalidDate(s("2024")).to_string(), "Invalid date: 2024");
    assert_eq!(SyntaxErrorKind::InvalidTime(s("25")).to_string(), "Invalid time: 25");
    assert_eq!(SyntaxErrorKind::InvalidDateTime(s("x")).to_string(), "Invalid datetime: x");
    assert_eq!(SyntaxErrorKind::Error(s("?")).to_string(), "Unknown syntax error: ?");
    assert_eq!(
        DicomError::SyntaxError(SyntaxErrorKind::InvalidDate(s("20230230"))).to_string(),
        "Syntax error: Invalid date: 20230230"
    );
    assert_eq!(
        DicomError::SyntaxError(SyntaxErrorKind::InvalidCharacter('#')).to_string(),
        "Syntax error: Invalid character: #"
    );
}

#[test]
fn an_empty_option_becomes_an_error() {
    assert_eq!(Some(5).ok_or_err(), Ok(5));
    assert_eq!(Some("x").ok_or_err(), Ok("x"));
    assert_eq!(
        None::<u8>.ok_or_err(),
        Err(DicomError::Error("Unwrapped empty value.".to_string()))
    );
    assert_eq!(None::<u8>.ok_or_err().unwrap_err().to_string(), "Unknown error: Unwrapped empty value.");
}
