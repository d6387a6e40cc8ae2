use dicom_model::error::{DicomError, SyntaxErrorKind};
use dicom_model::kind::{VrClass, VrKind};
use dicom_model::tag::{DicomValue, VisualRepresentation};
use dicom_model::temporal::{DicomDate, DicomDateTime, DicomTime};

fn invalid(text: &str) -> DicomError {
    DicomError::InvalidValue(text.to_string())
}

#[test]
fn patient_name_renders_back() {
    let v = VisualRepresentation::from_string("PN", "Doe^John").unwrap();
    assert_eq!(v, VisualRepresentation::PN("Doe^John".to_string()));
    assert_eq!(v.to_string(), "Doe^John");
}

#[test]
fn text_kinds_keep_the_text() {
    for vr in ["AE", "AS", "AT", "CS", "DS", "IS", "LO", "LT", "PN", "SH", "ST", "UC", "UI", "UR", "UT"] {
        let v = VisualRepresentation::from_string(vr, "  any text, kept as it is ").unwrap();
        assert_eq!(v.get_kind().name(), vr);
        assert_eq!(v.to_string(), "  any text, kept as it is ");
    }
}

#[test]
fn numeric_kinds_refuse_what_is_no_number() {
    for vr in ["FL", "FD", "SL", "SS", "SV", "UL", "US", "OD", "OF", "OL", "OV", "OW"] {
        assert_eq!(
            VisualRepresentation::from_string(vr, "not-a-number"),
            Err(invalid("not-a-number")),
            "{}",
            vr
        );
    }
}

#[test]
fn signed_integers_are_read() {
    assert_eq!(VisualRepresentation::from_string("SL", "-42"), Ok(VisualRepresentation::SL(-42)));
    assert_eq!(VisualRepresentation::from_string("SL", "+7"), Ok(VisualRepresentation::SL(7)));
    assert_eq!(VisualRepresentation::from_string("SL", "007"), Ok(VisualRepresentation::SL(7)));
    assert_eq!(VisualRepresentation::from_string("SL", "-0"), Ok(VisualRepresentation::SL(0)));
    assert_eq!(
        VisualRepresentation::from_string("SL", "2147483647"),
        Ok(VisualRepresentation::SL(i32::MAX))
    );
    assert_eq!(
        VisualRepresentation::from_string("SL", "-2147483648"),
        Ok(VisualRepresentation::SL(i32::MIN))
    );
    assert_eq!(VisualRepresentation::from_string("SL", "2147483648"), Err(invalid("2147483648")));
    assert_eq!(VisualRepresentation::from_string("SL", "-2147483649"), Err(invalid("-2147483649")));
    assert_eq!(
        VisualRepresentation::from_string("SS", "-32768"),
        Ok(VisualRepresentation::SS(i16::MIN))
    );
    assert_eq!(VisualRepresentation::from_string("SS", "32768"), Err(invalid("32768")));
    assert_eq!(
        VisualRepresentation::from_string("SV", "9223372036854775807"),
        Ok(VisualRepresentation::SV(i64::MAX))
    );
    assert_eq!(
        VisualRepresentation::from_string("SV", "-9223372036854775808"),
        Ok(VisualRepresentation::SV(i64::MIN))
    );
    assert_eq!(
        VisualRepresentation::from_string("SV", "9223372036854775808"),
        Err(invalid("9223372036854775808"))
    );
    assert_eq!(
        VisualRepresentation::from_string("SV", "99999999999999999999999999"),
        Err(invalid("99999999999999999999999999"))
    );
    assert_eq!(
        VisualRepresentation::from_string("SV", "0000000000000000000000000000012"),
        Ok(VisualRepresentation::SV(12))
    );
}

#[test]
fn unsigned_integers_are_read() {
    assert_eq!(VisualRepresentation::from_string("US", "65535"), Ok(VisualRepresentation::US(65535)));
    assert_eq!(VisualRepresentation::from_string("US", "+12"), Ok(VisualRepresentation::US(12)));
    assert_eq!(VisualRepresentation::from_string("US", "65536"), Err(invalid("65536")));
    assert_eq!(VisualRepresentation::from_string("US", "-1"), Err(invalid("-1")));
    assert_eq!(VisualRepresentation::from_string("US", "-0"), Err(invalid("-0")));
    assert_eq!(
        VisualRepresentation::from_string("UL", "4294967295"),
        Ok(VisualRepresentation::UL(u32::MAX))
    );
    assert_eq!(VisualRepresentation::from_string("UL", "4294967296"), Err(invalid("4294967296")));
}

#[test]
fn malformed_integers_are_refused() {
    for text in ["", "+", "-", " 1", "1 ", "1_000", "0x10", "1.0", "--1", "+-1", "١٢"] {
        assert_eq!(VisualRepresentation::from_string("SL", text), Err(invalid(text)), "{:?}", text);
        assert_eq!(VisualRepresentation::from_string("UL", text), Err(invalid(text)), "{:?}", text);
    }
}

#[test]
fn integers_agree_with_the_native_parser() {
    for text in ["0", "5", "-5", "+5", "00", "-", "+", "", "32767", "32768", "-32768", "-32769", "1e3", " 7", "7\n"] {
        let native: Option<i16> = text.parse().ok();
        let ours = match VisualRepresentation::from_string("SS", text) {
            Ok(VisualRepresentation::SS(v)) => Some(v),
            Ok(other) => panic!("kind changed: {:?}", other),
            Err(_) => None,
        };
        assert_eq!(ours, native, "{:?}", text);
        let native: Option<u16> = text.parse().ok();
        let ours = match VisualRepresentation::from_string("US", text) {
            Ok(VisualRepresentation::US(v)) => Some(v),
            Ok(other) => panic!("kind changed: {:?}", other),
            Err(_) => None,
        };
        assert_eq!(ours, native, "{:?}", text);
    }
}

#[test]
fn number_vectors_are_split_at_white_space() {
    assert_eq!(
        VisualRepresentation::from_string("OW", "1 2  3\t4\n65535"),
        Ok(VisualRepresentation::OW(vec![1, 2, 3, 4, 65535]))
    );
    assert_eq!(
        VisualRepresentation::from_string("OL", "  7\u{00A0}8\u{2003}9 "),
        Ok(VisualRepresentation::OL(vec![7, 8, 9]))
    );
    assert_eq!(
        VisualRepresentation::from_string("OV", "-1 +2 9223372036854775807"),
        Ok(VisualRepresentation::OV(vec![-1, 2, i64::MAX]))
    );
    assert_eq!(VisualRepresentation::from_string("OW", ""), Ok(VisualRepresentation::OW(vec![])));
    assert_eq!(VisualRepresentation::from_string("OW", " \t "), Ok(VisualRepresentation::OW(vec![])));
    assert_eq!(VisualRepresentation::from_string("OW", "1 x 3"), Err(invalid("1 x 3")));
    assert_eq!(VisualRepresentation::from_string("OW", "1 65536"), Err(invalid("1 65536")));
    assert_eq!(VisualRepresentation::from_string("OL", "1 -2"), Err(invalid("1 -2")));
}

#[test]
fn words_agree_with_the_native_split() {
    for text in ["", " ", "a", " a", "a ", "a b", "a\u{0085}b", "a\u{1680}b\u{3000}c", "a\u{200B}b", "\u{2028}x\u{2029}", "1\u{202F}2\u{205F}3", "a\u{000B}b\u{000C}c\rd"] {
        let native: Vec<String> = text.split_whitespace().map(|w| w.to_string()).collect();
        let ours = match VisualRepresentation::from_string("OD", text) {
            Ok(VisualRepresentation::OD(v)) => Some(v),
            _ => None,
        };
        let all_decimal = native.iter().all(|w| VisualRepresentation::from_string("FD", w).is_ok());
        if all_decimal {
            assert_eq!(ours, Some(native), "{:?}", text);
        } else {
            assert_eq!(ours, None, "{:?}", text);
        }
    }
    assert_eq!(
        VisualRepresentation::from_string("OD", "1\u{1680}2.5\u{3000}-3e4"),
        Ok(VisualRepresentation::OD(vec!["1".to_string(), "2.5".to_string(), "-3e4".to_string()]))
    );
}

#[test]
fn decimal_literals_are_kept() {
    for text in [
        "3.14", "-3.14", "2.5E10", "2.5e10", "2.5E-10", "5.", ".5", "0.5", "7", "007", "inf", "-inf",
        "+infinity", "NaN", "nan", "INF", "Infinity", "1e5", "1e+5", "+.5e-3", "1.e5", "0", "-0",
    ] {
        assert_eq!(
            VisualRepresentation::from_string("FL", text),
            Ok(VisualRepresentation::FL(text.to_string())),
            "{:?}",
            text
        );
        assert_eq!(
            VisualRepresentation::from_string("FD", text),
            Ok(VisualRepresentation::FD(text.to_string())),
            "{:?}",
            text
        );
    }
}

#[test]
fn malformed_decimals_are_refused() {
    for text in [
        "", ".", "+", "-", "e5", ".e5", "1e", "1e+", "1.2.3", " 1", "1 ", "0x10", "1_0", "infinit",
        "in", "nanx", "+-1", "1e5.0", "1,5", "not-a-number", "١",
    ] {
        assert_eq!(VisualRepresentation::from_string("FL", text), Err(invalid(text)), "{:?}", text);
        assert_eq!(VisualRepresentation::from_string("FD", text), Err(invalid(text)), "{:?}", text);
    }
}

#[test]
fn decimals_agree_with_the_native_parser() {
    for text in [
        "3.14", "5.", ".5", ".", "", "e5", "1e5", "1E5", "1e", "inf", "INFINITY", "nan", "+nan",
        "-inf", "infinit", "1.2.3", " 1", "1 ", "+", "-", "+.5", "1e-", "1e+7", "0x1p3", "1f32",
        "١", "1__0",
    ] {
        let native = text.parse::<f64>().is_ok();
        let ours = VisualRepresentation::from_string("FD", text).is_ok();
        assert_eq!(ours, native, "{:?}", text);
        let native = text.parse::<f32>().is_ok();
        let ours = VisualRepresentation::from_string("FL", text).is_ok();
        assert_eq!(ours, native, "{:?}", text);
    }
}

#[test]
fn decimal_vectors_keep_each_literal() {
    assert_eq!(
        VisualRepresentation::from_string("OF", " 1.5  -2e3\tinf "),
        Ok(VisualRepresentation::OF(vec!["1.5".to_string(), "-2e3".to_string(), "inf".to_string()]))
    );
    assert_eq!(VisualRepresentation::from_string("OF", "1.5 x"), Err(invalid("1.5 x")));
    assert_eq!(VisualRepresentation::from_string("OD", ""), Ok(VisualRepresentation::OD(vec![])));
}

#[test]
fn dates_are_read() {
    assert_eq!(
        VisualRepresentation::from_string("DA", "20240229"),
        Ok(VisualRepresentation::DA(DicomDate { year: 2024, month: 2, day: 29 }))
    );
    assert_eq!(
        VisualRepresentation::from_string("DA", "00000229"),
        Ok(VisualRepresentation::DA(DicomDate { year: 0, month: 2, day: 29 }))
    );
    assert_eq!(
        VisualRepresentation::from_string("DA", "20000229"),
        Ok(VisualRepresentation::DA(DicomDate { year: 2000, month: 2, day: 29 }))
    );
    assert_eq!(
        VisualRepresentation::from_string("DA", "99991231"),
        Ok(VisualRepresentation::DA(DicomDate { year: 9999, month: 12, day: 31 }))
    );
    assert_eq!(
        VisualRepresentation::from_string("DA", "00010101"),
        Ok(VisualRepresentation::DA(DicomDate { year: 1, month: 1, day: 1 }))
    );
}

#[test]
fn malformed_dates_are_syntax_errors() {
    for text in [
        "20230229", "19000229", "21000229", "20241301", "20240001", "20240100", "20240132",
        "20240431", "20240631", "20240931", "20241131", "2024 1 5", "202401", "2024-01-05",
        "+20240105", "202401050", "", "2024010a", " 20240105", "２０２４０１０５",
    ] {
        assert_eq!(
            VisualRepresentation::from_string("DA", text),
            Err(DicomError::SyntaxError(SyntaxErrorKind::InvalidDate(text.to_string()))),
            "{:?}",
            text
        );
    }
}

#[test]
fn every_month_has_its_days() {
    let days = [31u8, 28, 31, 30, 31, 30, 31, 31, 30, 31, 30, 31];
    for (i, last) in days.iter().enumerate() {
        let month = i as u8 + 1;
        let good = format!("2023{:02}{:02}", month, last);
        let bad = format!("2023{:02}{:02}", month, last + 1);
        assert_eq!(
            VisualRepresentation::from_string("DA", &good),
            Ok(VisualRepresentation::DA(DicomDate { year: 2023, month, day: *last })),
            "{}",
            good
        );
        assert!(VisualRepresentation::from_string("DA", &bad).is_err(), "{}", bad);
    }
}

#[test]
fn times_are_read() {
    assert_eq!(
        VisualRepresentation::from_string("TM", "235959"),
        Ok(VisualRepresentation::TM(DicomTime { hour: 23, minute: 59, second: 59, microsecond: 0 }))
    );
    assert_eq!(
        VisualRepresentation::from_string("TM", "000000"),
        Ok(VisualRepresentation::TM(DicomTime { hour: 0, minute: 0, second: 0, microsecond: 0 }))
    );
    assert_eq!(
        VisualRepresentation::from_string("TM", "120000.123456"),
        Ok(VisualRepresentation::TM(DicomTime {
            hour: 12,
            minute: 0,
            second: 0,
            microsecond: 123456
        }))
    );
    assert_eq!(
        VisualRepresentation::from_string("TM", "120000.000001"),
        Ok(VisualRepresentation::TM(DicomTime { hour: 12, minute: 0, second: 0, microsecond: 1 }))
    );
    assert_eq!(
        VisualRepresentation::from_string("TM", "235960"),
        Ok(VisualRepresentation::TM(DicomTime { hour: 23, minute: 59, second: 60, microsecond: 0 }))
    );
    assert_eq!(
        VisualRepresentation::from_string("TM", "120060.999999"),
        Ok(VisualRepresentation::TM(DicomTime {
            hour: 12,
            minute: 0,
            second: 60,
            microsecond: 999999
        }))
    );
}

#[test]
fn malformed_times_are_syntax_errors() {
    for text in [
        "240000", "126000", "120061", "1200", "12:00:00", "120000.", "120000.12", "120000.1234567",
        "120000,123456", "", " 120000", "120000 ", "12000a", "120000.12345x",
    ] {
        assert_eq!(
            VisualRepresentation::from_string("TM", text),
            Err(DicomError::SyntaxError(SyntaxErrorKind::InvalidTime(text.to_string()))),
            "{:?}",
            text
        );
    }
}

#[test]
fn datetimes_are_read() {
    assert_eq!(
        VisualRepresentation::from_string("DT", "20240229123456"),
        Ok(VisualRepresentation::DT(DicomDateTime {
            date: DicomDate { year: 2024, month: 2, day: 29 },
            time: DicomTime { hour: 12, minute: 34, second: 56, microsecond: 0 },
        }))
    );
    assert_eq!(
        VisualRepresentation::from_string("DT", "19991231235960.000001"),
        Ok(VisualRepresentation::DT(DicomDateTime {
            date: DicomDate { year: 1999, month: 12, day: 31 },
            time: DicomTime { hour: 23, minute: 59, second: 60, microsecond: 1 },
        }))
    );
}

#[test]
fn malformed_datetimes_are_syntax_errors() {
    for text in [
        "20230229123456", "20240229240000", "20240229126000", "20240229120061", "20240229",
        "2024022912345", "20240229123456.", "20240229123456.1", "2024-02-29T12:34:56", "",
        "20240229 123456", "20241301000000",
    ] {
        assert_eq!(
            VisualRepresentation::from_string("DT", text),
            Err(DicomError::SyntaxError(SyntaxErrorKind::InvalidDateTime(text.to_string()))),
            "{:?}",
            text
        );
    }
}

#[test]
fn blobs_take_the_bytes_of_the_text() {
    assert_eq!(
        VisualRepresentation::from_string("OB", "abc"),
        Ok(VisualRepresentation::OB(vec![0x61, 0x62, 0x63]))
    );
    assert_eq!(
        VisualRepresentation::from_string("UN", "é€"),
        Ok(VisualRepresentation::UN(vec![0xC3, 0xA9, 0xE2, 0x82, 0xAC]))
    );
    assert_eq!(VisualRepresentation::from_string("OB", ""), Ok(VisualRepresentation::OB(vec![])));
}

#[test]
fn unknown_kinds_become_un() {
    for vr in ["XX", "", "pn", "P", "PNN", "OB or OW", "U N"] {
        assert_eq!(
            VisualRepresentation::from_string(vr, "raw"),
            Ok(VisualRepresentation::UN(vec![0x72, 0x61, 0x77])),
            "{:?}",
            vr
        );
        assert_eq!(VisualRepresentation::new(vr), VisualRepresentation::UN(vec![]), "{:?}", vr);
        assert_eq!(VrKind::from_name(vr), VrKind::UN);
    }
}

#[test]
fn a_sequence_starts_empty() {
    assert_eq!(
        VisualRepresentation::from_string("SQ", "ignored text"),
        Ok(VisualRepresentation::SQ(vec![]))
    );
    assert_eq!(VisualRepresentation::new("SQ"), VisualRepresentation::SQ(vec![]));
    assert_eq!(VisualRepresentation::new("SQ").to_string(), "");
}

#[test]
fn fresh_values_are_zero() {
    assert_eq!(VisualRepresentation::new("AE"), VisualRepresentation::AE(String::new()));
    assert_eq!(VisualRepresentation::new("UT"), VisualRepresentation::UT(String::new()));
    assert_eq!(VisualRepresentation::new("FL"), VisualRepresentation::FL("0".to_string()));
    assert_eq!(VisualRepresentation::new("FD"), VisualRepresentation::FD("0".to_string()));
    assert_eq!(VisualRepresentation::new("SL"), VisualRepresentation::SL(0));
    assert_eq!(VisualRepresentation::new("SS"), VisualRepresentation::SS(0));
    assert_eq!(VisualRepresentation::new("SV"), VisualRepresentation::SV(0));
    assert_eq!(VisualRepresentation::new("UL"), VisualRepresentation::UL(0));
    assert_eq!(VisualRepresentation::new("US"), VisualRepresentation::US(0));
    assert_eq!(VisualRepresentation::new("OB"), VisualRepresentation::OB(vec![]));
    assert_eq!(VisualRepresentation::new("OD"), VisualRepresentation::OD(vec![]));
    assert_eq!(VisualRepresentation::new("OF"), VisualRepresentation::OF(vec![]));
    assert_eq!(VisualRepresentation::new("OL"), VisualRepresentation::OL(vec![]));
    assert_eq!(VisualRepresentation::new("OV"), VisualRepresentation::OV(vec![]));
    assert_eq!(VisualRepresentation::new("OW"), VisualRepresentation::OW(vec![]));
    assert_eq!(VisualRepresentation::new("UN"), VisualRepresentation::UN(vec![]));
    assert_eq!(
        VisualRepresentation::new("DA"),
        VisualRepresentation::DA(DicomDate { year: 1970, month: 1, day: 1 })
    );
    assert_eq!(
        VisualRepresentation::new("TM"),
        VisualRepresentation::TM(DicomTime { hour: 0, minute: 0, second: 0, microsecond: 0 })
    );
    assert_eq!(
        VisualRepresentation::new("DT"),
        VisualRepresentation::DT(DicomDateTime {
            date: DicomDate { year: 1970, month: 1, day: 1 },
            time: DicomTime { hour: 0, minute: 0, second: 0, microsecond: 0 },
        })
    );
}

#[test]
fn fresh_values_read_back_from_their_text() {
    for vr in [
        "AE", "AS", "AT", "CS", "DA", "DS", "DT", "FL", "FD", "IS", "LO", "LT", "OB", "OD", "OF",
        "OL", "OV", "OW", "PN", "SH", "SL", "SQ", "SS", "ST", "SV", "TM", "UC", "UI", "UL", "UN",
        "UR", "US", "UT",
    ] {
        let fresh = VisualRepresentation::new(vr);
        assert_eq!(fresh.get_kind(), VrKind::from_name(vr));
        assert_eq!(fresh.get_kind().name(), vr);
        assert_eq!(VisualRepresentation::from_string(vr, &fresh.to_string()), Ok(fresh), "{}", vr);
    }
}

#[test]
fn values_render_to_text() {
    let cases = [
        ("SL", "-42", "-42"),
        ("SL", "+007", "7"),
        ("SV", "-9223372036854775808", "-9223372036854775808"),
        ("UL", "4294967295", "4294967295"),
        ("US", "0", "0"),
        ("OW", " 1  2\t3 ", "1 2 3"),
        ("OV", "-1 +2", "-1 2"),
        ("OL", "", ""),
        ("OF", " 1.5\n-2e3 ", "1.5 -2e3"),
        ("FD", "2.5E-10", "2.5E-10"),
        ("DA", "20240229", "20240229"),
        ("DA", "00010203", "00010203"),
        ("TM", "010203", "010203"),
        ("TM", "010203.000000", "010203"),
        ("TM", "010203.000400", "010203.000400"),
        ("TM", "235960.500000", "235960.500000"),
        ("DT", "20240229235960.123456", "20240229235960.123456"),
        ("DT", "00010101000000.000000", "00010101000000"),
        ("OB", "héllo", "héllo"),
        ("UN", "", ""),
        ("UI", "1.2.840.10008.1.2", "1.2.840.10008.1.2"),
    ];
    for (vr, text, rendered) in cases {
        let v = VisualRepresentation::from_string(vr, text).unwrap();
        assert_eq!(v.to_string(), rendered, "{} {:?}", vr, text);
    }
}

#[test]
fn rendered_text_reads_back_as_the_same_value() {
    let cases = [
        ("SL", "+0012"),
        ("SS", "-32768"),
        ("SV", "9223372036854775807"),
        ("UL", "+4294967295"),
        ("US", "0065535"),
        ("OW", "\t1\n2  3 "),
        ("OL", "4294967295 0"),
        ("OV", "-9223372036854775808 +5"),
        ("OD", " 1.0   2.0 "),
        ("OF", ".5"),
        ("FL", "-1.5e+3"),
        ("FD", "NaN"),
        ("DA", "20240229"),
        ("TM", "235960.000000"),
        ("TM", "000000.000001"),
        ("DT", "20240229235960"),
        ("OB", "bytes ≠ text"),
        ("UN", "\u{0}\u{7f}"),
        ("SQ", "whatever"),
        ("LT", "line one\nline two"),
    ];
    for (vr, text) in cases {
        let v = VisualRepresentation::from_string(vr, text).unwrap();
        let again = VisualRepresentation::from_string(vr, &v.to_string()).unwrap();
        assert_eq!(again, v, "{} {:?}", vr, text);
    }
}

#[test]
fn bytes_that_are_no_utf8_render_byte_by_byte() {
    let v = VisualRepresentation::OB(vec![0x41, 0xFF, 0x00, 0xE9]);
    assert_eq!(v.to_string(), "A\u{FF}\u{0}\u{E9}");
    let v = VisualRepresentation::UN(vec![0xC3, 0xA9]);
    assert_eq!(v.to_string(), "é");
    let v = VisualRepresentation::UN(vec![0xC3]);
    assert_eq!(v.to_string(), "\u{C3}");
}

#[test]
fn set_replaces_the_payload_and_keeps_the_kind() {
    let mut v = VisualRepresentation::new("US");
    assert_eq!(v.set(DicomValue::String("512")), Ok(()));
    assert_eq!(v, VisualRepresentation::US(512));
    let mut v = VisualRepresentation::from_string("PN", "Doe^John").unwrap();
    assert_eq!(v.set(DicomValue::String("Roe^Jane")), Ok(()));
    assert_eq!(v, VisualRepresentation::PN("Roe^Jane".to_string()));
    let mut v = VisualRepresentation::new("DA");
    assert_eq!(v.set(DicomValue::String("20011231")), Ok(()));
    assert_eq!(v, VisualRepresentation::DA(DicomDate { year: 2001, month: 12, day: 31 }));
    let mut v = VisualRepresentation::new("OW");
    assert_eq!(v.set(DicomValue::String("1 2 3")), Ok(()));
    assert_eq!(v, VisualRepresentation::OW(vec![1, 2, 3]));
    let mut v = VisualRepresentation::new("XY");
    assert_eq!(v.set(DicomValue::String("a")), Ok(()));
    assert_eq!(v, VisualRepresentation::UN(vec![0x61]));
}

#[test]
fn set_fails_as_construction_does_and_changes_nothing() {
    let mut v = VisualRepresentation::US(7);
    assert_eq!(v.set(DicomValue::String("70000")), Err(invalid("70000")));
    assert_eq!(v, VisualRepresentation::US(7));
    let mut v = VisualRepresentation::FL("1.5".to_string());
    assert_eq!(v.set(DicomValue::String("one")), Err(invalid("one")));
    assert_eq!(v, VisualRepresentation::FL("1.5".to_string()));
    let mut v = VisualRepresentation::new("DA");
    assert_eq!(
        v.set(DicomValue::String("20230230")),
        Err(DicomError::SyntaxError(SyntaxErrorKind::InvalidDate("20230230".to_string())))
    );
    assert_eq!(v, VisualRepresentation::new("DA"));
    let mut v = VisualRepresentation::new("TM");
    assert_eq!(
        v.set(DicomValue::String("250000")),
        Err(DicomError::SyntaxError(SyntaxErrorKind::InvalidTime("250000".to_string())))
    );
    let mut v = VisualRepresentation::new("DT");
    assert_eq!(
        v.set(DicomValue::String("x")),
        Err(DicomError::SyntaxError(SyntaxErrorKind::InvalidDateTime("x".to_string())))
    );
    assert_eq!(v, VisualRepresentation::new("DT"));
}

#[test]
fn set_refuses_attributes_for_a_kind_that_holds_none() {
    let mut v = VisualRepresentation::PN("Doe^John".to_string());
    assert_eq!(v.set(DicomValue::ObjectVec(vec![])), Err(DicomError::InvalidVR("PN".to_string())));
    assert_eq!(v, VisualRepresentation::PN("Doe^John".to_string()));
    let mut v = VisualRepresentation::SL(3);
    assert_eq!(v.set(DicomValue::ObjectVec(vec![])), Err(DicomError::InvalidVR("SL".to_string())));
    assert_eq!(v, VisualRepresentation::SL(3));
}

#[test]
fn kinds_fall_into_classes() {
    assert_eq!(VrKind::PN.get_class(), VrClass::Text);
    assert_eq!(VrKind::AT.get_class(), VrClass::Text);
    assert_eq!(VrKind::FL.get_class(), VrClass::Decimal);
    assert_eq!(VrKind::OD.get_class(), VrClass::Decimals);
    assert_eq!(VrKind::US.get_class(), VrClass::Integer);
    assert_eq!(VrKind::OW.get_class(), VrClass::Integers);
    assert_eq!(VrKind::UN.get_class(), VrClass::Bytes);
    assert_eq!(VrKind::DA.get_class(), VrClass::Date);
    assert_eq!(VrKind::TM.get_class(), VrClass::Time);
    assert_eq!(VrKind::DT.get_class(), VrClass::DateTime);
    assert_eq!(VrKind::SQ.get_class(), VrClass::Items);
    assert_eq!((VrKind::SS.get_min_value(), VrKind::SS.get_max_value()), (-32768, 32767));
    assert_eq!((VrKind::UL.get_min_value(), VrKind::UL.get_max_value()), (0, 4294967295));
    assert_eq!((VrKind::OV.get_min_value(), VrKind::OV.get_max_value()), (i64::MIN, i64::MAX));
    assert_eq!(VrKind::UT.letters(), ('U', 'T'));
}

#[test]
fn dates_and_times_render_in_fixed_width() {
    assert_eq!(DicomDate { year: 7, month: 3, day: 9 }.to_string(), "00070309");
    assert_eq!(DicomDate { year: 2024, month: 12, day: 31 }.to_string(), "20241231");
    assert_eq!(
        DicomTime { hour: 1, minute: 2, second: 3, microsecond: 0 }.to_string(),
        "010203"
    );
    assert_eq!(
        DicomTime { hour: 23, minute: 59, second: 60, microsecond: 42 }.to_string(),
        "235960.000042"
    );
    assert_eq!(
        DicomDateTime {
            date: DicomDate { year: 1999, month: 1, day: 2 },
            time: DicomTime { hour: 3, minute: 4, second: 5, microsecond: 600000 },
        }
        .to_string(),
        "19990102030405.600000"
    );
}

#[test]
fn white_space_agrees_with_the_native_property() {
    let codes = (0..=0xFFFFu32).chain((0x10000..=0x10FFFFu32).step_by(17));
    for code in codes {
        let c = match char::from_u32(code) {
            Some(c) => c,
            None => continue,
        };
        let text = format!("1{}2", c);
        let read = VisualRepresentation::from_string("OW", &text);
        if c.is_whitespace() {
            assert_eq!(read, Ok(VisualRepresentation::OW(vec![1, 2])), "U+{:04X}", code);
        } else if c.is_ascii_digit() {
            assert!(matches!(read, Ok(VisualRepresentation::OW(ref v)) if v.len() == 1), "U+{:04X}", code);
        } else {
            assert_eq!(read, Err(invalid(&text)), "U+{:04X}", code);
        }
    }
}
