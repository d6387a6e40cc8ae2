use dicom_model::error::DicomError;
use dicom_model::hexdumper::{dicom_hexdump, hex_and_ascii};

#[test]
fn nothing_dumps_to_nothing() {
    assert_eq!(hex_and_ascii(&[]), "");
}

#[test]
fn a_full_row_has_sixteen_bytes() {
    let data: Vec<u8> = (0x41..0x51).collect();
    assert_eq!(
        hex_and_ascii(&data),
        "00000000: 41 42 43 44 45 46 47 48 49 4A 4B 4C 4D 4E 4F 50  | ABCDEFGHIJKLMNOP\n"
    );
}

#[test]
fn a_short_row_leaves_a_gap() {
    assert_eq!(
        hex_and_ascii(b"DICM"),
        format!("00000000: 44 49 43 4D {} | DICM\n", "    ".repeat(12))
    );
    assert_eq!(hex_and_ascii(&[0x00]), format!("00000000: 00 {} | .\n", "    ".repeat(15)));
}

#[test]
fn unprintable_bytes_show_as_points() {
    let data = [0x00, 0x1F, 0x20, 0x21, 0x7E, 0x7F, 0x80, 0xFF, 0x0A, 0x09];
    assert_eq!(
        hex_and_ascii(&data),
        format!("00000000: 00 1F 20 21 7E 7F 80 FF 0A 09 {} | .. !~.....\n", "    ".repeat(6))
    );
}

#[test]
fn offsets_count_in_hexadecimal() {
    let data = vec![0x2Eu8; 16 * 17 + 1];
    let dump = hex_and_ascii(&data);
    let rows: Vec<&str> = dump.lines().collect();
    assert_eq!(rows.len(), 18);
    assert!(rows[0].starts_with("00000000: 2E 2E "));
    assert!(rows[1].starts_with("00000010: "));
    assert!(rows[10].starts_with("000000A0: "));
    assert!(rows[16].starts_with("00000100: "));
    assert_eq!(rows[17], format!("00000110: 2E {} | .", "    ".repeat(15)));
    assert_eq!(rows[3], "00000030: 2E 2E 2E 2E 2E 2E 2E 2E 2E 2E 2E 2E 2E 2E 2E 2E  | ................");
    assert!(dump.ends_with('\n'));
}

#[test]
fn a_dump_of_file_contents_passes_errors_on() {
    assert_eq!(
        dicom_hexdump(Ok(vec![0x44, 0x49])),
        Ok(format!("00000000: 44 49 {} | DI\n", "    ".repeat(14)))
    );
    assert_eq!(
        dicom_hexdump(Err(DicomError::IOError("no such file".to_string()))),
        Err(DicomError::IOError("no such file".to_string()))
    );
    assert_eq!(dicom_hexdump(Ok(vec![])), Ok(String::new()));
}
