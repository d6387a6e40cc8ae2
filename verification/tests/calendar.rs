use dicom_model::tag::VisualRepresentation;
use dicom_model::temporal::{DicomDate, DicomDateTime, DicomTime};

fn leap(year: u32) -> bool {
    year % 4 == 0 && (year % 100 != 0 || year % 400 == 0)
}

fn days(year: u32, month: u32) -> u32 {
    match month {
        2 => {
            if leap(year) {
                29
            } else {
                28
            }
        }
        4 | 6 | 9 | 11 => 30,
        _ => 31,
    }
}

#[test]
fn a_date_is_read_exactly_where_the_calendar_has_it() {
    let years = (0..=401u32).chain(1899..=2101).chain(9990..=9999);
    for year in years {
        for month in 0..=13u32 {
            for day in 0..=32u32 {
                let text = format!("{:04}{:02}{:02}", year, month, day);
                let exists = (1..=12).contains(&month) && (1..=days(year, month)).contains(&day);
                let read = VisualRepresentation::from_string("DA", &text);
                if exists {
                    assert_eq!(
                        read,
                        Ok(VisualRepresentation::DA(DicomDate {
                            year: year as u16,
                            month: month as u8,
                            day: day as u8
                        })),
                        "{}",
                        text
                    );
                } else {
                    assert!(read.is_err(), "{}", text);
                }
            }
        }
    }
}

#[test]
fn a_time_is_read_exactly_where_the_clock_has_it() {
    for hour in 0..=25u32 {
        for minute in 0..=61u32 {
            for second in 0..=62u32 {
                let text = format!("{:02}{:02}{:02}", hour, minute, second);
                let exists = hour <= 23 && minute <= 59 && second <= 60;
                let read = VisualRepresentation::from_string("TM", &text);
                if exists {
                    assert_eq!(
                        read,
                        Ok(VisualRepresentation::TM(DicomTime {
                            hour: hour as u8,
                            minute: minute as u8,
                            second: second as u8,
                            microsecond: 0
                        })),
                        "{}",
                        text
                    );
                } else {
                    assert!(read.is_err(), "{}", text);
                }
            }
        }
    }
}

#[test]
fn a_fraction_counts_microseconds() {
    for micro in [0u32, 1, 9, 10, 999, 1000, 123456, 500000, 999999] {
        for second in [0u32, 59, 60] {
            let text = format!("1234{:02}.{:06}", second, micro);
            assert_eq!(
                VisualRepresentation::from_string("TM", &text),
                Ok(VisualRepresentation::TM(DicomTime {
                    hour: 12,
                    minute: 34,
                    second: second as u8,
                    microsecond: micro
                })),
                "{}",
                text
            );
            let text = format!("20240229{}", text);
            assert_eq!(
                VisualRepresentation::from_string("DT", &text),
                Ok(VisualRepresentation::DT(DicomDateTime {
                    date: DicomDate { year: 2024, month: 2, day: 29 },
                    time: DicomTime {
                        hour: 12,
                        minute: 34,
                        second: second as u8,
                        microsecond: micro
                    },
                })),
                "{}",
                text
            );
        }
    }
}

#[test]
fn a_datetime_needs_both_a_date_and_a_time() {
    for (date, date_ok) in [("20240229", true), ("20230229", false), ("00000101", true), ("20241301", false)] {
        for (time, time_ok) in [("000000", true), ("235960", true), ("240000", false), ("126000", false), ("120061", false)] {
            let text = format!("{}{}", date, time);
            assert_eq!(
                VisualRepresentation::from_string("DT", &text).is_ok(),
                date_ok && time_ok,
                "{}",
                text
            );
        }
    }
}

#[test]
fn every_date_and_time_reads_back_from_its_text() {
    for year in [0u16, 1, 999, 1970, 2024, 9999] {
        for month in 1..=12u8 {
            for day in [1u8, 15, 28] {
                let date = DicomDate { year, month, day };
                assert_eq!(
                    VisualRepresentation::from_string("DA", &date.to_string()),
                    Ok(VisualRepresentation::DA(date))
                );
                for (second, microsecond) in [(0u8, 0u32), (59, 999999), (60, 0), (60, 1)] {
                    let time = DicomTime { hour: 23, minute: 59, second, microsecond };
                    assert_eq!(
                        VisualRepresentation::from_string("TM", &time.to_string()),
                        Ok(VisualRepresentation::TM(time))
                    );
                    let both = DicomDateTime { date, time };
                    assert_eq!(
                        VisualRepresentation::from_string("DT", &both.to_string()),
                        Ok(VisualRepresentation::DT(both))
                    );
                }
            }
        }
    }
}
