use bunbuntype::calculators::calculate_accuracy;
use bunbuntype::calculators::calculate_awpm;
use bunbuntype::calculators::calculate_wpm;
use bunbuntype::calculators::round_milli;
use bunbuntype::error::ErrorKind;
use bunbuntype::record::DateTime;
use bunbuntype::record::WpmResult;

fn sample_datetime() -> DateTime {
    DateTime {
        year: 2024,
        month: 5,
        day: 6,
        hour: 7,
        minute: 8,
        second: 9,
        offset_minutes: 120,
    }
}

#[test]
fn test_wpm() {
    // 200 characters in 1.5 minutes (90 seconds) rounds to 27 words per minute.
    let wpm = calculate_wpm(200, 90).unwrap();
    assert_eq!(round_milli(wpm), 27);
}

#[test]
fn test_accuracy() {
    // 190 correct of 200 characters is exactly 0.95, i.e. 950 milli.
    let accuracy = calculate_accuracy(200, 190).unwrap();
    assert_eq!(accuracy, 950);
}

#[test]
fn test_awpm() {
    // Adjusted speed over the same run rounds to 25 words per minute.
    let awpm = calculate_awpm(200, 90, 190).unwrap();
    assert_eq!(round_milli(awpm), 25);
}

#[test]
fn test_wpm_exact_milli() {
    // 12000 * 200 / 90 rounded toward zero.
    assert_eq!(calculate_wpm(200, 90).unwrap(), 26666);
    assert_eq!(calculate_awpm(200, 90, 190).unwrap(), 25333);
}

#[test]
fn test_zero_time_is_domain_error() {
    assert_eq!(calculate_wpm(200, 0), Err(ErrorKind::DomainError));
    assert_eq!(calculate_awpm(200, 0, 100), Err(ErrorKind::DomainError));
}

#[test]
fn test_zero_characters_is_domain_error() {
    assert_eq!(calculate_accuracy(0, 0), Err(ErrorKind::DomainError));
    assert_eq!(calculate_awpm(0, 90, 0), Err(ErrorKind::DomainError));
}

#[test]
fn test_serde() {
    let new_wpm = WpmResult::from_parts(27000, 950, 1500, 25000, sample_datetime());
    let line = new_wpm.to_json();
    let wpm_results = WpmResult::from_json(&line).unwrap();
    assert_eq!(wpm_results.wpm_milli, 27000);
}

#[test]
fn test_record_line_text() {
    let r = WpmResult::from_parts(27000, 950, 1500, 25000, sample_datetime());
    assert_eq!(
        r.to_json(),
        "{\"wpm\":27.000,\"accuracy\":0.950,\"duration\":1.500,\"awpm\":25.000,\"date_time\":\"2024-05-06T07:08:09+02:00\"}"
    );
}

#[test]
fn test_record_round_trip_all_fields() {
    let r = WpmResult::from_parts(123456, 1000, 60000, 98765, sample_datetime());
    let back = WpmResult::from_json(&r.to_json()).unwrap();
    assert_eq!(back, r);
}

#[test]
fn test_record_round_trip_negative_offset() {
    let dt = DateTime {
        year: 1999,
        month: 12,
        day: 31,
        hour: 23,
        minute: 59,
        second: 58,
        offset_minutes: -330,
    };
    let r = WpmResult::from_parts(1, 0, 1000, 1, dt);
    let line = r.to_json();
    assert!(line.contains("-05:30"));
    let back = WpmResult::from_json(&line).unwrap();
    assert_eq!(back, r);
}

#[test]
fn test_from_json_rejects_garbage() {
    assert_eq!(WpmResult::from_json("not a record"), Err(ErrorKind::ParseError));
    assert_eq!(WpmResult::from_json(""), Err(ErrorKind::ParseError));
    assert_eq!(
        WpmResult::from_json("{\"wpm\":27.000,\"accuracy\":0.950}"),
        Err(ErrorKind::ParseError)
    );
}

#[test]
fn test_stamped_record_survives_round_trip() {
    // The wall-clock wrapper must hand back calendar fields in range, or
    // the printed line would not parse back.
    let r = WpmResult::new(1000, 1000, 1000, 1000);
    let back = WpmResult::from_json(&r.to_json()).unwrap();
    assert_eq!(back, r);
}

#[test]
fn test_date_label() {
    let r = WpmResult::from_parts(1, 0, 1000, 1, sample_datetime());
    assert_eq!(r.date_label(), "2024-05-06T07:08:09+02:00");
    assert_eq!(r.awpm_whole(), 0);
    let fast = WpmResult::from_parts(1, 0, 1000, 25333, sample_datetime());
    assert_eq!(fast.awpm_whole(), 25);
}

#[test]
fn test_describe_error() {
    assert_eq!(ErrorKind::ConfigError.describe(), "empty vocabulary");
    assert_eq!(ErrorKind::DomainError.describe(), "scoring input out of domain");
    assert_eq!(
        ErrorKind::InvalidStateError.describe(),
        "operation invalid in this state"
    );
    assert_eq!(ErrorKind::IOError.describe(), "file could not be read or written");
    assert_eq!(ErrorKind::ParseError.describe(), "malformed history line");
}
