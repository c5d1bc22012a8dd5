use nmea_ingest::gsv::{
    decode, decode_cycle, is_gsv_sentence, parse_strength, records_from_fields, split_fields,
    SatelliteRecord,
};

fn degrees(field: &str) -> f64 {
    field.parse().unwrap_or(0.0)
}

fn check(record: &SatelliteRecord, id: &str, elevation: f64, azimuth: f64, strength: u8) {
    assert_eq!(record.id, id);
    assert_eq!(degrees(&record.elevation), elevation);
    assert_eq!(degrees(&record.azimuth), azimuth);
    assert_eq!(record.strength, strength);
}

#[test]
fn gsv_group_parsing() {
    let records = decode("$GPGSV,3,1,11,01,05,030,20,02,10,040,25");
    assert_eq!(records.len(), 2);
    check(&records[0], "01", 5.0, 30.0, 20);
    check(&records[1], "02", 10.0, 40.0, 25);
    assert_eq!(records[0].elevation, "05");
    assert_eq!(records[0].azimuth, "030");
}

#[test]
fn partial_trailing_group_is_dropped() {
    let records = decode("$GPGSV,3,1,11,01,05,030,20,02,10,040");
    assert_eq!(records.len(), 1);
    check(&records[0], "01", 5.0, 30.0, 20);
}

#[test]
fn header_alone_yields_nothing() {
    assert!(decode("$GPGSV,3,1,11").is_empty());
    assert!(decode("$GPGSV,3,1,11,01,05,030").is_empty());
    assert!(decode("$GPGSV").is_empty());
    assert_eq!(decode("$GPGSV,3,1,11,01,05,030,20").len(), 1);
}

#[test]
fn non_numeric_elevation_falls_back_to_zero() {
    let records = decode("$GPGSV,3,1,11,07,xx,120,33");
    assert_eq!(records.len(), 1);
    check(&records[0], "07", 0.0, 120.0, 33);
}

#[test]
fn non_numeric_strength_falls_back_to_zero() {
    let records = decode("$GPGSV,3,1,11,07,45,120,,08,46,121,4x");
    assert_eq!(records.len(), 2);
    check(&records[0], "07", 45.0, 120.0, 0);
    check(&records[1], "08", 46.0, 121.0, 0);
}

#[test]
fn checksum_is_not_interpreted() {
    let records = decode("$GPGSV,1,1,02,01,05,030,20,02,10,040,25*7A");
    assert_eq!(records.len(), 2);
    check(&records[0], "01", 5.0, 30.0, 20);
    check(&records[1], "02", 10.0, 40.0, 0);
}

#[test]
fn other_sentences_are_ignored() {
    assert!(decode("$GPGGA,3,1,11,01,05,030,20").is_empty());
    assert!(decode("GPGSV,3,1,11,01,05,030,20").is_empty());
    assert!(decode("").is_empty());
    assert!(decode("$GPGS").is_empty());
}

#[test]
fn any_talker_is_recognised() {
    assert!(is_gsv_sentence("$GPGSV,1"));
    assert!(is_gsv_sentence("$GLGSV,1"));
    assert!(is_gsv_sentence("$GAGSV"));
    assert!(!is_gsv_sentence("$GPGSA,1"));
    assert!(!is_gsv_sentence("#GPGSV,1"));
    assert!(!is_gsv_sentence("$GSV,1,1"));
    let records = decode("$GLGSV,1,1,01,65,12,200,31");
    assert_eq!(records.len(), 1);
    check(&records[0], "65", 12.0, 200.0, 31);
}

#[test]
fn split_fields_agrees_with_split() {
    for line in ["", ",", "a", "a,b", ",a,,b,", "$GPGSV,3,1,11,01,05,030,20", "\u{e9},\u{20ac}x,"] {
        let expected: Vec<String> = line.split(',').map(|f| f.to_string()).collect();
        assert_eq!(split_fields(line), expected);
    }
}

#[test]
fn parse_strength_exact_values() {
    assert_eq!(parse_strength("0"), 0);
    assert_eq!(parse_strength("20"), 20);
    assert_eq!(parse_strength("255"), 255);
    assert_eq!(parse_strength("256"), 0);
    assert_eq!(parse_strength("+7"), 7);
    assert_eq!(parse_strength("007"), 7);
    assert_eq!(parse_strength("0000000000000000000000255"), 255);
    assert_eq!(parse_strength("99999999999999999999999"), 0);
    assert_eq!(parse_strength(""), 0);
    assert_eq!(parse_strength("+"), 0);
    assert_eq!(parse_strength("-1"), 0);
    assert_eq!(parse_strength(" 1"), 0);
    assert_eq!(parse_strength("1 "), 0);
    assert_eq!(parse_strength("1_0"), 0);
    assert_eq!(parse_strength("++1"), 0);
    assert_eq!(parse_strength("\u{661}"), 0);
}

#[test]
fn parse_strength_agrees_with_the_standard_parser() {
    let mut samples: Vec<String> = Vec::new();
    for n in 0..1200u32 {
        samples.push(n.to_string());
        samples.push(format!("+{}", n));
        samples.push(format!("0{}", n));
        samples.push(format!("-{}", n));
        samples.push(format!("{}*7A", n));
        samples.push(format!("{}.0", n));
    }
    for text in ["", "+", "-", "a", "1a", "a1", "1e1", "0x10", "25\r", "4294967296", "4294967551"] {
        samples.push(text.to_string());
    }
    for sample in samples {
        let expected: u8 = sample.parse().unwrap_or(0);
        assert_eq!(parse_strength(&sample), expected, "{:?}", sample);
    }
}

#[test]
fn records_from_fields_groups_by_four() {
    let fields: Vec<String> =
        ["h", "1", "1", "3", "a", "1", "2", "3", "b", "4", "5", "6", "c", "7", "8"]
            .iter()
            .map(|f| f.to_string())
            .collect();
    let records = records_from_fields(&fields);
    assert_eq!(records.len(), 2);
    check(&records[0], "a", 1.0, 2.0, 3);
    check(&records[1], "b", 4.0, 5.0, 6);
    assert!(records_from_fields(&Vec::new()).is_empty());
    assert!(records_from_fields(&fields[..7].to_vec()).is_empty());
}

#[test]
fn decode_cycle_concatenates_in_line_order() {
    let lines = vec![
        "$GPGSV,2,1,03,01,05,030,20,02,10,040,25".to_string(),
        "$GPGGA,123519".to_string(),
        "$GPGSV,2,2,03,03,15,050,30".to_string(),
    ];
    let records = decode_cycle(&lines);
    assert_eq!(records.len(), 3);
    check(&records[0], "01", 5.0, 30.0, 20);
    check(&records[1], "02", 10.0, 40.0, 25);
    check(&records[2], "03", 15.0, 50.0, 30);
    assert!(decode_cycle(&Vec::new()).is_empty());
}

#[test]
fn clone_keeps_every_field() {
    let records = decode("$GPGSV,3,1,11,01,05,030,20");
    let copy = records[0].clone();
    assert_eq!(copy.id, "01");
    assert_eq!(copy.elevation, "05");
    assert_eq!(copy.azimuth, "030");
    assert_eq!(copy.strength, 20);
}
