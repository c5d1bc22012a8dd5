use nmea_ingest::log::{trim_log, RollingLog, LOG_CAPACITY};

#[test]
fn log_never_exceeds_capacity() {
    let mut log = RollingLog::new();
    assert_eq!(log.len(), 0);
    for n in 0..1300 {
        log.append(format!("line {}", n));
        assert!(log.len() <= 500);
        assert_eq!(log.len(), std::cmp::min(n + 1, 500));
        assert_eq!(log.lines().last().unwrap(), &format!("line {}", n));
    }
    assert_eq!(log.lines()[0], "line 800");
}

#[test]
fn the_501st_line_evicts_the_first() {
    let mut log = RollingLog::new();
    for n in 1..=500 {
        log.append(format!("line {}", n));
    }
    assert_eq!(log.len(), 500);
    assert_eq!(log.lines()[0], "line 1");
    log.append("line 501".to_string());
    assert_eq!(log.len(), 500);
    assert_eq!(log.lines()[0], "line 2");
    assert_eq!(log.lines()[499], "line 501");
}

#[test]
fn lines_stay_in_arrival_order() {
    let mut log = RollingLog::new();
    for n in 0..620 {
        log.append(n.to_string());
    }
    let expected: Vec<String> = (120..620).map(|n| n.to_string()).collect();
    assert_eq!(log.lines(), &expected);
}

#[test]
fn trim_log_keeps_the_newest() {
    assert_eq!(LOG_CAPACITY, 500);
    let mut lines: Vec<String> = (0..503).map(|n| n.to_string()).collect();
    trim_log(&mut lines);
    assert_eq!(lines.len(), 500);
    assert_eq!(lines[0], "3");
    assert_eq!(lines[499], "502");
    let mut short: Vec<String> = (0..500).map(|n| n.to_string()).collect();
    trim_log(&mut short);
    assert_eq!(short.len(), 500);
    assert_eq!(short[0], "0");
    let mut none: Vec<String> = Vec::new();
    trim_log(&mut none);
    assert!(none.is_empty());
}
