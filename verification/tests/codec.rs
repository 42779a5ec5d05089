use ystudio::data::{yld_header, ParseError, Yld, Ytf};

#[test]
fn parses_well_formed_line() {
    let line = String::from("1000,2,1,2,3,4,5,6,7,8");
    let f = Ytf::from_csv_line(&line).unwrap();
    assert_eq!(f.dev, 1);
    assert_eq!(f.sensory, 2);
    assert_eq!(f.time, 1000);
    assert_eq!(f.read, [1, 2, 3, 4, 5, 6, 7, 8]);
}

#[test]
fn trims_time_and_bank_fields() {
    let line = String::from(" 1000 , 2 ,1,2,3,4,5,6,7,8");
    let f = Ytf::from_csv_line(&line).unwrap();
    assert_eq!(f.time, 1000);
    assert_eq!(f.sensory, 2);
}

#[test]
fn rejects_wrong_field_count() {
    let line = String::from("1,2,3");
    match Ytf::from_csv_line(&line) {
        Err(ParseError::Len(n)) => assert_eq!(n, 3),
        other => panic!("expected a field-count error, got {:?}", other),
    }
}

#[test]
fn rejects_bad_timestamp() {
    let line = String::from("abc,2,1,2,3,4,5,6,7,8");
    match Ytf::from_csv_line(&line) {
        Err(ParseError::Time(t)) => assert_eq!(t, "abc"),
        other => panic!("expected a timestamp error, got {:?}", other),
    }
}

#[test]
fn rejects_bad_bank() {
    let line = String::from("1000,banks,1,2,3,4,5,6,7,8");
    match Ytf::from_csv_line(&line) {
        Err(ParseError::Sensory(t)) => assert_eq!(t, "banks"),
        other => panic!("expected a bank error, got {:?}", other),
    }
}

#[test]
fn unreadable_reading_becomes_zero() {
    let line = String::from("1000,2,1,oops,3,4,5,6,7,8");
    let f = Ytf::from_csv_line(&line).unwrap();
    assert_eq!(f.read, [1, 0, 3, 4, 5, 6, 7, 8]);
}

#[test]
fn serializes_exactly() {
    let f = Ytf { dev: 1, sensory: 3, time: 42, read: [0, -1, 2, -3, 4, -5, 6, -7] };
    assert_eq!(f.to_csv_line(), "42,3,0,-1,2,-3,4,-5,6,-7");
}

#[test]
fn round_trips_through_the_codec() {
    let f = Ytf { dev: 1, sensory: 7, time: 123_456, read: [8, -9, 10, -11, 12, -13, 14, -15] };
    let line = f.to_csv_line();
    let g = Ytf::from_csv_line(&line).unwrap();
    assert_eq!(g, f);
}

#[test]
fn expands_to_eight_channel_records() {
    let f = Ytf { dev: 1, sensory: 2, time: 99, read: [5, 6, 7, 8, 9, 10, 11, 12] };
    let records = f.to_yld(777);
    assert_eq!(records.len(), 8);
    for (k, r) in records.iter().enumerate() {
        assert_eq!(r.time, 777);
        assert_eq!(r.dev, 1);
        assert_eq!(r.sensory, 2);
        assert_eq!(r.chan, k as u8);
        assert_eq!(r.value, 5 + k as i64);
    }
}

#[test]
fn record_line_is_exact() {
    let y = Yld { time: 1500, dev: 1, sensory: 2, chan: 3, value: -7 };
    assert_eq!(y.to_csv_line(), "1.500,1,2,3,-7\r\n");
}

#[test]
fn record_line_pads_milliseconds() {
    let y = Yld { time: 2003, dev: 1, sensory: 0, chan: 0, value: 9 };
    assert_eq!(y.to_csv_line(), "2.003,1,0,0,9\r\n");
}

#[test]
fn header_line_is_exact() {
    assert_eq!(yld_header(), "time,dev,sensory,chan,value\r\n");
}

#[test]
fn default_frame_is_zero() {
    let f = Ytf::default();
    assert_eq!(f.dev, 0);
    assert_eq!(f.sensory, 0);
    assert_eq!(f.time, 0);
    assert_eq!(f.read, [0; 8]);
}
