use ystudio::data::Ytf;
use ystudio::window::make_banks;
use ystudio::ylab::{
    filter_ports, handle_line, ingest_frame, ylab_action, ylab_step, Sensory, SerialAction,
    SerialOutcome, YLabCmd, YLabState, YLabVersion,
};

#[test]
fn baud_rates() {
    assert_eq!(YLabVersion::Pro.baud(), 2_000_000);
    assert_eq!(YLabVersion::Zet.baud(), 2_000_000);
    assert_eq!(YLabVersion::Go.baud(), 1_000_000);
    assert_eq!(YLabVersion::GoMotion(4).baud(), 1_000_000);
    assert_eq!(YLabVersion::GoStress.baud(), 1_000_000);
    assert_eq!(YLabVersion::Mini.baud(), 125_200);
}

#[test]
fn fft_and_history_sizes() {
    assert_eq!(YLabVersion::Pro.fft_size(), 512);
    assert_eq!(YLabVersion::Zet.fft_size(), 256);
    assert_eq!(YLabVersion::Mini.fft_size(), 128);
    assert_eq!(YLabVersion::Go.history_size(), 256);
    assert_eq!(YLabVersion::GoMotion(1).history_size(), 128);
}

#[test]
fn bank_labels_per_version() {
    assert_eq!(YLabVersion::Pro.bank_labels(), vec!["MOI", "ADC"]);
    assert_eq!(YLabVersion::Zet.bank_labels(), vec!["MOI", "ADC1", "ADC2", "Mo1", "Mo2"]);
    assert_eq!(YLabVersion::GoMotion(1).bank_labels(), vec!["MOI", "Analog", "Yxz"]);
    assert_eq!(
        YLabVersion::GoMotion(7).bank_labels(),
        vec!["MOI", "ADC", "Yxz_0", "Yxz_1", "Yxz_2", "Yxz_3", "Yxz_4", "Yxz_5", "Yxz_6", "Yxz_7"]
    );
    assert_eq!(YLabVersion::GoStress.bank_labels(), vec!["MOI", "ADC", "Air"]);
    assert_eq!(YLabVersion::Mini.bank_labels(), vec!["ADC"]);
    assert_eq!(YLabVersion::Zet.n_banks(), 5);
    assert_eq!(YLabVersion::Mini.n_banks(), 1);
}

#[test]
fn version_labels() {
    assert_eq!(YLabVersion::Pro.label(), "Pro");
    assert_eq!(YLabVersion::GoMotion(4).label(), "Go Motion 4");
    assert_eq!(YLabVersion::GoStress.label(), "Go Stress");
}

#[test]
fn sensory_labels() {
    assert_eq!(Sensory::Moi(3).label(), "Moi(3)");
    assert_eq!(Sensory::Adc(1, 500).label(), "Adc(1, 500)");
    assert_eq!(Sensory::Yxz(2, 100).label(), "Yxz(2, 100)");
    assert_eq!(Sensory::Air(0).label(), "Air(0)");
}

#[test]
fn sensory_fft_sizes() {
    assert_eq!(Sensory::Adc(0, 10).fft_size(), None);
    assert_eq!(Sensory::Adc(0, 11).fft_size(), Some(64));
    assert_eq!(Sensory::Yxz(0, 64).fft_size(), Some(128));
    assert_eq!(Sensory::Yxz(0, 65).fft_size(), Some(256));
    assert_eq!(Sensory::Adc(0, 512).fft_size(), Some(1024));
    assert_eq!(Sensory::Adc(0, 1000).fft_size(), Some(2048));
    assert_eq!(Sensory::Moi(0).fft_size(), None);
    assert_eq!(Sensory::Air(0).fft_size(), None);
}

#[test]
fn discovery_stores_found_ports() {
    let s0 = YLabState::Disconnected { ports: None };
    let found = vec![String::from("/dev/ttyACM0")];
    let s1 = ylab_step(
        s0,
        None,
        SerialOutcome::PortsEnumerated { ports: Some(found.clone()) },
    );
    assert_eq!(s1, YLabState::Disconnected { ports: Some(found) });
}

#[test]
fn discovery_failure_keeps_state() {
    let s0 = YLabState::Disconnected { ports: Some(vec![String::from("/dev/ttyACM0")]) };
    let s1 = ylab_step(s0.clone(), None, SerialOutcome::PortsEnumerated { ports: None });
    assert_eq!(s1, s0);
}

#[test]
fn connect_then_read_flow() {
    let ports = Some(vec![String::from("/dev/ttyACM0")]);
    let s0 = YLabState::Disconnected { ports };
    let cmd = Some(YLabCmd::Connect {
        version: YLabVersion::Go,
        port_name: String::from("/dev/ttyACM0"),
    });
    let s1 = ylab_step(s0, cmd, SerialOutcome::OpenFinished { success: true });
    assert_eq!(
        s1,
        YLabState::Connected { version: YLabVersion::Go, port_name: String::from("/dev/ttyACM0") }
    );
    let s2 = ylab_step(s1, None, SerialOutcome::Nothing);
    assert_eq!(
        s2,
        YLabState::Reading { version: YLabVersion::Go, port_name: String::from("/dev/ttyACM0") }
    );
    let s3 = ylab_step(s2, Some(YLabCmd::Disconnect), SerialOutcome::Nothing);
    assert_eq!(s3, YLabState::Disconnected { ports: None });
}

#[test]
fn failed_open_stays_disconnected() {
    let s0 = YLabState::Disconnected { ports: Some(vec![String::from("/dev/ttyACM0")]) };
    let cmd = Some(YLabCmd::Connect {
        version: YLabVersion::Go,
        port_name: String::from("/dev/ttyACM0"),
    });
    let s1 = ylab_step(s0.clone(), cmd, SerialOutcome::OpenFinished { success: false });
    assert_eq!(s1, s0);
}

#[test]
fn connected_disconnects_on_command() {
    let s0 = YLabState::Connected { version: YLabVersion::Pro, port_name: String::from("p") };
    let s1 = ylab_step(s0, Some(YLabCmd::Disconnect), SerialOutcome::Nothing);
    assert_eq!(s1, YLabState::Disconnected { ports: None });
}

#[test]
fn unmatched_pairs_change_nothing() {
    // pairs outside the transition table are no-ops
    let reading = YLabState::Reading { version: YLabVersion::Go, port_name: String::from("p") };
    let cmd = Some(YLabCmd::Connect { version: YLabVersion::Pro, port_name: String::from("q") });
    assert_eq!(ylab_step(reading.clone(), cmd, SerialOutcome::Nothing), reading);
    assert_eq!(
        ylab_step(reading.clone(), Some(YLabCmd::Read {}), SerialOutcome::Nothing),
        reading
    );
    assert_eq!(
        ylab_step(reading.clone(), Some(YLabCmd::Stop {}), SerialOutcome::Nothing),
        reading
    );
    let bare = YLabState::Disconnected { ports: None };
    let cmd = Some(YLabCmd::Connect { version: YLabVersion::Pro, port_name: String::from("q") });
    assert_eq!(ylab_step(bare.clone(), cmd, SerialOutcome::Nothing), bare);
    assert_eq!(ylab_step(bare.clone(), Some(YLabCmd::Disconnect), SerialOutcome::Nothing), bare);
}

#[test]
fn actions_follow_state() {
    let disc = YLabState::Disconnected { ports: None };
    assert!(matches!(ylab_action(&disc, &None), SerialAction::EnumeratePorts));
    let listed = YLabState::Disconnected { ports: Some(vec![String::from("/dev/ttyACM0")]) };
    let cmd = Some(YLabCmd::Connect {
        version: YLabVersion::Go,
        port_name: String::from("/dev/ttyACM0"),
    });
    match ylab_action(&listed, &cmd) {
        SerialAction::OpenPort { port_name, baud } => {
            assert_eq!(port_name, "/dev/ttyACM0");
            assert_eq!(baud, 1_000_000);
        },
        other => panic!("expected an open action, got {:?}", other),
    }
    let reading = YLabState::Reading { version: YLabVersion::Go, port_name: String::from("p") };
    assert!(matches!(ylab_action(&reading, &None), SerialAction::ReadLine));
    assert!(matches!(
        ylab_action(&reading, &Some(YLabCmd::Disconnect)),
        SerialAction::Rest
    ));
}

#[test]
fn filters_instrument_ports() {
    let names = vec![
        String::from("/dev/ttyACM0"),
        String::from("/dev/ttyS0"),
        String::from("/dev/ttyACM1"),
    ];
    let kept = filter_ports(&names, "/dev/ttyACM");
    assert_eq!(kept, vec![String::from("/dev/ttyACM0"), String::from("/dev/ttyACM1")]);
}

#[test]
fn ingest_updates_bank_and_expands() {
    let mut banks = make_banks(2, 5000, 100);
    let f = Ytf { dev: 1, sensory: 1, time: 5, read: [9, 0, 0, 0, 0, 0, 0, 0] };
    let records = ingest_frame(&YLabVersion::Go, &f, 1234, &mut banks);
    assert_eq!(records.len(), 8);
    assert_eq!(records[0].time, 1234);
    assert_eq!(records[0].value, 9);
    assert_eq!(banks[1].len(), 1);
    assert_eq!(banks[0].len(), 0);
    // a frame for a bank this version does not have goes nowhere
    let g = Ytf { dev: 1, sensory: 5, time: 6, read: [1, 0, 0, 0, 0, 0, 0, 0] };
    let records = ingest_frame(&YLabVersion::Go, &g, 1235, &mut banks);
    assert_eq!(records.len(), 8);
    assert_eq!(banks[0].len(), 0);
    assert_eq!(banks[1].len(), 1);
}

#[test]
fn handle_line_discards_bad_and_ingests_good() {
    let mut banks = make_banks(2, 5000, 100);
    let bad = String::from("not,a,frame");
    assert!(handle_line(&YLabVersion::Go, &bad, 1, &mut banks).is_none());
    assert_eq!(banks[0].len(), 0);
    assert_eq!(banks[1].len(), 0);
    let good = String::from("10,1,1,2,3,4,5,6,7,8");
    let records = handle_line(&YLabVersion::Go, &good, 2, &mut banks).unwrap();
    assert_eq!(records.len(), 8);
    assert_eq!(records[3].value, 4);
    assert_eq!(banks[1].len(), 1);
}
