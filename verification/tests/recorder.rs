use ystudio::data::{yld_header, Yld};
use ystudio::yldest::{
    auto_file_name, resolve_new_path, RecordingSession, StoreEffect, YldestCmd, YldestState,
    NAME_EPOCH_SECS,
};
use ystudio::ystore::{yld_store_step, Cmd, YldStoreState};

fn record(chan: u8) -> Yld {
    Yld { time: 1000, dev: 1, sensory: 0, chan, value: 42 }
}

/// Applies an effect to the simulated file.
fn apply(file: &mut String, eff: Option<StoreEffect>) {
    match eff {
        Some(StoreEffect::Create { .. }) => {
            file.clear();
            file.push_str(&yld_header());
        },
        Some(StoreEffect::Write { data }) => file.push_str(&data),
        None => {},
    }
}

#[test]
fn persistence_lifecycle() {
    let mut session = RecordingSession::new(None);
    let mut file = String::new();
    let now = NAME_EPOCH_SECS;
    let new_cmd = YldestCmd::New {
        change_dir: Some(String::from("dir")),
        file_name: Some(String::from("t.csv")),
    };
    apply(&mut file, session.step(Some(new_cmd), None, now));
    assert!(matches!(&session.state, YldestState::Recording { .. }));
    for k in 0..5 {
        apply(&mut file, session.step(None, Some(record(k)), now));
    }
    apply(&mut file, session.step(Some(YldestCmd::Pause), None, now));
    assert!(matches!(&session.state, YldestState::Connected { .. }));
    for k in 5..8 {
        // records arriving while paused are not written
        apply(&mut file, session.step(None, Some(record(k)), now));
    }
    apply(&mut file, session.step(Some(YldestCmd::Record), None, now));
    assert!(matches!(&session.state, YldestState::Recording { .. }));
    for k in 0..2 {
        apply(&mut file, session.step(None, Some(record(k)), now));
    }
    apply(&mut file, session.step(Some(YldestCmd::Stop), None, now));
    assert!(matches!(&session.state, YldestState::Idle { .. }));

    assert!(file.starts_with(&yld_header()));
    let data_lines = file.matches("\r\n").count() - 1;
    assert_eq!(data_lines, 7);
}

#[test]
fn new_resolves_explicit_dir_and_name() {
    let mut session = RecordingSession::new(None);
    let cmd = YldestCmd::New {
        change_dir: Some(String::from("logs")),
        file_name: Some(String::from("t.csv")),
    };
    let eff = session.step(Some(cmd), None, 0);
    match eff {
        Some(StoreEffect::Create { path }) => assert_eq!(path, "logs/t.csv"),
        other => panic!("expected a create effect, got {:?}", other),
    }
    assert_eq!(session.dir, Some(String::from("logs")));
}

#[test]
fn new_without_any_dir_is_refused() {
    let mut session = RecordingSession::new(None);
    let cmd = YldestCmd::New { change_dir: None, file_name: Some(String::from("t.csv")) };
    let eff = session.step(Some(cmd), None, 0);
    assert!(eff.is_none());
    assert!(matches!(&session.state, YldestState::Idle { .. }));
}

#[test]
fn new_uses_remembered_dir() {
    let mut session = RecordingSession::new(Some(String::from("home")));
    let cmd = YldestCmd::New { change_dir: None, file_name: Some(String::from("t.csv")) };
    let eff = session.step(Some(cmd), None, 0);
    match eff {
        Some(StoreEffect::Create { path }) => assert_eq!(path, "home/t.csv"),
        other => panic!("expected a create effect, got {:?}", other),
    }
    // a merely reused directory is not re-remembered
    assert_eq!(session.dir, Some(String::from("home")));
}

#[test]
fn new_with_dir_only_generates_name() {
    let mut session = RecordingSession::new(None);
    let cmd = YldestCmd::New { change_dir: Some(String::from("d")), file_name: None };
    let eff = session.step(Some(cmd), None, NAME_EPOCH_SECS + 77);
    match eff {
        Some(StoreEffect::Create { path }) => assert_eq!(path, "77.yld"),
        other => panic!("expected a create effect, got {:?}", other),
    }
    assert_eq!(session.dir, Some(String::from("d")));
}

#[test]
fn auto_names_count_from_the_epoch() {
    assert_eq!(auto_file_name(NAME_EPOCH_SECS + 5), "5.yld");
    assert_eq!(auto_file_name(NAME_EPOCH_SECS), "0.yld");
    assert_eq!(auto_file_name(0), "0.yld");
}

#[test]
fn resolve_cases() {
    let some = |s: &str| Some(String::from(s));
    let r = resolve_new_path(&some("a"), &some("b"), &None, 0).unwrap();
    assert_eq!(r.0, "a/b");
    assert_eq!(r.1, some("a"));
    let r = resolve_new_path(&None, &some("b"), &some("c"), 0).unwrap();
    assert_eq!(r.0, "c/b");
    assert_eq!(r.1, None);
    let r = resolve_new_path(&None, &None, &some("c"), NAME_EPOCH_SECS + 1).unwrap();
    assert_eq!(r.0, "1.yld");
    assert_eq!(r.1, some("c"));
    assert!(resolve_new_path(&None, &some("b"), &None, 0).is_none());
    assert!(resolve_new_path(&None, &None, &None, 0).is_none());
}

#[test]
fn buffer_flushes_past_threshold() {
    let mut session = RecordingSession::new(None);
    let cmd = YldestCmd::New { change_dir: Some(String::from("d")), file_name: None };
    session.step(Some(cmd), None, NAME_EPOCH_SECS);
    let mut flushes = 0;
    let mut written = 0usize;
    for _ in 0..200 {
        if let Some(StoreEffect::Write { data }) = session.step(None, Some(record(0)), 0) {
            flushes += 1;
            written += data.len();
            assert!(data.len() > 1000);
        }
    }
    assert!(flushes >= 2);
    // what was flushed plus what is still buffered is everything appended
    assert_eq!(written + session.write_buffer.len(), 200 * record(0).to_csv_line().len());
}

#[test]
fn stop_flushes_remaining_buffer() {
    let mut session = RecordingSession::new(None);
    let cmd = YldestCmd::New { change_dir: Some(String::from("d")), file_name: None };
    session.step(Some(cmd), None, NAME_EPOCH_SECS);
    session.step(None, Some(record(1)), 0);
    let eff = session.step(Some(YldestCmd::Stop), None, 0);
    match eff {
        Some(StoreEffect::Write { data }) => assert_eq!(data, record(1).to_csv_line()),
        other => panic!("expected the remaining buffer, got {:?}", other),
    }
    assert_eq!(session.write_buffer, "");
}

#[test]
fn unmatched_recorder_pairs_change_nothing() {
    let mut session = RecordingSession::new(Some(String::from("d")));
    assert!(session.step(Some(YldestCmd::Pause), None, 0).is_none());
    assert!(matches!(&session.state, YldestState::Idle { .. }));
    assert!(session.step(Some(YldestCmd::Stop), Some(record(0)), 0).is_none());
    assert!(matches!(&session.state, YldestState::Idle { .. }));
    assert!(session.step(None, Some(record(0)), 0).is_none());
    assert_eq!(session.write_buffer, "");
}

#[test]
fn create_failure_returns_to_idle() {
    let mut session = RecordingSession::new(None);
    let cmd = YldestCmd::New { change_dir: Some(String::from("d")), file_name: None };
    session.step(Some(cmd), None, NAME_EPOCH_SECS);
    session.create_failed();
    match &session.state {
        YldestState::Idle { dir } => assert_eq!(dir, &Some(String::from("d"))),
        other => panic!("expected idle, got {:?}", other),
    }
}

#[test]
fn plain_store_records_immediately() {
    let (s1, eff) = yld_store_step(
        YldStoreState::Idle,
        Some(Cmd::New { path: String::from("out.yld") }),
        None,
    );
    assert!(matches!(&s1, YldStoreState::Recording { .. }));
    match eff {
        Some(StoreEffect::Create { path }) => assert_eq!(path, "out.yld"),
        other => panic!("expected a create effect, got {:?}", other),
    }
    let (s2, eff) = yld_store_step(s1, None, Some(record(2)));
    assert!(matches!(&s2, YldStoreState::Recording { .. }));
    match eff {
        Some(StoreEffect::Write { data }) => assert_eq!(data, record(2).to_csv_line()),
        other => panic!("expected a write effect, got {:?}", other),
    }
}

#[test]
fn plain_store_pause_resume_and_stop() {
    let s = YldStoreState::Recording { path: String::from("p") };
    let (s, eff) = yld_store_step(s, Some(Cmd::Pause), None);
    assert!(eff.is_none());
    assert!(matches!(&s, YldStoreState::Pausing { .. }));
    // while pausing, records are ignored
    let (s, eff) = yld_store_step(s, None, Some(record(0)));
    assert!(eff.is_none());
    assert!(matches!(&s, YldStoreState::Pausing { .. }));
    // resuming rewrites the header line
    let (s, eff) = yld_store_step(s, Some(Cmd::Resume), None);
    assert!(matches!(&s, YldStoreState::Recording { .. }));
    match eff {
        Some(StoreEffect::Write { data }) => assert_eq!(data, yld_header()),
        other => panic!("expected the header, got {:?}", other),
    }
    let (s, eff) = yld_store_step(s, Some(Cmd::Stop), None);
    assert!(eff.is_none());
    assert!(matches!(&s, YldStoreState::Idle));
}
