use ystudio::data::Ytf;
use ystudio::window::{make_banks, new_multi_lines, MeasurementWindow, WindowBuffer};

fn frame(sensory: u8, time: u64, v: i64) -> Ytf {
    Ytf { dev: 1, sensory, time, read: [v, 0, 0, 0, 0, 0, 0, 0] }
}

#[test]
fn empty_measurements() {
    let w = MeasurementWindow::new_with_look_behind(123);
    assert_eq!(w.values.len(), 0);
    assert_eq!(w.look_behind, 123);
}

#[test]
fn appends_one_value() {
    let mut w = MeasurementWindow::new_with_look_behind(100);
    w.add((10, 20));
    assert_eq!(w.values.into_iter().eq(vec![(10, 20)]), true);
}

#[test]
fn clears_on_out_of_order() {
    let mut w = MeasurementWindow::new_with_look_behind(100);
    w.add((10, 20));
    w.add((20, 30));
    w.add((19, 100));
    assert_eq!(w.values.into_iter().eq(vec![(19, 100)]), true);
}

#[test]
fn appends_several_values() {
    let mut w = MeasurementWindow::new_with_look_behind(100);
    for x in 1..=20i64 {
        w.add(((x as u64) * 10, x));
    }
    assert_eq!(
        w.values.into_iter().eq(vec![
            (100, 10),
            (110, 11),
            (120, 12),
            (130, 13),
            (140, 14),
            (150, 15),
            (160, 16),
            (170, 17),
            (180, 18),
            (190, 19),
            (200, 20),
        ]),
        true
    );
}

#[test]
fn plot_values_copies_in_order() {
    let mut w = MeasurementWindow::new_with_look_behind(1000);
    w.add((1, 5));
    w.add((2, 6));
    assert_eq!(w.plot_values(), vec![(1, 5), (2, 6)]);
}

#[test]
fn buffer_time_eviction() {
    let mut b = WindowBuffer::new(100, 1000);
    for x in 1..=20u64 {
        b.add(x * 10, frame(0, x * 10, x as i64));
    }
    assert_eq!(b.len(), 11);
    let times: Vec<u64> = b.entries.iter().map(|e| e.0).collect();
    assert_eq!(times, vec![100, 110, 120, 130, 140, 150, 160, 170, 180, 190, 200]);
}

#[test]
fn buffer_count_cap() {
    let mut b = WindowBuffer::new(10_000, 3);
    for x in 1..=5u64 {
        b.add(x, frame(0, x, 0));
    }
    let times: Vec<u64> = b.entries.iter().map(|e| e.0).collect();
    assert_eq!(times, vec![3, 4, 5]);
}

#[test]
fn buffer_out_of_order_reset() {
    let mut b = WindowBuffer::new(1000, 100);
    b.add(10, frame(0, 10, 1));
    b.add(20, frame(0, 20, 2));
    b.add(19, frame(0, 19, 3));
    assert_eq!(b.len(), 1);
    assert_eq!(b.entries[0].0, 19);
    assert_eq!(b.entries[0].1.read[0], 3);
}

#[test]
fn buffer_queries() {
    let mut b = WindowBuffer::new(100_000, 1000);
    assert_eq!(b.duration_ms(), 0);
    assert_eq!(b.mean_interval_ms(), None);
    assert_eq!(b.rate(), None);
    b.add(0, frame(0, 0, 0));
    assert_eq!(b.mean_interval_ms(), None);
    b.add(500, frame(0, 500, 0));
    b.add(1000, frame(0, 1000, 0));
    assert_eq!(b.duration_ms(), 1000);
    assert_eq!(b.mean_interval_ms(), Some(500));
    // three samples over one second
    assert_eq!(b.rate(), Some(3));
}

#[test]
fn split_regroups_by_channel() {
    let mut b = WindowBuffer::new(100_000, 1000);
    let mut f1 = frame(0, 10, 0);
    f1.read = [10, 11, 12, 13, 14, 15, 16, 17];
    let mut f2 = frame(0, 20, 0);
    f2.read = [20, 21, 22, 23, 24, 25, 26, 27];
    b.add(10, f1);
    b.add(20, f2);
    let series = b.split();
    assert_eq!(series.len(), 8);
    for c in 0..8 {
        assert_eq!(series[c], vec![(10, 10 + c as i64), (20, 20 + c as i64)]);
    }
}

#[test]
fn multi_lines_start_empty() {
    let lines = new_multi_lines();
    assert_eq!(lines.len(), 8);
    for l in lines.iter() {
        assert!(l.is_empty());
    }
}

#[test]
fn banks_are_created_empty() {
    let banks = make_banks(5, 5000, 1_000_000);
    assert_eq!(banks.len(), 5);
    for b in banks.iter() {
        assert_eq!(b.entries.len(), 0);
        assert_eq!(b.span, 5000);
        assert_eq!(b.max_len, 1_000_000);
    }
}
