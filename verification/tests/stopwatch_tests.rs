use stopwatches::stopwatch::Stopwatch;

#[test]
fn fresh_stopwatch_reports_none() {
    let w = Stopwatch::new(0);
    assert_eq!(w.id, 0);
    assert!(!w.is_running);
    assert_eq!(w.start_time, None);
    assert_eq!(w.elapsed_time, None);
    assert_eq!(w.total_elapsed_time(), None);
    assert_eq!(w.total_elapsed_time_at(1_000_000), None);
}

#[test]
fn single_run_records_interval() {
    let mut w = Stopwatch::new(1);
    w.start_at(1_000);
    w.pause_at(251_000);
    assert_eq!(w.total_elapsed_time_at(999_999), Some(250_000));
    assert_eq!(w.elapsed_time, Some(250_000));
    assert!(!w.is_running);
    assert_eq!(w.start_time, None);
}

#[test]
fn pause_twice_adds_nothing() {
    let mut w = Stopwatch::new(2);
    w.start_at(100);
    w.pause_at(700);
    let once = w.total_elapsed_time_at(5_000);
    w.pause_at(9_000);
    assert_eq!(w.total_elapsed_time_at(10_000), once);
    assert_eq!(once, Some(600));
}

#[test]
fn start_twice_keeps_first_mark() {
    let mut w = Stopwatch::new(3);
    w.start_at(100);
    w.start_at(5_000);
    w.pause_at(600);
    assert_eq!(w.total_elapsed_time_at(600), Some(500));
}

#[test]
fn two_runs_accumulate_additively() {
    let mut w = Stopwatch::new(4);
    w.start_at(0);
    w.pause_at(100_000_000);
    w.start_at(1_000_000_000);
    w.pause_at(1_100_000_000);
    assert_eq!(w.total_elapsed_time_at(2_000_000_000), Some(200_000_000));
}

#[test]
fn running_total_is_live() {
    let mut w = Stopwatch::new(5);
    w.start_at(1_000);
    assert_eq!(w.total_elapsed_time_at(1_500), Some(500));
    assert_eq!(w.total_elapsed_time_at(2_500), Some(1_500));
    assert!(w.is_running);
}

#[test]
fn stop_discards_open_interval() {
    let mut w = Stopwatch::new(6);
    w.start_at(10);
    w.stop();
    assert!(!w.is_running);
    assert_eq!(w.start_time, None);
    assert_eq!(w.total_elapsed_time_at(100), None);
}

#[test]
fn wall_clock_start_pause_reports_some() {
    let mut w = Stopwatch::new(7);
    assert_eq!(w.total_elapsed_time(), None);
    w.start();
    assert!(w.is_running);
    assert!(w.total_elapsed_time().is_some());
    w.pause();
    assert!(!w.is_running);
    let t = w.total_elapsed_time();
    assert!(t.is_some());
    assert_eq!(t, w.elapsed_time);
}

#[test]
fn wall_clock_pause_when_idle_is_noop() {
    let mut w = Stopwatch::new(8);
    w.pause();
    assert_eq!(w.total_elapsed_time(), None);
    assert_eq!(w.elapsed_time, None);
}

#[test]
fn equality_goes_by_identifier() {
    let mut a = Stopwatch::new(9);
    a.start_at(5);
    let b = Stopwatch::new(9);
    assert_eq!(a, b);
    assert_ne!(Stopwatch::new(9), Stopwatch::new(10));
}
