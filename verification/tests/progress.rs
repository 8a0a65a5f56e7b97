use lib::progress::{
    get_read_offset, progress_outcome, progress_tick, report_progress, ElementExtras, ProgressError, PROGRESS_CANCEL,
    PROGRESS_CONTINUE, PROGRESS_INTERVAL,
};

#[test]
fn test_progress_counts_work_units() {
    let mut calls = 0;
    let mut timer: isize = 1024;
    // Under the timer threshold: no callback.
    let tick = progress_tick(true, timer, 4);
    timer = tick.timer;
    if tick.report {
        calls += 1;
    }
    assert_eq!(calls, 0);
    // Exhausting the timer invokes the callback and resets it to 1024.
    let tick = progress_tick(true, timer, 2000);
    if tick.report {
        let report = report_progress(4, 0);
        assert!(report.progress.bytes_total >= report.progress.bytes_read);
        assert_eq!(progress_outcome(PROGRESS_CONTINUE), Ok(()));
        calls += 1;
        timer = report.timer;
    }
    assert_eq!(calls, 1);
    assert_eq!(timer, 1024);
}

#[test]
fn test_report_progress_cancel_sets_error() {
    let err = progress_outcome(PROGRESS_CANCEL).unwrap_err();
    assert_eq!(err, ProgressError::Cancelled);
    assert_eq!(err.description(), b"Cancelled".to_vec());
}

#[test]
fn no_callback_no_progress() {
    let tick = progress_tick(false, 5, 100);
    assert_eq!((tick.timer, tick.report), (5, false));
    let r = report_progress(10, 100);
    assert_eq!((r.progress.bytes_read, r.progress.bytes_total, r.timer, r.latest_bytes), (10, 100, PROGRESS_INTERVAL, 10));
    assert_eq!(report_progress(10, 3).progress.bytes_total, 10);
    assert!(progress_tick(true, 10, 10).report);
    assert!(!progress_tick(true, 11, 10).report);
}

#[test]
fn test_push_element_extra_grows_and_dedups() {
    let mut extras = ElementExtras::new();
    let a = extras.push_element_extra_size(5, 16);
    // The gap below `id` holds no records.
    assert_eq!(extras.get_element_extra(0), None);
    // The same id returns the same record.
    assert_eq!(extras.push_element_extra_size(5, 16), a);
    assert_eq!(extras.get_element_extra(5), Some(a));
    // Out-of-range ids have none.
    assert_eq!(extras.get_element_extra(u32::MAX), None);
    let b = extras.push_element_extra_size(6, 24);
    assert_ne!(a, b);
    assert_eq!(extras.get_element_extra(6), Some(b));
    assert_eq!(extras.sizes, vec![16, 24]);
}

#[test]
fn read_offsets() {
    assert_eq!(get_read_offset(1000, 24), 1024);
    assert_eq!(get_read_offset(u64::MAX, 2), 1);
}
