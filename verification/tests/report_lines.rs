use hardware_timing::config::MemOrdering;
use hardware_timing::config::Strategy;
use hardware_timing::report::banner_line;
use hardware_timing::report::baseline_label;
use hardware_timing::report::baseline_line;
use hardware_timing::report::decimal_string;
use hardware_timing::report::duration_label;
use hardware_timing::report::ordering_label;
use hardware_timing::report::overhead_line;
use hardware_timing::report::report_line;
use hardware_timing::report::Baseline;
use hardware_timing::report::Measurement;

#[test]
fn decimal_rendering() {
    assert_eq!(decimal_string(0), "0");
    assert_eq!(decimal_string(7), "7");
    assert_eq!(decimal_string(10), "10");
    assert_eq!(decimal_string(407), "407");
    assert_eq!(decimal_string(50000000), "50000000");
    assert_eq!(decimal_string(u64::MAX), "18446744073709551615");
}

#[test]
fn duration_rendering() {
    assert_eq!(duration_label(0), "0.000000000s");
    assert_eq!(duration_label(1), "0.000000001s");
    assert_eq!(duration_label(999999999), "0.999999999s");
    assert_eq!(duration_label(1000000000), "1.000000000s");
    assert_eq!(duration_label(1500000000), "1.500000000s");
    assert_eq!(duration_label(61000000001), "61.000000001s");
}

#[test]
fn ordering_labels() {
    assert_eq!(ordering_label(MemOrdering::Relaxed), "Relaxed");
    assert_eq!(ordering_label(MemOrdering::Release), "Release");
    assert_eq!(ordering_label(MemOrdering::Acquire), "Acquire");
    assert_eq!(ordering_label(MemOrdering::AcqRel), "AcqRel");
    assert_eq!(ordering_label(MemOrdering::SeqCst), "SeqCst");
}

#[test]
fn baseline_labels() {
    assert_eq!(
        baseline_label(Baseline::PlainIncrement),
        "single-threaded with write combined (normal +1)"
    );
    assert_eq!(
        baseline_label(Baseline::VolatileWrite),
        "single-threaded with write_volatile"
    );
    assert_eq!(
        baseline_label(Baseline::VolatileWriteReleaseFence),
        "single-threaded write_volatile + Release raw fence"
    );
    assert_eq!(
        baseline_label(Baseline::VolatileWriteSeqCstFence),
        "single-threaded write_volatile + SeqCst raw fence"
    );
}

#[test]
fn fetch_add_line() {
    let m = Measurement {
        threads: 8,
        ordering: MemOrdering::SeqCst,
        strategy: Strategy::FetchAdd,
        elapsed_nanos: 2000000000,
        target: 50000000,
    };
    assert_eq!(report_line(&m), "8 threads with SeqCst atomic fetch_add: 2.000000000s");
}

#[test]
fn cas_line() {
    let m = Measurement {
        threads: 2,
        ordering: MemOrdering::Relaxed,
        strategy: Strategy::CasRetry,
        elapsed_nanos: 123456789,
        target: 50000000,
    };
    assert_eq!(report_line(&m), "2 threads with Relaxed CAS: 0.123456789s");
}

#[test]
fn mutex_line() {
    let m = Measurement {
        threads: 4,
        ordering: MemOrdering::SeqCst,
        strategy: Strategy::MutexIncrement,
        elapsed_nanos: 10500000000,
        target: 50000000,
    };
    assert_eq!(report_line(&m), "4 threads with a Mutex: 10.500000000s");
}

#[test]
fn banner_text() {
    assert_eq!(banner_line(), "trying to increment a number 500 million times");
}

#[test]
fn baseline_and_overhead_lines() {
    assert_eq!(
        baseline_line(Baseline::VolatileWrite, 750000000),
        "single-threaded with write_volatile: 0.750000000s"
    );
    assert_eq!(overhead_line(42), "measurement overhead: 0.000000042s");
}
