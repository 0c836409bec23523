//! The reporter: the exact text of every line the benchmark prints.
//!
//! Pure formatting, specified down to the character: decimal rendering of
//! the numbers, a seconds-and-nanoseconds rendering of the elapsed time,
//! and one line per configuration or baseline. The surrounding program only
//! prints what these functions return.

use crate::config::MemOrdering;
use crate::config::Strategy;
use vstd::prelude::*;

verus! {

/// One measurement, produced once per configuration and immediately
/// formatted: which plan ran, how long it took, and the target it chased.
#[derive(Clone, Copy, Debug, PartialEq, Eq, Structural)]
pub struct Measurement {
    pub threads: usize,
    pub ordering: MemOrdering,
    pub strategy: Strategy,
    pub elapsed_nanos: u64,
    pub target: usize,
}

/// The single-thread baselines that use no barrier and no shared counter:
/// a plain scalar loop, a non-elidable write loop, and the same loop with a
/// raw fence of each strength after every write.
#[derive(Clone, Copy, Debug, PartialEq, Eq, Structural)]
pub enum Baseline {
    PlainIncrement,
    VolatileWrite,
    VolatileWriteReleaseFence,
    VolatileWriteSeqCstFence,
}

/// The decimal digit character for `d`.
pub open spec fn digit_char(d: nat) -> char {
    if d == 0 {
        '0'
    } else if d == 1 {
        '1'
    } else if d == 2 {
        '2'
    } else if d == 3 {
        '3'
    } else if d == 4 {
        '4'
    } else if d == 5 {
        '5'
    } else if d == 6 {
        '6'
    } else if d == 7 {
        '7'
    } else if d == 8 {
        '8'
    } else {
        '9'
    }
}

/// The decimal digits of `n`, most significant first, no leading zero
/// except for `n == 0` itself.
pub open spec fn dec_digits(n: nat) -> Seq<char>
    decreases n,
{
    if n < 10 {
        seq![digit_char(n)]
    } else {
        dec_digits(n / 10).push(digit_char(n % 10))
    }
}

/// The last `width` decimal digits of `n`, zero padded on the left.
pub open spec fn padded_digits(n: nat, width: nat) -> Seq<char>
    decreases width,
{
    if width == 0 {
        Seq::empty()
    } else {
        padded_digits(n / 10, (width - 1) as nat).push(digit_char(n % 10))
    }
}

/// The rendering of an elapsed time given in nanoseconds: whole seconds,
/// a dot, nine fractional digits, and a trailing `s`.
pub open spec fn duration_label_spec(nanos: u64) -> Seq<char> {
    dec_digits(nanos as nat / 1000000000) + "."@ + padded_digits(nanos as nat % 1000000000, 9)
        + "s"@
}

/// The one-character string holding the decimal digit of `d`.
fn digit_str(d: u64) -> (r: &'static str)
    requires
        d < 10,
    ensures
        r@ == seq![digit_char(d as nat)],
{
    let r: &'static str = if d == 0 {
        "0"
    } else if d == 1 {
        "1"
    } else if d == 2 {
        "2"
    } else if d == 3 {
        "3"
    } else if d == 4 {
        "4"
    } else if d == 5 {
        "5"
    } else if d == 6 {
        "6"
    } else if d == 7 {
        "7"
    } else if d == 8 {
        "8"
    } else {
        "9"
    };
    proof {
        reveal_strlit("0");
        reveal_strlit("1");
        reveal_strlit("2");
        reveal_strlit("3");
        reveal_strlit("4");
        reveal_strlit("5");
        reveal_strlit("6");
        reveal_strlit("7");
        reveal_strlit("8");
        reveal_strlit("9");
        assert(r@ =~= seq![digit_char(d as nat)]);
    }
    r
}

/// Append the decimal digits of `n` to `out`.
fn push_decimal(out: &mut String, n: u64)
    ensures
        final(out)@ == old(out)@ + dec_digits(n as nat),
    decreases n,
{
    if n < 10 {
        out.append(digit_str(n));
        proof {
            assert(out@ =~= old(out)@ + dec_digits(n as nat));
        }
    } else {
        proof {
            assert(n as nat / 10 < n as nat) by (nonlinear_arith)
                requires
                    n >= 10,
            ;
        }
        push_decimal(out, n / 10);
        out.append(digit_str(n % 10));
        proof {
            assert(out@ =~= old(out)@ + dec_digits(n as nat));
        }
    }
}

/// Append the last `width` decimal digits of `n`, zero padded, to `out`.
fn push_padded(out: &mut String, n: u64, width: u64)
    ensures
        final(out)@ == old(out)@ + padded_digits(n as nat, width as nat),
    decreases width,
{
    if width > 0 {
        push_padded(out, n / 10, width - 1);
        out.append(digit_str(n % 10));
    }
    proof {
        assert(out@ =~= old(out)@ + padded_digits(n as nat, width as nat));
    }
}

/// The decimal rendering of `n`, most significant digit first.
pub fn decimal_string(n: u64) -> (r: String)
    ensures
        r@ == dec_digits(n as nat),
{
    let mut out = String::new();
    push_decimal(&mut out, n);
    proof {
        assert(out@ =~= dec_digits(n as nat));
    }
    out
}

/// The rendering of an elapsed time given in nanoseconds.
pub fn duration_label(nanos: u64) -> (r: String)
    ensures
        r@ == duration_label_spec(nanos),
{
    let mut out = String::new();
    push_decimal(&mut out, nanos / 1000000000);
    out.append(".");
    push_padded(&mut out, nanos % 1000000000, 9);
    out.append("s");
    proof {
        assert(out@ =~= duration_label_spec(nanos));
    }
    out
}

/// The name of an ordering strength, as the report prints it.
pub open spec fn ordering_label_spec(o: MemOrdering) -> Seq<char> {
    match o {
        MemOrdering::Relaxed => "Relaxed"@,
        MemOrdering::Release => "Release"@,
        MemOrdering::Acquire => "Acquire"@,
        MemOrdering::AcqRel => "AcqRel"@,
        MemOrdering::SeqCst => "SeqCst"@,
    }
}

/// The name of an ordering strength, as the report prints it.
pub fn ordering_label(o: MemOrdering) -> (r: &'static str)
    ensures
        r@ == ordering_label_spec(o),
{
    match o {
        MemOrdering::Relaxed => "Relaxed",
        MemOrdering::Release => "Release",
        MemOrdering::Acquire => "Acquire",
        MemOrdering::AcqRel => "AcqRel",
        MemOrdering::SeqCst => "SeqCst",
    }
}

/// The line reported for one measured configuration: the thread count, the
/// strategy with its ordering where one applies (mutual exclusion already
/// totally orders the mutex strategy), and the elapsed time.
pub open spec fn report_line_spec(m: Measurement) -> Seq<char> {
    dec_digits(m.threads as nat) + " threads with "@ + (match m.strategy {
        Strategy::FetchAdd => ordering_label_spec(m.ordering) + " atomic fetch_add"@,
        Strategy::CasRetry => ordering_label_spec(m.ordering) + " CAS"@,
        Strategy::MutexIncrement => "a Mutex"@,
    }) + ": "@ + duration_label_spec(m.elapsed_nanos)
}

/// Format the line reported for one measured configuration.
pub fn report_line(m: &Measurement) -> (r: String)
    ensures
        r@ == report_line_spec(*m),
{
    let mut out = String::new();
    push_decimal(&mut out, m.threads as u64);
    out.append(" threads with ");
    match m.strategy {
        Strategy::FetchAdd => {
            out.append(ordering_label(m.ordering));
            out.append(" atomic fetch_add");
        },
        Strategy::CasRetry => {
            out.append(ordering_label(m.ordering));
            out.append(" CAS");
        },
        Strategy::MutexIncrement => {
            out.append("a Mutex");
        },
    }
    out.append(": ");
    let elapsed = duration_label(m.elapsed_nanos);
    out.append(elapsed.as_str());
    proof {
        assert(out@ =~= report_line_spec(*m));
    }
    out
}

/// The description of a single-thread baseline, as the report prints it.
pub open spec fn baseline_label_spec(b: Baseline) -> Seq<char> {
    match b {
        Baseline::PlainIncrement => "single-threaded with write combined (normal +1)"@,
        Baseline::VolatileWrite => "single-threaded with write_volatile"@,
        Baseline::VolatileWriteReleaseFence => "single-threaded write_volatile + Release raw fence"@,
        Baseline::VolatileWriteSeqCstFence => "single-threaded write_volatile + SeqCst raw fence"@,
    }
}

/// The description of a single-thread baseline, as the report prints it.
pub fn baseline_label(b: Baseline) -> (r: &'static str)
    ensures
        r@ == baseline_label_spec(b),
{
    match b {
        Baseline::PlainIncrement => "single-threaded with write combined (normal +1)",
        Baseline::VolatileWrite => "single-threaded with write_volatile",
        Baseline::VolatileWriteReleaseFence => "single-threaded write_volatile + Release raw fence",
        Baseline::VolatileWriteSeqCstFence => "single-threaded write_volatile + SeqCst raw fence",
    }
}

/// The line reported for one single-thread baseline.
pub open spec fn baseline_line_spec(b: Baseline, elapsed_nanos: u64) -> Seq<char> {
    baseline_label_spec(b) + ": "@ + duration_label_spec(elapsed_nanos)
}

/// Format the line reported for one single-thread baseline.
pub fn baseline_line(b: Baseline, elapsed_nanos: u64) -> (r: String)
    ensures
        r@ == baseline_line_spec(b, elapsed_nanos),
{
    let mut out = String::new();
    out.append(baseline_label(b));
    out.append(": ");
    let elapsed = duration_label(elapsed_nanos);
    out.append(elapsed.as_str());
    proof {
        assert(out@ =~= baseline_line_spec(b, elapsed_nanos));
    }
    out
}

/// The banner line printed once, before any probe or measurement.
pub open spec fn banner_line_spec() -> Seq<char> {
    "trying to increment a number 500 million times"@
}

/// The banner line printed once, before any probe or measurement.
pub fn banner_line() -> (r: &'static str)
    ensures
        r@ == banner_line_spec(),
{
    "trying to increment a number 500 million times"
}

/// The line reported for the clock-reading overhead probe that runs before
/// any baseline.
pub open spec fn overhead_line_spec(elapsed_nanos: u64) -> Seq<char> {
    "measurement overhead"@ + ": "@ + duration_label_spec(elapsed_nanos)
}

/// Format the line reported for the clock-reading overhead probe.
pub fn overhead_line(elapsed_nanos: u64) -> (r: String)
    ensures
        r@ == overhead_line_spec(elapsed_nanos),
{
    let mut out = String::new();
    out.append("measurement overhead");
    out.append(": ");
    let elapsed = duration_label(elapsed_nanos);
    out.append(elapsed.as_str());
    proof {
        assert(out@ =~= overhead_line_spec(elapsed_nanos));
    }
    out
}

} // verus!
