//! Calibration: the ratio between a directory's raw size in bytes and the
//! number of entries it holds, measured on the device to be scanned.
use crate::args::{digit_value, digits_value, is_digit, Args};
use vstd::prelude::*;

verus! {

/// Default number of files created in the calibration directory.
pub const DEFAULT_TEST_COUNT: u64 = 100_000;

/// Why a calibration produced no ratio.
#[derive(Debug, Clone, Copy, PartialEq, Eq, Structural)]
pub enum CalibrationError {
    /// The calibration was asked to create no files at all.
    ZeroEntryCount,
    /// Cancellation was requested while the probe files were being created.
    Cancelled,
    /// The probe directory's metadata could not be read afterwards.
    StatFailed,
}

/// The ratio measured for a directory of `size` bytes holding `entry_count`
/// entries: floor division, so estimates derived from it err on the high side.
pub open spec fn ratio_of(size: u64, entry_count: u64) -> u64
    recommends
        entry_count > 0,
{
    (size / entry_count) as u64
}

/// Ratio of a probe directory's raw size to the number of files made in it.
pub fn inode_ratio(size: u64, entry_count: u64) -> (r: Result<u64, CalibrationError>)
    ensures
        entry_count == 0 <==> r == Err::<u64, CalibrationError>(CalibrationError::ZeroEntryCount),
        entry_count > 0 ==> r == Ok::<u64, CalibrationError>(ratio_of(size, entry_count)),
{
    if entry_count == 0 {
        Err(CalibrationError::ZeroEntryCount)
    } else {
        Ok(size / entry_count)
    }
}

/// Where a scan's ratio comes from.
#[derive(Debug, Clone, PartialEq, Eq)]
pub enum RatioSource {
    /// A ratio given with the options; no calibration is run.
    Given(u64),
    /// Calibrate in a directory created under this path.
    CalibrateIn(String),
    /// Calibrate in a directory created under the scanned root.
    CalibrateInRoot,
}

/// A given non-zero ratio wins; otherwise calibration runs under the given
/// calibration path, or under the scanned root when there is none.
pub fn ratio_source(args: &Args) -> (r: RatioSource)
    ensures
        args.size_inode_ratio > 0 ==> r == RatioSource::Given(args.size_inode_ratio),
        args.size_inode_ratio == 0 && args.calibration_path is Some ==> (r matches RatioSource::CalibrateIn(
            p,
        ) && p@ == args.calibration_path->0@),
        args.size_inode_ratio == 0 && args.calibration_path is None ==> r
            == RatioSource::CalibrateInRoot,
{
    if args.size_inode_ratio > 0 {
        RatioSource::Given(args.size_inode_ratio)
    } else {
        match &args.calibration_path {
            Some(p) => RatioSource::CalibrateIn(p.clone()),
            None => RatioSource::CalibrateInRoot,
        }
    }
}

/// The decimal digit for `d`, below ten.
pub open spec fn digit_char(d: nat) -> char {
    if d == 0 {
        '0'
    } else if d == 1 {
        '1'
    } else if d == 2 {
        '2'
    } else if d == 3 {
        '3'
    } else if d == 4 {
        '4'
    } else if d == 5 {
        '5'
    } else if d == 6 {
        '6'
    } else if d == 7 {
        '7'
    } else if d == 8 {
        '8'
    } else {
        '9'
    }
}

/// `n` written in decimal, without sign or leading zeros.
pub open spec fn decimal_text(n: nat) -> Seq<char>
    decreases n,
{
    if n < 10 {
        seq![digit_char(n)]
    } else {
        decimal_text(n / 10).push(digit_char(n % 10))
    }
}

/// Relies on `u64`'s `Display`, through `to_string`: the number in decimal,
/// without sign or leading zeros.
#[verifier::external_body]
fn decimal_string(n: u64) -> (r: String)
    ensures
        r@ == decimal_text(n as nat),
{
    n.to_string()
}

/// Name of the `i`-th probe file of a calibration: `i` in decimal, which is
/// as short as distinct names can be.
pub fn calibration_file_name(i: u64) -> (r: String)
    ensures
        r@ == decimal_text(i as nat),
{
    decimal_string(i)
}

proof fn lemma_digit_char_value(d: nat)
    requires
        d < 10,
    ensures
        is_digit(digit_char(d)),
        digit_value(digit_char(d)) == d,
{
}

/// Decimal text reads back as the number it was written from.
pub proof fn lemma_decimal_text_value(n: nat)
    ensures
        decimal_text(n).len() > 0,
        forall|i: int| 0 <= i < decimal_text(n).len() ==> is_digit(#[trigger] decimal_text(n)[i]),
        digits_value(decimal_text(n)) == n,
    decreases n,
{
    if n < 10 {
        let s = decimal_text(n);
        assert(s.drop_last() =~= Seq::<char>::empty());
        assert(digits_value(s.drop_last()) == 0);
        lemma_digit_char_value(n);
        assert(digits_value(s) == 10 * digits_value(s.drop_last()) + digit_value(s.last()));
    } else {
        lemma_decimal_text_value(n / 10);
        let s = decimal_text(n);
        assert(s.drop_last() =~= decimal_text(n / 10));
        lemma_digit_char_value(n % 10);
        assert(digits_value(s) == 10 * digits_value(s.drop_last()) + digit_value(s.last()));
        assert(n == 10 * (n / 10) + n % 10);
    }
}

/// Distinct indices give distinct probe file names, so a calibration makes
/// as many files as it is asked for.
pub proof fn lemma_file_names_distinct(a: u64, b: u64)
    requires
        a != b,
    ensures
        decimal_text(a as nat) != decimal_text(b as nat),
{
    lemma_decimal_text_value(a as nat);
    lemma_decimal_text_value(b as nat);
}

/// Refuses a calibration that would create no files, before any work.
pub fn check_entry_count(entry_count: u64) -> (r: Result<(), CalibrationError>)
    ensures
        r is Err <==> entry_count == 0,
        r is Err ==> r == Err::<(), CalibrationError>(CalibrationError::ZeroEntryCount),
{
    if entry_count == 0 {
        Err(CalibrationError::ZeroEntryCount)
    } else {
        Ok(())
    }
}

/// The end of a calibration, once the probe files are made: cancellation
/// wins, then a directory that could not be measured (`dir_size` is `None`),
/// and otherwise the ratio of its size to the number of files.
pub fn finish_calibration(cancelled: bool, dir_size: Option<u64>, entry_count: u64) -> (r: Result<
    u64,
    CalibrationError,
>)
    ensures
        entry_count == 0 ==> r == Err::<u64, CalibrationError>(CalibrationError::ZeroEntryCount),
        entry_count > 0 && cancelled ==> r == Err::<u64, CalibrationError>(
            CalibrationError::Cancelled,
        ),
        entry_count > 0 && !cancelled && dir_size is None ==> r == Err::<u64, CalibrationError>(
            CalibrationError::StatFailed,
        ),
        entry_count > 0 && !cancelled && dir_size is Some ==> r == Ok::<u64, CalibrationError>(
            ratio_of(dir_size->0, entry_count),
        ),
{
    if entry_count == 0 {
        return Err(CalibrationError::ZeroEntryCount);
    }
    if cancelled {
        return Err(CalibrationError::Cancelled);
    }
    match dir_size {
        None => Err(CalibrationError::StatFailed),
        Some(size) => inode_ratio(size, entry_count),
    }
}

/// The ratio is the floor of size over count: `entry_count` entries at the
/// ratio fit in the size, one more entry each would not.
pub proof fn lemma_ratio_is_floor(size: u64, entry_count: u64)
    requires
        entry_count > 0,
    ensures
        ratio_of(size, entry_count) * entry_count <= size,
        size < (ratio_of(size, entry_count) + 1) * entry_count,
{
    let q = size / entry_count;
    assert(q * entry_count + size % entry_count == size) by (nonlinear_arith)
        requires
            entry_count > 0,
            q == size / entry_count,
    ;
    assert(size % entry_count < entry_count) by (nonlinear_arith)
        requires
            entry_count > 0,
    ;
    assert((q + 1) * entry_count == q * entry_count + entry_count) by (nonlinear_arith);
}

/// Doubling both the number of files and the directory's size, as a
/// constant per-entry overhead does, gives the same ratio.
pub proof fn lemma_ratio_stable_when_doubled(size: u64, entry_count: u64)
    requires
        entry_count > 0,
        2 * size <= u64::MAX,
        2 * entry_count <= u64::MAX,
    ensures
        ratio_of((2 * size) as u64, (2 * entry_count) as u64) == ratio_of(size, entry_count),
{
    let q = size / entry_count;
    let rem = size % entry_count;
    assert(size == q * entry_count + rem && 0 <= rem < entry_count) by (nonlinear_arith)
        requires
            entry_count > 0,
            q == size / entry_count,
            rem == size % entry_count,
    ;
    assert(2 * size == q * (2 * entry_count) + 2 * rem) by (nonlinear_arith)
        requires
            size == q * entry_count + rem,
    ;
    lemma_quotient_unique(2 * size, 2 * entry_count, q as int, 2 * rem);
}

/// Where each entry costs `per_entry` bytes and the measured size exceeds
/// that by less than one byte per entry, the ratio is `per_entry` whatever
/// the number of files: a calibration with twice as many files agrees.
pub proof fn lemma_ratio_of_constant_overhead(
    per_entry: u64,
    entry_count: u64,
    slack: u64,
    doubled_slack: u64,
)
    requires
        entry_count > 0,
        slack < entry_count,
        doubled_slack < 2 * entry_count,
        2 * entry_count <= u64::MAX,
        per_entry * entry_count + slack <= u64::MAX,
        per_entry * (2 * entry_count) + doubled_slack <= u64::MAX,
    ensures
        ratio_of((per_entry * entry_count + slack) as u64, entry_count) == per_entry,
        ratio_of(
            (per_entry * (2 * entry_count) + doubled_slack) as u64,
            (2 * entry_count) as u64,
        ) == per_entry,
{
    lemma_quotient_unique(per_entry * entry_count + slack, entry_count as int, per_entry as int, slack as int);
    lemma_quotient_unique(
        per_entry * (2 * entry_count) + doubled_slack,
        2 * entry_count,
        per_entry as int,
        doubled_slack as int,
    );
}

proof fn lemma_quotient_unique(a: int, d: int, q: int, rem: int)
    requires
        d > 0,
        0 <= rem < d,
        a == q * d + rem,
    ensures
        a / d == q,
{
    assert(a / d == q) by (nonlinear_arith)
        requires
            d > 0,
            0 <= rem < d,
            a == q * d + rem,
    ;
}

} // verus!
