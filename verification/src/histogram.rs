//! The latency histograms, kept in `hdrhistogram::Histogram` and seen through the trusted items
//! below.
//!
//! A histogram is modelled by the multiset of the values that its recorded-values iterator reports,
//! one copy per sample counted, and by what it was made with (auto-resize, significant digits).
//! A recorded value is counted under the value that the iterator reports for its bucket: the
//! bucket's highest value, except in the topmost bucket, which is reported as `u64::MAX - 1`. The
//! buckets hold single values below `exact_limit(sigfig)` and are narrower than `1 / 10^sigfig`
//! of their values above it.

use hdrhistogram::errors::{CreationError, RecordError};
use hdrhistogram::Histogram;
use vstd::multiset::Multiset;
use vstd::prelude::*;

verus! {

/// A latency histogram: an `hdrhistogram::Histogram<u64>`, held where Verus does not look.
#[verifier::external_body]
pub struct Timing {
    hist: Histogram<u64>,
}

#[verifier::external_type_specification]
#[verifier::external_body]
pub struct ExCreationError(CreationError);

#[verifier::external_type_specification]
#[verifier::external_body]
pub struct ExRecordError(RecordError);

/// What a histogram holds: one copy of a bucket's highest equivalent value per sample counted in
/// that bucket.
pub uninterp spec fn histogram_values(h: Timing) -> Multiset<u64>;

/// What a histogram was made with: whether it grows its range to take a value above its highest
/// trackable value, and its number of significant decimal digits.
pub uninterp spec fn histogram_config(h: Timing) -> (bool, u8);

/// Whether the histogram grows its range to take a value above its highest trackable value.
pub open spec fn histogram_auto_resize(h: Timing) -> bool {
    histogram_config(h).0
}

/// The histogram's number of significant decimal digits.
pub open spec fn histogram_sigfig(h: Timing) -> u8 {
    histogram_config(h).1
}

/// `10^sigfig`.
pub open spec fn pow10(sigfig: u8) -> nat {
    match sigfig {
        0 => 1,
        1 => 10,
        2 => 100,
        3 => 1_000,
        4 => 10_000,
        _ => 100_000,
    }
}

/// The values below which a histogram with `sigfig` (at most 5) significant digits counts each
/// value exactly: the least power of two not below `2 * 10^sigfig`.
pub open spec fn exact_limit(sigfig: u8) -> nat {
    match sigfig {
        0 => 2,
        1 => 32,
        2 => 256,
        3 => 2_048,
        4 => 32_768,
        _ => 262_144,
    }
}

/// `b` is a value under which a histogram with `sigfig` significant digits can count `value`:
/// `value` itself below `exact_limit(sigfig)`; otherwise at least `value` and at most
/// `value / 10^sigfig` above it; and `u64::MAX - 1` for `u64::MAX`, whose bucket is reported one
/// below its highest value.
pub open spec fn counted_under(sigfig: u8, value: u64, b: u64) -> bool {
    if value == u64::MAX {
        b == u64::MAX - 1
    } else {
        &&& value <= b
        &&& value < exact_limit(sigfig) ==> b == value
        &&& (b - value) * pow10(sigfig) <= value
    }
}

/// Sum of the counts of the pairs in `s` whose value is `v`.
pub open spec fn pair_count(s: Seq<(u64, u64)>, v: u64) -> nat
    decreases s.len(),
{
    if s.len() == 0 {
        0
    } else {
        pair_count(s.drop_last(), v) + if s.last().0 == v { s.last().1 as nat } else { 0 }
    }
}

/// Sum of the counts of the pairs in `s`.
pub open spec fn total_count(s: Seq<(u64, u64)>) -> nat
    decreases s.len(),
{
    if s.len() == 0 {
        0
    } else {
        total_count(s.drop_last()) + s.last().1 as nat
    }
}

/// The pairs' values are strictly increasing and every count is positive.
pub open spec fn is_recorded_seq(s: Seq<(u64, u64)>) -> bool {
    &&& forall|i: int, j: int| 0 <= i < j < s.len() ==> s[i].0 < s[j].0
    &&& forall|i: int| 0 <= i < s.len() ==> s[i].1 > 0
}

/// `Histogram::<u64>::new_with_max(high, sigfig)`: an empty histogram that tracks values from 1
/// to `high` with `sigfig` significant decimal digits, without auto-resize. The source rejects
/// exactly `high < 2` (twice the lowest discernible value 1) and `sigfig > 5`.
#[verifier::external_body]
pub(crate) fn histogram_new_with_max(high: u64, sigfig: u8) -> (r: Result<Timing, CreationError>)
    ensures
        r is Ok <==> (high >= 2 && sigfig <= 5),
        r matches Ok(h) ==> histogram_values(h) =~= Multiset::empty() && histogram_config(h) == (
            false,
            sigfig,
        ),
{
    match Histogram::<u64>::new_with_max(high, sigfig) {
        Ok(hist) => Ok(Timing { hist }),
        Err(e) => Err(e),
    }
}

/// `Histogram::auto`: switches auto-resize on or off; the contents stay.
#[verifier::external_body]
pub(crate) fn histogram_set_auto(h: &mut Timing, enabled: bool)
    ensures
        histogram_values(*final(h)) == histogram_values(*old(h)),
        histogram_config(*final(h)) == (enabled, histogram_config(*old(h)).1),
{
    h.hist.auto(enabled)
}

/// `Histogram::new_from`: an empty histogram with the configuration (range, precision,
/// auto-resize) of `source`.
#[verifier::external_body]
pub(crate) fn histogram_new_from(source: &Timing) -> (r: Timing)
    ensures
        histogram_values(r) =~= Multiset::empty(),
        histogram_config(r) == histogram_config(*source),
{
    Timing { hist: Histogram::<u64>::new_from(&source.hist) }
}

/// `Histogram::record`: counts `value` once, under the value `b` that the recorded-values
/// iterator reports for its bucket (see `counted_under`). It fails, leaving the histogram as it
/// was, only where `value` is beyond the range and auto-resize is off: a resize needs a `u32`
/// number of bins, which always fits in a `usize`. The bucket is that of `value` in the histogram's
/// precision, which never changes; the bucket's exact bounds beyond the precision are left unsaid.
#[verifier::external_body]
pub(crate) fn histogram_record(h: &mut Timing, value: u64) -> (r: Result<(), RecordError>)
    ensures
        histogram_config(*old(h)).0 ==> r is Ok,
        histogram_config(*final(h)) == histogram_config(*old(h)),
        r is Ok ==> exists|b: u64|
            counted_under(histogram_config(*old(h)).1, value, b) && histogram_values(*final(h))
                == #[trigger] histogram_values(*old(h)).insert(b),
        r is Err ==> *final(h) == *old(h),
{
    h.hist.record(value)
}

/// `Histogram::reset`: removes all samples and keeps the configuration.
#[verifier::external_body]
pub(crate) fn histogram_reset(h: &mut Timing)
    ensures
        histogram_values(*final(h)) =~= Multiset::empty(),
        histogram_config(*final(h)) == histogram_config(*old(h)),
{
    h.hist.reset()
}

/// `Histogram::len`: the total count, which saturates at `u64::MAX`. (A `Timing` is only ever
/// changed by `record` and `reset`, which keep the total count equal to the number of samples,
/// saturated.)
#[verifier::external_body]
pub(crate) fn histogram_len(h: &Timing) -> (r: u64)
    ensures
        r == if histogram_values(*h).len() < u64::MAX {
            histogram_values(*h).len()
        } else {
            u64::MAX as nat
        },
{
    h.hist.len()
}

/// `Histogram::iter_recorded`, each item taken as `(value_iterated_to, count_at_value)`: the
/// buckets with a non-zero count, in increasing order of value, each with its count.
#[verifier::external_body]
pub(crate) fn histogram_recorded(h: &Timing) -> (r: Vec<(u64, u64)>)
    ensures
        histogram_values(*h).len() < u64::MAX ==> {
            &&& is_recorded_seq(r@)
            &&& total_count(r@) == histogram_values(*h).len()
            &&& forall|v: u64| #[trigger] pair_count(r@, v) == histogram_values(*h).count(v)
        },
{
    h.hist.iter_recorded().map(|x| (x.value_iterated_to(), x.count_at_value())).collect()
}

/// Why a histogram could not be made or could not take a value.
#[derive(Debug, Clone, Copy, PartialEq, Eq, Structural)]
pub enum TimingError {
    /// The highest trackable value is below 2, or more than 5 significant digits were asked for.
    InvalidParameters,
    /// The value is beyond the range, and auto-resize is off.
    ValueOutOfRange,
}

impl Timing {
    /// An empty histogram that tracks values from 1 to `high` with `sigfig` significant decimal
    /// digits, without auto-resize.
    pub fn new_with_max(high: u64, sigfig: u8) -> (r: Result<Timing, TimingError>)
        ensures
            r is Ok <==> (high >= 2 && sigfig <= 5),
            r is Err ==> r == Err::<Timing, TimingError>(TimingError::InvalidParameters),
            r matches Ok(h) ==> histogram_values(h) =~= Multiset::empty() && !histogram_auto_resize(h)
                && histogram_sigfig(h) == sigfig,
    {
        match histogram_new_with_max(high, sigfig) {
            Ok(h) => Ok(h),
            Err(_) => Err(TimingError::InvalidParameters),
        }
    }

    /// An empty histogram with the configuration of `self`.
    pub fn new_from(&self) -> (r: Timing)
        ensures
            histogram_values(r) =~= Multiset::empty(),
            histogram_auto_resize(r) == histogram_auto_resize(*self),
            histogram_sigfig(r) == histogram_sigfig(*self),
    {
        histogram_new_from(self)
    }

    /// Switches auto-resize on or off; the contents stay.
    pub fn auto(&mut self, enabled: bool)
        ensures
            histogram_values(*final(self)) == histogram_values(*old(self)),
            histogram_auto_resize(*final(self)) == enabled,
            histogram_sigfig(*final(self)) == histogram_sigfig(*old(self)),
    {
        histogram_set_auto(self, enabled)
    }

    /// Counts `value` once, under the value reported for its bucket in the histogram's precision
    /// (see `counted_under`). Fails, leaving the histogram as it was, only where `value` is beyond
    /// the range and auto-resize is off.
    pub fn record(&mut self, value: u64) -> (r: Result<(), TimingError>)
        ensures
            histogram_auto_resize(*old(self)) ==> r is Ok,
            histogram_auto_resize(*final(self)) == histogram_auto_resize(*old(self)),
            histogram_sigfig(*final(self)) == histogram_sigfig(*old(self)),
            r is Ok ==> exists|b: u64|
                counted_under(histogram_sigfig(*old(self)), value, b) && histogram_values(
                    *final(self),
                ) == #[trigger] histogram_values(*old(self)).insert(b),
            r is Err ==> *final(self) == *old(self) && r == Err::<(), TimingError>(
                TimingError::ValueOutOfRange,
            ),
    {
        match histogram_record(self, value) {
            Ok(()) => Ok(()),
            Err(_) => Err(TimingError::ValueOutOfRange),
        }
    }

    /// Removes all samples, keeping the configuration.
    pub fn reset(&mut self)
        ensures
            histogram_values(*final(self)) =~= Multiset::empty(),
            histogram_auto_resize(*final(self)) == histogram_auto_resize(*old(self)),
            histogram_sigfig(*final(self)) == histogram_sigfig(*old(self)),
    {
        histogram_reset(self)
    }

    /// The number of samples counted, saturated at `u64::MAX`.
    pub fn len(&self) -> (r: u64)
        ensures
            r == if histogram_values(*self).len() < u64::MAX {
                histogram_values(*self).len()
            } else {
                u64::MAX as nat
            },
    {
        histogram_len(self)
    }

    /// The buckets with a non-zero count, in increasing order of value, each as its highest
    /// equivalent value and its count.
    pub fn recorded(&self) -> (r: Vec<(u64, u64)>)
        ensures
            histogram_values(*self).len() < u64::MAX ==> {
                &&& is_recorded_seq(r@)
                &&& total_count(r@) == histogram_values(*self).len()
                &&& forall|v: u64| #[trigger] pair_count(r@, v) == histogram_values(*self).count(v)
            },
    {
        histogram_recorded(self)
    }
}

} // verus!
