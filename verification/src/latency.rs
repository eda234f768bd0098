//! Latencies, their units, and their measurement.
//!
//! A latency is the content of a `std::time::Duration`: a whole number of nanoseconds below
//! `2^64` seconds. The library keeps it as that number, so that the conversions between latencies
//! and counts of a unit can be stated and proved.

use std::time::{Duration, Instant};
use vstd::prelude::*;

verus! {

#[verifier::external_type_specification]
#[verifier::external_body]
pub struct ExInstant(Instant);

/// One more than the largest number of nanoseconds that a `Duration` holds: `2^64` seconds.
pub const LATENCY_NANOS_LIMIT: u128 = 18_446_744_073_709_551_616_000_000_000u128;

/// A latency, as a whole number of nanoseconds below `LATENCY_NANOS_LIMIT`.
#[derive(Debug, Clone, Copy, PartialEq, Eq, Structural)]
pub struct Latency {
    nanos: u128,
}

impl View for Latency {
    type V = nat;

    closed spec fn view(&self) -> nat {
        self.nanos as nat
    }
}

impl Latency {
    #[verifier::type_invariant]
    closed spec fn inv(self) -> bool {
        self.nanos < LATENCY_NANOS_LIMIT
    }

    /// The latency of `nanos` nanoseconds, if a `Duration` can hold it.
    pub fn from_nanos(nanos: u128) -> (r: Option<Latency>)
        ensures
            r is Some <==> nanos < LATENCY_NANOS_LIMIT,
            r matches Some(l) ==> l@ == nanos,
    {
        if nanos < LATENCY_NANOS_LIMIT {
            Some(Latency { nanos })
        } else {
            None
        }
    }

    /// The number of nanoseconds.
    pub fn nanos(&self) -> (r: u128)
        ensures
            r == self@,
            r < LATENCY_NANOS_LIMIT,
    {
        proof {
            use_type_invariant(self);
        }
        self.nanos
    }

    /// The latency that a `Duration` holds.
    pub fn from_duration(d: Duration) -> (r: Latency)
        ensures
            r@ == duration_nanos(d),
    {
        let nanos = duration_as_nanos(&d);
        Latency { nanos }
    }

    /// The `Duration` that holds this latency.
    pub fn to_duration(&self) -> (r: Duration)
        ensures
            duration_nanos(r) == self@,
    {
        proof {
            use_type_invariant(self);
        }
        let secs = (self.nanos / 1_000_000_000) as u64;
        let subsec = (self.nanos % 1_000_000_000) as u32;
        duration_new(secs, subsec)
    }
}

/// The whole number of nanoseconds that a `Duration` holds (`Duration::as_nanos`).
pub uninterp spec fn duration_nanos(d: Duration) -> nat;

/// `Duration::as_nanos`: the whole number of nanoseconds in `d`, which is below `2^64` seconds
/// (a `Duration` holds a `u64` of seconds and fewer than `10^9` nanoseconds).
#[verifier::external_body]
fn duration_as_nanos(d: &Duration) -> (r: u128)
    ensures
        r == duration_nanos(*d),
        r < LATENCY_NANOS_LIMIT,
{
    d.as_nanos()
}

/// `Duration::new`: the duration of `secs` seconds and `nanos` nanoseconds. It cannot panic, as
/// `nanos` is below `10^9`.
#[verifier::external_body]
fn duration_new(secs: u64, nanos: u32) -> (r: Duration)
    requires
        nanos < 1_000_000_000,
    ensures
        duration_nanos(r) == secs * 1_000_000_000 + nanos,
{
    Duration::new(secs, nanos)
}

/// `Instant::now`: the current time, of which nothing is stated.
#[verifier::external_body]
pub(crate) fn instant_now() -> Instant {
    Instant::now()
}

/// `Instant::duration_since`: the time elapsed from `earlier` to `later`, zero where `earlier`
/// is the later one. Nothing is stated of the result, which depends on the clock.
#[verifier::external_body]
pub(crate) fn instant_duration_since(later: &Instant, earlier: &Instant) -> Duration {
    later.duration_since(*earlier)
}

/// Unit in which latencies are recorded.
#[derive(Debug, Clone, Copy, PartialEq, Eq, Structural)]
pub enum LatencyUnit {
    Milli,
    Micro,
    Nano,
}

/// Number of nanoseconds in one `unit`.
pub open spec fn unit_nanos(unit: LatencyUnit) -> nat {
    match unit {
        LatencyUnit::Nano => 1,
        LatencyUnit::Micro => 1_000,
        LatencyUnit::Milli => 1_000_000,
    }
}

/// The whole number of `unit`s in `nanos` nanoseconds, truncated to a `u64`.
pub open spec fn spec_latency_as_u64(unit: LatencyUnit, nanos: nat) -> u64 {
    (nanos / unit_nanos(unit)) as u64
}

impl LatencyUnit {
    /// The whole number of units in `latency` (`Duration::as_nanos`, `as_micros` or `as_millis`),
    /// truncated to a `u64`.
    pub fn latency_as_u64(&self, latency: Latency) -> (r: u64)
        ensures
            r == spec_latency_as_u64(*self, latency@),
    {
        let nanos = latency.nanos();
        match self {
            LatencyUnit::Nano => nanos as u64,
            LatencyUnit::Micro => (nanos / 1_000) as u64,
            LatencyUnit::Milli => (nanos / 1_000_000) as u64,
        }
    }

    /// The latency of `elapsed` units (`Duration::from_nanos`, `from_micros` or `from_millis`).
    pub fn latency_from_u64(&self, elapsed: u64) -> (r: Latency)
        ensures
            r@ == elapsed * unit_nanos(*self),
    {
        let e = elapsed as u128;
        let nanos = match self {
            LatencyUnit::Nano => e,
            LatencyUnit::Micro => e * 1_000,
            LatencyUnit::Milli => e * 1_000_000,
        };
        Latency { nanos }
    }
}

/// A count of units turned into a latency and back is the same count.
pub proof fn lemma_latency_round_trip(unit: LatencyUnit, elapsed: u64)
    ensures
        spec_latency_as_u64(unit, (elapsed * unit_nanos(unit)) as nat) == elapsed,
{
    let k = unit_nanos(unit) as int;
    let e = elapsed as int;
    assert((e * k) / k == e) by (nonlinear_arith)
        requires
            k > 0,
    ;
}

/// Invokes `f` once and returns the time it took, from the monotonic clock.
pub fn latency<F: FnMut()>(f: &mut F) -> (r: Latency)
    requires
        call_requires(*old(f), ()),
    ensures
        *final(f) == *old(f),
{
    let start = instant_now();
    f();
    let end = instant_now();
    Latency::from_duration(instant_duration_since(&end, &start))
}

/// The two pairs of a duo, from its four latencies in the order of the calls `f1, f2, f2, f1`:
/// each pair holds a latency of `f1` first and one of `f2` second, the first pair from the first
/// two calls, the second pair from the last two.
pub fn pair_duo(l1: Latency, l2: Latency, l3: Latency, l4: Latency) -> (r: [(Latency, Latency); 2])
    ensures
        r@ == seq![(l1, l2), (l4, l3)],
{
    [(l1, l2), (l4, l3)]
}

/// Invokes `f1` then `f2` then `f2` then `f1`, and returns the latencies paired by `pair_duo`.
pub fn duo_exec<F1: FnMut(), F2: FnMut()>(f1: &mut F1, f2: &mut F2) -> (r: [(Latency, Latency); 2])
    requires
        call_requires(*old(f1), ()),
        call_requires(*old(f2), ()),
    ensures
        *final(f1) == *old(f1),
        *final(f2) == *old(f2),
{
    let l1 = latency(f1);
    let l2 = latency(f2);
    let l3 = latency(f2);
    let l4 = latency(f1);
    pair_duo(l1, l2, l3, l4)
}

} // verus!
