//! Lengths of time.

use vstd::prelude::*;

verus! {

/// Nanoseconds in one second.
pub const NANOS_PER_SEC: u32 = 1_000_000_000;

/// Nanoseconds in one millisecond.
pub const NANOS_PER_MILLI: u32 = 1_000_000;

/// A length of time: whole seconds and the nanoseconds of the last, partial one.
///
/// Its view is the total number of nanoseconds.
#[derive(Clone, Copy, Debug, PartialEq, Eq)]
pub struct Span {
    secs: u64,
    nanos: u32,
}

impl View for Span {
    type V = nat;

    closed spec fn view(&self) -> nat {
        self.secs as nat * NANOS_PER_SEC as nat + self.nanos as nat
    }
}

/// The length of an optional span.
pub open spec fn optional_span(span: Option<Span>) -> Option<nat> {
    match span {
        Some(span) => Some(span@),
        None => None,
    }
}

impl Span {
    #[verifier::type_invariant]
    spec fn well_formed(self) -> bool {
        self.nanos < NANOS_PER_SEC
    }

    /// The span of `secs` seconds and `nanos` nanoseconds.
    pub fn new(secs: u64, nanos: u32) -> (span: Span)
        requires
            nanos < NANOS_PER_SEC,
        ensures
            span@ == secs * NANOS_PER_SEC + nanos,
            span@ == secs * 1_000_000_000 + nanos,
    {
        Span { secs, nanos }
    }

    /// The span of `secs` seconds.
    pub fn from_secs(secs: u64) -> (span: Span)
        ensures
            span@ == secs * NANOS_PER_SEC,
            span@ == secs * 1_000_000_000,
    {
        Span { secs, nanos: 0 }
    }

    /// The span of `millis` milliseconds.
    pub fn from_millis(millis: u64) -> (span: Span)
        ensures
            span@ == millis * NANOS_PER_MILLI,
            span@ == millis * 1_000_000,
    {
        let secs: u64 = millis / 1000;
        let nanos: u32 = (millis % 1000) as u32 * NANOS_PER_MILLI;
        Span { secs, nanos }
    }

    /// The whole seconds of this span.
    pub fn secs(&self) -> (secs: u64)
        ensures
            secs == self@ / NANOS_PER_SEC as nat,
            secs == self@ / 1_000_000_000,
    {
        proof {
            use_type_invariant(self);
            assert(self@ / NANOS_PER_SEC as nat == self.secs) by (nonlinear_arith)
                requires
                    self@ == self.secs as nat * 1_000_000_000 + self.nanos as nat,
                    self.nanos < 1_000_000_000,
                    NANOS_PER_SEC == 1_000_000_000,
            ;
        }
        self.secs
    }

    /// The nanoseconds of this span beyond its whole seconds.
    pub fn subsec_nanos(&self) -> (nanos: u32)
        ensures
            nanos == self@ % NANOS_PER_SEC as nat,
            nanos == self@ % 1_000_000_000,
    {
        proof {
            use_type_invariant(self);
            assert(self@ % NANOS_PER_SEC as nat == self.nanos) by (nonlinear_arith)
                requires
                    self@ == self.secs as nat * 1_000_000_000 + self.nanos as nat,
                    self.nanos < 1_000_000_000,
                    NANOS_PER_SEC == 1_000_000_000,
            ;
        }
        self.nanos
    }

    /// Whether this span is empty.
    pub fn is_zero(&self) -> (zero: bool)
        ensures
            zero == (self@ == 0),
    {
        self.secs == 0 && self.nanos == 0
    }

    /// This span shortened by `other`.
    pub fn minus(self, other: Span) -> (rest: Span)
        requires
            self@ >= other@,
        ensures
            rest@ == self@ - other@,
    {
        proof {
            use_type_invariant(&self);
            use_type_invariant(&other);
        }
        if self.nanos >= other.nanos {
            Span { secs: self.secs - other.secs, nanos: self.nanos - other.nanos }
        } else {
            Span {
                secs: self.secs - other.secs - 1,
                nanos: NANOS_PER_SEC - other.nanos + self.nanos,
            }
        }
    }
}

/// Two optional spans are equally long only where both are absent or both are there
/// and equally long.
pub proof fn law_optional_span(a: Option<Span>, b: Option<Span>)
    ensures
        optional_span(a) is Some <==> a is Some,
        optional_span(a) == optional_span(b) <==> match (a, b) {
            (Some(x), Some(y)) => x@ == y@,
            (None, None) => true,
            _ => false,
        },
        a is Some ==> optional_span(a)->0 == a->0@,
{
}

} // verus!
