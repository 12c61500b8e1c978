//! The per-task fairness counter of stride scheduling.
//!
//! Every ready task carries a [`Stride`]. The scheduler dispatches a task
//! whose stride comes first in the order defined here, and advances that
//! stride by `BIG_STRIDE / priority` before the task may be chosen again, so
//! that a task of higher priority advances more slowly and runs more often.
//!
//! The counter has eight bits and wraps. The order allows for one wrap: a
//! stride whose last advance wrapped comes after every stride whose last
//! advance did not. It is a strict total order on the two fields, while
//! `==` is false of any two strides, so that a search for the minimum never
//! finds two tasks interchangeable.
use core::cmp::Ordering;
use vstd::prelude::*;
use vstd::std_specs::cmp::PartialEqSpec;

verus! {

/// The pass unit: one dispatch advances a task of priority `p` by `BIG_STRIDE / p`.
pub const BIG_STRIDE: u8 = 255;

/// The distance one dispatch moves the counter of a task with priority `prio`.
pub open spec fn pass_of(prio: u8) -> int
    recommends
        prio > 0,
{
    BIG_STRIDE as int / prio as int
}

/// An 8-bit counter that wraps modulo 256, and one bit that tells whether
/// the most recent advance wrapped.
///
/// Strides are comparable only among tasks scheduled under the same
/// [`BIG_STRIDE`].
///
/// The wrap bit is the first field, so that the derived `Ord`, which goes
/// through the fields in turn, orders as [`Stride::compare`] does.
#[derive(Debug, Clone, Copy, Ord)]
pub struct Stride {
    is_overflow: bool,
    value: u8,
}

impl Stride {
    /// The counter.
    pub closed spec fn value_spec(&self) -> u8 {
        self.value
    }

    /// Whether the most recent advance wrapped past 255.
    pub closed spec fn is_overflow_spec(&self) -> bool {
        self.is_overflow
    }

    /// A stride at `value` that has not wrapped.
    pub fn new(value: u8) -> (s: Self)
        ensures
            s.value() == value,
            !s.is_overflow(),
    {
        Self { is_overflow: false, value }
    }

    /// The counter.
    #[verifier::when_used_as_spec(value_spec)]
    pub fn value(&self) -> (v: u8)
        ensures
            v == self.value(),
    {
        self.value
    }

    /// Whether the most recent advance wrapped past 255.
    #[verifier::when_used_as_spec(is_overflow_spec)]
    pub fn is_overflow(&self) -> (b: bool)
        ensures
            b == self.is_overflow(),
    {
        self.is_overflow
    }

    /// The stride after one dispatch of a task with priority `prio`: the
    /// counter advanced by the task's pass, modulo 256, and the wrap bit set
    /// exactly if this advance went past 255.
    pub closed spec fn advanced(&self, prio: u8) -> Stride {
        Stride {
            is_overflow: self.value + pass_of(prio) > 255,
            value: ((self.value + pass_of(prio)) % 256) as u8,
        }
    }

    /// Advances the counter by the pass of a task with priority `prio`,
    /// modulo 256, and records whether this advance wrapped.
    pub fn step(&mut self, prio: u8)
        requires
            prio > 0,
        ensures
            *final(self) == old(self).advanced(prio),
            final(self).value() == (old(self).value() + pass_of(prio)) % 256,
            final(self).is_overflow() <==> old(self).value() + pass_of(prio) > 255,
    {
        let pass: u8 = BIG_STRIDE / prio;
        let sum: u16 = self.value as u16 + pass as u16;
        if sum > 255 {
            self.value = (sum - 256) as u8;
            self.is_overflow = true;
        } else {
            self.value = sum as u8;
            self.is_overflow = false;
        }
    }

    /// Whether `self` comes strictly before `other`.
    ///
    /// Among strides on the same side of the wrap the smaller counter comes
    /// first. Otherwise the one that has not wrapped comes first: the other
    /// has passed zero and is further along, though its counter reads smaller.
    pub open spec fn precedes(&self, other: &Stride) -> bool {
        if self.is_overflow() == other.is_overflow() {
            self.value() < other.value()
        } else {
            other.is_overflow()
        }
    }

    /// The order of `self` relative to `other`.
    pub open spec fn ordering(&self, other: &Stride) -> Ordering {
        if self.precedes(other) {
            Ordering::Less
        } else if other.precedes(self) {
            Ordering::Greater
        } else {
            Ordering::Equal
        }
    }

    /// Whether `self` comes strictly before `other`.
    pub fn is_before(&self, other: &Stride) -> (b: bool)
        ensures
            b == self.precedes(other),
    {
        if self.is_overflow == other.is_overflow {
            self.value < other.value
        } else {
            other.is_overflow
        }
    }

    /// Compares two strides. The result is `Equal` exactly when both fields
    /// agree, which `==` nevertheless denies.
    pub fn compare(&self, other: &Stride) -> (o: Ordering)
        ensures
            o == self.ordering(other),
    {
        if self.is_before(other) {
            Ordering::Less
        } else if other.is_before(self) {
            Ordering::Greater
        } else {
            Ordering::Equal
        }
    }
}

impl PartialEq for Stride {
    /// Never true, not even of a stride and itself: a scheduler that looks
    /// for the minimum finds no two tasks interchangeable.
    fn eq(&self, other: &Self) -> (r: bool) {
        false
    }
}

impl vstd::std_specs::cmp::PartialEqSpecImpl for Stride {
    open spec fn obeys_eq_spec() -> bool {
        true
    }

    open spec fn eq_spec(&self, other: &Self) -> bool {
        false
    }
}

impl Eq for Stride {

}

impl PartialOrd for Stride {
    fn partial_cmp(&self, other: &Self) -> (r: Option<Ordering>) {
        Some(self.compare(other))
    }
}

impl vstd::std_specs::cmp::PartialOrdSpecImpl for Stride {
    open spec fn obeys_partial_cmp_spec() -> bool {
        true
    }

    open spec fn partial_cmp_spec(&self, other: &Self) -> Option<Ordering> {
        Some(self.ordering(other))
    }
}

/// What one dispatch does to a stride: the counter moves by the pass,
/// modulo 256, and the wrap bit tells whether it went past 255, whatever the
/// bit was before. The pass is at least 1.
pub proof fn advanced_stride(s: Stride, prio: u8)
    requires
        prio > 0,
    ensures
        s.advanced(prio).value() == (s.value() + pass_of(prio)) % 256,
        s.advanced(prio).is_overflow() <==> s.value() + pass_of(prio) > 255,
        1 <= pass_of(prio) <= 255,
{
    let p = prio as int;
    assert(1 <= 255int / p <= 255) by (nonlinear_arith)
        requires
            1 <= p <= 255,
    ;
}

/// `==` holds of no two strides, and of no stride and itself.
pub proof fn never_equal(a: Stride, b: Stride)
    ensures
        !a.eq_spec(&b),
        !a.eq_spec(&a),
{
}

/// No stride comes before itself, and of two strides at most one comes
/// before the other.
pub proof fn order_is_strict(a: Stride, b: Stride)
    ensures
        !a.precedes(&a),
        !(a.precedes(&b) && b.precedes(&a)),
        a.ordering(&a) == Ordering::Equal,
{
}

/// Any two strides are ordered: one comes before the other unless they
/// agree in both fields, and swapping the arguments reverses the result.
pub proof fn order_is_total(a: Stride, b: Stride)
    ensures
        a.precedes(&b) || b.precedes(&a) || (a.value() == b.value() && a.is_overflow()
            == b.is_overflow()),
        a.ordering(&b) == Ordering::Less <==> b.ordering(&a) == Ordering::Greater,
        a.ordering(&b) == Ordering::Equal <==> b.ordering(&a) == Ordering::Equal,
        a.ordering(&b) == Ordering::Equal <==> (a.value() == b.value() && a.is_overflow()
            == b.is_overflow()),
{
}

/// If `a` comes before `b` and `b` before `c`, then `a` comes before `c`.
pub proof fn order_is_transitive(a: Stride, b: Stride, c: Stride)
    requires
        a.ordering(&b) == Ordering::Less,
        b.ordering(&c) == Ordering::Less,
    ensures
        a.ordering(&c) == Ordering::Less,
        a.precedes(&c),
{
}

} // verus!
