use core::cmp::Ordering;
use os_core::task::stride::{Stride, BIG_STRIDE};

/// The stride with counter `value` whose last advance wrapped.
fn wrapped(value: u8) -> Stride {
    let mut s = Stride::new(value + 1);
    s.step(1);
    s
}

/// Every stride that `new` and `step` can produce.
fn all_strides() -> Vec<Stride> {
    let mut all = Vec::new();
    for v in 0..=255u8 {
        all.push(Stride::new(v));
    }
    for v in 0..=254u8 {
        all.push(wrapped(v));
    }
    all
}

#[test]
fn new_stride_has_not_wrapped() {
    let s = Stride::new(7);
    assert_eq!(s.value(), 7);
    assert!(!s.is_overflow());
    assert_eq!(BIG_STRIDE, 255);
}

#[test]
fn step_adds_the_pass() {
    let mut s = Stride::new(0);
    s.step(16);
    assert_eq!(s.value(), 15);
    assert!(!s.is_overflow());
    s.step(255);
    assert_eq!(s.value(), 16);
    s.step(3);
    assert_eq!(s.value(), 101);
    s.step(2);
    assert_eq!(s.value(), 228);
    assert!(!s.is_overflow());
}

#[test]
fn step_of_priority_one_is_the_whole_unit() {
    let mut s = Stride::new(0);
    s.step(1);
    assert_eq!(s.value(), 255);
    assert!(!s.is_overflow());
    s.step(1);
    assert_eq!(s.value(), 254);
    assert!(s.is_overflow());
}

#[test]
fn step_wraps_past_the_top() {
    let mut s = Stride::new(250);
    s.step(25);
    assert_eq!(s.value(), 4);
    assert!(s.is_overflow());
    let fresh = Stride::new(100);
    assert_eq!(fresh.compare(&s), Ordering::Less);
    assert_eq!(s.compare(&fresh), Ordering::Greater);
    assert!(fresh.is_before(&s));
    assert!(!s.is_before(&fresh));
    assert!(fresh < s);
    assert!(s > fresh);
}

#[test]
fn step_to_exactly_the_top_does_not_wrap() {
    let mut s = Stride::new(245);
    s.step(25);
    assert_eq!(s.value(), 255);
    assert!(!s.is_overflow());
    s.step(25);
    assert_eq!(s.value(), 9);
    assert!(s.is_overflow());
}

#[test]
fn wrap_bit_tells_of_the_last_step_only() {
    let mut s = Stride::new(250);
    s.step(25);
    assert!(s.is_overflow());
    s.step(25);
    assert_eq!(s.value(), 14);
    assert!(!s.is_overflow());
}

#[test]
fn same_side_orders_by_counter() {
    assert_eq!(Stride::new(3).compare(&Stride::new(9)), Ordering::Less);
    assert_eq!(Stride::new(9).compare(&Stride::new(3)), Ordering::Greater);
    assert_eq!(wrapped(3).compare(&wrapped(9)), Ordering::Less);
    assert_eq!(wrapped(9).compare(&wrapped(3)), Ordering::Greater);
    assert_eq!(Stride::new(5).compare(&Stride::new(5)), Ordering::Equal);
    assert_eq!(wrapped(5).compare(&wrapped(5)), Ordering::Equal);
}

#[test]
fn wrapped_comes_after_unwrapped() {
    assert_eq!(wrapped(0).compare(&Stride::new(255)), Ordering::Greater);
    assert_eq!(Stride::new(255).compare(&wrapped(0)), Ordering::Less);
    assert_eq!(wrapped(7).compare(&Stride::new(7)), Ordering::Greater);
}

#[test]
fn strides_are_never_equal() {
    let s = Stride::new(5);
    let t = Stride::new(5);
    assert!(!(s == t));
    assert!(!(s == s));
    assert!(s != s);
    for a in all_strides() {
        for b in all_strides() {
            assert!(a != b);
        }
    }
}

#[test]
fn order_is_total_on_all_pairs() {
    let all = all_strides();
    for a in &all {
        assert_eq!(a.compare(a), Ordering::Equal);
        assert!(!a.is_before(a));
        for b in &all {
            let ab = a.compare(b);
            assert_eq!(b.compare(a), ab.reverse());
            assert_eq!(ab == Ordering::Less, a.is_before(b));
            let same = a.value() == b.value() && a.is_overflow() == b.is_overflow();
            assert_eq!(ab == Ordering::Equal, same);
        }
    }
}

#[test]
fn order_is_transitive() {
    let all = all_strides();
    for a in all.iter().step_by(7) {
        for b in all.iter().step_by(5) {
            if a.compare(b) != Ordering::Less {
                continue;
            }
            for c in all.iter().step_by(3) {
                if b.compare(c) == Ordering::Less {
                    assert_eq!(a.compare(c), Ordering::Less);
                }
            }
        }
    }
}

#[test]
fn operators_agree_with_compare() {
    let all = all_strides();
    for a in &all {
        for b in &all {
            let o = a.compare(b);
            assert_eq!(a.partial_cmp(b), Some(o));
            assert_eq!(a.cmp(b), o);
            assert_eq!(a < b, o == Ordering::Less);
            assert_eq!(a > b, o == Ordering::Greater);
            assert_eq!(a <= b, o != Ordering::Greater);
            assert_eq!(a >= b, o != Ordering::Less);
        }
    }
}

#[test]
fn minimum_prefers_the_unwrapped() {
    let ready = vec![wrapped(4), Stride::new(100), Stride::new(252)];
    let first = ready.iter().min().unwrap();
    assert_eq!(first.value(), 100);
    assert!(!first.is_overflow());
}
