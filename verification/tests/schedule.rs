use os_core::task::schedule::{dispatch, select};
use os_core::task::stride::Stride;

fn wrapped(value: u8) -> Stride {
    let mut s = Stride::new(value + 1);
    s.step(1);
    s
}

#[test]
fn select_of_nothing_is_none() {
    assert_eq!(select(&[]), None);
}

#[test]
fn select_finds_the_least_counter() {
    let ready = [Stride::new(30), Stride::new(10), Stride::new(20)];
    assert_eq!(select(&ready), Some(1));
    assert_eq!(select(&[Stride::new(9)]), Some(0));
}

#[test]
fn select_takes_the_earliest_of_equals() {
    let ready = [Stride::new(30), Stride::new(10), Stride::new(10), Stride::new(10)];
    assert_eq!(select(&ready), Some(1));
    let ready = [Stride::new(0), Stride::new(0)];
    assert_eq!(select(&ready), Some(0));
}

#[test]
fn select_puts_wrapped_strides_last() {
    let ready = [wrapped(4), Stride::new(100), wrapped(2)];
    assert_eq!(select(&ready), Some(1));
    let ready = [wrapped(4), wrapped(2), wrapped(9)];
    assert_eq!(select(&ready), Some(1));
}

#[test]
fn dispatch_advances_the_chosen_stride_only() {
    let mut ready = vec![Stride::new(30), Stride::new(10), Stride::new(20)];
    let priorities = [5, 16, 255];
    assert_eq!(dispatch(&mut ready, &priorities), Some(1));
    assert_eq!(ready[0].value(), 30);
    assert_eq!(ready[1].value(), 25);
    assert_eq!(ready[2].value(), 20);
    assert_eq!(dispatch(&mut ready, &priorities), Some(2));
    assert_eq!(ready[2].value(), 21);
    assert_eq!(dispatch(&mut ready, &priorities), Some(2));
    assert_eq!(dispatch(&mut ready, &priorities), Some(2));
    assert_eq!(ready[2].value(), 23);
    assert_eq!(ready[0].value(), 30);
    assert_eq!(ready[1].value(), 25);
}

#[test]
fn dispatch_of_nothing_is_none() {
    let mut ready: Vec<Stride> = Vec::new();
    assert_eq!(dispatch(&mut ready, &[]), None);
    assert!(ready.is_empty());
}

#[test]
fn dispatch_records_a_wrap() {
    let mut ready = vec![Stride::new(250), Stride::new(251)];
    let priorities = [25, 25];
    assert_eq!(dispatch(&mut ready, &priorities), Some(0));
    assert_eq!(ready[0].value(), 4);
    assert!(ready[0].is_overflow());
    assert_eq!(dispatch(&mut ready, &priorities), Some(1));
    assert_eq!(ready[1].value(), 5);
    assert!(ready[1].is_overflow());
    assert_eq!(dispatch(&mut ready, &priorities), Some(0));
}

#[test]
fn dispatches_follow_the_priorities() {
    // Passes 1, 2 and 5: over 170 rounds no counter reaches 255.
    let priorities = [255u8, 127, 51];
    let passes = [1i64, 2, 5];
    let mut ready = vec![Stride::new(0), Stride::new(0), Stride::new(0)];
    let mut counts = [0i64; 3];
    for _ in 0..170 {
        let chosen = dispatch(&mut ready, &priorities).unwrap();
        counts[chosen] += 1;
        assert!(ready.iter().all(|s| !s.is_overflow()));
        for a in 0..3 {
            for b in 0..3 {
                assert!(counts[a] * passes[a] <= counts[b] * passes[b] + passes[a]);
            }
        }
    }
    assert_eq!(counts, [100, 50, 20]);
    assert_eq!(ready[0].value(), 100);
    assert_eq!(ready[1].value(), 100);
    assert_eq!(ready[2].value(), 100);
}

#[test]
fn equal_priorities_take_turns() {
    let priorities = [10u8, 10];
    let mut ready = vec![Stride::new(0), Stride::new(0)];
    let mut order = Vec::new();
    for _ in 0..8 {
        order.push(dispatch(&mut ready, &priorities).unwrap());
    }
    assert_eq!(order, vec![0, 1, 0, 1, 0, 1, 0, 1]);
    assert_eq!(ready[0].value(), 100);
    assert_eq!(ready[1].value(), 100);
}
