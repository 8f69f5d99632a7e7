use quant_platform::window::RollingState;

#[test]
fn window_keeps_most_recent() {
    let mut w = RollingState::new(3);
    for x in 1..=5 {
        w.push(x);
    }
    assert_eq!(w.len(), 3);
    assert_eq!(w.last(), Some(5));
    assert_eq!(w.prices().iter().copied().collect::<Vec<i32>>(), vec![3, 4, 5]);
}

#[test]
fn window_not_yet_full() {
    let mut w = RollingState::new(200);
    w.push(1.5f64);
    w.push(2.5f64);
    assert_eq!(w.len(), 2);
    assert_eq!(w.last(), Some(2.5));
}

#[test]
fn empty_window_has_no_last() {
    let w: RollingState<u64> = RollingState::new(4);
    assert_eq!(w.len(), 0);
    assert_eq!(w.last(), None);
}

#[test]
fn zero_length_window_keeps_newest() {
    let mut w = RollingState::new(0);
    w.push(1u8);
    w.push(2u8);
    assert_eq!(w.len(), 1);
    assert_eq!(w.last(), Some(2));
}

#[test]
fn window_of_fifty_like_strategy_prices() {
    let mut w = RollingState::new(50);
    for i in 0..120u32 {
        w.push(i);
        assert!(w.len() <= 50);
        assert_eq!(w.last(), Some(i));
    }
    assert_eq!(w.prices().front().copied(), Some(70));
}
