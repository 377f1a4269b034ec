use rid3::util::{next, prev};

#[test]
fn next_wraps_at_the_end() {
    assert_eq!(next(0, 3), 1);
    assert_eq!(next(1, 3), 2);
    assert_eq!(next(2, 3), 0);
    assert_eq!(next(0, 1), 0);
}

#[test]
fn prev_wraps_at_the_start() {
    assert_eq!(prev(0, 3), 2);
    assert_eq!(prev(2, 3), 1);
    assert_eq!(prev(1, 3), 0);
    assert_eq!(prev(0, 1), 0);
}

#[test]
fn next_applied_once_per_item_returns_to_start() {
    for len in 1..6usize {
        for start in 0..len {
            let mut i = start;
            for _ in 0..len {
                i = next(i, len);
            }
            assert_eq!(i, start);
            let mut j = start;
            for _ in 0..len {
                j = prev(j, len);
            }
            assert_eq!(j, start);
        }
    }
}
