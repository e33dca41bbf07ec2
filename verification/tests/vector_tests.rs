use hash::vector::MyVector;

#[test]
fn new_is_empty_with_no_capacity() {
    let v: MyVector<i32> = MyVector::new();
    assert_eq!(v.len(), 0);
    assert_eq!(v.capacity(), 0);
    assert!(v.is_empty());
    assert!(v.is_full());
}

#[test]
fn with_capacity_sets_capacity() {
    let v: MyVector<i32> = MyVector::with_capacity(7);
    assert_eq!(v.len(), 0);
    assert_eq!(v.capacity(), 7);
    assert!(v.is_empty());
    assert!(!v.is_full());
}

#[test]
fn push_doubles_capacity_when_full() {
    let mut v = MyVector::new();
    let mut expected_caps = Vec::new();
    for i in 0..9 {
        v.push(i);
        expected_caps.push(v.capacity());
    }
    // 0 -> 1, then doubling: 1, 2, 4, 4, 8, 8, 8, 8, 16.
    assert_eq!(expected_caps, vec![1, 2, 4, 4, 8, 8, 8, 8, 16]);
    assert_eq!(v.len(), 9);
    for i in 0..9 {
        assert_eq!(*v.get(i), i);
    }
}

#[test]
fn pop_returns_items_in_reverse() {
    let mut v = MyVector::new();
    v.push(1);
    v.push(2);
    v.push(3);
    assert_eq!(v.pop(), Some(3));
    assert_eq!(v.pop(), Some(2));
    assert_eq!(v.pop(), Some(1));
    assert_eq!(v.pop(), None);
    assert!(v.is_empty());
}

#[test]
fn insert_shifts_right() {
    let mut v = MyVector::new();
    v.push(10);
    v.push(30);
    v.insert(1, 20);
    assert_eq!(v.len(), 3);
    assert_eq!(*v.get(0), 10);
    assert_eq!(*v.get(1), 20);
    assert_eq!(*v.get(2), 30);
    v.insert(0, 5);
    assert_eq!(*v.get(0), 5);
    v.insert(4, 40);
    assert_eq!(*v.get(4), 40);
}

#[test]
fn remove_shifts_left() {
    let mut v = MyVector::new();
    for i in 0..5 {
        v.push(i * 10);
    }
    assert_eq!(v.remove(1), 10);
    assert_eq!(v.len(), 4);
    assert_eq!(*v.get(0), 0);
    assert_eq!(*v.get(1), 20);
    assert_eq!(*v.get(2), 30);
    assert_eq!(*v.get(3), 40);
    let cap_before = v.capacity();
    assert_eq!(v.remove(3), 40);
    assert_eq!(v.capacity(), cap_before);
}

#[test]
fn extend_appends_in_order() {
    let mut v = MyVector::new();
    v.push(1);
    v.push(2);
    v.extend(vec![3, 4, 5]);
    assert_eq!(v.len(), 5);
    for i in 0..5 {
        assert_eq!(*v.get(i), (i + 1) as i32);
    }
}

#[test]
fn reserve_rounds_up_to_power_of_two() {
    let mut v: MyVector<u8> = MyVector::with_capacity(2);
    v.reserve(10);
    assert_eq!(v.capacity(), 16);
    v.reserve(10);
    assert_eq!(v.capacity(), 16);
    v.reserve(16);
    assert_eq!(v.capacity(), 16);
    v.reserve(17);
    assert_eq!(v.capacity(), 32);
}

#[test]
fn shrink_to_fit_uses_power_of_two_floor() {
    let mut v = MyVector::with_capacity(64);
    for i in 0..5 {
        v.push(i);
    }
    v.shrink_to_fit();
    assert_eq!(v.capacity(), 8);
    assert_eq!(v.len(), 5);
    for i in 0..5 {
        assert_eq!(*v.get(i), i);
    }
    // Shrinking never grows: with five items and capacity eight it is a no-op.
    v.shrink_to_fit();
    assert_eq!(v.capacity(), 8);
    v.clear();
    v.shrink_to_fit();
    assert_eq!(v.capacity(), 0);
}

#[test]
fn clear_keeps_capacity() {
    let mut v = MyVector::with_capacity(4);
    v.push(1);
    v.push(2);
    v.clear();
    assert_eq!(v.len(), 0);
    assert_eq!(v.capacity(), 4);
    assert!(v.is_empty());
}

#[test]
fn into_iter_walks_both_ends() {
    let mut v = MyVector::new();
    for i in 1..=4 {
        v.push(i);
    }
    let mut it = v.into_iter();
    assert_eq!(it.len(), 4);
    assert_eq!(it.next(), Some(1));
    assert_eq!(it.next_back(), Some(4));
    assert_eq!(it.len(), 2);
    assert_eq!(it.next(), Some(2));
    assert_eq!(it.next(), Some(3));
    assert_eq!(it.next(), None);
    assert_eq!(it.next_back(), None);
    assert_eq!(it.len(), 0);
}

#[test]
fn full_scenario() {
    let mut v = MyVector::with_capacity(2);
    v.reserve(10);
    assert_eq!(v.capacity(), 16);
    v.push(1);
    v.push(2);
    v.push(3);
    v.insert(1, 100);
    assert_eq!(v.remove(1), 100);
    v.extend(vec![4, 5]);
    v.shrink_to_fit();
    assert_eq!(v.capacity(), 8);
    let mut popped = Vec::new();
    while let Some(x) = v.pop() {
        popped.push(x);
    }
    assert_eq!(popped, vec![5, 4, 3, 2, 1]);
    v.push(100);
    v.clear();
    assert_eq!(v.len(), 0);
    assert!(v.is_empty());
}
