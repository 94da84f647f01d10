use vector_project::Vector;

fn filled(n: i32) -> Vector {
    let mut v = Vector::new(0);
    for i in 0..n {
        v.push(i);
    }
    v
}

#[test]
fn test_vector_operations() {
    let mut vec = Vector::new(0);

    assert_eq!(vec.size(), 0);
    assert_eq!(vec.capacity(), 16);
    assert!(vec.is_empty());

    vec.push(10);
    assert_eq!(vec.at(0), 10);
    assert_eq!(vec.size(), 1);

    vec.push(20);
    vec.insert(1, 15);
    assert_eq!(vec.at(1), 15);

    vec.prepend(5);
    assert_eq!(vec.at(0), 5);

    let popped_value = vec.pop().unwrap();
    assert_eq!(popped_value, 20);

    vec.delete(0);
    assert_eq!(vec.find(15), 1);

    vec.remove(15);
    assert_eq!(vec.find(15), -1);

    assert_eq!(vec.size(), 1);
}

#[test]
fn pushes_keep_order_and_count() {
    let values = [7, -3, 0, 42, 7, i32::MAX, i32::MIN];
    let mut v = Vector::new(0);
    for x in values.iter() {
        v.push(*x);
    }
    assert_eq!(v.size(), values.len());
    for (i, x) in values.iter().enumerate() {
        assert_eq!(v.at(i), *x);
    }
}

#[test]
fn new_rounds_hint_up_to_power_of_two() {
    assert_eq!(Vector::new(0).capacity(), 16);
    assert_eq!(Vector::new(1).capacity(), 1);
    assert_eq!(Vector::new(3).capacity(), 4);
    assert_eq!(Vector::new(16).capacity(), 16);
    assert_eq!(Vector::new(17).capacity(), 32);
    assert_eq!(Vector::new(100).capacity(), 128);
    assert_eq!(Vector::new(128).capacity(), 128);
    assert!(Vector::new(100).is_empty());
}

#[test]
fn push_doubles_only_when_full() {
    let mut v = Vector::new(0);
    for i in 0..16 {
        v.push(i);
        assert_eq!(v.capacity(), 16);
    }
    v.push(16);
    assert_eq!(v.capacity(), 32);
    assert_eq!(v.size(), 17);
}

#[test]
fn insert_doubles_only_when_full() {
    let mut v = Vector::new(2);
    v.push(1);
    v.insert(0, 0);
    assert_eq!(v.capacity(), 2);
    v.insert(1, 9);
    assert_eq!(v.capacity(), 4);
    assert_eq!(v.size(), 3);
    assert_eq!(v.at(0), 0);
    assert_eq!(v.at(1), 9);
    assert_eq!(v.at(2), 1);
}

#[test]
fn scenario_single_push() {
    let mut v = Vector::new(0);
    v.push(10);
    assert_eq!(v.size(), 1);
    assert_eq!(v.capacity(), 16);
    assert_eq!(v.at(0), 10);
}

#[test]
fn scenario_twenty_pushes() {
    let mut v = Vector::new(0);
    for i in 0..20 {
        v.push(i);
        if i < 16 {
            assert_eq!(v.capacity(), 16);
        } else {
            assert_eq!(v.capacity(), 32);
        }
    }
    assert_eq!(v.size(), 20);
    assert_eq!(v.at(16), 16);
}

#[test]
fn scenario_pops_shrink_to_sixteen() {
    let mut v = filled(17);
    assert_eq!(v.capacity(), 32);
    for k in 0..13 {
        assert_eq!(v.pop(), Some(16 - k));
    }
    assert_eq!(v.size(), 4);
    assert_eq!(v.capacity(), 16);
}

#[test]
fn pop_shrinks_at_a_quarter_and_stops_at_sixteen() {
    let mut v = filled(17);
    for _ in 0..8 {
        v.pop();
    }
    assert_eq!(v.size(), 9);
    assert_eq!(v.capacity(), 32);
    v.pop();
    assert_eq!(v.size(), 8);
    assert_eq!(v.capacity(), 16);
    while !v.is_empty() {
        v.pop();
        assert_eq!(v.capacity(), 16);
    }
    assert_eq!(v.pop(), None);
    assert_eq!(v.size(), 0);
    assert_eq!(v.capacity(), 16);
}

#[test]
fn pop_on_small_buffer_keeps_capacity() {
    let mut v = Vector::new(4);
    v.push(1);
    v.push(2);
    assert_eq!(v.pop(), Some(2));
    assert_eq!(v.capacity(), 4);
}

#[test]
fn delete_shifts_left() {
    let mut v = filled(5);
    v.delete(1);
    assert_eq!(v.size(), 4);
    assert_eq!(v.at(0), 0);
    assert_eq!(v.at(1), 2);
    assert_eq!(v.at(2), 3);
    assert_eq!(v.at(3), 4);
    v.delete(3);
    assert_eq!(v.size(), 3);
    assert_eq!(v.at(2), 3);
}

#[test]
fn delete_doubles_capacity_when_sparse() {
    let mut v = filled(17);
    for _ in 0..8 {
        v.delete(0);
    }
    assert_eq!(v.size(), 9);
    assert_eq!(v.capacity(), 32);
    v.delete(0);
    assert_eq!(v.size(), 8);
    assert_eq!(v.capacity(), 64);
    v.delete(0);
    assert_eq!(v.size(), 7);
    assert_eq!(v.capacity(), 128);
    assert_eq!(v.at(0), 10);
    assert_eq!(v.at(6), 16);
}

#[test]
fn find_gives_first_match_or_minus_one() {
    let mut v = Vector::new(0);
    assert_eq!(v.find(3), -1);
    for x in [4, 3, 8, 3, 3].iter() {
        v.push(*x);
    }
    assert_eq!(v.find(3), 1);
    assert_eq!(v.find(4), 0);
    assert_eq!(v.find(8), 2);
    assert_eq!(v.find(5), -1);
}

#[test]
fn remove_drops_every_match_in_order() {
    let mut v = Vector::new(0);
    for x in [3, 1, 3, 3, 2, 3, 4, 3].iter() {
        v.push(*x);
    }
    v.remove(3);
    assert_eq!(v.size(), 3);
    assert_eq!(v.at(0), 1);
    assert_eq!(v.at(1), 2);
    assert_eq!(v.at(2), 4);
    assert_eq!(v.find(3), -1);
    assert_eq!(v.capacity(), 16);
}

#[test]
fn remove_absent_and_on_empty() {
    let mut v = filled(3);
    v.remove(9);
    assert_eq!(v.size(), 3);
    assert_eq!(v.at(2), 2);
    let mut e = Vector::new(0);
    e.remove(1);
    assert!(e.is_empty());
}

#[test]
fn remove_applies_delete_growth() {
    let mut v = filled(17);
    for _ in 0..8 {
        v.delete(16 - 8);
    }
    assert_eq!(v.size(), 9);
    assert_eq!(v.capacity(), 32);
    v.remove(0);
    assert_eq!(v.size(), 8);
    assert_eq!(v.capacity(), 64);
    assert_eq!(v.at(0), 1);
}

#[test]
fn push_then_pop_round_trip() {
    let mut v = filled(16);
    v.push(99);
    assert_eq!(v.pop(), Some(99));
    assert_eq!(v.size(), 16);
    assert_eq!(v.at(15), 15);
}

#[test]
fn prepend_on_non_empty() {
    let mut v = Vector::new(0);
    v.push(2);
    v.prepend(1);
    assert_eq!(v.size(), 2);
    assert_eq!(v.at(0), 1);
    assert_eq!(v.at(1), 2);
}
