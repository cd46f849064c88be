use nanorand::WyRand;
use signvec::{Sign, SignVec, SignVecDrain, SignVecValues, Signable};

fn sorted(s: &fastset::Set) -> Vec<usize> {
    let mut v: Vec<usize> = s.iter().copied().collect();
    v.sort();
    v
}

fn drained<T: Signable + Clone>(mut d: SignVecDrain<'_, T>) -> Vec<T> {
    let mut out = Vec::new();
    while let Some(x) = d.next() {
        out.push(x);
    }
    out
}

fn listed<'a, T: Signable + Clone>(mut v: SignVecValues<'a, T>) -> Vec<&'a T> {
    let mut out = Vec::new();
    while let Some(x) = v.next() {
        out.push(x);
    }
    out
}

/// The indices hold exactly the positions of each class, and nothing else.
fn assert_consistent(v: &SignVec<i32>) {
    let plus: Vec<usize> = (0..v.len()).filter(|&i| v.vals[i] >= 0).collect();
    let minus: Vec<usize> = (0..v.len()).filter(|&i| v.vals[i] < 0).collect();
    assert_eq!(sorted(v.indices(Sign::Plus)), plus);
    assert_eq!(sorted(v.indices(Sign::Minus)), minus);
    assert_eq!(v.count(Sign::Plus) + v.count(Sign::Minus), v.len());
}

#[test]
fn scenario_build() {
    let v = SignVec::from(&[1, -2, 3, -4]);
    assert_eq!(v.count(Sign::Plus), 2);
    assert_eq!(v.count(Sign::Minus), 2);
    assert_eq!(sorted(v.indices(Sign::Plus)), vec![0, 2]);
    assert_eq!(sorted(v.indices(Sign::Minus)), vec![1, 3]);
    assert_eq!(listed(v.values(Sign::Plus)), vec![&1, &3]);
}

#[test]
fn scenario_replace() {
    let mut v = SignVec::from(&[1, -2, 3, -4]);
    v.set(1, 5);
    assert_eq!(v.as_slice(), &[1, 5, 3, -4]);
    assert_eq!(v.count(Sign::Plus), 3);
    assert_eq!(v.count(Sign::Minus), 1);
    assert_consistent(&v);
}

#[test]
fn scenario_remove() {
    let mut v = SignVec::from(&[5, -10, 15]);
    assert_eq!(v.remove(1), -10);
    assert_eq!(v.as_slice(), &[5, 15]);
    assert_eq!(v.count(Sign::Minus), 0);
    assert_consistent(&v);
}

#[test]
fn scenario_swap_remove() {
    let mut v = SignVec::from(&[1, -2, 3]);
    assert_eq!(v.swap_remove(1), -2);
    assert_eq!(v.as_slice(), &[1, 3]);
    assert!(v.indices(Sign::Plus).contains(&1));
    assert!(!v.indices(Sign::Minus).contains(&1));
    assert_consistent(&v);
}

#[test]
fn scenario_drain() {
    let mut v = SignVec::from(&[5, -10, 15, 20]);
    assert_eq!(drained(v.drain(1..3)), vec![-10, 15]);
    assert_eq!(v.as_slice(), &[5, 20]);
    assert_consistent(&v);
}

#[test]
fn scenario_split_off() {
    let mut v = SignVec::from(&[5, -10, 15, -20]);
    let tail = v.split_off(2);
    assert_eq!(v.as_slice(), &[5, -10]);
    assert_eq!(tail.as_slice(), &[15, -20]);
    assert_consistent(&v);
    assert_consistent(&tail);
}

#[test]
fn invariant_after_each_mutation() {
    let mut v: SignVec<i32> = SignVec::new();
    assert_consistent(&v);
    v.push(3);
    assert_consistent(&v);
    v.append(&[-1, -2, 4]);
    assert_consistent(&v);
    v.insert(0, -7);
    assert_consistent(&v);
    v.insert(5, 9);
    assert_consistent(&v);
    v.remove(2);
    assert_consistent(&v);
    v.set(0, 8);
    assert_consistent(&v);
    v.swap_remove(0);
    assert_consistent(&v);
    v.resize(7, -1);
    assert_consistent(&v);
    v.resize_with(9, || 2);
    assert_consistent(&v);
    v.extend_from_within(1..4);
    assert_consistent(&v);
    v.dedup();
    assert_consistent(&v);
    v.retain(|&x| x != 4);
    assert_consistent(&v);
    v.truncate(4);
    assert_consistent(&v);
    let _ = v.pop();
    assert_consistent(&v);
    let _ = drained(v.drain(0..1));
    assert_consistent(&v);
    v.clear();
    assert_consistent(&v);
}

#[test]
fn remove_between_same_class_neighbours() {
    let mut v = SignVec::from(&[1, 2, 3]);
    assert_eq!(v.remove(1), 2);
    assert_eq!(sorted(v.indices(Sign::Plus)), vec![0, 1]);
    assert_consistent(&v);
}

#[test]
fn insert_at_front_moves_every_position() {
    let mut v = SignVec::from(&[-1, 2, -3]);
    v.insert(0, 5);
    assert_eq!(v.as_slice(), &[5, -1, 2, -3]);
    assert_eq!(sorted(v.indices(Sign::Plus)), vec![0, 2]);
    assert_eq!(sorted(v.indices(Sign::Minus)), vec![1, 3]);
}

#[test]
fn dedup_keeps_indices_right() {
    let mut v = SignVec::from(&[-1, -1, 2, 2, -3, 4, 4]);
    v.dedup();
    assert_eq!(v.as_slice(), &[-1, 2, -3, 4]);
    assert_consistent(&v);
}

#[test]
fn dedup_by_removes_later_matches() {
    let mut v = SignVec::from(&[3i32, -3, 5, 3, -5, -3]);
    v.dedup_by(|a, b| a.abs() == b.abs());
    assert_eq!(v.as_slice(), &[3, 5]);
    assert_consistent(&v);
}

#[test]
fn dedup_by_key_compares_neighbours() {
    let mut v = SignVec::from(&[1i32, -1, 2, 1, -2, -2]);
    v.dedup_by_key(|x| x.abs());
    assert_eq!(v.as_slice(), &[1, 2, 1, -2]);
    assert_consistent(&v);
}

#[test]
fn sync_twice_gives_same_indices() {
    let mut v = SignVec::from(&[1, -1, 2]);
    v.vals[0] = -3;
    v.vals[2] = -4;
    v.sync();
    let plus_once = sorted(v.indices(Sign::Plus));
    let minus_once = sorted(v.indices(Sign::Minus));
    v.sync();
    assert_eq!(sorted(v.indices(Sign::Plus)), plus_once);
    assert_eq!(sorted(v.indices(Sign::Minus)), minus_once);
    assert_eq!(minus_once, vec![0, 1, 2]);
    assert_consistent(&v);
}

#[test]
fn parts_round_trip() {
    let v = SignVec::from(&[4, -1, 0, -9]);
    let plus = sorted(v.indices(Sign::Plus));
    let minus = sorted(v.indices(Sign::Minus));
    let (vals, _pos, _neg) = v.into_parts();
    let back = SignVec::from_vec(vals);
    assert_eq!(back.as_slice(), &[4, -1, 0, -9]);
    assert_eq!(sorted(back.indices(Sign::Plus)), plus);
    assert_eq!(sorted(back.indices(Sign::Minus)), minus);
}

#[test]
fn sync_replaces_stale_indices() {
    let mut v = SignVec::from(&[-1, 2]);
    v.pos = fastset::Set::from(vec![0, 7]);
    v.neg = fastset::Set::from(vec![1]);
    v.sync();
    assert_eq!(sorted(v.indices(Sign::Plus)), vec![1]);
    assert_eq!(sorted(v.indices(Sign::Minus)), vec![0]);
}

#[test]
fn values_scenario_in_order() {
    let v = SignVec::from(&[1, -2, 3, -4]);
    assert_eq!(listed(v.values(Sign::Plus)), vec![&1, &3]);
    assert_eq!(listed(v.values(Sign::Minus)), vec![&-2, &-4]);
}

#[test]
fn drain_leaves_consistent_vector() {
    let mut v = SignVec::from(&[5, -10, 15, 20]);
    {
        let mut d = v.drain(1..3);
        assert_eq!(d.next(), Some(-10));
        assert_eq!(d.next(), Some(15));
        assert_eq!(d.next(), None);
    }
    assert_eq!(v.as_slice(), &[5, 20]);
    assert_eq!(sorted(&v.pos), vec![0, 1]);
    assert!(v.neg.is_empty());
}

#[test]
fn retain_mut_keeps_what_f_stored() {
    let mut v = SignVec::from(&[1, -2, 3, -4]);
    v.retain_mut(|x| {
        *x = -*x;
        *x != -3
    });
    assert_eq!(v.as_slice(), &[-1, 2, 4]);
    assert_consistent(&v);
}

#[test]
fn counts_add_up_to_length() {
    let mut v = SignVec::from(&[0, -1, 5, -5, 7]);
    assert_eq!(v.count(Sign::Plus) + v.count(Sign::Minus), v.len());
    v.remove(0);
    assert_eq!(v.count(Sign::Plus), 2);
    assert_eq!(v.count(Sign::Minus), 2);
    assert_eq!(v.count(Sign::Plus) + v.count(Sign::Minus), v.len());
}

#[test]
fn random_member_has_the_class() {
    let v = SignVec::from(&[1, -1, 2, -2, 3]);
    let mut rng = WyRand::new_seed(7);
    for _ in 0..50 {
        let i = v.random(Sign::Minus, &mut rng).unwrap();
        assert!(v.vals[i] < 0);
        let j = v.random_pos(&mut rng).unwrap();
        assert!(v.vals[j] >= 0);
        let k = v.random_neg(&mut rng).unwrap();
        assert!(v.vals[k] < 0);
    }
    let only_plus = SignVec::from(&[1, 2]);
    assert_eq!(only_plus.random(Sign::Minus, &mut rng), None);
    assert_eq!(only_plus.random_neg(&mut rng), None);
    assert!(only_plus.random_pos(&mut rng).is_some());
}

#[test]
fn flip_swaps_classes() {
    assert_eq!(Sign::Plus.flip(), Sign::Minus);
    assert_eq!(Sign::Minus.flip(), Sign::Plus);
}

#[test]
fn integers_classify_by_sign() {
    assert_eq!(0i8.sign(), Sign::Plus);
    assert_eq!((-1i16).sign(), Sign::Minus);
    assert_eq!(i64::MAX.sign(), Sign::Plus);
    assert_eq!(i128::MIN.sign(), Sign::Minus);
    assert_eq!((-7isize).sign(), Sign::Minus);
    assert_eq!(Sign::from(-3i32), Sign::Minus);
    assert_eq!(Sign::from(0i64), Sign::Plus);
    assert_eq!(Sign::from(12u8 as i16), Sign::Plus);
}

#[test]
fn values_follow_index_order() {
    let mut v = SignVec::from(&[-1, 2, -3, 4]);
    v.set(0, 6);
    let got: Vec<i32> = listed(v.values(Sign::Plus)).into_iter().copied().collect();
    let mut sorted_got = got.clone();
    sorted_got.sort();
    assert_eq!(sorted_got, vec![2, 4, 6]);
    assert_eq!(listed(v.values(Sign::Minus)), vec![&-3]);
}

#[test]
fn resize_shrinks_and_grows() {
    let mut v = SignVec::from(&[1, -2, 3, -4]);
    v.resize(2, 9);
    assert_eq!(v.as_slice(), &[1, -2]);
    assert_consistent(&v);
    v.resize(4, -9);
    assert_eq!(v.as_slice(), &[1, -2, -9, -9]);
    assert_eq!(v.count(Sign::Minus), 3);
}

#[test]
fn storage_operations_keep_elements() {
    let mut v = SignVec::from(&[1, -2, 3]);
    v.reserve(100);
    assert!(v.capacity() >= 103);
    v.shrink_to(4);
    assert!(v.capacity() >= 4);
    v.shrink_to_fit();
    assert_eq!(v.capacity(), 3);
    v.reserve_exact(7);
    assert!(v.capacity() >= 10);
    assert_eq!(v.as_slice(), &[1, -2, 3]);
    assert_consistent(&v);
}
