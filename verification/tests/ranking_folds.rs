use physics_rl_environment::ranking::{highest, leftmost, nearest, rightmost};

fn bits(xs: &[f32]) -> Vec<u32> {
    xs.iter().map(|x| x.to_bits()).collect()
}

fn order(a: &f32, b: &f32) -> std::cmp::Ordering {
    if a < b {
        std::cmp::Ordering::Less
    } else if a > b {
        std::cmp::Ordering::Greater
    } else {
        std::cmp::Ordering::Equal
    }
}

fn cases() -> Vec<Vec<f32>> {
    vec![
        vec![1.0],
        vec![3.0, 1.0, 2.0],
        vec![1.0, 1.0, 1.0],
        vec![2.0, -1.0, 5.0, -1.0, 5.0],
        vec![-0.0, 0.0, -0.0],
        vec![0.0, -0.0],
        vec![f32::INFINITY, 4.0, f32::NEG_INFINITY, 4.0],
        vec![5.0, 4.0, 3.0, 2.0, 1.0],
        vec![1.0, 2.0, 3.0, 4.0, 5.0],
        vec![f32::NAN, 2.0, 1.0, 3.0],
        vec![2.0, f32::NAN, 1.0, f32::NAN, 3.0],
        vec![2.0, 1.0, 3.0, f32::NAN],
    ]
}

#[test]
fn folds_of_nothing_find_nothing() {
    let empty: Vec<u32> = Vec::new();
    assert_eq!(leftmost(&empty), None);
    assert_eq!(rightmost(&empty), None);
    assert_eq!(highest(&empty), None);
    assert_eq!(nearest(&empty), None);
}

#[test]
fn leftmost_is_the_first_minimum() {
    assert_eq!(leftmost(&bits(&[3.0, 1.0, 2.0, 1.0])), Some(1));
    assert_eq!(leftmost(&bits(&[-2.0, -2.0])), Some(0));
    for case in cases() {
        let expected = case
            .iter()
            .enumerate()
            .min_by(|(_, a), (_, b)| order(a, b))
            .map(|(i, _)| i);
        assert_eq!(leftmost(&bits(&case)), expected, "{:?}", case);
    }
}

#[test]
fn rightmost_is_the_last_maximum() {
    assert_eq!(rightmost(&bits(&[3.0, 1.0, 3.0, 1.0])), Some(2));
    assert_eq!(rightmost(&bits(&[-2.0, -2.0])), Some(1));
    for case in cases() {
        let expected = case
            .iter()
            .enumerate()
            .max_by(|(_, a), (_, b)| order(a, b))
            .map(|(i, _)| i);
        assert_eq!(rightmost(&bits(&case)), expected, "{:?}", case);
    }
}

#[test]
fn highest_is_the_first_maximum() {
    assert_eq!(highest(&bits(&[3.0, 1.0, 3.0, 1.0])), Some(0));
    assert_eq!(highest(&bits(&[0.0, 0.5, 0.25, 0.5])), Some(1));
    for case in cases() {
        let mut expected = 0;
        for i in 1..case.len() {
            if case[expected] < case[i] {
                expected = i;
            }
        }
        assert_eq!(highest(&bits(&case)), Some(expected), "{:?}", case);
    }
}

#[test]
fn nearest_is_the_least_distance() {
    assert_eq!(nearest(&bits(&[3.0, 1.5, 2.0])), Some(1.5f32.to_bits()));
    assert_eq!(nearest(&bits(&[0.0])), Some(0));
    for case in cases() {
        let expected = case.iter().copied().reduce(f32::min).unwrap();
        let got = f32::from_bits(nearest(&bits(&case)).unwrap());
        if expected.is_nan() {
            assert!(got.is_nan());
        } else {
            assert!(got == expected, "{:?}", case);
        }
    }
}

#[test]
fn nearest_is_undefined_exactly_without_goals() {
    let none: Vec<u32> = Vec::new();
    assert!(nearest(&none).is_none());
    assert!(nearest(&bits(&[12.0])).is_some());
    assert!(nearest(&bits(&[12.0, 0.0, 7.0])).is_some());
}
