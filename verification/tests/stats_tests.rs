use stats_words::stats::{
    analyze, count_occurrences, median_of_sorted, mode_of_sorted, sort_ints, sum_of, StatsError,
};

#[test]
fn five_element_summary() {
    let mut v = vec![1, 2, 3, 4, 2];
    let st = analyze(&mut v).unwrap();
    assert_eq!(v, vec![1, 2, 2, 3, 4]);
    assert_eq!(st.sum, 12);
    assert_eq!(st.median, 2);
    assert_eq!(st.mode, 2);
    let len = v.len() as f64;
    let mut mean = 0.0f64;
    for x in &v {
        mean += *x as f64 / len;
    }
    assert!((mean - 2.4).abs() < 1e-12);
}

#[test]
fn per_element_mean_matches_total_mean() {
    let inputs = [
        vec![1, 2, 3, 4, 2],
        vec![10],
        vec![-5, 7, 19, 3, 3, 100],
        vec![i32::MAX, i32::MIN, 4, -17],
        vec![0, 0, 0, 1],
    ];
    for v in inputs {
        let len = v.len() as f64;
        let mut per_element = 0.0f64;
        for x in &v {
            per_element += *x as f64 / len;
        }
        let mut total = 0.0f64;
        for x in &v {
            total += *x as f64;
        }
        let conventional = total / len;
        let scale = if conventional.abs() > 1.0 { conventional.abs() } else { 1.0 };
        assert!((per_element - conventional).abs() <= 1e-9 * scale);
    }
}

#[test]
fn median_odd_length() {
    let mut v = vec![3, 1, 2];
    let st = analyze(&mut v).unwrap();
    assert_eq!(v, vec![1, 2, 3]);
    assert_eq!(st.median, v[v.len() / 2]);
    assert_eq!(st.median, 2);
}

#[test]
fn median_even_length_is_upper_middle() {
    let mut v = vec![9, 1, 5, 3];
    let st = analyze(&mut v).unwrap();
    assert_eq!(v, vec![1, 3, 5, 9]);
    assert_eq!(st.median, v[v.len() / 2]);
    assert_eq!(st.median, 5);
}

#[test]
fn empty_sequence_is_rejected() {
    let mut v: Vec<i32> = Vec::new();
    assert_eq!(analyze(&mut v), Err(StatsError::EmptyInput));
    assert!(v.is_empty());
}

#[test]
fn mode_tie_goes_to_smallest_value() {
    let mut v = vec![2, 1, 2, 1, 3];
    let st = analyze(&mut v).unwrap();
    assert_eq!(st.mode, 1);
}

#[test]
fn mode_of_all_equal_elements() {
    let mut v = vec![7, 7, 7];
    let st = analyze(&mut v).unwrap();
    assert_eq!(st.mode, 7);
    assert_eq!(st.median, 7);
    assert_eq!(st.sum, 21);
}

#[test]
fn single_element_summary() {
    let mut v = vec![42];
    let st = analyze(&mut v).unwrap();
    assert_eq!(st.sum, 42);
    assert_eq!(st.median, 42);
    assert_eq!(st.mode, 42);
}

#[test]
fn sort_and_helper_functions() {
    let mut v = vec![4, -2, 7, -2];
    sort_ints(&mut v);
    assert_eq!(v, vec![-2, -2, 4, 7]);
    assert_eq!(count_occurrences(&v, -2), 2);
    assert_eq!(count_occurrences(&v, 5), 0);
    assert_eq!(median_of_sorted(&v), 4);
    assert_eq!(mode_of_sorted(&v), -2);
    assert_eq!(sum_of(&v), 7);
}

#[test]
fn sum_handles_extreme_values() {
    let v = vec![i32::MAX, i32::MAX, 1];
    assert_eq!(sum_of(&v), 2 * (i32::MAX as i64) + 1);
    let w = vec![i32::MIN, i32::MIN];
    assert_eq!(sum_of(&w), 2 * (i32::MIN as i64));
}
