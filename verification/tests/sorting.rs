use toylang::sorting::bubble_sort;
use toylang::sorting::builtin_sort;
use toylang::sorting::check_results;
use toylang::sorting::copy_vec;
use toylang::sorting::counting_sort;
use toylang::sorting::radix_sort;

fn sample() -> Vec<i16> {
    vec![170, 45, 75, 90, 802, 24, 2, 66, 170, 0]
}

fn sorted_sample() -> Vec<i16> {
    vec![0, 2, 24, 45, 66, 75, 90, 170, 170, 802]
}

#[test]
fn bubble_sort_sorts() {
    let mut data = sample();
    bubble_sort(&mut data);
    assert_eq!(data, sorted_sample());
}

#[test]
fn bubble_sort_handles_empty_and_single() {
    let mut data: Vec<i16> = vec![];
    bubble_sort(&mut data);
    assert!(data.is_empty());
    let mut one = vec![7];
    bubble_sort(&mut one);
    assert_eq!(one, vec![7]);
}

#[test]
fn bubble_sort_handles_negative_values() {
    let mut data = vec![3, -1, -5, 2, 0];
    bubble_sort(&mut data);
    assert_eq!(data, vec![-5, -1, 0, 2, 3]);
}

#[test]
fn radix_sort_sorts_non_negative_data() {
    let mut data = sample();
    radix_sort(&mut data);
    assert_eq!(data, sorted_sample());
}

#[test]
fn radix_sort_handles_empty() {
    let mut data: Vec<i16> = vec![];
    radix_sort(&mut data);
    assert!(data.is_empty());
}

#[test]
fn counting_sort_orders_by_selected_digit() {
    let mut data = vec![23, 11, 32, 101, 5];
    counting_sort(&mut data, 1);
    // ones digits ascending, stable among equal digits
    assert_eq!(data, vec![11, 101, 32, 23, 5]);
    let mut tens = vec![23, 11, 32, 101, 5];
    counting_sort(&mut tens, 10);
    assert_eq!(tens, vec![101, 5, 11, 23, 32]);
}

#[test]
fn builtin_sort_sorts() {
    let mut data = vec![5, -3, 9, 0, 5, -3];
    builtin_sort(&mut data);
    assert_eq!(data, vec![-3, -3, 0, 5, 5, 9]);
}

#[test]
fn copy_vec_copies() {
    let data = sample();
    let copied = copy_vec(&data);
    assert_eq!(copied, data);
}

#[test]
fn check_results_compares_exactly() {
    let a = vec![1, 2, 3];
    let b = vec![1, 2, 3];
    let c = vec![1, 2, 4];
    let short = vec![1, 2];
    assert!(check_results(&a, &b));
    assert!(!check_results(&a, &c));
    assert!(!check_results(&a, &short));
    let empty: Vec<i16> = vec![];
    assert!(check_results(&empty, &vec![]));
}

#[test]
fn sorts_agree_on_the_same_input() {
    let data = sample();
    let mut by_bubble = copy_vec(&data);
    bubble_sort(&mut by_bubble);
    let mut by_radix = copy_vec(&data);
    radix_sort(&mut by_radix);
    let mut by_builtin = copy_vec(&data);
    builtin_sort(&mut by_builtin);
    assert!(check_results(&by_bubble, &by_builtin));
    assert!(check_results(&by_radix, &by_builtin));
}
