use computational_graphs::convolution::{convolution_cpu, judge, test_ground_truth, Verdict};
use computational_graphs::shared::comparison::{
    are_vectors_equivalent, mean_square_error, within_tolerance, EPSILON,
};

#[test]
fn ground_truth_of_five_ones() {
    let signal = vec![1_000_000_000_000i64; 5];
    let filter = vec![250_000_000_000, 500_000_000_000, -250_000_000_000];
    assert_eq!(
        convolution_cpu(&signal, &filter),
        vec![250_000_000_000, 500_000_000_000, 500_000_000_000, 500_000_000_000, 750_000_000_000]
    );
    assert!(test_ground_truth());
}

#[test]
fn ground_truth_in_floating_point() {
    let signal: Vec<f32> = vec![1.0, 1.0, 1.0, 1.0, 1.0];
    let filter: Vec<f32> = vec![0.25, 0.5, -0.25];
    let expected: Vec<f32> = vec![0.25, 0.5, 0.5, 0.5, 0.75];
    let scaled = |v: &Vec<f32>| v.iter().map(|x| (*x as f64 * 1e12).round() as i64).collect::<Vec<i64>>();
    let output = convolution_cpu(&scaled(&signal), &scaled(&filter));
    for (got, want) in output.iter().zip(expected.iter()) {
        assert!(((*got as f64 / 1e12) as f32 - want).abs() <= 0.00001);
    }
}

#[test]
fn convolution_centres_the_filter() {
    let signal = vec![1_000_000_000_000, 2_000_000_000_000, 3_000_000_000_000, 4_000_000_000_000];
    assert_eq!(convolution_cpu(&signal, &vec![1_000_000_000_000]), signal);
    assert_eq!(
        convolution_cpu(&signal, &vec![1_000_000_000_000, 0, 0]),
        vec![0, 1_000_000_000_000, 2_000_000_000_000, 3_000_000_000_000]
    );
    assert_eq!(
        convolution_cpu(&signal, &vec![0, 0, 1_000_000_000_000]),
        vec![2_000_000_000_000, 3_000_000_000_000, 4_000_000_000_000, 0]
    );
    assert_eq!(
        convolution_cpu(&signal, &vec![1_000_000_000_000, 1_000_000_000_000, 1_000_000_000_000, 1_000_000_000_000, 1_000_000_000_000]),
        vec![6_000_000_000_000, 10_000_000_000_000, 10_000_000_000_000, 9_000_000_000_000]
    );
}

#[test]
fn convolution_of_nothing() {
    assert_eq!(convolution_cpu(&Vec::new(), &vec![1_000_000_000_000]), Vec::<i64>::new());
    assert_eq!(convolution_cpu(&vec![1, 2, 3], &Vec::new()), vec![0, 0, 0]);
}

#[test]
fn convolution_with_a_filter_longer_than_the_signal() {
    let signal = vec![1_000_000_000_000, 1_000_000_000_000];
    let filter = vec![1_000_000_000_000; 7];
    assert_eq!(convolution_cpu(&signal, &filter), vec![2_000_000_000_000, 2_000_000_000_000]);
}

#[test]
fn vectors_are_equivalent_within_the_tolerance() {
    assert_eq!(EPSILON, 10_000_000);
    let a = vec![0, 100_000_000, -100_000_000];
    assert!(are_vectors_equivalent(&a, &a));
    assert!(are_vectors_equivalent(&a, &vec![10_000_000, 90_000_000, -110_000_000]));
    assert!(!are_vectors_equivalent(&a, &vec![10_000_001, 100_000_000, -100_000_000]));
    assert!(!are_vectors_equivalent(&a, &vec![0, 100_000_000, -110_000_001]));
    assert!(!are_vectors_equivalent(&a, &vec![0, 100_000_000]));
    assert!(are_vectors_equivalent(&Vec::new(), &Vec::new()));
    assert!(!are_vectors_equivalent(&vec![i64::MAX], &vec![i64::MIN]));
    assert!(within_tolerance(&vec![i64::MAX], &vec![i64::MAX - 5], 5));
    assert!(!within_tolerance(&vec![i64::MAX], &vec![i64::MAX - 5], 4));
    assert!(within_tolerance(&vec![0, 100, -100], &vec![1, 101, -99], 1));
    assert!(!within_tolerance(&vec![0, 100, -100], &vec![1, 101, -99], 0));
}

#[test]
fn mean_square_error_of_known_vectors() {
    // differences 1.0, 2.0, 3.0 -> squares 1, 4, 9 -> mean 14/3
    let a = vec![1_000_000_000_000, 2_000_000_000_000, 3_000_000_000_000];
    let b = vec![0, 0, 0];
    assert_eq!(mean_square_error(&a, &b), Some(4_666_666_666_666));
    assert_eq!(mean_square_error(&b, &a), Some(4_666_666_666_666));
    assert_eq!(mean_square_error(&a, &a), Some(0));
    assert_eq!(mean_square_error(&vec![500_000_000_000], &vec![0]), Some(250_000_000_000));
    assert_eq!(mean_square_error(&a, &vec![0, 0]), None);
    assert_eq!(mean_square_error(&Vec::new(), &Vec::new()), None);
    assert_eq!(mean_square_error(&vec![i64::MAX, 0], &vec![i64::MIN, 0]), Some(i64::MAX / 2));
}

#[test]
fn verdict_reports_divergence_without_failing() {
    let truth = vec![250_000_000_000, 500_000_000_000, 750_000_000_000];
    assert_eq!(judge(&truth, &truth), Verdict { mean_square_error: Some(0), success: true });
    assert_eq!(
        judge(&truth, &vec![250_005_000_000, 500_000_000_000, 750_000_000_000]),
        Verdict { mean_square_error: Some(8), success: true }
    );
    assert_eq!(
        judge(&truth, &vec![1_250_000_000_000, 500_000_000_000, 750_000_000_000]),
        Verdict { mean_square_error: Some(333_333_333_333), success: false }
    );
    assert_eq!(judge(&truth, &vec![250_000_000_000]), Verdict { mean_square_error: None, success: false });
}
