use miniboosts::sample::Sample;
use miniboosts::sample::SampleError;
use polars::prelude::Column;
use polars::prelude::DataFrame;
use polars::prelude::NamedFrom;
use polars::prelude::Series;

fn two_features(height: usize) -> DataFrame {
    let a: Vec<i64> = (0..height as i64).collect();
    let b: Vec<i64> = (0..height as i64).map(|v| 10 * v).collect();
    DataFrame::new(
        height,
        vec![
            Column::from(Series::new("a".into(), &a[..])),
            Column::from(Series::new("b".into(), &b[..])),
        ],
    )
    .unwrap()
}

#[test]
fn sample_of_a_frame_and_its_labels() {
    let target = Series::new("class".into(), &[1i64, -1, -1, 1][..]);
    let sample = Sample::from_dataframe(two_features(4), &target).ok().unwrap();
    assert_eq!(sample.shape(), (4, 2));
    assert_eq!(sample.target(), &[1i64, -1, -1, 1][..]);
    assert_eq!(sample.data().shape(), (4, 2));
    assert!(sample.is_valid_binary_instance());
}

#[test]
fn labels_that_are_no_integers_are_refused() {
    let target = Series::new("class".into(), &[1.0f64, -1.0, -1.0, 1.0][..]);
    assert_eq!(
        Sample::from_dataframe(two_features(4), &target).err(),
        Some(SampleError::TargetNotInteger)
    );
    let narrow = Series::new("class".into(), &[1i32, -1, -1, 1][..]);
    assert_eq!(
        Sample::from_dataframe(two_features(4), &narrow).err(),
        Some(SampleError::TargetNotInteger)
    );
}

#[test]
fn a_missing_label_is_refused() {
    let target = Series::new("class".into(), &[Some(1i64), None, Some(-1), Some(1)][..]);
    assert_eq!(
        Sample::from_dataframe(two_features(4), &target).err(),
        Some(SampleError::MissingLabel)
    );
}

#[test]
fn labels_of_another_height_are_refused() {
    let target = Series::new("class".into(), &[1i64, -1, -1][..]);
    assert_eq!(
        Sample::from_dataframe(two_features(4), &target).err(),
        Some(SampleError::LengthMismatch)
    );
}

#[test]
fn a_missing_label_is_found_before_a_wrong_height() {
    let target = Series::new("class".into(), &[Some(1i64), None][..]);
    assert_eq!(
        Sample::from_dataframe(two_features(4), &target).err(),
        Some(SampleError::MissingLabel)
    );
}

#[test]
fn sample_of_entries() {
    let entries = vec![Some(1i64), Some(-1), Some(1)];
    let sample = Sample::from_entries(two_features(3), &entries).ok().unwrap();
    assert_eq!(sample.target(), &[1i64, -1, 1][..]);
    assert_eq!(
        Sample::from_entries(two_features(3), &vec![Some(1), None, Some(1)]).err(),
        Some(SampleError::MissingLabel)
    );
    assert_eq!(
        Sample::from_entries(two_features(3), &vec![Some(1)]).err(),
        Some(SampleError::LengthMismatch)
    );
}

#[test]
fn sample_of_labels_has_no_features() {
    let sample = Sample::from_labels(vec![1, -1, 1]);
    assert_eq!(sample.shape(), (3, 0));
    assert_eq!(sample.target(), &[1i64, -1, 1][..]);
    assert_eq!(sample.data().shape(), (3, 0));
}

#[test]
fn an_empty_sample_can_be_made() {
    let sample = Sample::from_labels(Vec::new());
    assert_eq!(sample.shape(), (0, 0));
    assert!(sample.is_valid_binary_instance());
}

#[test]
fn labels_other_than_plus_and_minus_one_are_not_binary() {
    assert!(Sample::from_labels(vec![1, -1, -1]).is_valid_binary_instance());
    assert!(!Sample::from_labels(vec![1, 0, -1]).is_valid_binary_instance());
    assert!(!Sample::from_labels(vec![1, 2]).is_valid_binary_instance());
}
