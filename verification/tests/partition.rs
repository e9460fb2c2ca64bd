use heart_risk::{
    process_dataset, randomize_and_split, split_and_randomize, split_dataset, split_quarters,
    split_train_test, test_size, Patient, Ratio,
};

fn ratio(numerator: u64, denominator: u64) -> Ratio {
    Ratio::new(numerator, denominator).unwrap()
}

/// `n` records that differ from one another.
fn records(n: usize) -> Vec<Patient> {
    (0..n)
        .map(|i| Patient { WeightHundredths: i as u32, State_INT: (i % 50) as u8, ..Default::default() })
        .collect()
}

fn sorted(mut records: Vec<Patient>) -> Vec<Patient> {
    records.sort_by_key(|p| (p.WeightHundredths, p.State_INT, p.HadHeartAttack_INT));
    records
}

fn concat(parts: &[&Vec<Patient>]) -> Vec<Patient> {
    let mut all = Vec::new();
    for part in parts {
        all.extend_from_slice(part);
    }
    all
}

#[test]
fn test_test_split_dataset() {
    let dataset = vec![
        Patient { State_INT: 1, Sex_INT: 0, GeneralHealth_INT: 3, PhysicalHealthDays: 2, MentalHealthDays: 1, LastCheckupTime_INT: 0, PhysicalActivities_INT: 4, SleepHours: 7, RemovedTeeth_INT: 0, HadHeartAttack_INT: 1, ..Default::default() },
        Patient { State_INT: 2, Sex_INT: 1, GeneralHealth_INT: 2, PhysicalHealthDays: 0, MentalHealthDays: 3, LastCheckupTime_INT: 1, PhysicalActivities_INT: 3, SleepHours: 8, RemovedTeeth_INT: 1, HadHeartAttack_INT: 0, ..Default::default() },
        Patient { State_INT: 3, Sex_INT: 0, GeneralHealth_INT: 1, PhysicalHealthDays: 1, MentalHealthDays: 2, LastCheckupTime_INT: 2, PhysicalActivities_INT: 5, SleepHours: 6, RemovedTeeth_INT: 0, HadHeartAttack_INT: 1, ..Default::default() },
    ];

    let (train, test) = split_dataset(dataset, ratio(33, 100));

    assert_eq!(train.len(), 2, "Training set should have 2 patients");
    assert_eq!(test.len(), 1, "Test set should have 1 patient");
}

#[test]
fn ratio_lies_strictly_between_zero_and_one() {
    assert_eq!(Ratio::new(1, 5), Some(Ratio { numerator: 1, denominator: 5 }));
    assert_eq!(Ratio::new(33, 100), Some(Ratio { numerator: 33, denominator: 100 }));
    assert_eq!(Ratio::new(u64::MAX - 1, u64::MAX), Some(Ratio { numerator: u64::MAX - 1, denominator: u64::MAX }));
    assert_eq!(Ratio::new(0, 5), None);
    assert_eq!(Ratio::new(5, 5), None);
    assert_eq!(Ratio::new(6, 5), None);
    assert_eq!(Ratio::new(1, 0), None);
    assert_eq!(Ratio::new(0, 0), None);
}

#[test]
fn test_size_rounds_up() {
    assert_eq!(test_size(3, ratio(33, 100)), 1);
    assert_eq!(test_size(10, ratio(1, 5)), 2);
    assert_eq!(test_size(11, ratio(1, 5)), 3);
    assert_eq!(test_size(7, ratio(1, 2)), 4);
    assert_eq!(test_size(100, ratio(33, 100)), 33);
    assert_eq!(test_size(101, ratio(33, 100)), 34);
    assert_eq!(test_size(0, ratio(1, 2)), 0);
    assert_eq!(test_size(1, ratio(1, 1000)), 1);
    assert_eq!(test_size(1000, ratio(999, 1000)), 999);
    assert_eq!(test_size(u64::MAX as usize, ratio(u64::MAX - 1, u64::MAX)), u64::MAX as usize - 1);
    assert_eq!(test_size(u64::MAX as usize, ratio(1, u64::MAX)), 1);
    assert_eq!(test_size(u64::MAX as usize, ratio(1, 2)), 1 << 63);
}

#[test]
fn split_quarters_cuts_three_fiftieths_and_a_rest() {
    let data = records(103);
    let (q1, q2, q3, q4) = split_quarters(data.clone());
    assert_eq!(q1, data[0..2].to_vec());
    assert_eq!(q2, data[2..4].to_vec());
    assert_eq!(q3, data[4..6].to_vec());
    assert_eq!(q4, data[6..].to_vec());
    assert_eq!(q4.len(), 97);
}

#[test]
fn split_quarters_of_few_records_leaves_the_samples_empty() {
    let data = records(49);
    let (q1, q2, q3, q4) = split_quarters(data.clone());
    assert!(q1.is_empty());
    assert!(q2.is_empty());
    assert!(q3.is_empty());
    assert_eq!(q4, data);
    let (q1, q2, q3, q4) = split_quarters(Vec::new());
    assert!(q1.is_empty() && q2.is_empty() && q3.is_empty() && q4.is_empty());
    let (q1, q2, q3, q4) = split_quarters(records(50));
    assert_eq!((q1.len(), q2.len(), q3.len(), q4.len()), (1, 1, 1, 47));
}

#[test]
fn split_train_test_sets_the_tail_aside() {
    let data = records(10);
    let (train, test) = split_train_test(data.clone(), ratio(1, 5));
    assert_eq!(train, data[..8].to_vec());
    assert_eq!(test, data[8..].to_vec());
    let (train, test) = split_train_test(data.clone(), ratio(21, 100));
    assert_eq!(train, data[..7].to_vec());
    assert_eq!(test, data[7..].to_vec());
}

#[test]
fn split_train_test_may_leave_no_training_records() {
    let data = records(1);
    let (train, test) = split_train_test(data.clone(), ratio(1, 2));
    assert!(train.is_empty());
    assert_eq!(test, data);
    let (train, test) = split_train_test(Vec::new(), ratio(1, 2));
    assert!(train.is_empty() && test.is_empty());
}

#[test]
fn split_dataset_conserves_the_records() {
    for n in [0usize, 1, 2, 9, 10, 57] {
        let data = records(n);
        let (train, test) = split_dataset(data.clone(), ratio(1, 5));
        assert_eq!(test.len(), n.div_ceil(5));
        assert_eq!(train.len() + test.len(), n);
        assert_eq!(sorted(concat(&[&train, &test])), sorted(data));
        assert!(train.iter().all(|p| !test.contains(p)));
    }
}

#[test]
fn split_dataset_keeps_records_that_occur_twice() {
    let r = Patient { State_INT: 4, ..Default::default() };
    let (train, test) = split_dataset(vec![r, r], ratio(1, 2));
    assert_eq!(train, vec![r]);
    assert_eq!(test, vec![r]);
}

#[test]
fn split_and_randomize_conserves_the_records() {
    for n in [0usize, 7, 49, 50, 103, 1000] {
        let data = records(n);
        let (q1, q2, q3, q4) = split_and_randomize(data.clone());
        assert_eq!(q1.len(), n / 50);
        assert_eq!(q2.len(), n / 50);
        assert_eq!(q3.len(), n / 50);
        assert_eq!(q4.len(), n - 3 * (n / 50));
        assert_eq!(sorted(concat(&[&q1, &q2, &q3, &q4])), sorted(data));
    }
}

#[test]
fn shuffle_changes_the_order() {
    let data = records(400);
    let (q1, q2, q3, q4) = split_and_randomize(data.clone());
    assert_ne!(concat(&[&q1, &q2, &q3, &q4]), data);
    let (train, test) = split_dataset(data.clone(), ratio(1, 4));
    assert_ne!(concat(&[&train, &test]), data);
}

fn check_splits(
    n: usize,
    splits: (
        (Vec<Patient>, Vec<Patient>),
        (Vec<Patient>, Vec<Patient>),
        (Vec<Patient>, Vec<Patient>),
        (Vec<Patient>, Vec<Patient>),
    ),
    data: Vec<Patient>,
) {
    let sample = n / 50;
    let rest = n - 3 * sample;
    let (s1, s2, s3, s4) = splits;
    for (train, test) in [&s1, &s2, &s3] {
        assert_eq!(test.len(), sample.div_ceil(5));
        assert_eq!(train.len() + test.len(), sample);
    }
    assert_eq!(s4.1.len(), rest.div_ceil(5));
    assert_eq!(s4.0.len() + s4.1.len(), rest);
    let all = concat(&[&s1.0, &s1.1, &s2.0, &s2.1, &s3.0, &s3.1, &s4.0, &s4.1]);
    assert_eq!(sorted(all), sorted(data));
}

#[test]
fn process_dataset_splits_each_quarter() {
    for n in [0usize, 30, 500, 1234] {
        let data = records(n);
        check_splits(n, process_dataset(data.clone(), ratio(1, 5)), data);
    }
}

#[test]
fn randomize_and_split_splits_each_quarter() {
    for n in [0usize, 30, 500, 1234] {
        let data = records(n);
        check_splits(n, randomize_and_split(data.clone(), ratio(1, 5)), data);
    }
    let ((train1, test1), _, _, _) = randomize_and_split(records(1000), ratio(1, 5));
    assert_eq!(train1.len(), 16);
    assert_eq!(test1.len(), 4);
}
