//! Splitting a collection of records at random.
//!
//! Two splits are offered. Quartering shuffles the records and cuts them into
//! three samples of one fiftieth each and a rest. The train/test split shuffles
//! them and sets the last part aside for testing. The shuffle is `rand`'s and
//! differs from call to call; what is cut from a given order is fixed, and
//! stated exactly by [`split_quarters`] and [`split_train_test`].

use crate::patient::Patient;
use rand::rngs::ThreadRng;
use rand::seq::SliceRandom;
use vstd::prelude::*;
use vstd::seq_lib::{lemma_multiset_commutative, to_multiset_len};

verus! {

/// `rand::rngs::ThreadRng`, as a type whose inside Verus does not see.
#[verifier::external_type_specification]
#[verifier::external_body]
pub struct ExThreadRng(ThreadRng);

/// `rand::thread_rng`: the random number generator of the current thread.
/// Nothing is promised of the numbers that it will give. It panics where the
/// operating system has no random numbers to seed it with, which no argument
/// decides.
pub assume_specification[ rand::thread_rng ]() -> (rng: ThreadRng);

/// `SliceRandom::shuffle`: reorders the records in place by swapping pairs of
/// them, so that the same records are there afterwards, each as often as
/// before. Which order comes out is left open.
#[verifier::external_body]
fn shuffle(records: &mut Vec<Patient>, rng: &mut ThreadRng)
    ensures
        final(records)@.to_multiset() == old(records)@.to_multiset(),
{
    records.shuffle(rng);
}

/// The part of a collection that is set aside for testing, as a fraction
/// `numerator / denominator`.
#[derive(Clone, Copy, Debug, PartialEq, Eq)]
pub struct Ratio {
    pub numerator: u64,
    pub denominator: u64,
}

impl Ratio {
    /// Whether the fraction lies strictly between zero and one.
    pub open spec fn valid(self) -> bool {
        0 < self.numerator < self.denominator
    }

    /// The fraction `numerator / denominator`, where it lies strictly between
    /// zero and one; `None` for any other pair.
    pub fn new(numerator: u64, denominator: u64) -> (ratio: Option<Ratio>)
        ensures
            ratio == if 0 < numerator < denominator {
                Some(Ratio { numerator, denominator })
            } else {
                None
            },
    {
        if 0 < numerator && numerator < denominator {
            Some(Ratio { numerator, denominator })
        } else {
            None
        }
    }
}

/// The size of each of the three samples that quartering cuts from `len`
/// records: one fiftieth, rounded down.
pub open spec fn sample_len(len: nat) -> int {
    len as int / 50
}

/// The number of test records among `len` records: `len * ratio`, rounded up.
pub open spec fn test_len(len: nat, ratio: Ratio) -> int {
    (len * ratio.numerator + ratio.denominator - 1) / (ratio.denominator as int)
}

/// Whether `a` holds the same records as `b`, each as often: whether one is a
/// reordering of the other.
pub open spec fn same_records(a: Seq<Patient>, b: Seq<Patient>) -> bool {
    a.to_multiset() == b.to_multiset()
}

/// `test_len` is the rounded-up product: the least number that, taken
/// `denominator` times, reaches `len * numerator`. It is never more than `len`.
pub proof fn lemma_test_len(len: nat, ratio: Ratio)
    requires
        ratio.valid(),
    ensures
        test_len(len, ratio) * ratio.denominator >= len * ratio.numerator,
        test_len(len, ratio) > 0 ==> (test_len(len, ratio) - 1) * ratio.denominator < len
            * ratio.numerator,
        0 <= test_len(len, ratio) <= len,
{
    let d = ratio.denominator as int;
    let x = len * ratio.numerator + d - 1;
    let t = x / d;
    assert(0 <= x - t * d < d && t >= 0) by (nonlinear_arith)
        requires
            t == x / d,
            d > 0,
            x >= 0,
    ;
    assert(len * ratio.numerator <= len * (d - 1)) by (nonlinear_arith)
        requires
            ratio.numerator <= d - 1,
            len >= 0,
    ;
    assert(t <= len) by (nonlinear_arith)
        requires
            t * d <= x,
            x <= len * (d - 1) + d - 1,
            d > 0,
            len >= 0,
    ;
    assert((t - 1) * d == t * d - d) by (nonlinear_arith);
}

/// The number of test records among `len` records: `len * ratio`, rounded up.
pub fn test_size(len: usize, ratio: Ratio) -> (size: usize)
    requires
        ratio.valid(),
    ensures
        size == test_len(len as nat, ratio),
        size <= len,
{
    proof {
        lemma_test_len(len as nat, ratio);
        assert(len * ratio.numerator <= 0xffff_ffff_ffff_ffff * 0xffff_ffff_ffff_ffff)
            by (nonlinear_arith)
            requires
                0 <= len <= 0xffff_ffff_ffff_ffff,
                0 <= ratio.numerator <= 0xffff_ffff_ffff_ffff,
        ;
    }
    let scaled: u128 = len as u128 * ratio.numerator as u128;
    let size: u128 = (scaled + (ratio.denominator as u128 - 1)) / ratio.denominator as u128;
    size as usize
}

/// Cuts records that are already in their final order into four parts: three
/// samples of one fiftieth each, from the front, and the rest. Fewer than fifty
/// records leave the three samples empty.
pub fn split_quarters(shuffled: Vec<Patient>) -> (parts: (
    Vec<Patient>,
    Vec<Patient>,
    Vec<Patient>,
    Vec<Patient>,
))
    ensures
        parts.0@ == shuffled@.subrange(0, sample_len(shuffled@.len())),
        parts.1@ == shuffled@.subrange(
            sample_len(shuffled@.len()),
            2 * sample_len(shuffled@.len()),
        ),
        parts.2@ == shuffled@.subrange(
            2 * sample_len(shuffled@.len()),
            3 * sample_len(shuffled@.len()),
        ),
        parts.3@ == shuffled@.subrange(3 * sample_len(shuffled@.len()), shuffled@.len() as int),
        parts.0@ + parts.1@ + parts.2@ + parts.3@ == shuffled@,
{
    let mut first = shuffled;
    let sample: usize = first.len() / 50;
    let fourth = first.split_off(3 * sample);
    let third = first.split_off(2 * sample);
    let second = first.split_off(sample);
    (first, second, third, fourth)
}

/// Cuts records that are already in their final order into a training part and
/// a test part: the last `len * test_ratio` records, rounded up, are the test
/// part, and those before them the training part, which may be empty.
pub fn split_train_test(shuffled: Vec<Patient>, test_ratio: Ratio) -> (parts: (
    Vec<Patient>,
    Vec<Patient>,
))
    requires
        test_ratio.valid(),
    ensures
        parts.0@ == shuffled@.subrange(
            0,
            shuffled@.len() - test_len(shuffled@.len(), test_ratio),
        ),
        parts.1@ == shuffled@.subrange(
            shuffled@.len() - test_len(shuffled@.len(), test_ratio),
            shuffled@.len() as int,
        ),
        parts.0@ + parts.1@ == shuffled@,
{
    let mut train = shuffled;
    let held_out = test_size(train.len(), test_ratio);
    let test = train.split_off(train.len() - held_out);
    (train, test)
}

/// Shuffles the records and cuts them into three samples of one fiftieth each
/// and a rest that takes all the others.
///
/// Whatever the shuffle gives, the four parts have these sizes and hold,
/// together, the records of `data`, each as often as `data` holds it.
pub fn split_and_randomize(data: Vec<Patient>) -> (parts: (
    Vec<Patient>,
    Vec<Patient>,
    Vec<Patient>,
    Vec<Patient>,
))
    ensures
        parts.0@.len() == sample_len(data@.len()),
        parts.1@.len() == sample_len(data@.len()),
        parts.2@.len() == sample_len(data@.len()),
        parts.3@.len() == data@.len() - 3 * sample_len(data@.len()),
        same_records(parts.0@ + parts.1@ + parts.2@ + parts.3@, data@),
{
    let mut rng = rand::thread_rng();
    let mut shuffled = data;
    shuffle(&mut shuffled, &mut rng);
    proof {
        to_multiset_len(shuffled@);
        to_multiset_len(data@);
    }
    split_quarters(shuffled)
}

/// Shuffles the records and sets the last `len * test_ratio` of them, rounded
/// up, aside as the test part; the others are the training part.
///
/// Whatever the shuffle gives, the two parts have these sizes and hold,
/// together, the records of `data`, each as often as `data` holds it: no record
/// is lost, and none is in both parts.
pub fn split_dataset(data: Vec<Patient>, test_ratio: Ratio) -> (parts: (Vec<Patient>, Vec<Patient>))
    requires
        test_ratio.valid(),
    ensures
        parts.1@.len() == test_len(data@.len(), test_ratio),
        parts.0@.len() + parts.1@.len() == data@.len(),
        same_records(parts.0@ + parts.1@, data@),
{
    let mut rng = rand::thread_rng();
    let mut shuffled = data;
    shuffle(&mut shuffled, &mut rng);
    proof {
        to_multiset_len(shuffled@);
        to_multiset_len(data@);
        lemma_test_len(data@.len(), test_ratio);
    }
    split_train_test(shuffled, test_ratio)
}

/// The records of a training part and a test part, one behind the other.
pub open spec fn joined(parts: (Vec<Patient>, Vec<Patient>)) -> Seq<Patient> {
    parts.0@ + parts.1@
}

/// Whether `parts` splits `len` records at `test_ratio`: the test part has
/// `len * test_ratio` records, rounded up, and the training part the others.
pub open spec fn split_sizes(
    parts: (Vec<Patient>, Vec<Patient>),
    len: int,
    test_ratio: Ratio,
) -> bool {
    &&& parts.1@.len() == test_len(len as nat, test_ratio)
    &&& parts.0@.len() + parts.1@.len() == len
}

/// Quarters the records as [`split_and_randomize`] does, then splits each of
/// the four parts into training and test records as [`split_dataset`] does,
/// shuffling each part on its own before it is cut.
///
/// Whatever the shuffles give, each of the four pairs has the sizes of a split
/// of its quarter, and the eight parts hold, together, the records of `data`,
/// each as often as `data` holds it.
pub fn process_dataset(data: Vec<Patient>, test_ratio: Ratio) -> (splits: (
    (Vec<Patient>, Vec<Patient>),
    (Vec<Patient>, Vec<Patient>),
    (Vec<Patient>, Vec<Patient>),
    (Vec<Patient>, Vec<Patient>),
))
    requires
        test_ratio.valid(),
    ensures
        split_sizes(splits.0, sample_len(data@.len()), test_ratio),
        split_sizes(splits.1, sample_len(data@.len()), test_ratio),
        split_sizes(splits.2, sample_len(data@.len()), test_ratio),
        split_sizes(splits.3, data@.len() - 3 * sample_len(data@.len()), test_ratio),
        same_records(
            joined(splits.0) + joined(splits.1) + joined(splits.2) + joined(splits.3),
            data@,
        ),
{
    let (q1, q2, q3, q4) = split_and_randomize(data);
    let ghost quarters = (q1@, q2@, q3@, q4@);
    let first_split = split_dataset(q1, test_ratio);
    let second_split = split_dataset(q2, test_ratio);
    let third_split = split_dataset(q3, test_ratio);
    let fourth_split = split_dataset(q4, test_ratio);
    proof {
        let (a, b, c, d) = quarters;
        let (ja, jb, jc, jd) = (
            joined(first_split),
            joined(second_split),
            joined(third_split),
            joined(fourth_split),
        );
        lemma_multiset_commutative(a, b);
        lemma_multiset_commutative(a + b, c);
        lemma_multiset_commutative(a + b + c, d);
        lemma_multiset_commutative(ja, jb);
        lemma_multiset_commutative(ja + jb, jc);
        lemma_multiset_commutative(ja + jb + jc, jd);
    }
    (first_split, second_split, third_split, fourth_split)
}

/// The same as [`process_dataset`]: the records are shuffled and quartered, and
/// each quarter is shuffled again and split into training and test records.
pub fn randomize_and_split(data: Vec<Patient>, test_ratio: Ratio) -> (splits: (
    (Vec<Patient>, Vec<Patient>),
    (Vec<Patient>, Vec<Patient>),
    (Vec<Patient>, Vec<Patient>),
    (Vec<Patient>, Vec<Patient>),
))
    requires
        test_ratio.valid(),
    ensures
        split_sizes(splits.0, sample_len(data@.len()), test_ratio),
        split_sizes(splits.1, sample_len(data@.len()), test_ratio),
        split_sizes(splits.2, sample_len(data@.len()), test_ratio),
        split_sizes(splits.3, data@.len() - 3 * sample_len(data@.len()), test_ratio),
        same_records(
            joined(splits.0) + joined(splits.1) + joined(splits.2) + joined(splits.3),
            data@,
        ),
{
    process_dataset(data, test_ratio)
}

/// A split loses nothing and doubles nothing. Where a training part and a test
/// part hold, together, the records of `data`, each as often as `data` holds
/// it, their sizes add up to that of `data`, every record of `data` is in one of
/// them and every record of theirs is in `data`, and a record that `data` holds
/// once is not in both.
pub proof fn lemma_split_conserves(data: Seq<Patient>, train: Seq<Patient>, test: Seq<Patient>)
    requires
        same_records(train + test, data),
    ensures
        train.len() + test.len() == data.len(),
        train.to_multiset().add(test.to_multiset()) == data.to_multiset(),
        train.to_set().union(test.to_set()) == data.to_set(),
        data.no_duplicates() ==> train.to_set().disjoint(test.to_set()),
{
    broadcast use vstd::seq_lib::group_to_multiset_ensures;

    lemma_multiset_commutative(train, test);
    data.to_multiset_ensures();
    assert forall|p: Patient|
        train.to_set().union(test.to_set()).contains(p) == data.to_set().contains(p) by {
        vstd::seq_lib::lemma_seq_concat_contains_all_elements(train, test, p);
        assert(data.contains(p) <==> data.to_multiset().count(p) > 0);
    }
    if data.no_duplicates() {
        data.lemma_multiset_has_no_duplicates();
        assert forall|p: Patient| train.to_set().contains(p) implies !test.to_set().contains(p) by {
            assert(data.to_multiset().count(p) == train.to_multiset().count(p)
                + test.to_multiset().count(p));
        }
    }
}

} // verus!
