//! The similarity score of two records.
//!
//! Eleven features are compared. Each one on which the two records agree, within
//! the feature's tolerance, adds one to the score; there is no partial credit.

use crate::patient::Patient;
use vstd::prelude::*;

verus! {

/// The number of compared features, and so the highest score.
pub const MAX_SCORE: u32 = 11;

/// Tolerance of the ordinal scales: general health, activity level, days of
/// poor mental or physical health, time since the last checkup, hours of sleep.
pub const SMALL_TOLERANCE: u32 = 3;

/// Tolerance of the body-mass index: five points, in hundredths.
pub const MEDIUM_TOLERANCE: u32 = 500;

/// Tolerance of the body weight: ten kilograms, in hundredths.
pub const LARGE_TOLERANCE: u32 = 1000;

/// A feature on which two records are compared.
#[derive(Clone, Copy, Debug, PartialEq, Eq)]
pub enum Feature {
    State,
    Sex,
    GeneralHealth,
    PhysicalActivities,
    MentalHealthDays,
    LastCheckupTime,
    PhysicalHealthDays,
    SleepHours,
    RaceEthnicity,
    Weight,
    BodyMassIndex,
}

impl Feature {
    /// How far apart two values of the feature may lie and still match.
    /// Zero for a categorical feature: its values match only when equal.
    pub open spec fn tolerance(self) -> int {
        match self {
            Feature::State | Feature::Sex | Feature::RaceEthnicity => 0,
            Feature::GeneralHealth
            | Feature::PhysicalActivities
            | Feature::MentalHealthDays
            | Feature::LastCheckupTime
            | Feature::PhysicalHealthDays
            | Feature::SleepHours => SMALL_TOLERANCE as int,
            Feature::BodyMassIndex => MEDIUM_TOLERANCE as int,
            Feature::Weight => LARGE_TOLERANCE as int,
        }
    }

    /// The value that a record holds for the feature.
    pub open spec fn value(self, p: Patient) -> int {
        match self {
            Feature::State => p.State_INT as int,
            Feature::Sex => p.Sex_INT as int,
            Feature::GeneralHealth => p.GeneralHealth_INT as int,
            Feature::PhysicalActivities => p.PhysicalActivities_INT as int,
            Feature::MentalHealthDays => p.MentalHealthDays as int,
            Feature::LastCheckupTime => p.LastCheckupTime_INT as int,
            Feature::PhysicalHealthDays => p.PhysicalHealthDays as int,
            Feature::SleepHours => p.SleepHours as int,
            Feature::RaceEthnicity => p.RaceEthnicityCategory_INT as int,
            Feature::Weight => p.WeightHundredths as int,
            Feature::BodyMassIndex => p.BMIHundredths as int,
        }
    }

    /// Whether two records match on the feature: their values differ by no more
    /// than its tolerance.
    pub open spec fn matches(self, a: Patient, b: Patient) -> bool {
        let d = self.value(a) - self.value(b);
        -self.tolerance() <= d <= self.tolerance()
    }

    /// What the feature adds to the score of two records: one where they match,
    /// nothing where they do not.
    pub open spec fn credit(self, a: Patient, b: Patient) -> nat {
        if self.matches(a, b) {
            1
        } else {
            0
        }
    }
}

/// The similarity score of two records: the number of compared features on which
/// they match.
pub open spec fn similarity(a: Patient, b: Patient) -> nat {
    Feature::State.credit(a, b) + Feature::Sex.credit(a, b) + Feature::GeneralHealth.credit(a, b)
        + Feature::PhysicalActivities.credit(a, b) + Feature::MentalHealthDays.credit(a, b)
        + Feature::LastCheckupTime.credit(a, b) + Feature::PhysicalHealthDays.credit(a, b)
        + Feature::SleepHours.credit(a, b) + Feature::RaceEthnicity.credit(a, b)
        + Feature::Weight.credit(a, b) + Feature::BodyMassIndex.credit(a, b)
}

/// Whether `a` and `b` differ by no more than `tolerance`.
fn within(a: u32, b: u32, tolerance: u32) -> (close: bool)
    ensures
        close <==> -(tolerance as int) <= a - b <= tolerance as int,
{
    if a >= b {
        a - b <= tolerance
    } else {
        b - a <= tolerance
    }
}

/// Scores two records: one point for each compared feature on which they match.
///
/// Categorical features match when equal, the ordinal scales when no more than
/// three apart, the body-mass index within five points and the body weight
/// within ten kilograms.
pub fn calculate_similarity(p1: &Patient, p2: &Patient) -> (score: u32)
    ensures
        score == similarity(*p1, *p2),
        score <= MAX_SCORE,
{
    let mut score: u32 = 0;
    if p1.State_INT == p2.State_INT {
        score += 1;
    }
    if p1.Sex_INT == p2.Sex_INT {
        score += 1;
    }
    if within(p1.GeneralHealth_INT as u32, p2.GeneralHealth_INT as u32, SMALL_TOLERANCE) {
        score += 1;
    }
    if within(p1.PhysicalActivities_INT as u32, p2.PhysicalActivities_INT as u32, SMALL_TOLERANCE) {
        score += 1;
    }
    if within(p1.MentalHealthDays as u32, p2.MentalHealthDays as u32, SMALL_TOLERANCE) {
        score += 1;
    }
    if within(p1.LastCheckupTime_INT as u32, p2.LastCheckupTime_INT as u32, SMALL_TOLERANCE) {
        score += 1;
    }
    if within(p1.PhysicalHealthDays as u32, p2.PhysicalHealthDays as u32, SMALL_TOLERANCE) {
        score += 1;
    }
    if within(p1.SleepHours as u32, p2.SleepHours as u32, SMALL_TOLERANCE) {
        score += 1;
    }
    if p1.RaceEthnicityCategory_INT == p2.RaceEthnicityCategory_INT {
        score += 1;
    }
    if within(p1.WeightHundredths, p2.WeightHundredths, LARGE_TOLERANCE) {
        score += 1;
    }
    if within(p1.BMIHundredths, p2.BMIHundredths, MEDIUM_TOLERANCE) {
        score += 1;
    }
    score
}

/// The score does not depend on the order of the two records.
pub proof fn lemma_similarity_symmetric(a: Patient, b: Patient)
    ensures
        similarity(a, b) == similarity(b, a),
{
}

/// No two records score more than the number of compared features.
pub proof fn lemma_similarity_bounded(a: Patient, b: Patient)
    ensures
        similarity(a, b) <= MAX_SCORE,
{
}

/// A record compared with itself matches on every feature, and so reaches the
/// highest score.
pub proof fn lemma_self_similarity(a: Patient)
    ensures
        similarity(a, a) == MAX_SCORE,
{
}

/// Whether `a` and `b` hold the same value for every compared feature but `f`.
pub open spec fn agree_except(a: Patient, b: Patient, f: Feature) -> bool {
    forall|g: Feature| g != f ==> #[trigger] g.value(a) == g.value(b)
}

/// What one feature decides: two records that agree on every other compared
/// feature score the maximum where they match on it, and one less where they
/// do not.
pub proof fn lemma_single_feature_decides(a: Patient, b: Patient, f: Feature)
    requires
        agree_except(a, b, f),
    ensures
        similarity(a, b) == MAX_SCORE - 1 + f.credit(a, b),
{
}

/// The edge of the small tolerance: where `near` and `far` agree with `a` on
/// every compared feature but one ordinal scale, on which `near` lies exactly
/// three from `a` and `far` exactly four, `near` scores one more than `far`.
pub proof fn lemma_small_tolerance_boundary(a: Patient, near: Patient, far: Patient, f: Feature)
    requires
        f.tolerance() == SMALL_TOLERANCE,
        agree_except(a, near, f),
        agree_except(a, far, f),
        f.value(a) - f.value(near) == 3 || f.value(near) - f.value(a) == 3,
        f.value(a) - f.value(far) == 4 || f.value(far) - f.value(a) == 4,
    ensures
        similarity(a, near) == similarity(a, far) + 1,
{
}

} // verus!
