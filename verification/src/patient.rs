//! One survey respondent.

use vstd::prelude::*;

verus! {

/// One survey respondent: categorical and ordinal answers as small codes, three
/// measurements, and the outcome `HadHeartAttack_INT`.
///
/// Every field is always present; an answer that the survey lacks is zero.
/// The three measurements are fixed-point numbers counted in hundredths of
/// their unit, so that two decimal places are kept without rounding.
#[allow(non_snake_case)]
#[derive(Clone, Copy, Debug, PartialEq, Eq)]
pub struct Patient {
    pub State_INT: u8,
    pub Sex_INT: u8,
    pub GeneralHealth_INT: u8,
    pub PhysicalHealthDays: u8,
    pub MentalHealthDays: u8,
    pub LastCheckupTime_INT: u8,
    pub PhysicalActivities_INT: u8,
    pub SleepHours: u8,
    pub RemovedTeeth_INT: u8,
    /// The outcome that a risk estimate averages: 1 where the respondent has had
    /// a heart attack, 0 where not.
    pub HadHeartAttack_INT: u8,
    pub HadAngina_INT: u8,
    pub HadStroke_INT: u8,
    pub HadAsthma_INT: u8,
    pub HadSkinCancer_INT: u8,
    pub HadCOPD_INT: u8,
    pub HadDepressiveDisorder_INT: u8,
    pub HadKidneyDisease_INT: u8,
    pub HadArthritis_INT: u8,
    pub HadDiabetes_INT: u8,
    pub DeafOrHardOfHearing_INT: u8,
    pub BlindOrVisionDifficulty_INT: u8,
    pub DifficultyConcentrating_INT: u8,
    pub DifficultyWalking_INT: u8,
    pub DifficultyDressingBathing_INT: u8,
    pub DifficultyErrands_INT: u8,
    pub SmokerStatus_INT: u8,
    pub ECigaretteUsage_INT: u8,
    pub ChestScan_INT: u8,
    pub RaceEthnicityCategory_INT: u8,
    pub AgeCategory_INT: u8,
    /// Body height in hundredths of a metre.
    pub HeightHundredths: u32,
    /// Body weight in hundredths of a kilogram.
    pub WeightHundredths: u32,
    /// Body-mass index in hundredths.
    pub BMIHundredths: u32,
    pub AlcoholDrinkers_INT: u8,
    pub HIVTesting_INT: u8,
    pub FluVaxLast12_INT: u8,
    pub PneumoVaxEver_INT: u8,
    pub TetanusLast10Tdap_INT: u8,
    pub HighRiskLastYear_INT: u8,
}

impl Patient {
    /// The record in which every field is zero.
    pub open spec fn zeroed() -> Patient {
        Patient {
            State_INT: 0,
            Sex_INT: 0,
            GeneralHealth_INT: 0,
            PhysicalHealthDays: 0,
            MentalHealthDays: 0,
            LastCheckupTime_INT: 0,
            PhysicalActivities_INT: 0,
            SleepHours: 0,
            RemovedTeeth_INT: 0,
            HadHeartAttack_INT: 0,
            HadAngina_INT: 0,
            HadStroke_INT: 0,
            HadAsthma_INT: 0,
            HadSkinCancer_INT: 0,
            HadCOPD_INT: 0,
            HadDepressiveDisorder_INT: 0,
            HadKidneyDisease_INT: 0,
            HadArthritis_INT: 0,
            HadDiabetes_INT: 0,
            DeafOrHardOfHearing_INT: 0,
            BlindOrVisionDifficulty_INT: 0,
            DifficultyConcentrating_INT: 0,
            DifficultyWalking_INT: 0,
            DifficultyDressingBathing_INT: 0,
            DifficultyErrands_INT: 0,
            SmokerStatus_INT: 0,
            ECigaretteUsage_INT: 0,
            ChestScan_INT: 0,
            RaceEthnicityCategory_INT: 0,
            AgeCategory_INT: 0,
            HeightHundredths: 0,
            WeightHundredths: 0,
            BMIHundredths: 0,
            AlcoholDrinkers_INT: 0,
            HIVTesting_INT: 0,
            FluVaxLast12_INT: 0,
            PneumoVaxEver_INT: 0,
            TetanusLast10Tdap_INT: 0,
            HighRiskLastYear_INT: 0,
        }
    }
}

impl Default for Patient {
    /// The zero-filled record, from which a caller sets the answers it has.
    fn default() -> (patient: Patient)
        ensures
            patient == Patient::zeroed(),
    {
        Patient {
            State_INT: 0,
            Sex_INT: 0,
            GeneralHealth_INT: 0,
            PhysicalHealthDays: 0,
            MentalHealthDays: 0,
            LastCheckupTime_INT: 0,
            PhysicalActivities_INT: 0,
            SleepHours: 0,
            RemovedTeeth_INT: 0,
            HadHeartAttack_INT: 0,
            HadAngina_INT: 0,
            HadStroke_INT: 0,
            HadAsthma_INT: 0,
            HadSkinCancer_INT: 0,
            HadCOPD_INT: 0,
            HadDepressiveDisorder_INT: 0,
            HadKidneyDisease_INT: 0,
            HadArthritis_INT: 0,
            HadDiabetes_INT: 0,
            DeafOrHardOfHearing_INT: 0,
            BlindOrVisionDifficulty_INT: 0,
            DifficultyConcentrating_INT: 0,
            DifficultyWalking_INT: 0,
            DifficultyDressingBathing_INT: 0,
            DifficultyErrands_INT: 0,
            SmokerStatus_INT: 0,
            ECigaretteUsage_INT: 0,
            ChestScan_INT: 0,
            RaceEthnicityCategory_INT: 0,
            AgeCategory_INT: 0,
            HeightHundredths: 0,
            WeightHundredths: 0,
            BMIHundredths: 0,
            AlcoholDrinkers_INT: 0,
            HIVTesting_INT: 0,
            FluVaxLast12_INT: 0,
            PneumoVaxEver_INT: 0,
            TetanusLast10Tdap_INT: 0,
            HighRiskLastYear_INT: 0,
        }
    }
}

} // verus!
