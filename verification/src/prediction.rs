//! The schedule of battery predictions: how many are asked for, and for which times.

use vstd::prelude::*;

verus! {

/// The most predictions asked for in one run.
pub const MAX_NUMBER_OF_PREDICTIONS: u8 = 10;

/// Minutes between two consecutive predictions.
pub const PREDICTION_INTERVAL_MINUTES: i64 = 60;

/// The prediction to ask for next: its number (counting from one), how many
/// minutes after now it is for, and the same span in seconds, which the
/// prediction service is given.
#[derive(Debug, Clone, Copy, PartialEq, Eq, Structural)]
pub struct PredictionStep {
    pub number: u8,
    pub offset_minutes: i64,
    pub offset_seconds: i64,
}

/// The prediction that follows `done` earlier ones: none once the limit is
/// reached or the predicted capacity has left the battery's range; otherwise the
/// next one, an interval later than the one before.
pub open spec fn next_prediction_spec(done: u8, capacity_in_range: bool) -> Option<PredictionStep> {
    if done < MAX_NUMBER_OF_PREDICTIONS && capacity_in_range {
        Some(PredictionStep {
            number: (done + 1) as u8,
            offset_minutes: ((done + 1) * PREDICTION_INTERVAL_MINUTES) as i64,
            offset_seconds: ((done + 1) * PREDICTION_INTERVAL_MINUTES * 60) as i64,
        })
    } else {
        None
    }
}

/// Decides whether another prediction is asked for after `done` ones, while the
/// last predicted capacity is within the battery's range or not.
pub fn next_prediction(done: u8, capacity_in_range: bool) -> (step: Option<PredictionStep>)
    ensures
        step == next_prediction_spec(done, capacity_in_range),
{
    if done < MAX_NUMBER_OF_PREDICTIONS && capacity_in_range {
        let number: i64 = done as i64 + 1;
        Some(PredictionStep {
            number: done + 1,
            offset_minutes: number * PREDICTION_INTERVAL_MINUTES,
            offset_seconds: number * PREDICTION_INTERVAL_MINUTES * 60,
        })
    } else {
        None
    }
}

/// At most `MAX_NUMBER_OF_PREDICTIONS` predictions are asked for, and each one
/// is an interval later than the one before.
pub proof fn lemma_prediction_schedule(done: u8, capacity_in_range: bool)
    ensures
        done >= MAX_NUMBER_OF_PREDICTIONS ==> next_prediction_spec(done, capacity_in_range) is None,
        next_prediction_spec(done, capacity_in_range) matches Some(s) ==> {
            &&& s.number == done + 1
            &&& s.number <= MAX_NUMBER_OF_PREDICTIONS
            &&& s.offset_minutes == s.number * PREDICTION_INTERVAL_MINUTES
            &&& s.offset_seconds == s.offset_minutes * 60
            &&& (done > 0 ==> (next_prediction_spec((done - 1) as u8, true) matches Some(p)
                && s.offset_minutes == p.offset_minutes + PREDICTION_INTERVAL_MINUTES))
        },
{
}


/// Once the predicted capacity has left the battery's range no further
/// prediction is asked for, whatever the count; while it stays in range one is
/// asked for exactly until the limit is reached.
pub proof fn lemma_prediction_stops(done: u8)
    ensures
        next_prediction_spec(done, false) is None,
        next_prediction_spec(done, true) is Some <==> done < MAX_NUMBER_OF_PREDICTIONS,
{
}

} // verus!
