//! The last-known status of the sampling pipeline, and how each cycle's
//! outcome changes it.
use vstd::prelude::*;
use crate::data::{Data, DataError};
use crate::text::{lemma_pow10_mono, millis_of, Decimal};

verus! {

/// The time of the last successful submission before any has happened:
/// 1337-01-01T00:00:00Z, in milliseconds since the Unix epoch.
pub const INITIAL_LAST_SEND_MS: i64 = -19975507200000;

/// Milliseconds between liveness pings.
pub const PING_PERIOD_MS: u64 = 5000;

/// Health as the control surface reports it.
#[derive(Clone, Debug, PartialEq, Eq)]
pub enum Status {
    Good,
    Bad(DataError),
}

/// The last error of the pipeline, if any; when the last reading was
/// delivered (milliseconds since the Unix epoch); and that reading.
#[derive(Clone, Debug)]
pub struct StatusSnapshot {
    pub last_error: Option<DataError>,
    pub last_send_ms: i64,
    pub last_data: Data,
}

impl StatusSnapshot {
    /// No error, no delivery yet, and a zero reading.
    pub fn new() -> (r: Self)
        ensures
            r.last_error is None,
            r.last_send_ms == INITIAL_LAST_SEND_MS,
            r.last_data == (Data { co2: 0, temperature: Decimal { negative: false, mantissa: 0, scale: 0 } }),
    {
        StatusSnapshot { last_error: None, last_send_ms: INITIAL_LAST_SEND_MS, last_data: Data::default() }
    }

    /// Takes in what a collection gave. A failure is recorded as the last
    /// error and ends the cycle (`None`); the last reading and its time stay
    /// as they were. A reading is handed back to be submitted, and nothing
    /// changes yet.
    pub fn collection_finished(&mut self, collected: Result<Data, DataError>) -> (r: Option<Data>)
        ensures
            final(self).last_send_ms == old(self).last_send_ms,
            final(self).last_data == old(self).last_data,
            match collected {
                Ok(d) => r == Some(d) && final(self).last_error == old(self).last_error,
                Err(e) => r is None && final(self).last_error == Some(e),
            },
    {
        match collected {
            Ok(d) => Some(d),
            Err(e) => {
                self.last_error = Some(e);
                None
            },
        }
    }

    /// Takes in how the submission of `data` ended. A delivery clears the
    /// error and makes `data` the last reading, delivered at `now_ms`. A
    /// failed one records `SendDataFailed` and leaves the last reading and
    /// its time as they were.
    pub fn submission_finished(&mut self, data: Data, delivered: bool, now_ms: i64) -> (r: Result<(), DataError>)
        ensures
            delivered ==> r is Ok && final(self).last_error is None && final(self).last_send_ms == now_ms
                && final(self).last_data == data,
            !delivered ==> r == Err::<(), DataError>(DataError::SendDataFailed) && final(self).last_error == Some(
                DataError::SendDataFailed,
            ) && final(self).last_send_ms == old(self).last_send_ms && final(self).last_data == old(
                self,
            ).last_data,
    {
        if delivered {
            self.last_error = None;
            self.last_send_ms = now_ms;
            self.last_data = data;
            Ok(())
        } else {
            self.last_error = Some(DataError::SendDataFailed);
            Err(DataError::SendDataFailed)
        }
    }

    /// `Good` where no error is recorded, else `Bad` with the last error.
    pub fn status(self) -> (r: Status)
        ensures
            match self.last_error {
                None => r == Status::Good,
                Some(e) => r == Status::Bad(e),
            },
    {
        match self.last_error {
            None => Status::Good,
            Some(e) => Status::Bad(e),
        }
    }
}

/// How long the scheduler sleeps between cycles for a reporting interval of
/// `interval` seconds: whole milliseconds, a negative interval counting as
/// zero.
pub fn cycle_sleep_ms(interval: &Decimal) -> (r: u64)
    ensures
        r == millis_of(*interval),
        interval.spec_is_negative() ==> r == 0,
        interval.mantissa == 0 ==> r == 0,
{
    proof {
        lemma_pow10_mono(0, interval.scale as nat);
    }
    interval.millis()
}

} // verus!
