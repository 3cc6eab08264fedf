use crate::addr::ClientAddr;
use vstd::prelude::*;

verus! {

/// The startup configuration that the gateway runs with.
pub struct Settings {
    pub listen_address: String,
    pub threads: usize,
    /// Names of the headers captured on authorization.
    pub headers: Vec<String>,
    /// Addresses that are always allowed, whatever the cache holds.
    pub allow_list: Vec<ClientAddr>,
    pub days: u32,
    pub hour: u8,
    pub minute: u8,
    /// Seconds between two sweeps of expired entries.
    pub prune_interval: u32,
}

/// Why a configuration was refused.
#[derive(Clone, Copy, Debug, PartialEq, Eq, Structural)]
pub enum SettingsError {
    /// The cutoff hour is over 23.
    HourOutOfRange,
    /// The cutoff minute is over 59.
    MinuteOutOfRange,
}

impl Settings {
    /// The cutoff is a valid time of day.
    pub open spec fn wf(&self) -> bool {
        self.hour <= 23 && self.minute <= 59
    }

    /// Validated settings from their values: refused when the cutoff hour is
    /// over 23, or else when the cutoff minute is over 59.
    pub fn new(
        listen_address: String,
        threads: usize,
        headers: Vec<String>,
        allow_list: Vec<ClientAddr>,
        days: u32,
        hour: u8,
        minute: u8,
        prune_interval: u32,
    ) -> (r: Result<Settings, SettingsError>)
        ensures
            hour > 23 ==> r == Err::<Settings, SettingsError>(SettingsError::HourOutOfRange),
            hour <= 23 && minute > 59 ==> r == Err::<Settings, SettingsError>(SettingsError::MinuteOutOfRange),
            hour <= 23 && minute <= 59 ==> r is Ok,
            match r {
                Ok(s) => {
                    &&& s.wf()
                    &&& s.listen_address@ == listen_address@
                    &&& s.threads == threads
                    &&& s.headers@ == headers@
                    &&& s.allow_list@ == allow_list@
                    &&& s.days == days
                    &&& s.hour == hour
                    &&& s.minute == minute
                    &&& s.prune_interval == prune_interval
                },
                Err(_) => true,
            },
    {
        if hour > 23 {
            return Err(SettingsError::HourOutOfRange);
        }
        if minute > 59 {
            return Err(SettingsError::MinuteOutOfRange);
        }
        Ok(
            Settings {
                listen_address,
                threads,
                headers,
                allow_list,
                days,
                hour,
                minute,
                prune_interval,
            },
        )
    }
}

} // verus!
