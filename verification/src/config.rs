//! Server configuration and its validity conditions.

use vstd::prelude::*;

use crate::clock::{ts_in_range, Timestamp, TS_MAX_NANOS, TS_MIN_NANOS};
use crate::duration::EpochDuration;

verus! {

/// Runtime configuration of the randomness server.
///
/// `instance_names` and `epoch_durations` correspond positionally; the
/// first name is the default instance. `epoch_base_time`, when given,
/// anchors every instance's rotation schedule to an absolute instant.
#[derive(Debug, Clone)]
pub struct Config {
    /// Host and port to listen for http connections.
    pub listen: String,
    /// Names of the OPRF instances, the first being the default.
    pub instance_names: Vec<String>,
    /// Epoch duration of each respective instance.
    pub epoch_durations: Vec<EpochDuration>,
    /// First epoch tag to make available.
    pub first_epoch: u8,
    /// Last epoch tag to make available.
    pub last_epoch: u8,
    /// Optional absolute time at which to anchor the first epoch.
    pub epoch_base_time: Option<Timestamp>,
    /// Raise the OS nofile limit at startup.
    pub increase_nofile_limit: bool,
    /// Optional listen address for metric reporting.
    pub prometheus_listen: Option<String>,
    /// Synchronize keys with other enclaves through the host.
    pub enclave_key_sync: bool,
    /// Loopback port for host callbacks; required with key sync.
    pub nitriding_internal_port: Option<u16>,
}

/// No two names render the same text.
pub open spec fn unique_names(names: Seq<String>) -> bool {
    forall|i: int, j: int| 0 <= i < j < names.len() ==> names[i]@ != names[j]@
}

impl Config {
    /// Structural validity: at least one instance, one positive
    /// duration per instance, distinct names, an ordered tag range,
    /// and a callback port whenever key sync is on.
    pub open spec fn spec_wf(&self) -> bool {
        &&& self.instance_names@.len() >= 1
        &&& self.epoch_durations@.len() == self.instance_names@.len()
        &&& unique_names(self.instance_names@)
        &&& self.first_epoch <= self.last_epoch
        &&& forall|i: int|
            0 <= i < self.epoch_durations@.len() ==> self.epoch_durations@[i].spec_positive()
        &&& self.enclave_key_sync ==> self.nitriding_internal_port is Some
    }

    /// Validity at a given instant: the base time, if any, is
    /// representable and not in the future, and the schedule
    /// computation cannot leave the representable window.
    pub open spec fn spec_valid_at(&self, now: Timestamp) -> bool {
        &&& self.spec_wf()
        &&& ts_in_range(now.nanos as int)
        &&& match self.epoch_base_time {
            Some(base) => TS_MIN_NANOS <= base.nanos <= now.nanos,
            None => true,
        }
        &&& forall|i: int|
            0 <= i < self.epoch_durations@.len() ==> now.nanos as int
                + self.epoch_durations@[i].spec_advance_bound() <= TS_MAX_NANOS
    }

    /// Checks `spec_valid_at` at runtime.
    pub fn validate(&self, now: &Timestamp) -> (b: bool)
        ensures
            b == self.spec_valid_at(*now),
    {
        if self.instance_names.len() == 0 {
            return false;
        }
        if self.epoch_durations.len() != self.instance_names.len() {
            return false;
        }
        if !assert_unique_names(&self.instance_names) {
            return false;
        }
        if self.first_epoch > self.last_epoch {
            return false;
        }
        if self.enclave_key_sync && self.nitriding_internal_port.is_none() {
            return false;
        }
        if now.nanos < TS_MIN_NANOS || now.nanos > TS_MAX_NANOS {
            return false;
        }
        match &self.epoch_base_time {
            Some(base) => {
                if base.nanos < TS_MIN_NANOS || base.nanos > now.nanos {
                    return false;
                }
            },
            None => {},
        }
        let n = self.epoch_durations.len();
        for i in 0..n
            invariant
                n == self.epoch_durations@.len(),
                forall|j: int|
                    0 <= j < i ==> self.epoch_durations@[j].spec_positive() && now.nanos as int
                        + self.epoch_durations@[j].spec_advance_bound() <= TS_MAX_NANOS,
        {
            let d = &self.epoch_durations[i];
            if !d.is_positive() {
                return false;
            }
            if now.nanos > TS_MAX_NANOS - d.advance_bound() {
                return false;
            }
        }
        true
    }
}

/// Position of the first name rendering the same text, if any.
pub fn find_name(names: &Vec<String>, name: &String) -> (r: Option<usize>)
    ensures
        match r {
            Some(i) => i < names@.len() && names@[i as int]@ == name@,
            None => forall|i: int| 0 <= i < names@.len() ==> names@[i]@ != name@,
        },
{
    let n = names.len();
    for i in 0..n
        invariant
            n == names@.len(),
            forall|j: int| 0 <= j < i ==> names@[j]@ != name@,
    {
        if names[i] == *name {
            return Some(i);
        }
    }
    None
}

/// Reports whether all instance names are unique.
pub fn assert_unique_names(instance_names: &Vec<String>) -> (b: bool)
    ensures
        b == unique_names(instance_names@),
{
    let n = instance_names.len();
    for i in 0..n
        invariant
            n == instance_names@.len(),
            forall|x: int, y: int| 0 <= x < y < n && x < i ==> instance_names@[x]@
                != instance_names@[y]@,
    {
        for j in (i + 1)..n
            invariant
                n == instance_names@.len(),
                i < n,
                forall|x: int, y: int| 0 <= x < y < n && x < i ==> instance_names@[x]@
                    != instance_names@[y]@,
                forall|y: int| i < y < j ==> instance_names@[i as int]@ != instance_names@[y]@,
        {
            if instance_names[i] == instance_names[j] {
                return false;
            }
        }
    }
    true
}

} // verus!
