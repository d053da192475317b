//! A single OPRF instance and its anchor-relative schedule.

use vstd::arithmetic::div_mod::{lemma_fundamental_div_mod, lemma_mod_multiples_basic};
use vstd::prelude::*;

use crate::clock::{
    add_duration, format_rfc3339, rfc3339_of, spec_advance, ts_in_range, Timestamp, TS_MAX_NANOS,
    TS_MIN_NANOS,
};
use crate::config::{find_name, Config};
use crate::duration::EpochDuration;
use crate::oprf::Ppoprf;
use crate::result::Error;

verus! {

/// The instant reached from `base` after `n` additions of `d`.
pub open spec fn nth_rotation(base: int, d: EpochDuration, n: nat) -> int
    decreases n,
{
    if n == 0 {
        base
    } else {
        spec_advance(nth_rotation(base, d, (n - 1) as nat), d)
    }
}

/// `k` is the number of whole epochs of length `d` elapsed between
/// `base` and `now`: rotation `k + 1` lies strictly after `now`, and
/// every earlier rotation does not.
pub open spec fn is_schedule_count(base: int, d: EpochDuration, now: int, k: nat) -> bool {
    &&& nth_rotation(base, d, k + 1) > now
    &&& forall|j: nat| 1 <= j <= k ==> #[trigger] nth_rotation(base, d, j) <= now
}

/// The anchor of the rotation schedule: the configured base time, or
/// the construction instant when none is configured.
pub open spec fn spec_base_time(config: &Config, now: Timestamp) -> int {
    match config.epoch_base_time {
        Some(b) => b.nanos as int,
        None => now.nanos as int,
    }
}

/// The tags an instance punctures when it starts in the middle of its
/// range: everything from `first` up to, but excluding, `upto`.
pub open spec fn punctured_range(first: u8, upto: u8) -> Set<u8> {
    Set::new(|t: u8| first <= t < upto)
}

/// Internal state of an OPRF instance.
pub struct OPRFInstance {
    /// The PPOPRF server value.
    pub server: Ppoprf,
    /// Currently-valid randomness epoch.
    pub epoch: u8,
    /// Duration of each epoch.
    pub epoch_duration: EpochDuration,
    /// RFC 3339 timestamp of the next epoch rotation.
    pub next_epoch_time: String,
    /// The instant of the next epoch rotation.
    pub next_rotation: Timestamp,
}

impl OPRFInstance {
    /// The instance is consistent with the tag range it serves: the
    /// active epoch lies inside it, whatever this process punctured on
    /// the current key value lies strictly below the active epoch, the
    /// duration is positive, and the published rotation instant is
    /// representable.
    pub open spec fn spec_wf(&self, first_epoch: u8, last_epoch: u8) -> bool {
        &&& first_epoch <= self.epoch <= last_epoch
        &&& forall|t: u8|
            self.server.spec_punctured().contains(t) ==> first_epoch <= t < self.epoch
        &&& self.epoch_duration.spec_positive()
        &&& ts_in_range(self.next_rotation.nanos as int)
    }

    /// What a freshly initialized instance for position `i` of the
    /// configuration looks like at instant `now`: its duration is the
    /// one configured for that position, its active tag and next
    /// rotation instant follow the absolute schedule, the rendered
    /// rotation time matches, all tags below the active one (and
    /// nothing else) are punctured when the history was punctured,
    /// and the fresh key state is exporter-grade with its bytes on
    /// record.
    pub open spec fn spec_initial(
        &self,
        config: &Config,
        i: int,
        now: Timestamp,
        punctured_history: bool,
    ) -> bool {
        &&& self.spec_wf(config.first_epoch, config.last_epoch)
        &&& self.epoch_duration == config.epoch_durations@[i]
        &&& exists|k: nat|
            {
                &&& #[trigger] is_schedule_count(
                    spec_base_time(config, now),
                    self.epoch_duration,
                    now.nanos as int,
                    k,
                )
                &&& self.epoch == config.first_epoch + k % ((
                config.last_epoch - config.first_epoch + 1) as nat)
                &&& self.next_rotation.nanos == nth_rotation(
                    spec_base_time(config, now),
                    self.epoch_duration,
                    (k + 1) as nat,
                )
            }
        &&& self.next_epoch_time@ == rfc3339_of(self.next_rotation.nanos as int)
        &&& self.server.spec_punctured() == if punctured_history {
            punctured_range(config.first_epoch, self.epoch)
        } else {
            Set::<u8>::empty()
        }
        &&& self.server.spec_key() is Some
        &&& self.server.spec_sound()
    }

    /// Initialize an instance for the named position of the
    /// configuration at instant `now`.
    ///
    /// The schedule is absolute: starting from the base time (the
    /// configured anchor, or `now` itself), the epoch duration is
    /// added until the sum first exceeds `now`. That sum becomes the
    /// next rotation instant, and the number `k` of completed
    /// additions selects the active tag `first + (k mod range)`, where
    /// `range` counts the tags inclusively. With `puncture_previous_epochs`
    /// every tag below the active one is punctured on the fresh key.
    pub fn new(
        config: &Config,
        instance_name: &String,
        puncture_previous_epochs: bool,
        now: &Timestamp,
    ) -> (r: Result<OPRFInstance, Error>)
        requires
            config.spec_valid_at(*now),
            exists|i: int|
                0 <= i < config.instance_names@.len() && config.instance_names@[i]@
                    == instance_name@,
        ensures
            match r {
                Ok(inst) => exists|i: int|
                    0 <= i < config.instance_names@.len() && config.instance_names@[i]@
                        == instance_name@ && #[trigger] inst.spec_initial(
                        config,
                        i,
                        *now,
                        puncture_previous_epochs,
                    ),
                Err(e) => e == Error::Oprf && puncture_previous_epochs,
            },
    {
        let index = match find_name(&config.instance_names, instance_name) {
            Some(i) => i,
            None => {
                proof {
                    let i = choose|i: int|
                        0 <= i < config.instance_names@.len() && config.instance_names@[i]@
                            == instance_name@;
                    assert(config.instance_names@[i]@ != instance_name@);
                }
                // Unreachable: the name is present by precondition.
                return Err(Error::Oprf);
            },
        };
        Self::new_at_index(config, index, puncture_previous_epochs, now)
    }

    /// Initialize an instance for position `index` of the
    /// configuration at instant `now` (see `new`).
    pub fn new_at_index(
        config: &Config,
        index: usize,
        puncture_previous_epochs: bool,
        now: &Timestamp,
    ) -> (r: Result<OPRFInstance, Error>)
        requires
            config.spec_valid_at(*now),
            index < config.instance_names@.len(),
        ensures
            match r {
                Ok(inst) => inst.spec_initial(
                    config,
                    index as int,
                    *now,
                    puncture_previous_epochs,
                ),
                Err(e) => e == Error::Oprf && puncture_previous_epochs,
            },
    {
        // The full tag range this instance will ever serve.
        let mut tags: Vec<u8> = Vec::new();
        let mut t = config.first_epoch;
        loop
            invariant
                config.first_epoch <= t <= config.last_epoch,
            decreases config.last_epoch - t,
        {
            tags.push(t);
            if t == config.last_epoch {
                break;
            }
            t = t + 1;
        }
        let mut server = Ppoprf::new(tags);

        // Epoch duration matching the instance position.
        let epoch_duration = config.epoch_durations[index];

        // Anchor the schedule.
        let base: Timestamp = match &config.epoch_base_time {
            Some(b) => *b,
            None => *now,
        };
        let ghost base_n = base.nanos as int;
        let ghost d = epoch_duration;

        // Walk the absolute schedule up to the present.
        let mut elapsed_epoch_count: u64 = 0;
        let mut next_epoch_time = add_duration(&base, &epoch_duration);
        proof {
            assert(nth_rotation(base_n, d, 0) == base_n);
            assert(nth_rotation(base_n, d, 1) == spec_advance(nth_rotation(base_n, d, 0), d));
        }
        while next_epoch_time.nanos <= now.nanos
            invariant
                config.spec_valid_at(*now),
                d == epoch_duration,
                d.spec_positive(),
                now.nanos as int + d.spec_advance_bound() <= TS_MAX_NANOS,
                TS_MIN_NANOS <= base_n <= now.nanos,
                next_epoch_time.nanos as int == nth_rotation(
                    base_n,
                    d,
                    (elapsed_epoch_count + 1) as nat,
                ),
                base_n + (elapsed_epoch_count + 1) * 1_000_000_000 <= next_epoch_time.nanos as int,
                next_epoch_time.nanos as int <= TS_MAX_NANOS,
                TS_MIN_NANOS <= next_epoch_time.nanos as int,
                forall|j: nat|
                    1 <= j <= elapsed_epoch_count ==> #[trigger] nth_rotation(base_n, d, j)
                        <= now.nanos as int,
            decreases now.nanos as int + d.spec_advance_bound() - next_epoch_time.nanos as int,
        {
            proof {
                assert((elapsed_epoch_count + 2) * 1_000_000_000 == (elapsed_epoch_count + 1)
                    * 1_000_000_000 + 1_000_000_000);
                assert(nth_rotation(base_n, d, (elapsed_epoch_count + 2) as nat) == spec_advance(
                    nth_rotation(base_n, d, (elapsed_epoch_count + 1) as nat),
                    d,
                ));
            }
            next_epoch_time = add_duration(&next_epoch_time, &epoch_duration);
            elapsed_epoch_count = elapsed_epoch_count + 1;
        }

        // The completed additions select the active tag inside the
        // inclusive range.
        let range_len: u64 = (config.last_epoch - config.first_epoch) as u64 + 1;
        let offset = elapsed_epoch_count % range_len;
        let current_epoch = config.first_epoch + (offset as u8);

        // Advance to the current epoch if the base time indicates we
        // started in the middle of a sequence. This must be skipped
        // when imported key material, which already encodes punctures,
        // will be installed right after construction.
        if current_epoch != config.first_epoch && puncture_previous_epochs {
            let mut epoch = config.first_epoch;
            proof {
                assert(server.spec_punctured() =~= punctured_range(
                    config.first_epoch,
                    config.first_epoch,
                ));
            }
            while epoch < current_epoch
                invariant
                    puncture_previous_epochs,
                    config.first_epoch <= epoch <= current_epoch,
                    server.spec_punctured() == punctured_range(config.first_epoch, epoch),
                    server.spec_sound(),
                decreases current_epoch - epoch,
            {
                match server.puncture(epoch) {
                    Ok(()) => {},
                    Err(e) => {
                        return Err(e);
                    },
                }
                proof {
                    assert(punctured_range(config.first_epoch, epoch).insert(epoch)
                        =~= punctured_range(config.first_epoch, (epoch + 1) as u8));
                }
                epoch = epoch + 1;
            }
        } else {
            proof {
                if puncture_previous_epochs {
                    assert(Set::<u8>::empty() =~= punctured_range(
                        config.first_epoch,
                        current_epoch,
                    ));
                }
            }
        }

        // Record the (possibly just punctured) key state, so that the
        // evaluation and metadata contracts are pinned to it.
        let _key_state = server.export_key();

        let next_epoch_time_text = format_rfc3339(&next_epoch_time);
        let inst = OPRFInstance {
            server,
            epoch: current_epoch,
            epoch_duration,
            next_epoch_time: next_epoch_time_text,
            next_rotation: next_epoch_time,
        };
        proof {
            assert(base_n == spec_base_time(config, *now));
            assert(is_schedule_count(
                spec_base_time(config, *now),
                inst.epoch_duration,
                now.nanos as int,
                elapsed_epoch_count as nat,
            ));
            assert(inst.epoch == config.first_epoch + (elapsed_epoch_count as nat) % ((
            config.last_epoch - config.first_epoch + 1) as nat));
            assert(inst.next_rotation.nanos == nth_rotation(
                spec_base_time(config, *now),
                inst.epoch_duration,
                ((elapsed_epoch_count as nat) + 1) as nat,
            ));
        }
        Ok(inst)
    }
}

/// Two parties that agree on the schedule anchor, the epoch duration
/// and the present instant agree on the number of elapsed epochs, and
/// therefore on the active tag and the next rotation instant that
/// `OPRFInstance::new` derives from it.
pub proof fn lemma_schedule_count_unique(base: int, d: EpochDuration, now: int, k1: nat, k2: nat)
    ensures
        is_schedule_count(base, d, now, k1) && is_schedule_count(base, d, now, k2) ==> k1 == k2,
{
    if is_schedule_count(base, d, now, k1) && is_schedule_count(base, d, now, k2) {
        if k1 < k2 {
            assert(nth_rotation(base, d, (k1 + 1) as nat) <= now);
        } else if k2 < k1 {
            assert(nth_rotation(base, d, (k2 + 1) as nat) <= now);
        }
    }
}

/// Epoch alignment: two instances initialized for the same position
/// of the same configuration at the same instant — in this process or
/// an independently started one — agree on the active tag and on the
/// next rotation instant.
pub proof fn lemma_initial_instances_agree(
    a: OPRFInstance,
    b: OPRFInstance,
    config: &Config,
    i: int,
    now: Timestamp,
    punctured_a: bool,
    punctured_b: bool,
)
    ensures
        (a.spec_initial(config, i, now, punctured_a) && b.spec_initial(config, i, now, punctured_b))
            ==> (a.epoch == b.epoch && a.next_rotation == b.next_rotation),
{
    if a.spec_initial(config, i, now, punctured_a) && b.spec_initial(config, i, now, punctured_b) {
        let ka = choose|k: nat|
            {
                &&& #[trigger] is_schedule_count(
                    spec_base_time(config, now),
                    a.epoch_duration,
                    now.nanos as int,
                    k,
                )
                &&& a.epoch == config.first_epoch + k % ((
                config.last_epoch - config.first_epoch + 1) as nat)
                &&& a.next_rotation.nanos == nth_rotation(
                    spec_base_time(config, now),
                    a.epoch_duration,
                    (k + 1) as nat,
                )
            };
        let kb = choose|k: nat|
            {
                &&& #[trigger] is_schedule_count(
                    spec_base_time(config, now),
                    b.epoch_duration,
                    now.nanos as int,
                    k,
                )
                &&& b.epoch == config.first_epoch + k % ((
                config.last_epoch - config.first_epoch + 1) as nat)
                &&& b.next_rotation.nanos == nth_rotation(
                    spec_base_time(config, now),
                    b.epoch_duration,
                    (k + 1) as nat,
                )
            };
        assert(a.epoch_duration == b.epoch_duration);
        lemma_schedule_count_unique(
            spec_base_time(config, now),
            a.epoch_duration,
            now.nanos as int,
            ka,
            kb,
        );
    }
}

/// An on-time rebuild restarts at the first tag. An instance that
/// counted `k1` elapsed epochs at `now0` and has exhausted its range
/// — its active tag `first + (k1 mod range)` is the last tag — is
/// rebuilt when its rotation boundary passes. If the rebuild happens
/// before the following boundary, the rebuild's own count `k2` is
/// `k1 + 1`, a multiple of the range, so the fresh instance starts
/// over at the first tag.
pub proof fn lemma_on_time_rebuild_starts_at_first(
    base: int,
    d: EpochDuration,
    first_epoch: u8,
    last_epoch: u8,
    now0: int,
    now: int,
    k1: nat,
    k2: nat,
)
    ensures
        ({
            &&& first_epoch <= last_epoch
            &&& is_schedule_count(base, d, now0, k1)
            &&& first_epoch + k1 % ((last_epoch - first_epoch + 1) as nat) == last_epoch
            &&& now0 <= now
            &&& nth_rotation(base, d, k1 + 1) <= now
            &&& now < nth_rotation(base, d, k1 + 2)
            &&& is_schedule_count(base, d, now, k2)
        }) ==> (k2 == k1 + 1 && first_epoch + k2 % ((last_epoch - first_epoch + 1) as nat)
            == first_epoch),
{
    if {
        &&& first_epoch <= last_epoch
        &&& is_schedule_count(base, d, now0, k1)
        &&& first_epoch + k1 % ((last_epoch - first_epoch + 1) as nat) == last_epoch
        &&& now0 <= now
        &&& nth_rotation(base, d, k1 + 1) <= now
        &&& now < nth_rotation(base, d, k1 + 2)
        &&& is_schedule_count(base, d, now, k2)
    } {
        // `k1 + 1` also counts the schedule at `now`: every rotation
        // up to `k1` already lay before `now0`, and the next one has
        // just passed.
        assert forall|j: nat| 1 <= j <= k1 + 1 implies #[trigger] nth_rotation(base, d, j)
            <= now by {
            if j <= k1 {
                assert(nth_rotation(base, d, j) <= now0);
            }
        }
        assert(is_schedule_count(base, d, now, (k1 + 1) as nat));
        lemma_schedule_count_unique(base, d, now, (k1 + 1) as nat, k2);

        // The count has completed a whole number of ranges, so the
        // modular choice lands on the first tag again.
        let range: int = last_epoch - first_epoch + 1;
        assert(k1 as int % range == range - 1);
        lemma_fundamental_div_mod(k1 as int, range);
        assert(k1 as int + 1 == (k1 as int / range + 1) * range) by (nonlinear_arith)
            requires
                range > 0,
                k1 as int == range * (k1 as int / range) + k1 as int % range,
                k1 as int % range == range - 1,
        ;
        lemma_mod_multiples_basic(k1 as int / range + 1, range);
        assert((k1 as int + 1) % range == 0);
    }
}

} // verus!
