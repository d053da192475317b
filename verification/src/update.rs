//! Epoch rotation: the per-iteration step of the scheduler.
//!
//! The surrounding long-running task (sleeping until the boundary,
//! holding the instance lock, aborting on fatal errors) lives outside
//! this crate; the state transition it performs under the write lock
//! is `rotate_epoch`.

use vstd::prelude::*;

use crate::clock::{
    add_duration, format_rfc3339, rfc3339_of, spec_advance, ts_in_range, Timestamp, TS_MAX_NANOS,
};
use crate::config::Config;
use crate::instance::{is_schedule_count, punctured_range, spec_base_time, OPRFInstance};
use crate::result::Error;

verus! {

/// What one rotation did to an instance.
#[derive(Debug, Clone, Copy, PartialEq, Eq, Structural)]
pub enum RotationOutcome {
    /// The active tag advanced to its successor inside the range.
    Advanced,
    /// The range was exhausted and the instance was rebuilt in place
    /// with fresh keys, starting over at the first tag.
    Rebuilt,
    /// The range was exhausted on a worker: the slot was emptied and
    /// stays empty until the leader pushes new keys.
    Paused,
}

/// What a successful rotation at instant `now` did to a slot that
/// held `prev`: on an advance the tag moved to its successor and the
/// old tag joined the punctured set; on a rebuild the range was
/// exhausted and a fresh instance (past tags punctured, fresh key)
/// took over at the schedule position for `now`; on a pause the
/// worker's slot emptied. In the first two cases the published
/// rotation instant moved by exactly one duration from its previous
/// value, and the instance's new key state is exporter-grade with
/// its bytes on record.
pub open spec fn spec_rotation(
    prev: OPRFInstance,
    slot_after: Option<OPRFInstance>,
    outcome: RotationOutcome,
    is_worker: bool,
    config: &Config,
    now: Timestamp,
) -> bool {
    match outcome {
        RotationOutcome::Advanced => slot_after matches Some(inst) && {
            &&& prev.epoch < config.last_epoch
            &&& inst.epoch == prev.epoch + 1
            &&& inst.epoch_duration == prev.epoch_duration
            &&& inst.server.spec_punctured() == prev.server.spec_punctured().insert(prev.epoch)
            &&& inst.server.spec_key() is Some
            &&& inst.server.spec_sound()
            &&& inst.next_rotation.nanos as int == spec_advance(
                prev.next_rotation.nanos as int,
                prev.epoch_duration,
            )
            &&& prev.next_rotation.nanos + 1_000_000_000 <= inst.next_rotation.nanos
            &&& inst.next_epoch_time@ == rfc3339_of(inst.next_rotation.nanos as int)
            &&& inst.spec_wf(config.first_epoch, config.last_epoch)
        },
        RotationOutcome::Rebuilt => slot_after matches Some(inst) && {
            &&& prev.epoch == config.last_epoch
            &&& !is_worker
            &&& inst.epoch_duration == prev.epoch_duration
            &&& exists|k: nat|
                {
                    &&& #[trigger] is_schedule_count(
                        spec_base_time(config, now),
                        inst.epoch_duration,
                        now.nanos as int,
                        k,
                    )
                    &&& inst.epoch == config.first_epoch + k % ((
                    config.last_epoch - config.first_epoch + 1) as nat)
                }
            &&& inst.server.spec_punctured() == punctured_range(config.first_epoch, inst.epoch)
            &&& inst.server.spec_key() is Some
            &&& inst.server.spec_sound()
            &&& inst.next_rotation.nanos as int == spec_advance(
                prev.next_rotation.nanos as int,
                prev.epoch_duration,
            )
            &&& prev.next_rotation.nanos + 1_000_000_000 <= inst.next_rotation.nanos
            &&& inst.next_epoch_time@ == rfc3339_of(inst.next_rotation.nanos as int)
            &&& inst.spec_wf(config.first_epoch, config.last_epoch)
        },
        RotationOutcome::Paused => {
            &&& prev.epoch == config.last_epoch
            &&& is_worker
            &&& slot_after is None
        },
    }
}

/// How long the scheduler should sleep before the next rotation, in
/// nanoseconds; an instant already in the past means no sleep at all.
pub fn sleep_duration_nanos(next_rotation: &Timestamp, now: &Timestamp) -> (ns: u128)
    requires
        ts_in_range(next_rotation.nanos as int),
        ts_in_range(now.nanos as int),
    ensures
        ns == if next_rotation.nanos > now.nanos {
            next_rotation.nanos - now.nanos
        } else {
            0
        },
{
    if next_rotation.nanos > now.nanos {
        (next_rotation.nanos - now.nanos) as u128
    } else {
        0
    }
}

/// One rotation of the instance in `slot`, at instant `now`.
///
/// The current tag is punctured so it can no longer be used. If its
/// successor lies inside the configured range the instance advances to
/// it; otherwise the range is exhausted and the instance is rebuilt
/// with fresh keys — except on a worker, whose slot empties until the
/// leader pushes replacement keys. The published rotation instant
/// moves by exactly one duration from its previous value, never from
/// `now`, so the schedule stays anchored and drift-free.
///
/// A `first_epoch == last_epoch` range has no room to advance: every
/// rotation rebuilds (or pauses a worker).
pub fn rotate_epoch(
    slot: &mut Option<OPRFInstance>,
    is_worker: bool,
    config: &Config,
    index: usize,
    now: &Timestamp,
) -> (r: Result<RotationOutcome, Error>)
    requires
        config.spec_valid_at(*now),
        index < config.instance_names@.len(),
        (*old(slot)) matches Some(inst) && {
            &&& inst.spec_wf(config.first_epoch, config.last_epoch)
            &&& inst.server.spec_sound()
            &&& inst.next_rotation.nanos <= now.nanos
            &&& config.epoch_durations@[index as int] == inst.epoch_duration
        },
    ensures
        match r {
            Ok(outcome) => {
                &&& config.first_epoch == config.last_epoch ==> outcome != RotationOutcome::Advanced
                &&& spec_rotation(
                    (*old(slot))->Some_0,
                    *final(slot),
                    outcome,
                    is_worker,
                    config,
                    *now,
                )
            },
            Err(e) => e == Error::Oprf && ((*final(slot)) is None || ((*final(slot)) matches Some(
                inst,
            ) && inst.spec_wf(config.first_epoch, config.last_epoch) && inst.epoch_duration == (*old(
                slot,
            ))->Some_0.epoch_duration)),
        },
{
    let mut inst = match slot.take() {
        Some(inst) => inst,
        None => {
            // Unreachable: the slot is occupied by precondition.
            return Err(Error::Oprf);
        },
    };
    let ghost prev = inst;

    // Puncture the current epoch so it can no longer be used. The
    // caller must treat a failure here as fatal, since serving
    // requests under an expired epoch weakens user privacy.
    let old_epoch = inst.epoch;
    match inst.server.puncture(old_epoch) {
        Ok(()) => {},
        Err(e) => {
            *slot = Some(inst);
            return Err(e);
        },
    }
    // Read the punctured key state back, so that evaluation under the
    // new tag stays pinned to it.
    let _key_state = inst.server.export_key();

    // Advance the absolute schedule by one duration; never relative
    // to `now`, so that independently started processes stay aligned.
    proof {
        assert(now.nanos as int + config.epoch_durations@[index as int].spec_advance_bound()
            <= TS_MAX_NANOS);
    }
    let next_rotation = add_duration(&inst.next_rotation, &inst.epoch_duration);

    // Advance to the next epoch, checking for overflow and
    // out-of-range.
    if old_epoch < 255 && old_epoch + 1 <= config.last_epoch {
        inst.epoch = old_epoch + 1;
        inst.next_rotation = next_rotation;
        inst.next_epoch_time = format_rfc3339(&next_rotation);
        *slot = Some(inst);
        Ok(RotationOutcome::Advanced)
    } else {
        if is_worker {
            // Epochs exhausted: a new scheduler will start once the
            // leader shares a new key.
            *slot = None;
            Ok(RotationOutcome::Paused)
        } else {
            // Epochs exhausted: rotate the OPRF key.
            let mut rebuilt = match OPRFInstance::new_at_index(config, index, true, now) {
                Ok(rebuilt) => rebuilt,
                Err(e) => {
                    *slot = None;
                    return Err(e);
                },
            };
            rebuilt.next_rotation = next_rotation;
            rebuilt.next_epoch_time = format_rfc3339(&next_rotation);
            *slot = Some(rebuilt);
            Ok(RotationOutcome::Rebuilt)
        }
    }
}

} // verus!
