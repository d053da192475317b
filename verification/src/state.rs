//! The instance registry: epoch and key state and its management.

use vstd::prelude::*;

use crate::clock::Timestamp;
use crate::codec::{decode_keys, encode_keys, entries_view, keys_decoding, keys_encoding};
use crate::config::Config;
use crate::instance::OPRFInstance;
use crate::oprf::{canonical_key_of, key_state_sound};
use crate::result::Error;
use crate::update::{rotate_epoch, spec_rotation, RotationOutcome};

verus! {

/// One named slot of the registry. An empty slot means key sync is
/// enabled and the server is still waiting for the host to prompt key
/// generation or restoration.
pub struct InstanceSlot {
    /// The instance name, fixed at construction.
    pub name: String,
    /// The instance, or `None` while awaiting key material.
    pub instance: Option<OPRFInstance>,
}

/// Container for OPRF instances.
pub struct OPRFServer {
    /// All OPRF instances, positionally matching the configured names.
    pub instances: Vec<InstanceSlot>,
    /// The name of the default instance.
    pub default_instance: String,
    /// The config for the server.
    pub config: Config,
    /// Latched role under key sync: `Some(true)` for the leader,
    /// `Some(false)` for a worker, `None` until the first key-sync
    /// call decides.
    pub is_leader: Option<bool>,
}

impl OPRFServer {
    /// Registry invariant: slots correspond one-to-one and in order to
    /// the configured instance names, the default instance is the
    /// first configured name, every populated slot holds a
    /// well-formed instance carrying the duration configured for its
    /// position, and a role can only have been latched when key sync
    /// is enabled.
    pub open spec fn spec_wf(&self) -> bool {
        &&& self.config.spec_wf()
        &&& self.instances@.len() == self.config.instance_names@.len()
        &&& forall|i: int|
            0 <= i < self.instances@.len() ==> (#[trigger] self.instances@[i]).name@
                == self.config.instance_names@[i]@
        &&& self.default_instance@ == self.config.instance_names@[0]@
        &&& forall|i: int|
            0 <= i < self.instances@.len() ==> match (#[trigger] self.instances@[i]).instance {
                Some(inst) => inst.spec_wf(self.config.first_epoch, self.config.last_epoch)
                    && inst.epoch_duration == self.config.epoch_durations@[i],
                None => true,
            }
        &&& self.is_leader is Some ==> self.config.enclave_key_sync
    }

    /// Initialize all OPRF instances with the given configuration.
    ///
    /// With key sync enabled every slot stays empty: instance creation
    /// waits until the host prompts key generation (leader) or pushes
    /// key material (worker). Otherwise every slot is populated with a
    /// fresh instance whose past tags are punctured.
    pub fn new(config: Config, now: &Timestamp) -> (r: Result<OPRFServer, Error>)
        requires
            config.spec_valid_at(*now),
        ensures
            match r {
                Ok(s) => {
                    &&& s.spec_wf()
                    &&& spec_all_sound(&s)
                    &&& s.config == config
                    &&& s.is_leader is None
                    &&& config.enclave_key_sync ==> forall|i: int|
                        0 <= i < s.instances@.len() ==> (#[trigger] s.instances@[i]).instance
                            is None
                    &&& !config.enclave_key_sync ==> forall|i: int|
                        0 <= i < s.instances@.len() ==> ((#[trigger] s.instances@[i]).instance
                            matches Some(inst) && inst.spec_initial(&config, i, *now, true))
                },
                Err(e) => e == Error::Oprf,
            },
            config.enclave_key_sync ==> r is Ok,
    {
        let n = config.instance_names.len();
        let mut instances: Vec<InstanceSlot> = Vec::new();
        let mut i: usize = 0;
        while i < n
            invariant
                config.spec_valid_at(*now),
                n == config.instance_names@.len(),
                i <= n,
                instances@.len() == i,
                forall|j: int|
                    0 <= j < i ==> (#[trigger] instances@[j]).name@
                        == config.instance_names@[j]@,
                config.enclave_key_sync ==> forall|j: int|
                    0 <= j < i ==> (#[trigger] instances@[j]).instance is None,
                !config.enclave_key_sync ==> forall|j: int|
                    0 <= j < i ==> ((#[trigger] instances@[j]).instance matches Some(inst)
                        && inst.spec_initial(&config, j, *now, true)),
            decreases n - i,
        {
            let name = config.instance_names[i].clone();
            let instance = if config.enclave_key_sync {
                None
            } else {
                match OPRFInstance::new_at_index(&config, i, true, now) {
                    Ok(inst) => Some(inst),
                    Err(e) => {
                        return Err(e);
                    },
                }
            };
            instances.push(InstanceSlot { name, instance });
            i = i + 1;
        }
        let default_instance = config.instance_names[0].clone();
        Ok(OPRFServer { instances, default_instance, config, is_leader: None })
    }

    /// Position of the slot registered under `name`, if any.
    pub fn index_of(&self, name: &String) -> (r: Option<usize>)
        ensures
            match r {
                Some(i) => i < self.instances@.len() && self.instances@[i as int].name@ == name@,
                None => forall|i: int|
                    0 <= i < self.instances@.len() ==> (#[trigger] self.instances@[i]).name@
                        != name@,
            },
    {
        let n = self.instances.len();
        for i in 0..n
            invariant
                n == self.instances@.len(),
                forall|j: int| 0 <= j < i ==> (#[trigger] self.instances@[j]).name@ != name@,
        {
            if self.instances[i].name == *name {
                return Some(i);
            }
        }
        None
    }

    /// Populate every empty slot with a fresh instance, puncturing
    /// past tags. This is the leader's lazy initialization path,
    /// called before its keys are first exported. Populated slots are
    /// never touched, so a repeated call changes nothing, and a call
    /// finding no empty slot cannot fail.
    pub fn create_missing_instances(&mut self, now: &Timestamp) -> (r: Result<(), Error>)
        requires
            old(self).spec_wf(),
            old(self).config.spec_valid_at(*now),
            old(self).config.enclave_key_sync,
        ensures
            final(self).spec_wf(),
            final(self).config == old(self).config,
            final(self).default_instance == old(self).default_instance,
            final(self).is_leader == old(self).is_leader,
            final(self).instances@.len() == old(self).instances@.len(),
            forall|i: int|
                0 <= i < final(self).instances@.len()
                    ==> (#[trigger] final(self).instances@[i]).name@
                    == old(self).instances@[i].name@,
            forall|i: int|
                0 <= i < final(self).instances@.len()
                    ==> match old(self).instances@[i].instance {
                    Some(_) => (#[trigger] final(self).instances@[i]).instance
                        == old(self).instances@[i].instance,
                    None => final(self).instances@[i].instance is None || (
                    final(self).instances@[i].instance matches Some(inst) && inst.spec_initial(
                        &old(self).config,
                        i,
                        *now,
                        true,
                    )),
                },
            match r {
                Ok(()) => forall|i: int|
                    0 <= i < final(self).instances@.len()
                        ==> match old(self).instances@[i].instance {
                        Some(_) => (#[trigger] final(self).instances@[i]).instance
                            == old(self).instances@[i].instance,
                        None => final(self).instances@[i].instance matches Some(inst)
                            && inst.spec_initial(&old(self).config, i, *now, true),
                    },
                Err(e) => e == Error::Oprf,
            },
            (forall|i: int|
                0 <= i < old(self).instances@.len() ==> (#[trigger] old(
                    self,
                ).instances@[i]).instance is Some) ==> r is Ok,
            spec_all_sound(old(self)) ==> spec_all_sound(final(self)),
    {
        let n = self.instances.len();
        let mut i: usize = 0;
        while i < n
            invariant
                old(self).spec_wf(),
                old(self).config.spec_valid_at(*now),
                self.spec_wf(),
                self.config == old(self).config,
                self.default_instance == old(self).default_instance,
                self.is_leader == old(self).is_leader,
                n == self.instances@.len(),
                i <= n,
                self.instances@.len() == old(self).instances@.len(),
                forall|j: int|
                    0 <= j < n ==> (#[trigger] self.instances@[j]).name@
                        == old(self).instances@[j].name@,
                forall|j: int|
                    0 <= j < i ==> match old(self).instances@[j].instance {
                        Some(_) => (#[trigger] self.instances@[j]).instance
                            == old(self).instances@[j].instance,
                        None => self.instances@[j].instance matches Some(inst)
                            && inst.spec_initial(&old(self).config, j, *now, true),
                    },
                forall|j: int|
                    i <= j < n ==> (#[trigger] self.instances@[j]).instance
                        == old(self).instances@[j].instance,
            decreases n - i,
        {
            if self.instances[i].instance.is_none() {
                let inst = match OPRFInstance::new_at_index(&self.config, i, true, now) {
                    Ok(inst) => inst,
                    Err(e) => {
                        return Err(e);
                    },
                };
                self.instances[i].instance = Some(inst);
            }
            i = i + 1;
        }
        Ok(())
    }
}

/// Element-wise byte equality of two buffers.
fn bytes_eq(a: &Vec<u8>, b: &Vec<u8>) -> (r: bool)
    ensures
        r == (a@ == b@),
{
    if a.len() != b.len() {
        proof {
            assert(a@ !~= b@);
        }
        return false;
    }
    let n = a.len();
    for i in 0..n
        invariant
            n == a@.len() == b@.len(),
            forall|j: int| 0 <= j < i ==> a@[j] == b@[j],
    {
        if a[i] != b[i] {
            proof {
                assert(a@ !~= b@);
            }
            return false;
        }
    }
    proof {
        assert(a@ =~= b@);
    }
    true
}

/// All slots are populated and their key states are known.
pub open spec fn spec_all_keys_known(s: &OPRFServer) -> bool {
    forall|i: int|
        0 <= i < s.instances@.len() ==> ((#[trigger] s.instances@[i]).instance matches Some(inst)
            && inst.server.spec_key() is Some)
}

/// Every populated slot holds an exporter-grade key state, so that
/// evaluation and rotation cannot hit the primitive's panic paths.
/// This holds for every state the registry reaches on its own;
/// importing a key payload preserves it exactly when the payload's
/// key states are themselves exporter-grade.
pub open spec fn spec_all_sound(s: &OPRFServer) -> bool {
    forall|i: int|
        0 <= i < s.instances@.len() ==> match (#[trigger] s.instances@[i]).instance {
            Some(inst) => inst.server.spec_sound(),
            None => true,
        }
}

/// The key records a full export of `s` yields: per slot, its name,
/// its known key state and its active epoch. Meaningful only when
/// `spec_all_keys_known(s)` holds.
pub open spec fn spec_export_entries(s: &OPRFServer) -> Seq<(Seq<char>, Seq<u8>, u8)> {
    Seq::new(
        s.instances@.len(),
        |i: int|
            (
                s.instances@[i].name@,
                s.instances@[i].instance->Some_0.server.spec_key()->Some_0,
                s.instances@[i].instance->Some_0.epoch,
            ),
    )
}

/// No record among the first `upto` of `m` is for `name`.
pub open spec fn no_entry_for(m: Seq<(Seq<char>, Seq<u8>, u8)>, upto: int, name: Seq<char>) -> bool {
    forall|j: int| 0 <= j < upto ==> (#[trigger] m[j]).0 != name
}

/// Record `j` is the only record of `m` for `name`.
pub open spec fn unique_entry_at(m: Seq<(Seq<char>, Seq<u8>, u8)>, j: int, name: Seq<char>) -> bool {
    &&& 0 <= j < m.len() && m[j].0 == name
    &&& forall|j2: int| 0 <= j2 < m.len() && j2 != j ==> (#[trigger] m[j2]).0 != name
}

/// What importing the record `(key, epoch)` may do to slot `i`.
///
/// An occupied slot keeps its schedule fields. Either it is left
/// alone — its stored key merely became known, because it was read
/// for the comparison — or, when the record's epoch matches its
/// active epoch and the stored key differs, the incoming key state is
/// installed. An empty slot stays empty exactly when the record's
/// epoch is not the one the absolute schedule selects at `now`;
/// otherwise it fills with a fresh instance at the record's epoch
/// carrying the incoming key state. Wherever the incoming key state
/// is installed, the slot is sound afterwards exactly when the
/// incoming bytes were exporter-grade.
pub open spec fn spec_slot_import(
    before: Option<OPRFInstance>,
    after: Option<OPRFInstance>,
    config: &Config,
    i: int,
    key: Seq<u8>,
    epoch: u8,
    now: Timestamp,
) -> bool {
    match before {
        Some(ex) => after matches Some(inst) && {
            &&& inst.epoch == ex.epoch
            &&& inst.epoch_duration == ex.epoch_duration
            &&& inst.next_rotation == ex.next_rotation
            &&& inst.next_epoch_time == ex.next_epoch_time
            &&& {
                ||| (inst.server.spec_punctured() == ex.server.spec_punctured()
                    && inst.server.spec_sound() == ex.server.spec_sound()
                    && inst.server.spec_key() is Some && (ex.server.spec_key() matches Some(k0)
                    ==> inst.server.spec_key() == Some(k0)))
                ||| (epoch == ex.epoch && inst.server.spec_punctured() == Set::<u8>::empty()
                    && inst.server.spec_key() == canonical_key_of(key) && canonical_key_of(key)
                    is Some && inst.server.spec_sound() == key_state_sound(key))
            }
            &&& ex.server.spec_key() == Some(key) ==> inst.server.spec_key() == Some(key)
                && inst.server.spec_punctured() == ex.server.spec_punctured()
                && inst.server.spec_sound() == ex.server.spec_sound()
            &&& (ex.server.spec_key() matches Some(k0) && k0 != key && epoch == ex.epoch)
                ==> inst.server.spec_key() == canonical_key_of(key)
            &&& epoch != ex.epoch ==> inst.server.spec_punctured() == ex.server.spec_punctured()
                && inst.server.spec_sound() == ex.server.spec_sound()
        },
        None => {
            ||| (after is None && forall|k: nat|
                crate::instance::is_schedule_count(
                    crate::instance::spec_base_time(config, now),
                    config.epoch_durations@[i],
                    now.nanos as int,
                    k,
                ) ==> config.first_epoch + k % ((config.last_epoch - config.first_epoch + 1) as nat)
                    != epoch)
            ||| (after matches Some(inst) && {
                &&& inst.spec_wf(config.first_epoch, config.last_epoch)
                &&& inst.epoch == epoch
                &&& inst.epoch_duration == config.epoch_durations@[i]
                &&& exists|k: nat|
                    #[trigger] crate::instance::is_schedule_count(
                        crate::instance::spec_base_time(config, now),
                        inst.epoch_duration,
                        now.nanos as int,
                        k,
                    ) && inst.epoch == config.first_epoch + k % ((
                    config.last_epoch - config.first_epoch + 1) as nat)
                &&& inst.server.spec_key() == canonical_key_of(key)
                &&& canonical_key_of(key) is Some
                &&& inst.server.spec_punctured() == Set::<u8>::empty()
                &&& inst.server.spec_sound() == key_state_sound(key)
                &&& inst.next_epoch_time@ == crate::clock::rfc3339_of(
                    inst.next_rotation.nanos as int,
                )
            })
        },
    }
}

impl OPRFServer {
    /// Rotate the instance in slot `index` (see
    /// `update::rotate_epoch`), with the role this registry has
    /// latched deciding the worker behaviour on range exhaustion.
    pub fn rotate_instance(&mut self, index: usize, now: &Timestamp) -> (r: Result<
        RotationOutcome,
        Error,
    >)
        requires
            old(self).spec_wf(),
            old(self).config.spec_valid_at(*now),
            index < old(self).instances@.len(),
            old(self).instances@[index as int].instance matches Some(inst)
                && inst.server.spec_sound() && inst.next_rotation.nanos <= now.nanos,
        ensures
            final(self).spec_wf(),
            final(self).config == old(self).config,
            final(self).default_instance == old(self).default_instance,
            final(self).is_leader == old(self).is_leader,
            final(self).instances@.len() == old(self).instances@.len(),
            forall|i: int|
                0 <= i < final(self).instances@.len()
                    ==> (#[trigger] final(self).instances@[i]).name@
                    == old(self).instances@[i].name@,
            forall|i: int|
                0 <= i < final(self).instances@.len() && i != index
                    ==> (#[trigger] final(self).instances@[i]) == old(self).instances@[i],
            match r {
                Ok(outcome) => {
                    &&& old(self).config.first_epoch == old(self).config.last_epoch ==> outcome
                        != RotationOutcome::Advanced
                    &&& spec_rotation(
                        old(self).instances@[index as int].instance->Some_0,
                        final(self).instances@[index as int].instance,
                        outcome,
                        old(self).is_leader == Some(false),
                        &old(self).config,
                        *now,
                    )
                },
                Err(e) => e == Error::Oprf,
            },
    {
        let is_worker = match self.is_leader {
            Some(false) => true,
            _ => false,
        };
        let slot = &mut self.instances[index];
        rotate_epoch(&mut slot.instance, is_worker, &self.config, index, now)
    }

    /// Export every instance's private key state for the host to
    /// forward to worker enclaves. The first successful call latches
    /// this server as the leader; a server already latched as a
    /// worker refuses.
    ///
    /// The payload is the serialization of one record per slot, in
    /// registry order: the instance name, its key state as exported,
    /// and its active epoch. Decoding the payload yields exactly
    /// those records, so that a worker fed this payload mirrors this
    /// registry's keys.
    pub fn get_private_keys(&mut self) -> (r: Result<Vec<u8>, Error>)
        requires
            old(self).spec_wf(),
            old(self).config.enclave_key_sync,
            forall|i: int|
                0 <= i < old(self).instances@.len() ==> (#[trigger] old(
                    self,
                ).instances@[i]).instance is Some,
        ensures
            final(self).spec_wf(),
            final(self).config == old(self).config,
            final(self).default_instance == old(self).default_instance,
            final(self).instances@.len() == old(self).instances@.len(),
            (old(self).is_leader == Some(false)) <==> (r == Err::<Vec<u8>, Error>(
                Error::InvalidPrivateKeyCall,
            )),
            r == Err::<Vec<u8>, Error>(Error::InvalidPrivateKeyCall) ==> *final(self) == *old(
                self,
            ),
            r != Err::<Vec<u8>, Error>(Error::InvalidPrivateKeyCall) ==> final(self).is_leader
                == Some(true),
            old(self).is_leader != Some(false) ==> r is Ok,
            forall|i: int|
                0 <= i < final(self).instances@.len() ==> {
                    &&& (#[trigger] final(self).instances@[i]).name@ == old(
                        self,
                    ).instances@[i].name@
                    &&& final(self).instances@[i].instance matches Some(fi) && {
                        let oi = old(self).instances@[i].instance->Some_0;
                        &&& fi.epoch == oi.epoch
                        &&& fi.epoch_duration == oi.epoch_duration
                        &&& fi.next_rotation == oi.next_rotation
                        &&& fi.next_epoch_time == oi.next_epoch_time
                        &&& fi.server.spec_punctured() == oi.server.spec_punctured()
                        &&& fi.server.spec_sound() == oi.server.spec_sound()
                        &&& (oi.server.spec_key() matches Some(k0) ==> fi.server.spec_key()
                            == Some(k0))
                    }
                },
            match r {
                Ok(bytes) => {
                    &&& spec_all_keys_known(final(self))
                    &&& bytes@ == keys_encoding(spec_export_entries(final(self)))
                    &&& keys_decoding(bytes@) == Some(spec_export_entries(final(self)))
                    &&& forall|i: int|
                        0 <= i < final(self).instances@.len() ==> canonical_key_of(
                            (#[trigger] spec_export_entries(final(self))[i]).1,
                        ) == Some(spec_export_entries(final(self))[i].1)
                },
                Err(e) => e == Error::InvalidPrivateKeyCall,
            },
    {
        match self.is_leader {
            Some(false) => {
                return Err(Error::InvalidPrivateKeyCall);
            },
            _ => {},
        }
        self.is_leader = Some(true);

        let n = self.instances.len();
        let mut entries: Vec<(String, Vec<u8>, u8)> = Vec::new();
        let mut i: usize = 0;
        while i < n
            invariant
                old(self).spec_wf(),
                old(self).config.enclave_key_sync,
                old(self).is_leader != Some(false),
                forall|j: int|
                    0 <= j < old(self).instances@.len() ==> (#[trigger] old(
                        self,
                    ).instances@[j]).instance is Some,
                self.spec_wf(),
                self.config == old(self).config,
                self.default_instance == old(self).default_instance,
                self.is_leader == Some(true),
                n == self.instances@.len() == old(self).instances@.len(),
                i <= n,
                entries@.len() == i,
                forall|j: int|
                    0 <= j < n ==> {
                        &&& (#[trigger] self.instances@[j]).name@ == old(
                            self,
                        ).instances@[j].name@
                        &&& self.instances@[j].instance matches Some(fi) && {
                            let oi = old(self).instances@[j].instance->Some_0;
                            &&& fi.epoch == oi.epoch
                            &&& fi.epoch_duration == oi.epoch_duration
                            &&& fi.next_rotation == oi.next_rotation
                            &&& fi.next_epoch_time == oi.next_epoch_time
                            &&& fi.server.spec_punctured() == oi.server.spec_punctured()
                            &&& fi.server.spec_sound() == oi.server.spec_sound()
                            &&& (oi.server.spec_key() matches Some(k0) ==> fi.server.spec_key()
                                == Some(k0))
                        }
                    },
                forall|j: int|
                    0 <= j < i ==> {
                        &&& ((#[trigger] entries@[j]).0)@ == self.instances@[j].name@
                        &&& self.instances@[j].instance matches Some(fi)
                            && fi.server.spec_key() == Some(entries@[j].1@) && entries@[j].2
                            == fi.epoch
                        &&& canonical_key_of(entries@[j].1@) == Some(entries@[j].1@)
                    },
                forall|j: int|
                    i <= j < n ==> (#[trigger] self.instances@[j]).instance == old(
                        self,
                    ).instances@[j].instance,
            decreases n - i,
        {
            let name = self.instances[i].name.clone();
            let (key_bytes, epoch) = match &mut self.instances[i].instance {
                Some(inst) => {
                    let kb = inst.server.export_key();
                    (kb, inst.epoch)
                },
                None => {
                    // Unreachable: every slot is populated by precondition.
                    proof {
                        assert(false);
                    }
                    return Err(Error::InvalidPrivateKeyCall);
                },
            };
            entries.push((name, key_bytes, epoch));
            i = i + 1;
        }

        let bytes = encode_keys(&entries);
        proof {
            assert forall|j: int|
                0 <= j < self.instances@.len() implies ((#[trigger] self.instances@[j]).instance
                matches Some(inst) && inst.server.spec_key() is Some) by {
                assert(canonical_key_of(entries@[j].1@) == Some(entries@[j].1@));
            }
            assert(entries_view(entries@) =~= spec_export_entries(self));
            assert forall|j: int| 0 <= j < self.instances@.len() implies canonical_key_of(
                (#[trigger] spec_export_entries(self)[j]).1,
            ) == Some(spec_export_entries(self)[j].1) by {
                assert(spec_export_entries(self)[j] == entries_view(entries@)[j]);
                assert(entries_view(entries@)[j].1 == entries@[j].1@);
            }
        }
        Ok(bytes)
    }

    /// Store keys pushed by the host from the leader enclave. A
    /// server already latched as the leader refuses, and a payload
    /// that does not deserialize is refused — in both cases with no
    /// state change and no role latched. Otherwise the call latches
    /// this server as a worker.
    ///
    /// Every record of the payload addressed to a known instance is
    /// applied as `spec_slot_import` describes; instances named by no
    /// record, and records naming no instance, change nothing. A
    /// payload whose key states all parse is applied in full.
    pub fn set_private_keys(&mut self, private_keys_bytes: &Vec<u8>, now: &Timestamp) -> (r:
        Result<(), Error>)
        requires
            old(self).spec_wf(),
            old(self).config.enclave_key_sync,
            old(self).config.spec_valid_at(*now),
        ensures
            final(self).spec_wf(),
            final(self).config == old(self).config,
            final(self).default_instance == old(self).default_instance,
            final(self).instances@.len() == old(self).instances@.len(),
            forall|i: int|
                0 <= i < final(self).instances@.len()
                    ==> (#[trigger] final(self).instances@[i]).name@
                    == old(self).instances@[i].name@,
            (old(self).is_leader == Some(true)) <==> (r == Err::<(), Error>(
                Error::InvalidPrivateKeyCall,
            )),
            r == Err::<(), Error>(Error::InvalidPrivateKeyCall) ==> *final(self) == *old(self),
            (old(self).is_leader != Some(true) && keys_decoding(private_keys_bytes@) is None)
                ==> r == Err::<(), Error>(Error::KeySerialization) && *final(self) == *old(self),
            (r != Err::<(), Error>(Error::InvalidPrivateKeyCall) && keys_decoding(
                private_keys_bytes@,
            ) is Some) ==> final(self).is_leader == Some(false),
            ({
                &&& old(self).is_leader != Some(true)
                &&& keys_decoding(private_keys_bytes@) matches Some(m) && (forall|j: int|
                    0 <= j < m.len() ==> canonical_key_of(#[trigger] m[j].1) is Some)
            }) ==> r is Ok,
            ({
                &&& spec_all_sound(old(self))
                &&& r is Ok
                &&& keys_decoding(private_keys_bytes@) matches Some(m) && (forall|j: int|
                    0 <= j < m.len() ==> key_state_sound(#[trigger] m[j].1))
            }) ==> spec_all_sound(final(self)),
            match r {
                Ok(()) => keys_decoding(private_keys_bytes@) matches Some(m) && {
                    &&& forall|i: int|
                        0 <= i < old(self).instances@.len() && no_entry_for(
                            m,
                            m.len() as int,
                            old(self).instances@[i].name@,
                        ) ==> (#[trigger] final(self).instances@[i]).instance == old(
                            self,
                        ).instances@[i].instance
                    &&& forall|i: int, j: int|
                        0 <= i < old(self).instances@.len() && #[trigger] unique_entry_at(
                            m,
                            j,
                            old(self).instances@[i].name@,
                        ) ==> spec_slot_import(
                            old(self).instances@[i].instance,
                            (#[trigger] final(self).instances@[i]).instance,
                            &old(self).config,
                            i,
                            m[j].1,
                            m[j].2,
                            *now,
                        )
                },
                Err(e) => e == Error::InvalidPrivateKeyCall || e == Error::KeySerialization,
            },
    {
        match self.is_leader {
            Some(true) => {
                return Err(Error::InvalidPrivateKeyCall);
            },
            _ => {},
        }

        let entries = match decode_keys(private_keys_bytes) {
            Ok(entries) => entries,
            Err(e) => {
                return Err(e);
            },
        };
        // The payload deserialized: this server is now a worker.
        self.is_leader = Some(false);
        let ghost m = entries_view(entries@);

        let en = entries.len();
        let n = self.instances.len();
        let mut j: usize = 0;
        while j < en
            invariant
                old(self).spec_wf(),
                old(self).config.enclave_key_sync,
                old(self).config.spec_valid_at(*now),
                old(self).is_leader != Some(true),
                self.spec_wf(),
                self.config == old(self).config,
                self.default_instance == old(self).default_instance,
                self.is_leader == Some(false),
                n == self.instances@.len() == old(self).instances@.len(),
                forall|i: int|
                    0 <= i < n ==> (#[trigger] self.instances@[i]).name@ == old(
                        self,
                    ).instances@[i].name@,
                en == entries@.len(),
                m == entries_view(entries@),
                m.len() == en,
                keys_decoding(private_keys_bytes@) == Some(m),
                j <= en,
                (spec_all_sound(old(self)) && (forall|j2: int|
                    0 <= j2 < m.len() ==> key_state_sound(#[trigger] m[j2].1)))
                    ==> spec_all_sound(self),
                forall|i: int|
                    0 <= i < n && no_entry_for(m, j as int, old(self).instances@[i].name@)
                        ==> (#[trigger] self.instances@[i]).instance == old(
                        self,
                    ).instances@[i].instance,
                forall|i: int, j1: int|
                    0 <= i < n && j1 < j && #[trigger] unique_entry_at(
                        m,
                        j1,
                        old(self).instances@[i].name@,
                    ) ==> spec_slot_import(
                        old(self).instances@[i].instance,
                        (#[trigger] self.instances@[i]).instance,
                        &old(self).config,
                        i,
                        m[j1].1,
                        m[j1].2,
                        *now,
                    ),
            decreases en - j,
        {
            proof {
                assert(m[j as int] == (entries@[j as int].0@, entries@[j as int].1@, entries@[
                j as int].2));
            }
            let idx = self.index_of(&entries[j].0);
            match idx {
                None => {
                    proof {
                        assert forall|i: int|
                            0 <= i < n && no_entry_for(
                                m,
                                j as int + 1,
                                old(self).instances@[i].name@,
                            ) implies (#[trigger] self.instances@[i]).instance == old(
                            self,
                        ).instances@[i].instance by {
                            assert(no_entry_for(m, j as int, old(self).instances@[i].name@));
                        }
                    }
                },
                Some(i) => {
                    let ghost before = self.instances@[i as int].instance;
                    if self.instances[i].instance.is_none() {
                        let mut fresh = match OPRFInstance::new_at_index(
                            &self.config,
                            i,
                            false,
                            now,
                        ) {
                            Ok(fresh) => fresh,
                            Err(_) => {
                                // Unreachable: construction without
                                // puncturing cannot fail.
                                proof {
                                    assert(false);
                                }
                                return Err(Error::KeySerialization);
                            },
                        };
                        if entries[j].2 == fresh.epoch {
                            match fresh.server.install_key(&entries[j].1) {
                                Ok(()) => {
                                    self.instances[i].instance = Some(fresh);
                                },
                                Err(e) => {
                                    proof {
                                        assert(canonical_key_of(m[j as int].1) is None);
                                        let m2 = keys_decoding(private_keys_bytes@)->Some_0;
                                        assert(m2 == m);
                                        if forall|j2: int|
                                            0 <= j2 < m2.len() ==> canonical_key_of(
                                                #[trigger] m2[j2].1,
                                            ) is Some {
                                            assert(canonical_key_of(m2[j as int].1) is Some);
                                            assert(false);
                                        }
                                    }
                                    return Err(e);
                                },
                            }
                        } else {
                            proof {
                                let k0 = choose|k: nat|
                                    {
                                        &&& #[trigger] crate::instance::is_schedule_count(
                                            crate::instance::spec_base_time(&self.config, *now),
                                            fresh.epoch_duration,
                                            now.nanos as int,
                                            k,
                                        )
                                        &&& fresh.epoch == self.config.first_epoch + k % ((
                                        self.config.last_epoch - self.config.first_epoch
                                            + 1) as nat)
                                        &&& fresh.next_rotation.nanos
                                            == crate::instance::nth_rotation(
                                            crate::instance::spec_base_time(&self.config, *now),
                                            fresh.epoch_duration,
                                            (k + 1) as nat,
                                        )
                                    };
                                assert forall|k: nat|
                                    crate::instance::is_schedule_count(
                                        crate::instance::spec_base_time(&self.config, *now),
                                        self.config.epoch_durations@[i as int],
                                        now.nanos as int,
                                        k,
                                    ) implies self.config.first_epoch + k % ((
                                self.config.last_epoch - self.config.first_epoch
                                    + 1) as nat) != entries@[j as int].2 by {
                                    crate::instance::lemma_schedule_count_unique(
                                        crate::instance::spec_base_time(&self.config, *now),
                                        fresh.epoch_duration,
                                        now.nanos as int,
                                        k,
                                        k0,
                                    );
                                }
                            }
                        }
                    } else {
                        match &mut self.instances[i].instance {
                            Some(existing) => {
                                let cur = existing.server.export_key();
                                if bytes_eq(&cur, &entries[j].1) {
                                    // Stored key already matches: nothing to update.
                                } else if entries[j].2 != existing.epoch {
                                    // The leader is ahead; this instance catches up
                                    // on its own schedule or a later push.
                                } else {
                                    match existing.server.install_key(&entries[j].1) {
                                        Ok(()) => {},
                                        Err(e) => {
                                            proof {
                                                assert(canonical_key_of(m[j as int].1) is None);
                                                let m2 = keys_decoding(
                                                    private_keys_bytes@,
                                                )->Some_0;
                                                assert(m2 == m);
                                                if forall|j2: int|
                                                    0 <= j2 < m2.len() ==> canonical_key_of(
                                                        #[trigger] m2[j2].1,
                                                    ) is Some {
                                                    assert(canonical_key_of(m2[j as int].1)
                                                        is Some);
                                                    assert(false);
                                                }
                                            }
                                            return Err(e);
                                        },
                                    }
                                }
                            },
                            None => {},
                        }
                    }
                    proof {
                        assert(spec_slot_import(
                            before,
                            self.instances@[i as int].instance,
                            &old(self).config,
                            i as int,
                            m[j as int].1,
                            m[j as int].2,
                            *now,
                        ));
                        if spec_all_sound(old(self)) && (forall|j2: int|
                            0 <= j2 < m.len() ==> key_state_sound(#[trigger] m[j2].1)) {
                            assert(key_state_sound(m[j as int].1));
                            assert forall|i2: int|
                                0 <= i2 < n implies match (#[trigger] self.instances@[i2]).instance {
                                Some(inst) => inst.server.spec_sound(),
                                None => true,
                            } by {
                                if i2 == i as int {
                                    assert(match before {
                                        Some(inst) => inst.server.spec_sound(),
                                        None => true,
                                    });
                                }
                            }
                        }
                        assert forall|i2: int|
                            0 <= i2 < n && no_entry_for(
                                m,
                                j as int + 1,
                                old(self).instances@[i2].name@,
                            ) implies (#[trigger] self.instances@[i2]).instance == old(
                            self,
                        ).instances@[i2].instance by {
                            assert(m[j as int].0 != old(self).instances@[i2].name@);
                            assert(no_entry_for(m, j as int, old(self).instances@[i2].name@));
                            assert(i2 != i);
                        }
                        assert forall|i2: int, j1: int|
                            0 <= i2 < n && j1 < j + 1 && #[trigger] unique_entry_at(
                                m,
                                j1,
                                old(self).instances@[i2].name@,
                            ) implies spec_slot_import(
                            old(self).instances@[i2].instance,
                            (#[trigger] self.instances@[i2]).instance,
                            &old(self).config,
                            i2,
                            m[j1].1,
                            m[j1].2,
                            *now,
                        ) by {
                            if j1 < j {
                                if i2 == i {
                                    assert(m[j1].0 == old(self).instances@[i2].name@);
                                    assert(m[j as int].0 == old(self).instances@[i2].name@);
                                    assert(false);
                                }
                            } else {
                                assert(j1 == j);
                                if i2 == i {
                                    assert(no_entry_for(m, j as int, old(
                                        self,
                                    ).instances@[i2].name@));
                                    assert(before == old(self).instances@[i2].instance);
                                } else {
                                    assert(m[j as int].0 == old(self).instances@[i2 as int]
                                        .name@ ==> i2 == i);
                                    assert(false);
                                }
                            }
                        }
                    }
                },
            }
            j = j + 1;
        }
        proof {
            let m2 = keys_decoding(private_keys_bytes@)->Some_0;
            assert(m2 == m);
            if spec_all_sound(old(self)) && (forall|j2: int|
                0 <= j2 < m2.len() ==> key_state_sound(#[trigger] m2[j2].1)) {
                assert forall|j2: int| 0 <= j2 < m.len() implies key_state_sound(
                    #[trigger] m[j2].1,
                ) by {
                    assert(key_state_sound(m2[j2].1));
                }
                assert(spec_all_sound(self));
            }
        }
        Ok(())
    }
}

/// Round trip of a key payload: a registry whose slots carry exactly
/// the records of a payload — the names in order, the key states, the
/// epochs — exports that payload byte-for-byte. Together with the
/// contracts of `get_private_keys` and `set_private_keys` this says
/// that exporting keys, importing them into a fresh registry with the
/// same configuration and exporting again yields identical bytes,
/// provided no rotation intervened.
pub proof fn lemma_import_then_export_identical(w: &OPRFServer, m: Seq<(Seq<char>, Seq<u8>, u8)>)
    ensures
        (w.instances@.len() == m.len() && (forall|i: int|
            0 <= i < m.len() ==> {
                &&& (#[trigger] w.instances@[i]).name@ == m[i].0
                &&& w.instances@[i].instance matches Some(inst) && inst.server.spec_key() == Some(
                    m[i].1,
                ) && inst.epoch == m[i].2
            })) ==> (spec_export_entries(w) == m && keys_encoding(spec_export_entries(w))
            == keys_encoding(m)),
{
    if w.instances@.len() == m.len() && (forall|i: int|
        0 <= i < m.len() ==> {
            &&& (#[trigger] w.instances@[i]).name@ == m[i].0
            &&& w.instances@[i].instance matches Some(inst) && inst.server.spec_key() == Some(
                m[i].1,
            ) && inst.epoch == m[i].2
        }) {
        assert(spec_export_entries(w) =~= m);
    }
}

} // verus!
