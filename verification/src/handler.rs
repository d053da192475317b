//! Request handling: evaluation, metadata and key-sync entry points.
//!
//! The HTTP layer outside this crate parses bodies into the request
//! structures here, hands them to these functions under the
//! appropriate instance lock, and renders the results.

use vstd::prelude::*;

use crate::clock::Timestamp;
use crate::codec::{b64_decoded, b64_of, base64_decode, base64_encode, keys_encoding};
use crate::instance::OPRFInstance;
use crate::oprf::{eval_of, public_key_of, COMPRESSED_POINT_LEN};
use crate::result::Error;
use crate::state::{spec_all_sound, spec_export_entries, OPRFServer};
use crate::MAX_POINTS;

verus! {

/// Request structure for the randomness endpoint.
#[derive(Debug)]
pub struct RandomnessRequest {
    /// Array of points to evaluate. Should be base64-encoded,
    /// compressed Ristretto curve points.
    pub points: Vec<String>,
    /// Optional request for evaluation within a specific epoch.
    pub epoch: Option<u8>,
}

/// Response structure for the randomness endpoint.
#[derive(Debug)]
pub struct RandomnessResponse {
    /// Resulting points from the OPRF evaluation, base64-encoded, in
    /// one-to-one correspondence with the request points array.
    pub points: Vec<String>,
    /// Randomness epoch used in the evaluation.
    pub epoch: u8,
}

/// Response structure for the info endpoint.
#[derive(Debug)]
pub struct InfoResponse {
    /// Public key to verify zero-knowledge proofs, base64-encoded.
    pub public_key: String,
    /// Currently active randomness epoch.
    pub current_epoch: u8,
    /// Timestamp of the next epoch rotation, in RFC 3339 format.
    pub next_epoch_time: String,
    /// Maximum number of points accepted in a single request.
    pub max_points: usize,
}

/// Response structure for the "list instances" endpoint.
#[derive(Debug)]
pub struct ListInstancesResponse {
    /// A list of available instances on the server.
    pub instances: Vec<String>,
    /// The default instance, used by requests that name none.
    pub default_instance: String,
}

/// The rendered texts of a list of strings.
pub open spec fn strings_view(v: Seq<String>) -> Seq<Seq<char>> {
    v.map_values(|s: String| s@)
}

/// The string is base64 of a compressed point of the right length.
pub open spec fn decodes_ok(s: Seq<char>) -> bool {
    b64_decoded(s) matches Some(b) && b.len() == COMPRESSED_POINT_LEN
}

/// The epoch a request asks for: its own, or the active one.
pub open spec fn spec_requested_epoch(request: &RandomnessRequest, active: u8) -> u8 {
    match request.epoch {
        Some(e) => e,
        None => active,
    }
}

/// The outcome of evaluating a batch of encoded points under a server
/// whose exported key state is `k`: each point in order is decoded
/// (else `Base64`), must have the compressed-point length (else
/// `BadPoint`) and is evaluated (else `Oprf`); the first failure
/// decides, and on success the encoded outputs correspond one-to-one.
pub open spec fn spec_eval_points(k: Seq<u8>, points: Seq<Seq<char>>, tag: u8) -> Result<
    Seq<Seq<char>>,
    Error,
>
    decreases points.len(),
{
    if points.len() == 0 {
        Ok(Seq::empty())
    } else {
        match b64_decoded(points[0]) {
            None => Err(Error::Base64),
            Some(b) => {
                if b.len() != COMPRESSED_POINT_LEN {
                    Err(Error::BadPoint)
                } else {
                    match eval_of(k, b, tag) {
                        None => Err(Error::Oprf),
                        Some(o) => match spec_eval_points(k, points.drop_first(), tag) {
                            Ok(rest) => Ok(seq![b64_of(o)] + rest),
                            Err(e) => Err(e),
                        },
                    }
                }
            },
        }
    }
}

/// Prefix already produced, composed with the outcome of the rest.
pub open spec fn spec_prepend(prefix: Seq<Seq<char>>, rest: Result<Seq<Seq<char>>, Error>) -> Result<
    Seq<Seq<char>>,
    Error,
> {
    match rest {
        Ok(outs) => Ok(prefix + outs),
        Err(e) => Err(e),
    }
}

/// What an evaluation request returns against a given slot.
///
/// An empty slot is still awaiting key material. Otherwise a request
/// for any epoch other than the active one is refused as `BadEpoch`
/// before anything is evaluated, an over-long batch as
/// `TooManyPoints` — each exactly when its condition holds. An
/// accepted batch follows `spec_eval_points` exactly whenever the
/// slot's key state is known, which it is for every instance this
/// library builds; whatever the key, a successful response reports
/// the active epoch and one well-formed output per input, a `Base64`
/// refusal names an undecodable point whose predecessors all decoded
/// to full-length points, and a `BadPoint` refusal likewise names the
/// offending length.
pub open spec fn spec_randomness_outcome(
    slot: Option<OPRFInstance>,
    request: &RandomnessRequest,
    r: Result<RandomnessResponse, Error>,
) -> bool {
    match slot {
        None => r == Err::<RandomnessResponse, Error>(Error::PPOPRFNotReady),
        Some(inst) => {
            let tag = spec_requested_epoch(request, inst.epoch);
            let pts = strings_view(request.points@);
            &&& ((tag != inst.epoch) <==> r == Err::<RandomnessResponse, Error>(
                Error::BadEpoch(tag),
            ))
            &&& ((tag == inst.epoch && pts.len() > MAX_POINTS) <==> r == Err::<
                RandomnessResponse,
                Error,
            >(Error::TooManyPoints))
            &&& (tag == inst.epoch && pts.len() <= MAX_POINTS) ==> {
                &&& (inst.server.spec_key() matches Some(k) ==> match spec_eval_points(
                    k,
                    pts,
                    tag,
                ) {
                    Ok(outs) => r matches Ok(resp) && resp.epoch == tag && strings_view(
                        resp.points@,
                    ) == outs,
                    Err(e) => r == Err::<RandomnessResponse, Error>(e),
                })
                &&& (r matches Ok(resp) ==> {
                    &&& resp.epoch == tag
                    &&& resp.points@.len() == pts.len()
                    &&& forall|pi: int|
                        0 <= pi < pts.len() ==> ((#[trigger] b64_decoded(pts[pi])) matches Some(b)
                            && b.len() == COMPRESSED_POINT_LEN)
                    &&& forall|pi: int|
                        0 <= pi < pts.len() ==> exists|o: Seq<u8>|
                            o.len() == COMPRESSED_POINT_LEN && (#[trigger] strings_view(
                                resp.points@,
                            )[pi]) == b64_of(o)
                })
                &&& (r matches Err(e) ==> e == Error::Base64 || e == Error::BadPoint || e
                    == Error::Oprf)
                &&& (r == Err::<RandomnessResponse, Error>(Error::Base64) ==> exists|pi: int|
                    0 <= pi < pts.len() && (#[trigger] b64_decoded(pts[pi])) is None && (
                    forall|pj: int| 0 <= pj < pi ==> decodes_ok(#[trigger] pts[pj])))
                &&& (r == Err::<RandomnessResponse, Error>(Error::BadPoint) ==> exists|pi: int|
                    0 <= pi < pts.len() && ((#[trigger] b64_decoded(pts[pi])) matches Some(b)
                        && b.len() != COMPRESSED_POINT_LEN) && (forall|pj: int|
                        0 <= pj < pi ==> decodes_ok(#[trigger] pts[pj])))
            }
        },
    }
}

/// Process a PPOPRF evaluation request against the named instance.
pub fn randomness(server: &OPRFServer, instance_name: &String, request: &RandomnessRequest) -> (r:
    Result<RandomnessResponse, Error>)
    requires
        server.spec_wf(),
        spec_all_sound(server),
    ensures
        (forall|i: int|
            0 <= i < server.instances@.len() ==> (#[trigger] server.instances@[i]).name@
                != instance_name@) ==> (r matches Err(e) && e matches Error::InstanceNotFound(n)
            && n@ == instance_name@),
        forall|i: int|
            0 <= i < server.instances@.len() && (#[trigger] server.instances@[i]).name@
                == instance_name@ ==> spec_randomness_outcome(
                server.instances@[i].instance,
                request,
                r,
            ),
{
    let idx = match server.index_of(instance_name) {
        Some(idx) => idx,
        None => {
            return Err(Error::InstanceNotFound(instance_name.clone()));
        },
    };
    match &server.instances[idx].instance {
        None => {
            proof {
                lemma_slot_unique(server, idx as int, instance_name@);
            }
            Err(Error::PPOPRFNotReady)
        },
        Some(inst) => {
            let epoch = match request.epoch {
                Some(e) => e,
                None => inst.epoch,
            };
            proof {
                lemma_slot_unique(server, idx as int, instance_name@);
            }
            if epoch != inst.epoch {
                return Err(Error::BadEpoch(epoch));
            }
            if request.points.len() > MAX_POINTS {
                return Err(Error::TooManyPoints);
            }
            let ghost pts = strings_view(request.points@);
            let ghost kopt = inst.server.spec_key();
            let n = request.points.len();
            let mut points: Vec<String> = Vec::new();
            let mut i: usize = 0;
            proof {
                assert(pts.skip(0) =~= pts);
                assert(strings_view(points@) =~= Seq::<Seq<char>>::empty());
                match kopt {
                    Some(k) => {
                        assert(spec_prepend(
                            strings_view(points@),
                            spec_eval_points(k, pts.skip(0), epoch),
                        ) == spec_eval_points(k, pts, epoch)) by {
                            match spec_eval_points(k, pts, epoch) {
                                Ok(outs) => {
                                    assert(strings_view(points@) + outs =~= outs);
                                },
                                Err(_) => {},
                            }
                        }
                    },
                    None => {},
                }
            }
            while i < n
                invariant
                    server.spec_wf(),
                    idx < server.instances@.len(),
                    server.instances@[idx as int].name@ == instance_name@,
                    server.instances@[idx as int].instance == Some(*inst),
                    inst.server.spec_sound(),
                    forall|i2: int|
                        0 <= i2 < server.instances@.len()
                            && (#[trigger] server.instances@[i2]).name@ == instance_name@
                            ==> i2 == idx,
                    n == request.points@.len(),
                    pts == strings_view(request.points@),
                    pts.len() == n,
                    n <= MAX_POINTS,
                    epoch == inst.epoch,
                    spec_requested_epoch(request, inst.epoch) == epoch,
                    i <= n,
                    points@.len() == i,
                    kopt == inst.server.spec_key(),
                    kopt matches Some(k) ==> spec_eval_points(k, pts, epoch) == spec_prepend(
                        strings_view(points@),
                        spec_eval_points(k, pts.skip(i as int), epoch),
                    ),
                    forall|pi: int|
                        0 <= pi < i ==> ((#[trigger] b64_decoded(pts[pi])) matches Some(b)
                            && b.len() == COMPRESSED_POINT_LEN),
                    forall|pi: int|
                        0 <= pi < i ==> exists|o: Seq<u8>|
                            o.len() == COMPRESSED_POINT_LEN && (#[trigger] strings_view(
                                points@,
                            )[pi]) == b64_of(o),
                decreases n - i,
            {
                proof {
                    assert(pts[i as int] == request.points@[i as int]@);
                    assert(pts.skip(i as int)[0] == pts[i as int]);
                    assert(pts.skip(i as int).drop_first() =~= pts.skip(i as int + 1));
                }
                let input = match base64_decode(request.points[i].as_str()) {
                    Ok(input) => input,
                    Err(e) => {
                        proof {
                            assert(b64_decoded(pts[i as int]) is None);
                        }
                        return Err(e);
                    },
                };
                if input.len() != COMPRESSED_POINT_LEN {
                    proof {
                        assert(b64_decoded(pts[i as int]) matches Some(b) && b.len()
                            != COMPRESSED_POINT_LEN);
                    }
                    return Err(Error::BadPoint);
                }
                let evaluation = match inst.server.eval(&input, epoch) {
                    Ok(evaluation) => evaluation,
                    Err(e) => {
                        return Err(e);
                    },
                };
                let encoded = base64_encode(&evaluation);
                let ghost points_before = points@;
                points.push(encoded);
                proof {
                    assert(strings_view(points@) =~= strings_view(points_before) + seq![
                        encoded@,
                    ]);
                    assert(strings_view(points@)[i as int] == b64_of(evaluation@));
                    match kopt {
                        Some(k) => {
                            match spec_eval_points(k, pts.skip(i as int + 1), epoch) {
                                Ok(routs) => {
                                    assert(strings_view(points_before) + (seq![b64_of(
                                        evaluation@,
                                    )] + routs) =~= strings_view(points@) + routs);
                                },
                                Err(_) => {},
                            }
                        },
                        None => {},
                    }
                }
                i = i + 1;
            }
            proof {
                assert(pts.skip(n as int) =~= Seq::<Seq<char>>::empty());
                match kopt {
                    Some(k) => {
                        match spec_eval_points(k, pts, epoch) {
                            Ok(outs) => {
                                assert(strings_view(points@) + Seq::<Seq<char>>::empty()
                                    =~= strings_view(points@));
                            },
                            Err(_) => {},
                        }
                    },
                    None => {},
                }
            }
            Ok(RandomnessResponse { points, epoch })
        },
    }
}

/// What a metadata request returns against a given slot: an empty
/// slot is still awaiting key material; a populated slot always
/// answers with the active epoch, the published rotation time, the
/// point cap, and the instance's serialized public key in base64 —
/// the key itself pinned down whenever the slot's key state is known.
pub open spec fn spec_info_outcome(slot: Option<OPRFInstance>, r: Result<InfoResponse, Error>) -> bool {
    match slot {
        None => r == Err::<InfoResponse, Error>(Error::PPOPRFNotReady),
        Some(inst) => r matches Ok(resp) && {
            &&& resp.current_epoch == inst.epoch
            &&& resp.next_epoch_time@ == inst.next_epoch_time@
            &&& resp.max_points == MAX_POINTS
            &&& (inst.server.spec_key() matches Some(k) ==> resp.public_key@ == b64_of(
                public_key_of(k),
            ))
            &&& exists|pk: Seq<u8>| resp.public_key@ == b64_of(pk)
        },
    }
}

/// Provide PPOPRF epoch and key metadata for the named instance.
pub fn info(server: &OPRFServer, instance_name: &String) -> (r: Result<InfoResponse, Error>)
    requires
        server.spec_wf(),
    ensures
        (forall|i: int|
            0 <= i < server.instances@.len() ==> (#[trigger] server.instances@[i]).name@
                != instance_name@) ==> (r matches Err(e) && e matches Error::InstanceNotFound(n)
            && n@ == instance_name@),
        forall|i: int|
            0 <= i < server.instances@.len() && (#[trigger] server.instances@[i]).name@
                == instance_name@ ==> spec_info_outcome(server.instances@[i].instance, r),
{
    let idx = match server.index_of(instance_name) {
        Some(idx) => idx,
        None => {
            return Err(Error::InstanceNotFound(instance_name.clone()));
        },
    };
    proof {
        lemma_slot_unique(server, idx as int, instance_name@);
    }
    match &server.instances[idx].instance {
        None => Err(Error::PPOPRFNotReady),
        Some(inst) => {
            let public_key_bytes = inst.server.public_key();
            let public_key = base64_encode(&public_key_bytes);
            Ok(
                InfoResponse {
                    public_key,
                    current_epoch: inst.epoch,
                    next_epoch_time: inst.next_epoch_time.clone(),
                    max_points: MAX_POINTS,
                },
            )
        },
    }
}

/// List all available instances, and the default instance.
pub fn list_instances(server: &OPRFServer) -> (resp: ListInstancesResponse)
    ensures
        resp.instances@.len() == server.instances@.len(),
        forall|i: int|
            0 <= i < server.instances@.len() ==> (#[trigger] resp.instances@[i])@
                == server.instances@[i].name@,
        resp.default_instance@ == server.default_instance@,
{
    let n = server.instances.len();
    let mut instances: Vec<String> = Vec::new();
    for i in 0..n
        invariant
            n == server.instances@.len(),
            instances@.len() == i,
            forall|j: int|
                0 <= j < i ==> (#[trigger] instances@[j])@ == server.instances@[j].name@,
    {
        instances.push(server.instances[i].name.clone());
    }
    ListInstancesResponse { instances, default_instance: server.default_instance.clone() }
}

/// Generate and export keys so that the host can forward them to
/// worker enclaves: populate any empty slots, then export. The first
/// successful call latches the leader role.
pub fn get_ppoprf_private_key(server: &mut OPRFServer, now: &Timestamp) -> (r: Result<
    Vec<u8>,
    Error,
>)
    requires
        old(server).spec_wf(),
        old(server).config.enclave_key_sync,
        old(server).config.spec_valid_at(*now),
    ensures
        final(server).spec_wf(),
        final(server).config == old(server).config,
        final(server).default_instance == old(server).default_instance,
        final(server).instances@.len() == old(server).instances@.len(),
        r == Err::<Vec<u8>, Error>(Error::InvalidPrivateKeyCall) ==> old(server).is_leader
            == Some(false),
        old(server).is_leader == Some(false) ==> (r == Err::<Vec<u8>, Error>(
            Error::InvalidPrivateKeyCall,
        ) || r == Err::<Vec<u8>, Error>(Error::Oprf)),
        ({
            &&& old(server).is_leader != Some(false)
            &&& forall|i: int|
                0 <= i < old(server).instances@.len() ==> (#[trigger] old(
                    server,
                ).instances@[i]).instance is Some
        }) ==> r is Ok,
        match r {
            Ok(bytes) => {
                &&& final(server).is_leader == Some(true)
                &&& crate::state::spec_all_keys_known(final(server))
                &&& bytes@ == keys_encoding(spec_export_entries(final(server)))
                &&& crate::codec::keys_decoding(bytes@) == Some(spec_export_entries(final(server)))
            },
            Err(e) => e == Error::InvalidPrivateKeyCall || e == Error::Oprf,
        },
{
    match server.create_missing_instances(now) {
        Ok(()) => {},
        Err(e) => {
            return Err(e);
        },
    }
    server.get_private_keys()
}

/// A punctured tag can no longer be evaluated: on a well-formed
/// instance every tag this process punctured on the current key value
/// lies strictly below the active tag, so an evaluation request for
/// it is answered `BadEpoch` — the PPOPRF is never consulted.
pub proof fn lemma_punctured_tag_rejected(
    inst: OPRFInstance,
    first_epoch: u8,
    last_epoch: u8,
    request: &RandomnessRequest,
    r: Result<RandomnessResponse, Error>,
)
    ensures
        (inst.spec_wf(first_epoch, last_epoch) && inst.server.spec_punctured().contains(
            spec_requested_epoch(request, inst.epoch),
        ) && spec_randomness_outcome(Some(inst), request, r)) ==> r == Err::<
            RandomnessResponse,
            Error,
        >(Error::BadEpoch(spec_requested_epoch(request, inst.epoch))),
{
}

/// Within a well-formed registry a name selects at most one slot.
proof fn lemma_slot_unique(server: &OPRFServer, idx: int, name: Seq<char>)
    requires
        server.spec_wf(),
        0 <= idx < server.instances@.len(),
        server.instances@[idx].name@ == name,
    ensures
        forall|i: int|
            0 <= i < server.instances@.len() && (#[trigger] server.instances@[i]).name@ == name
                ==> i == idx,
{
    assert forall|i: int|
        0 <= i < server.instances@.len() && (#[trigger] server.instances@[i]).name@ == name
        implies i == idx by {
        if i < idx {
            assert(server.config.instance_names@[i]@ != server.config.instance_names@[idx]@);
        } else if idx < i {
            assert(server.config.instance_names@[idx]@ != server.config.instance_names@[i]@);
        }
    }
}

} // verus!
