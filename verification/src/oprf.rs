//! Trusted boundary to the `ppoprf` crate.
//!
//! The PPOPRF primitive is kept behind `Ppoprf`, which pairs the
//! opaque server value with three ghost views: the set of tags this
//! process has punctured on the current key value, the exported
//! private-key bytes, and whether the key state is exporter-grade.
//! Evaluation and public-key serialization are deterministic
//! functions of the exported state, which the uninterpreted functions
//! below name.
//!
//! Soundness matters because `ppoprf` trusts its own key material:
//! its GGM tree walk indexes a two-element generator vector and
//! copies prefix tails it expects to be 32 bytes, so a crafted key
//! state that merely deserializes can make evaluation or puncturing
//! panic. States produced by the crate itself — fresh keys, punctured
//! keys, exports thereof — always have that shape; `key_state_sound`
//! names the property, and the operations that walk the tree require
//! it.

use vstd::prelude::*;

use crate::result::Error;

verus! {

/// Byte length of a compressed Ristretto point.
pub const COMPRESSED_POINT_LEN: usize = 32;

#[verifier::external_type_specification]
#[verifier::external_body]
pub struct ExPpoprfServer(ppoprf::ppoprf::Server);

/// What `ppoprf::ppoprf::Server::eval` (with proofs disabled) returns
/// for a server whose exported private-key state is `key`: the
/// serialized output point, or `None` if the call errors (unknown or
/// punctured tag, undecodable point). Evaluation reads only the key
/// state, the point and the tag, so this is a function of its
/// arguments.
pub uninterp spec fn eval_of(key: Seq<u8>, point: Seq<u8>, md: u8) -> Option<Seq<u8>>;

/// The serialized public key of a server whose exported private-key
/// state is `key`. The public key is a component of the exported
/// state, so this is a function of it.
pub uninterp spec fn public_key_of(key: Seq<u8>) -> Seq<u8>;

/// What serializing the key state parsed from `bytes` yields: `None`
/// if `bytes` does not deserialize, otherwise the canonical re-encoding
/// (equal to `bytes` whenever `bytes` itself came out of the
/// serializer).
pub uninterp spec fn canonical_key_of(bytes: Seq<u8>) -> Option<Seq<u8>>;

/// The key state parsed from `bytes` is exporter-grade: a state the
/// crate's own key generation, puncturing and export can produce, on
/// which evaluation and puncturing are panic-free. Merely
/// deserializable states need not have this property.
pub uninterp spec fn key_state_sound(bytes: Seq<u8>) -> bool;

/// A PPOPRF server value together with ghost bookkeeping.
pub struct Ppoprf {
    raw: ppoprf::ppoprf::Server,
    punctured: Ghost<Set<u8>>,
    key_view: Ghost<Option<Seq<u8>>>,
    sound: Ghost<bool>,
}

impl Ppoprf {
    /// Tags this process has successfully punctured on the current key
    /// value.
    pub closed spec fn spec_punctured(&self) -> Set<u8> {
        self.punctured@
    }

    /// Exported private-key bytes, when known: recorded on key export
    /// or import, forgotten when the key mutates, re-learnt by the
    /// next export.
    pub closed spec fn spec_key(&self) -> Option<Seq<u8>> {
        self.key_view@
    }

    /// The key state is exporter-grade (see `key_state_sound`):
    /// evaluation and puncturing cannot panic on it.
    pub closed spec fn spec_sound(&self) -> bool {
        self.sound@
    }

    /// Relies on `ppoprf::ppoprf::Server::new`: constructs a fresh
    /// server over the given tag set with a newly drawn random key.
    /// It cannot fail: the GGM evaluation it performs per tag walks a
    /// freshly generated two-generator tree with one-byte inputs,
    /// which always finds its prefix.
    #[verifier::external_body]
    fn new_raw(tags: Vec<u8>) -> ppoprf::ppoprf::Server {
        ppoprf::ppoprf::Server::new(tags)
            .expect("constructing a PPOPRF over a fresh key cannot fail")
    }

    /// A fresh server over the given tag set: nothing has been
    /// punctured on it by this process, its key state is
    /// exporter-grade, and its exported bytes are recorded.
    pub(crate) fn new(tags: Vec<u8>) -> (p: Ppoprf)
        ensures
            p.spec_punctured() == Set::<u8>::empty(),
            p.spec_key() is Some,
            p.spec_sound(),
    {
        let raw = Self::new_raw(tags);
        let mut p = Ppoprf {
            raw,
            punctured: Ghost(Set::empty()),
            key_view: Ghost(None),
            sound: Ghost(true),
        };
        // Read the fresh key state back so that its bytes are on
        // record from the start.
        let _key_bytes = p.export_key();
        p
    }

    /// Relies on `ppoprf::ppoprf::Server::eval` with `verifiable =
    /// false`: deterministic in the key state, the point and the tag;
    /// a successful evaluation yields a compressed point. Panic-free
    /// only on exporter-grade key states, hence the precondition.
    #[verifier::external_body]
    pub(crate) fn eval(&self, point: &Vec<u8>, md: u8) -> (r: Result<Vec<u8>, Error>)
        requires
            point@.len() == COMPRESSED_POINT_LEN,
            self.spec_sound(),
        ensures
            match r {
                Ok(out) => out@.len() == COMPRESSED_POINT_LEN && (self.spec_key() matches Some(k)
                    ==> eval_of(k, point@, md) == Some(out@)),
                Err(e) => e == Error::Oprf && (self.spec_key() matches Some(k) ==> eval_of(
                    k,
                    point@,
                    md,
                ) is None),
            },
    {
        let p = ppoprf::ppoprf::Point::from(point.as_slice());
        match self.raw.eval(&p, md, false) {
            Ok(evaluation) => Ok(evaluation.output.as_bytes().to_vec()),
            Err(_) => Err(Error::Oprf),
        }
    }

    /// Relies on `ppoprf::ppoprf::Server::puncture`: on success the tag
    /// is removed from the key, which takes a new, still
    /// exporter-grade value; on failure (unknown or already punctured
    /// tag) the puncture set is unchanged. Either way the exported
    /// state must be re-read before it is known again. Panic-free only
    /// on exporter-grade key states, hence the precondition.
    #[verifier::external_body]
    pub(crate) fn puncture(&mut self, md: u8) -> (r: Result<(), Error>)
        requires
            old(self).spec_sound(),
        ensures
            final(self).spec_key() is None,
            final(self).spec_sound(),
            match r {
                Ok(()) => final(self).spec_punctured() == old(self).spec_punctured().insert(md),
                Err(e) => e == Error::Oprf && final(self).spec_punctured() == old(self).spec_punctured(),
            },
    {
        match self.raw.puncture(md) {
            Ok(()) => Ok(()),
            Err(_) => Err(Error::Oprf),
        }
    }

    /// Relies on `ppoprf::ppoprf::Server::get_private_key` and
    /// `bincode::serialize`: exporting is a pure, deterministic read
    /// of the key state, so the result both reveals and matches the
    /// recorded state, re-encoding what it parses to yields the same
    /// bytes, and an exporter-grade state exports exporter-grade
    /// bytes. Serialization of these types cannot fail: `bincode` 1.3
    /// with its default unbounded configuration errors only on size
    /// limits or custom serializer errors, and neither arises. The
    /// receiver is mutable only so that the revealed state can be
    /// recorded in the ghost view; the key itself is not touched.
    #[verifier::external_body]
    pub(crate) fn export_key(&mut self) -> (bytes: Vec<u8>)
        ensures
            old(self).spec_key() matches Some(k) ==> bytes@ == k,
            final(self).spec_key() == Some(bytes@),
            final(self).spec_punctured() == old(self).spec_punctured(),
            final(self).spec_sound() == old(self).spec_sound(),
            canonical_key_of(bytes@) == Some(bytes@),
            old(self).spec_sound() ==> key_state_sound(bytes@),
    {
        bincode::serialize(&self.raw.get_private_key())
            .expect("serializing a key state cannot fail")
    }

    /// Relies on `bincode::deserialize::<ServerKeyState>` and
    /// `ppoprf::ppoprf::Server::set_private_key`: a parsable payload
    /// replaces the whole key state, so the exported state becomes the
    /// canonical re-encoding of the payload, nothing counts as
    /// punctured by this process on the new value, and the new state
    /// is exporter-grade exactly when the payload was.
    #[verifier::external_body]
    pub(crate) fn install_key(&mut self, bytes: &Vec<u8>) -> (r: Result<(), Error>)
        ensures
            match r {
                Ok(()) => {
                    &&& canonical_key_of(bytes@) is Some
                    &&& final(self).spec_key() == canonical_key_of(bytes@)
                    &&& final(self).spec_punctured() == Set::<u8>::empty()
                    &&& final(self).spec_sound() == key_state_sound(bytes@)
                },
                Err(e) => {
                    &&& e == Error::KeySerialization
                    &&& canonical_key_of(bytes@) is None
                    &&& *final(self) == *old(self)
                },
            },
    {
        match bincode::deserialize::<ppoprf::ppoprf::ServerKeyState>(bytes.as_slice()) {
            Ok(state) => {
                self.raw.set_private_key(state);
                Ok(())
            },
            Err(_) => Err(Error::KeySerialization),
        }
    }

    /// Relies on `ppoprf::ppoprf::Server::get_public_key` and
    /// `bincode::serialize`: the public key is a component of the key
    /// state and its serialization is deterministic. As in
    /// `export_key`, serialization of this type cannot fail.
    #[verifier::external_body]
    pub(crate) fn public_key(&self) -> (bytes: Vec<u8>)
        ensures
            self.spec_key() matches Some(k) ==> bytes@ == public_key_of(k),
    {
        bincode::serialize(&self.raw.get_public_key())
            .expect("serializing a public key cannot fail")
    }
}

} // verus!
