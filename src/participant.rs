//! The participant's two rounds: committing to fresh nonces, then signing
//! a coordinator's package with them.
use crate::coordinator::FrostSigningPackage;
use crate::engine::{commitment_from_seed, key_package_decodes, nonces_decode, share_verifies, signature_share_of};
use crate::{share_binding_error, FrostKeyPackage, FrostSecretKeyShare, ParticipantIdentifier};
use vstd::prelude::*;

verus! {

/// Secret nonces of one signing session. They are used by exactly one
/// call of `sign` and then thrown away: the type is not `Clone`, and `sign`
/// takes it by value. A caller that keeps a copy of the bytes and signs a
/// second package with them breaks the protocol; the engine does not detect
/// such reuse.
pub struct FrostSigningNonces {
    pub data: Vec<u8>,
}

/// The public commitment to a participant's nonces.
#[derive(Clone, Debug)]
pub struct FrostSigningCommitments {
    pub identifier: ParticipantIdentifier,
    pub data: Vec<u8>,
}

#[derive(Clone, Copy, Debug, PartialEq, Eq, Structural)]
pub enum Round1Error {
    InvalidKeyPackage,
    NonceSerializationError,
    CommitmentSerializationError,
}

#[derive(Clone, Debug)]
pub enum Round2Error {
    InvalidKeyPackage,
    NonceSerializationError,
    CommitmentSerializationError,
    SigningPackageDeserializationError,
    SigningFailed { message: String },
}

/// What round one produces: the nonces to keep and the commitments to
/// publish.
pub struct FirstRoundCommitment {
    pub nonces: FrostSigningNonces,
    pub commitments: FrostSigningCommitments,
}

/// A participant's partial signature, tagged with its identifier.
#[derive(Clone, Debug)]
pub struct FrostSignatureShare {
    pub identifier: ParticipantIdentifier,
    pub data: Vec<u8>,
}

/// The share reads, carries its declared identifier and verifies against
/// its commitment.
pub open spec fn share_usable(share: FrostSecretKeyShare) -> bool {
    share_binding_error(share) is None && share_verifies(share.data@)
}

/// Round one with the randomness given: the nonces and the commitments to
/// publish, tagged with the share's identifier, as a function of the share
/// and the seed alone.
pub fn generate_nonces_and_commitments_from_seed(secret_share: FrostSecretKeyShare, seed: [u8; 32]) -> (r: Result<FirstRoundCommitment, Round1Error>)
    ensures
        !share_usable(secret_share) ==> r == Err::<FirstRoundCommitment, Round1Error>(Round1Error::InvalidKeyPackage),
        share_usable(secret_share) ==> match commitment_from_seed(secret_share.data@, seed@) {
            (None, _) => r == Err::<FirstRoundCommitment, Round1Error>(Round1Error::NonceSerializationError),
            (Some(_), None) => r == Err::<FirstRoundCommitment, Round1Error>(Round1Error::CommitmentSerializationError),
            (Some(n), Some(c)) => r matches Ok(v) && v.nonces.data@ == n && v.commitments.data@ == c
                && v.commitments.identifier.data@ == secret_share.identifier.data@,
        },
{
    let share = match secret_share.to_secret_share() {
        Ok(b) => b,
        Err(_) => return Err(Round1Error::InvalidKeyPackage),
    };
    if !crate::engine::verify_share(&share) {
        return Err(Round1Error::InvalidKeyPackage);
    }
    match crate::engine::commit_share(&share, &seed) {
        (None, _) => Err(Round1Error::NonceSerializationError),
        (Some(_), None) => Err(Round1Error::CommitmentSerializationError),
        (Some(nonces), Some(commitments)) => Ok(FirstRoundCommitment {
            nonces: FrostSigningNonces { data: nonces },
            commitments: FrostSigningCommitments { identifier: secret_share.identifier, data: commitments },
        }),
    }
}

/// Round one: fresh nonces from a secure random source and the
/// commitments to publish, tagged with the share's identifier.
pub fn generate_nonces_and_commitments(secret_share: FrostSecretKeyShare) -> (r: Result<FirstRoundCommitment, Round1Error>)
    ensures
        !share_usable(secret_share) ==> r == Err::<FirstRoundCommitment, Round1Error>(Round1Error::InvalidKeyPackage),
        share_usable(secret_share) ==> (r is Ok || r == Err::<FirstRoundCommitment, Round1Error>(Round1Error::NonceSerializationError)
            || r == Err::<FirstRoundCommitment, Round1Error>(Round1Error::CommitmentSerializationError)),
        r matches Ok(v) ==> exists|seed: Seq<u8>| seed.len() == 32
            && #[trigger] commitment_from_seed(secret_share.data@, seed) == (Some(v.nonces.data@), Some(v.commitments.data@)),
        r matches Ok(c) ==> c.commitments.identifier.data@ == secret_share.identifier.data@,
{
    let seed = crate::engine::fresh_seed();
    generate_nonces_and_commitments_from_seed(secret_share, seed)
}

/// Round two: this participant's signature share for the package, made with
/// the nonces it committed to in round one. The nonces are consumed.
pub fn sign(signing_package: FrostSigningPackage, nonces: FrostSigningNonces, key_package: FrostKeyPackage) -> (r: Result<FrostSignatureShare, Round2Error>)
    ensures
        signing_package.engine_bytes() is None ==> r matches Err(Round2Error::SigningPackageDeserializationError),
        signing_package.engine_bytes() is Some && !nonces_decode(nonces.data@) ==> r matches Err(Round2Error::NonceSerializationError),
        signing_package.engine_bytes() is Some && nonces_decode(nonces.data@) && !key_package_decodes(key_package.data@)
            ==> r matches Err(Round2Error::InvalidKeyPackage),
        signing_package.engine_bytes() is Some && nonces_decode(nonces.data@) && key_package_decodes(key_package.data@)
            ==> match signature_share_of(signing_package.engine_bytes().unwrap(), nonces.data@, key_package.data@) {
                Some(z) => r matches Ok(s) && s.identifier.data@ == z.0 && s.data@ == z.1,
                None => r matches Err(Round2Error::SigningFailed { .. }),
            },
{
    let package = match signing_package.to_signing_package() {
        Some(b) => b,
        None => return Err(Round2Error::SigningPackageDeserializationError),
    };
    if !crate::engine::check_nonces(&nonces.data) {
        return Err(Round2Error::NonceSerializationError);
    }
    let key_package = match key_package.into_key_package() {
        Ok(b) => b,
        Err(_) => return Err(Round2Error::InvalidKeyPackage),
    };
    match crate::engine::sign_round2(&package, &nonces.data, &key_package) {
        Ok((identifier, data)) => Ok(FrostSignatureShare { identifier: ParticipantIdentifier { data: identifier }, data }),
        Err(message) => Err(Round2Error::SigningFailed { message }),
    }
}

} // verus!
