//! The signature engine: every call into frost-ed25519 goes through this
//! module. Engine values cross it as their byte serializations.
use frost_ed25519 as frost;
use frost_ed25519::keys::{IdentifierList, KeyPackage, PublicKeyPackage, SecretShare, VerifyingShare};
use frost_ed25519::round1::{SigningCommitments, SigningNonces};
use frost_ed25519::{Identifier, SigningKey, SigningPackage, VerifyingKey};
use rand::thread_rng;
use std::collections::BTreeMap;
use crate::bytes::{firsts, one_each, pair_views, views};
use vstd::utf8::{decode_utf8, valid_utf8};
use vstd::prelude::*;

verus! {

/// The order of the Ed25519 prime-order subgroup, 2^252 plus a 125-bit
/// constant.
pub open spec fn group_order() -> nat {
    0x1_0000_0000_0000_0000 * 0x1_0000_0000_0000_0000 * 0x1_0000_0000_0000_0000 * 0x1000_0000_0000_0000
        + 0x14de_f9de_a2f7_9cd6_5812_631a_5cf5_d3ed
}

/// The value of a little-endian byte string.
pub open spec fn le_value(b: Seq<u8>) -> nat
    decreases b.len(),
{
    if b.len() == 0 {
        0
    } else {
        b[0] as nat + 256 * le_value(b.drop_first())
    }
}

/// Whether 32 bytes are the canonical encoding of a nonzero scalar, which is
/// what the engine accepts as a participant identifier.
pub open spec fn identifier_accepts(b: Seq<u8>) -> bool {
    0 < le_value(b) < group_order()
}

/// The identifier embedded in a serialized secret share, where the engine
/// can read the share at all.
pub uninterp spec fn share_identifier(b: Seq<u8>) -> Option<Seq<u8>>;

/// Whether a serialized secret share is consistent with its own
/// verifiable secret-sharing commitment.
pub uninterp spec fn share_verifies(b: Seq<u8>) -> bool;

/// The serialized key package that the engine derives from a serialized
/// secret share, where the share reads and verifies.
pub uninterp spec fn key_package_from_share(b: Seq<u8>) -> Option<Seq<u8>>;

/// The serialized engine signing package for a message and the
/// commitments of the given identifiers, where every part reads.
pub uninterp spec fn engine_signing_package(message: Seq<u8>, ids: Seq<Seq<u8>>, commitments: Seq<Seq<u8>>) -> Option<Seq<u8>>;

/// Whether a byte string deserializes to engine signing nonces.
pub uninterp spec fn nonces_decode(b: Seq<u8>) -> bool;

/// Whether a byte string deserializes to an engine key package.
pub uninterp spec fn key_package_decodes(b: Seq<u8>) -> bool;

/// Whether a 64-byte signature verifies for a message under a 32-byte
/// group verifying key.
pub uninterp spec fn signature_verifies(key: Seq<u8>, message: Seq<u8>, sig: Seq<u8>) -> bool;

/// The verifying shares (identifier, serialized share) and the serialized
/// group key held in a serialized public key package, where it reads.
pub uninterp spec fn public_parts_of(b: Seq<u8>) -> Option<(Seq<(Seq<u8>, Seq<u8>)>, Seq<u8>)>;

/// The engine's round-two signature share (signer identifier, serialized
/// share) for a serialized package, nonces and key package.
pub uninterp spec fn signature_share_of(package: Seq<u8>, nonces: Seq<u8>, key_package: Seq<u8>) -> Option<(Seq<u8>, Seq<u8>)>;

/// The serialized engine public key package for the given verifying
/// shares and group key, where every part reads.
pub uninterp spec fn engine_public_key_package(shares: Seq<(Seq<u8>, Seq<u8>)>, key: Seq<u8>) -> Option<Seq<u8>>;

/// The 64-byte group signature the engine aggregates from a serialized
/// package, signature shares and public key package, where all of them
/// read and every share verifies.
pub uninterp spec fn aggregate_of(package: Seq<u8>, shares: Seq<(Seq<u8>, Seq<u8>)>, public_keys: Seq<u8>) -> Option<Seq<u8>>;

/// What a trusted-dealer key generation hands back: (identifier, serialized
/// secret share) for each participant, and the serialized public key
/// package.
pub type Dealt = (Vec<(Vec<u8>, Vec<u8>)>, Vec<u8>);

/// The parts of a public key package: (identifier, serialized verifying
/// share) for each participant, and the serialized group verifying key.
pub type PublicParts = (Vec<(Vec<u8>, Vec<u8>)>, Vec<u8>);

/// Relies on frost_ed25519::Identifier::deserialize, which accepts exactly
/// the canonical encodings of nonzero scalars: curve25519-dalek's
/// Scalar::from_canonical_bytes takes values below the group order, and
/// Identifier::new refuses zero.
#[verifier::external_body]
pub(crate) fn identifier_is_valid(b: &Vec<u8>) -> (r: bool)
    requires
        b@.len() == 32,
    ensures
        r == identifier_accepts(b@),
{
    let a: [u8; 32] = b.as_slice().try_into().unwrap();
    Identifier::deserialize(&a).is_ok()
}

/// Relies on frost_ed25519::keys::generate_with_dealer with a custom
/// identifier list: a fresh random group key split among the identifiers,
/// each share keyed by the identifier it carries.
#[verifier::external_body]
pub(crate) fn deal_random_key(min: u16, max: u16, ids: &Vec<Vec<u8>>) -> (r: Option<Dealt>)
    ensures
        r matches Some(d) ==> one_each(firsts(pair_views(d.0@)), views(ids@)),
        r matches Some(d) ==> forall|i: int| 0 <= i < d.0@.len() ==> share_identifier((#[trigger] d.0@[i]).1@) == Some(d.0@[i].0@),
{
    let ids = ids.iter().map(|b| Identifier::deserialize(b.as_slice().try_into().ok()?).ok()).collect::<Option<Vec<_>>>()?;
    let (shares, pkp) = frost::keys::generate_with_dealer(max, min, IdentifierList::Custom(&ids), &mut thread_rng()).ok()?;
    let shares = shares.iter().map(|(i, s)| Some((i.serialize().to_vec(), s.serialize().ok()?))).collect::<Option<Vec<_>>>()?;
    Some((shares, pkp.serialize().ok()?))
}

/// Relies on frost_ed25519::keys::split with a custom identifier list: the
/// given 32-byte signing key split among the identifiers, each share keyed
/// by the identifier it carries.
#[verifier::external_body]
pub(crate) fn deal_given_key(secret: &Vec<u8>, min: u16, max: u16, ids: &Vec<Vec<u8>>) -> (r: Option<Dealt>)
    ensures
        r matches Some(d) ==> one_each(firsts(pair_views(d.0@)), views(ids@)),
        r matches Some(d) ==> forall|i: int| 0 <= i < d.0@.len() ==> share_identifier((#[trigger] d.0@[i]).1@) == Some(d.0@[i].0@),
{
    let key = SigningKey::deserialize(secret.as_slice().try_into().ok()?).ok()?;
    let ids = ids.iter().map(|b| Identifier::deserialize(b.as_slice().try_into().ok()?).ok()).collect::<Option<Vec<_>>>()?;
    let (shares, pkp) = frost::keys::split(&key, max, min, IdentifierList::Custom(&ids), &mut thread_rng()).ok()?;
    let shares = shares.iter().map(|(i, s)| Some((i.serialize().to_vec(), s.serialize().ok()?))).collect::<Option<Vec<_>>>()?;
    Some((shares, pkp.serialize().ok()?))
}

/// Relies on frost_ed25519::keys::PublicKeyPackage::deserialize, to read the
/// verifying shares and the group verifying key out of a package.
#[verifier::external_body]
pub(crate) fn public_key_parts(b: &Vec<u8>) -> (r: Option<PublicParts>)
    ensures
        r matches Some(v) ==> public_parts_of(b@) == Some((pair_views(v.0@), v.1@)),
        r is None ==> public_parts_of(b@) is None,
{
    let pkp = PublicKeyPackage::deserialize(b).ok()?;
    let shares = pkp.verifying_shares().iter().map(|(i, v)| (i.serialize().to_vec(), v.serialize().to_vec())).collect();
    Some((shares, pkp.verifying_key().serialize().to_vec()))
}

/// Relies on frost_ed25519::keys::SecretShare::deserialize, to read the
/// identifier embedded in a serialized share.
#[verifier::external_body]
pub(crate) fn embedded_identifier(b: &Vec<u8>) -> (r: Option<Vec<u8>>)
    ensures
        r matches Some(v) ==> share_identifier(b@) == Some(v@),
        r is None ==> share_identifier(b@) is None,
{
    let share = SecretShare::deserialize(b).ok()?;
    Some(share.identifier().serialize().to_vec())
}

/// Relies on frost_ed25519::keys::SecretShare::verify, the engine's check of
/// a share against its commitment.
#[verifier::external_body]
pub(crate) fn verify_share(b: &Vec<u8>) -> (r: bool)
    requires
        share_identifier(b@) is Some,
    ensures
        r == share_verifies(b@),
{
    SecretShare::deserialize(b).unwrap().verify().is_ok()
}

/// Relies on frost_ed25519::keys::KeyPackage::try_from(SecretShare), which
/// verifies the share, and on KeyPackage::serialize.
#[verifier::external_body]
pub(crate) fn derive_key_package(b: &Vec<u8>) -> (r: Option<Vec<u8>>)
    ensures
        r matches Some(v) ==> key_package_from_share(b@) == Some(v@),
        r is None ==> key_package_from_share(b@) is None,
{
    let share = SecretShare::deserialize(b).ok()?;
    KeyPackage::try_from(share).ok()?.serialize().ok()
}

/// The serialized nonces and commitments that the engine's round-one
/// commit makes from a serialized share with a generator seeded by `seed`;
/// each `None` where its serialization fails.
pub uninterp spec fn commitment_from_seed(share: Seq<u8>, seed: Seq<u8>) -> (Option<Seq<u8>>, Option<Seq<u8>>);

/// Relies on rand::thread_rng: 32 bytes from the thread-local secure
/// generator.
#[verifier::external_body]
pub(crate) fn fresh_seed() -> (r: [u8; 32])
{
    rand::Rng::gen(&mut thread_rng())
}

/// Relies on frost_ed25519::round1::commit, drawing the nonces from
/// rand::rngs::StdRng seeded with `seed`.
#[verifier::external_body]
pub(crate) fn commit_share(b: &Vec<u8>, seed: &[u8; 32]) -> (r: (Option<Vec<u8>>, Option<Vec<u8>>))
    requires
        share_identifier(b@) is Some,
    ensures
        commitment_from_seed(b@, seed@) == (
            match r.0 { Some(v) => Some(v@), None => None::<Seq<u8>> },
            match r.1 { Some(v) => Some(v@), None => None::<Seq<u8>> },
        ),
{
    let share = SecretShare::deserialize(b).unwrap();
    let mut rng = <rand::rngs::StdRng as rand::SeedableRng>::from_seed(*seed);
    let (nonces, commitments) = frost::round1::commit(share.signing_share(), &mut rng);
    (nonces.serialize().ok(), commitments.serialize().ok())
}

/// Relies on frost_ed25519::SigningPackage::new and its serialize: the
/// message and the commitments keyed by identifier.
#[verifier::external_body]
pub(crate) fn build_signing_package(message: &Vec<u8>, ids: &Vec<Vec<u8>>, commitments: &Vec<Vec<u8>>) -> (r: Option<Vec<u8>>)
    requires
        ids@.len() == commitments@.len(),
    ensures
        r matches Some(v) ==> engine_signing_package(message@, views(ids@), views(commitments@)) == Some(v@),
        r is None ==> engine_signing_package(message@, views(ids@), views(commitments@)) is None,
{
    let mut map = BTreeMap::new();
    for (id, c) in ids.iter().zip(commitments) {
        let id = Identifier::deserialize(id.as_slice().try_into().ok()?).ok()?;
        map.insert(id, SigningCommitments::deserialize(c).ok()?);
    }
    SigningPackage::new(map, message).serialize().ok()
}

/// Relies on frost_ed25519::round1::SigningNonces::deserialize succeeding or not.
#[verifier::external_body]
pub(crate) fn check_nonces(b: &Vec<u8>) -> (r: bool)
    ensures
        r == nonces_decode(b@),
{
    SigningNonces::deserialize(b).is_ok()
}

/// Relies on frost_ed25519::keys::KeyPackage::deserialize succeeding or not.
#[verifier::external_body]
pub(crate) fn check_key_package(b: &Vec<u8>) -> (r: bool)
    ensures
        r == key_package_decodes(b@),
{
    KeyPackage::deserialize(b).is_ok()
}

/// Relies on frost_ed25519::round2::sign. Hands back the signer's identifier
/// and its serialized signature share, or the engine's error message.
#[verifier::external_body]
pub(crate) fn sign_round2(package: &Vec<u8>, nonces: &Vec<u8>, key_package: &Vec<u8>) -> (r: Result<(Vec<u8>, Vec<u8>), String>)
    requires
        nonces_decode(nonces@),
        key_package_decodes(key_package@),
    ensures
        r matches Ok(v) ==> signature_share_of(package@, nonces@, key_package@) == Some((v.0@, v.1@)),
        r is Err ==> signature_share_of(package@, nonces@, key_package@) is None,
{
    let package = SigningPackage::deserialize(package).map_err(|e| e.to_string())?;
    let nonces = SigningNonces::deserialize(nonces).unwrap();
    let kp = KeyPackage::deserialize(key_package).unwrap();
    let share = frost::round2::sign(&package, &nonces, &kp).map_err(|e| e.to_string())?;
    Ok((kp.identifier().serialize().to_vec(), share.serialize().to_vec()))
}

/// Relies on frost_ed25519::keys::PublicKeyPackage::new and its serialize:
/// the verifying shares keyed by identifier and the group verifying key.
#[verifier::external_body]
pub(crate) fn build_public_key_package(verifying_shares: &Vec<(Vec<u8>, Vec<u8>)>, verifying_key: &Vec<u8>) -> (r: Option<Vec<u8>>)
    ensures
        r matches Some(v) ==> engine_public_key_package(pair_views(verifying_shares@), verifying_key@) == Some(v@),
        r is None ==> engine_public_key_package(pair_views(verifying_shares@), verifying_key@) is None,
{
    let mut map = BTreeMap::new();
    for (id, v) in verifying_shares {
        let id = Identifier::deserialize(id.as_slice().try_into().ok()?).ok()?;
        map.insert(id, VerifyingShare::deserialize(v.as_slice().try_into().ok()?).ok()?);
    }
    let vk = VerifyingKey::deserialize(verifying_key.as_slice().try_into().ok()?).ok()?;
    PublicKeyPackage::new(map, vk).serialize().ok()
}

/// Relies on frost_ed25519::aggregate, which checks every signature share
/// against its verifying share. Hands back the 64-byte signature.
#[verifier::external_body]
pub(crate) fn aggregate_shares(package: &Vec<u8>, shares: &Vec<(Vec<u8>, Vec<u8>)>, public_keys: &Vec<u8>) -> (r: Option<Vec<u8>>)
    ensures
        r matches Some(v) ==> v@.len() == 64 && aggregate_of(package@, pair_views(shares@), public_keys@) == Some(v@),
        r is None ==> aggregate_of(package@, pair_views(shares@), public_keys@) is None,
{
    let package = SigningPackage::deserialize(package).ok()?;
    let mut map = BTreeMap::new();
    for (id, s) in shares {
        let id = Identifier::deserialize(id.as_slice().try_into().ok()?).ok()?;
        map.insert(id, frost::round2::SignatureShare::deserialize(s.as_slice().try_into().ok()?).ok()?);
    }
    let pkp = PublicKeyPackage::deserialize(public_keys).ok()?;
    Some(frost::aggregate(&package, &map, &pkp).ok()?.serialize().to_vec())
}

/// Relies on frost_ed25519::VerifyingKey::verify, after reading the key and
/// the signature from their fixed-length encodings.
#[verifier::external_body]
pub(crate) fn verify_signature_bytes(verifying_key: &Vec<u8>, message: &Vec<u8>, sig: &Vec<u8>) -> (r: bool)
    requires
        verifying_key@.len() == 32,
        sig@.len() == 64,
    ensures
        r == signature_verifies(verifying_key@, message@, sig@),
{
    let vk = VerifyingKey::deserialize(verifying_key.as_slice().try_into().unwrap());
    let sig = frost::Signature::deserialize(sig.as_slice().try_into().unwrap());
    match (vk, sig) {
        (Ok(vk), Ok(sig)) => vk.verify(message, &sig).is_ok(),
        _ => false,
    }
}

/// Relies on String::from_utf8: it accepts exactly the valid UTF-8 byte
/// strings, and the string then holds the characters they encode.
#[verifier::external_body]
pub(crate) fn text_from_utf8(b: Vec<u8>) -> (r: Option<String>)
    ensures
        r matches Some(s) ==> valid_utf8(b@) && s@ == decode_utf8(b@),
        r is None ==> !valid_utf8(b@),
{
    String::from_utf8(b).ok()
}

/// Relies on hex::encode: two lowercase hexadecimal digits for each byte,
/// high nibble first.
#[verifier::external_body]
pub(crate) fn to_hex(b: &Vec<u8>) -> (r: String)
    ensures
        r@ == crate::hex_text::hex_of(b@),
{
    hex::encode(b)
}

/// Relies on hex::decode: a string of an even number of hexadecimal digits,
/// in either case, read two digits to a byte; anything else is refused.
#[verifier::external_body]
pub(crate) fn from_hex(s: &String) -> (r: Option<Vec<u8>>)
    ensures
        r matches Some(v) ==> crate::hex_text::hex_decoded(s@) == Some(v@),
        r is None ==> crate::hex_text::hex_decoded(s@) is None,
{
    hex::decode(s).ok()
}

} // verus!
