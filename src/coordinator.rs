//! The coordinator: assembling a signing package from commitments, and
//! aggregating signature shares into a verified group signature.
use crate::bytes::{all_distinct, contains_bytes, copy_bytes, has_duplicate, pair_views, views};
use crate::engine::{aggregate_of, engine_public_key_package, engine_signing_package, signature_verifies};
use crate::hex_text::hex_decoded;
use crate::participant::{FrostSignatureShare, FrostSigningCommitments};
use crate::FrostPublicKeyPackage;
use vstd::prelude::*;

verus! {

/// The message to sign and the commitments of the participants who sign
/// it.
#[derive(Clone, Debug)]
pub struct FrostSigningPackage {
    pub message: Vec<u8>,
    pub commitments: Vec<FrostSigningCommitments>,
}

/// A group signature.
#[derive(Clone, Debug)]
pub struct FrostSignature {
    pub data: Vec<u8>,
}

#[derive(Clone, Copy, Debug, PartialEq, Eq, Structural)]
pub enum CoordinationError {
    InsufficientCommitments,
    DuplicateIdentifier,
    InsufficientShares,
    UnknownIdentifier,
    InvalidShare,
    DeserializationError,
}

pub open spec fn commitment_ids(c: Seq<FrostSigningCommitments>) -> Seq<Seq<u8>> {
    c.map_values(|x: FrostSigningCommitments| x.identifier.data@)
}

pub open spec fn commitment_data(c: Seq<FrostSigningCommitments>) -> Seq<Seq<u8>> {
    c.map_values(|x: FrostSigningCommitments| x.data@)
}

pub open spec fn signer_ids(s: Seq<FrostSignatureShare>) -> Seq<Seq<u8>> {
    s.map_values(|x: FrostSignatureShare| x.identifier.data@)
}

impl FrostSigningPackage {
    /// The engine's serialized form of this package, if every part reads.
    pub open spec fn engine_bytes(&self) -> Option<Seq<u8>> {
        engine_signing_package(self.message@, commitment_ids(self.commitments@), commitment_data(self.commitments@))
    }

    pub fn to_signing_package(&self) -> (r: Option<Vec<u8>>)
        ensures
            r matches Some(v) ==> self.engine_bytes() == Some(v@),
            r is None ==> self.engine_bytes() is None,
    {
        let mut ids: Vec<Vec<u8>> = Vec::new();
        let mut data: Vec<Vec<u8>> = Vec::new();
        let mut i: usize = 0;
        while i < self.commitments.len()
            invariant
                i <= self.commitments@.len(),
                ids@.len() == i,
                data@.len() == i,
                forall|k: int| 0 <= k < i ==> ids@[k]@ == self.commitments@[k].identifier.data@,
                forall|k: int| 0 <= k < i ==> data@[k]@ == self.commitments@[k].data@,
            decreases self.commitments@.len() - i,
        {
            ids.push(copy_bytes(&self.commitments[i].identifier.data));
            data.push(copy_bytes(&self.commitments[i].data));
            i += 1;
        }
        assert(views(ids@) =~= commitment_ids(self.commitments@));
        assert(views(data@) =~= commitment_data(self.commitments@));
        crate::engine::build_signing_package(&self.message, &ids, &data)
    }
}

fn identifiers_of_commitments(c: &Vec<FrostSigningCommitments>) -> (r: Vec<Vec<u8>>)
    ensures
        views(r@) == commitment_ids(c@),
{
    let mut r: Vec<Vec<u8>> = Vec::new();
    let mut i: usize = 0;
    while i < c.len()
        invariant
            i <= c@.len(),
            r@.len() == i,
            forall|k: int| 0 <= k < i ==> r@[k]@ == c@[k].identifier.data@,
        decreases c@.len() - i,
    {
        r.push(copy_bytes(&c[i].identifier.data));
        i += 1;
    }
    assert(views(r@) =~= commitment_ids(c@));
    r
}

/// Why a set of commitments cannot make a signing package, if it cannot.
pub open spec fn assembly_error(commitments: Seq<FrostSigningCommitments>, min_signers: u16) -> Option<CoordinationError> {
    if commitments.len() < min_signers {
        Some(CoordinationError::InsufficientCommitments)
    } else if !all_distinct(commitment_ids(commitments)) {
        Some(CoordinationError::DuplicateIdentifier)
    } else {
        None
    }
}

/// Assembles the package that every signer receives for round two.
pub fn new_signing_package(message: Vec<u8>, commitments: Vec<FrostSigningCommitments>, min_signers: u16) -> (r: Result<FrostSigningPackage, CoordinationError>)
    ensures
        assembly_error(commitments@, min_signers) matches Some(e) ==> r == Err::<FrostSigningPackage, CoordinationError>(e),
        assembly_error(commitments@, min_signers) is None ==> match r {
            Ok(p) => p.message == message && p.commitments == commitments && p.engine_bytes() is Some,
            Err(e) => e == CoordinationError::DeserializationError
                && engine_signing_package(message@, commitment_ids(commitments@), commitment_data(commitments@)) is None,
        },
{
    if commitments.len() < min_signers as usize {
        return Err(CoordinationError::InsufficientCommitments);
    }
    let ids = identifiers_of_commitments(&commitments);
    if has_duplicate(&ids) {
        return Err(CoordinationError::DuplicateIdentifier);
    }
    let package = FrostSigningPackage { message, commitments };
    match package.to_signing_package() {
        Some(_) => Ok(package),
        None => Err(CoordinationError::DeserializationError),
    }
}

/// Why a set of signature shares cannot be aggregated for a package, as
/// far as their identifiers show: fewer shares than commitments, a signer
/// twice, or a signer without a commitment.
pub open spec fn share_set_error(package: FrostSigningPackage, shares: Seq<FrostSignatureShare>) -> Option<CoordinationError> {
    let committed = commitment_ids(package.commitments@);
    let signers = signer_ids(shares);
    if signers.len() < committed.len() {
        Some(CoordinationError::InsufficientShares)
    } else if !all_distinct(signers) {
        Some(CoordinationError::DuplicateIdentifier)
    } else if exists|k: int| 0 <= k < signers.len() && !committed.contains(#[trigger] signers[k]) {
        Some(CoordinationError::UnknownIdentifier)
    } else {
        None
    }
}

/// The group verifying key of a public key package, where its text reads
/// as 32 bytes.
pub open spec fn group_key(pkp: FrostPublicKeyPackage) -> Option<Seq<u8>> {
    match hex_decoded(pkp.verifying_key@) {
        Some(v) => if v.len() == 32 { Some(v) } else { None },
        None => None,
    }
}

/// The group key as bytes, or `None` where its text does not read as 32
/// bytes.
fn read_group_key(pkp: &FrostPublicKeyPackage) -> (r: Option<Vec<u8>>)
    ensures
        r matches Some(v) ==> group_key(*pkp) == Some(v@),
        r is None ==> group_key(*pkp) is None,
{
    match crate::engine::from_hex(&pkp.verifying_key) {
        Some(v) => if v.len() == 32 { Some(v) } else { None },
        None => None,
    }
}

pub open spec fn entry_ids(pkp: FrostPublicKeyPackage) -> Seq<Seq<u8>> {
    pkp.verifying_shares@.map_values(|e: (crate::ParticipantIdentifier, String)| e.0.data@)
}

/// Every verifying-share text reads as hexadecimal.
pub open spec fn entries_read(pkp: FrostPublicKeyPackage) -> bool {
    forall|i: int| 0 <= i < pkp.verifying_shares@.len() ==> (#[trigger] hex_decoded(pkp.verifying_shares@[i].1@)) is Some
}

/// The verifying shares as (identifier, share bytes).
pub open spec fn decoded_entries(pkp: FrostPublicKeyPackage) -> Seq<(Seq<u8>, Seq<u8>)> {
    Seq::new(
        pkp.verifying_shares@.len(),
        |i: int| (pkp.verifying_shares@[i].0.data@, hex_decoded(pkp.verifying_shares@[i].1@).unwrap()),
    )
}

/// The engine's serialized public key package for the wire record: `None`
/// where the group key does not read as 32 bytes, an identifier occurs
/// twice, a text is not hexadecimal, or the engine refuses a part.
pub open spec fn public_keys_of(pkp: FrostPublicKeyPackage) -> Option<Seq<u8>> {
    if group_key(pkp) is None || !all_distinct(entry_ids(pkp)) || !entries_read(pkp) {
        None
    } else {
        engine_public_key_package(decoded_entries(pkp), group_key(pkp).unwrap())
    }
}

/// The group key bytes and the engine's serialized public key package for
/// the wire record.
pub fn read_public_keys(pkp: &FrostPublicKeyPackage) -> (r: Option<(Vec<u8>, Vec<u8>)>)
    ensures
        r matches Some(v) ==> group_key(*pkp) == Some(v.0@) && public_keys_of(*pkp) == Some(v.1@),
        r is None ==> public_keys_of(*pkp) is None,
{
    let key = match read_group_key(pkp) {
        Some(k) => k,
        None => return None,
    };
    let mut ids: Vec<Vec<u8>> = Vec::new();
    let mut shares: Vec<(Vec<u8>, Vec<u8>)> = Vec::new();
    let mut i: usize = 0;
    while i < pkp.verifying_shares.len()
        invariant
            i <= pkp.verifying_shares@.len(),
            ids@.len() == i,
            shares@.len() == i,
            forall|k: int| 0 <= k < i ==> (#[trigger] ids@[k])@ == pkp.verifying_shares@[k].0.data@,
            forall|k: int| 0 <= k < i ==> hex_decoded(pkp.verifying_shares@[k].1@) == Some((#[trigger] shares@[k]).1@)
                && shares@[k].0@ == pkp.verifying_shares@[k].0.data@,
        decreases pkp.verifying_shares@.len() - i,
    {
        let entry = &pkp.verifying_shares[i];
        match crate::engine::from_hex(&entry.1) {
            Some(v) => {
                ids.push(copy_bytes(&entry.0.data));
                shares.push((copy_bytes(&entry.0.data), v));
            },
            None => {
                assert(!entries_read(*pkp));
                return None;
            },
        }
        i += 1;
    }
    assert(views(ids@) =~= entry_ids(*pkp));
    if has_duplicate(&ids) {
        return None;
    }
    assert(entries_read(*pkp)) by {
        assert forall|k: int| 0 <= k < pkp.verifying_shares@.len() implies (#[trigger] hex_decoded(pkp.verifying_shares@[k].1@)) is Some by {
            assert(hex_decoded(pkp.verifying_shares@[k].1@) == Some(shares@[k].1@));
        }
    }
    assert(pair_views(shares@) =~= decoded_entries(*pkp));
    match crate::engine::build_public_key_package(&shares, &key) {
        Some(p) => Some((key, p)),
        None => None,
    }
}

/// The signature shares as (identifier, share bytes).
pub open spec fn share_pairs(s: Seq<FrostSignatureShare>) -> Seq<(Seq<u8>, Seq<u8>)> {
    s.map_values(|x: FrostSignatureShare| (x.identifier.data@, x.data@))
}

/// Combines the signature shares of every committed participant into one
/// group signature, and accepts it only once it verifies under the group
/// key. A single bad share fails the whole aggregation.
pub fn aggregate(signing_package: &FrostSigningPackage, signature_shares: &Vec<FrostSignatureShare>, public_key_package: &FrostPublicKeyPackage) -> (r: Result<FrostSignature, CoordinationError>)
    ensures
        share_set_error(*signing_package, signature_shares@) matches Some(e) ==> r == Err::<FrostSignature, CoordinationError>(e),
        r matches Ok(sig) ==> (group_key(*public_key_package) matches Some(k)
            && signature_verifies(k, signing_package.message@, sig.data@)),
        share_set_error(*signing_package, signature_shares@) is None ==> match signing_package.engine_bytes() {
            None => r == Err::<FrostSignature, CoordinationError>(CoordinationError::DeserializationError),
            Some(pb) => match public_keys_of(*public_key_package) {
                None => r == Err::<FrostSignature, CoordinationError>(CoordinationError::DeserializationError),
                Some(pk) => match aggregate_of(pb, share_pairs(signature_shares@), pk) {
                    None => r == Err::<FrostSignature, CoordinationError>(CoordinationError::InvalidShare),
                    Some(sig) => if signature_verifies(group_key(*public_key_package).unwrap(), signing_package.message@, sig) {
                        r matches Ok(s) && s.data@ == sig
                    } else {
                        r == Err::<FrostSignature, CoordinationError>(CoordinationError::InvalidShare)
                    },
                },
            },
        },
{
    let committed = identifiers_of_commitments(&signing_package.commitments);
    let mut signers: Vec<Vec<u8>> = Vec::new();
    let mut pairs: Vec<(Vec<u8>, Vec<u8>)> = Vec::new();
    let mut i: usize = 0;
    while i < signature_shares.len()
        invariant
            i <= signature_shares@.len(),
            signers@.len() == i,
            pairs@.len() == i,
            forall|k: int| 0 <= k < i ==> signers@[k]@ == signature_shares@[k].identifier.data@,
            forall|k: int| 0 <= k < i ==> (#[trigger] pairs@[k]).0@ == signature_shares@[k].identifier.data@
                && pairs@[k].1@ == signature_shares@[k].data@,
        decreases signature_shares@.len() - i,
    {
        let share = &signature_shares[i];
        signers.push(copy_bytes(&share.identifier.data));
        pairs.push((copy_bytes(&share.identifier.data), copy_bytes(&share.data)));
        i += 1;
    }
    assert(views(signers@) =~= signer_ids(signature_shares@));
    assert(pair_views(pairs@) =~= share_pairs(signature_shares@));
    if signers.len() < committed.len() {
        return Err(CoordinationError::InsufficientShares);
    }
    if has_duplicate(&signers) {
        return Err(CoordinationError::DuplicateIdentifier);
    }
    let mut j: usize = 0;
    while j < signers.len()
        invariant
            j <= signers@.len(),
            views(signers@) == signer_ids(signature_shares@),
            views(committed@) == commitment_ids(signing_package.commitments@),
            signers@.len() >= committed@.len(),
            all_distinct(views(signers@)),
            forall|k: int| 0 <= k < j ==> views(committed@).contains(#[trigger] views(signers@)[k]),
        decreases signers@.len() - j,
    {
        if !contains_bytes(&committed, &signers[j]) {
            assert(!views(committed@).contains(views(signers@)[j as int]));
            return Err(CoordinationError::UnknownIdentifier);
        }
        j += 1;
    }
    let package = match signing_package.to_signing_package() {
        Some(b) => b,
        None => return Err(CoordinationError::DeserializationError),
    };
    let (key, public_keys) = match read_public_keys(public_key_package) {
        Some(p) => p,
        None => return Err(CoordinationError::DeserializationError),
    };
    let signature = match crate::engine::aggregate_shares(&package, &pairs, &public_keys) {
        Some(s) => s,
        None => return Err(CoordinationError::InvalidShare),
    };
    if !crate::engine::verify_signature_bytes(&key, &signing_package.message, &signature) {
        return Err(CoordinationError::InvalidShare);
    }
    Ok(FrostSignature { data: signature })
}

/// Whether a signature verifies for a message under the group key.
pub fn verify_signature(public_key_package: &FrostPublicKeyPackage, message: &Vec<u8>, signature: &FrostSignature) -> (r: bool)
    ensures
        r == (group_key(*public_key_package) matches Some(k) && signature.data@.len() == 64
            && signature_verifies(k, message@, signature.data@)),
{
    let key = match read_group_key(public_key_package) {
        Some(k) => k,
        None => return false,
    };
    if signature.data.len() != 64 {
        return false;
    }
    crate::engine::verify_signature_bytes(&key, message, &signature.data)
}

/// Fewer signature shares than the threshold never aggregate: for a
/// package that holds at least `t` commitments, a set of fewer than `t`
/// shares is refused with `InsufficientShares`, whatever the shares hold.
pub proof fn lemma_below_threshold_refused(package: FrostSigningPackage, shares: Seq<FrostSignatureShare>, t: nat)
    requires
        package.commitments@.len() >= t,
        shares.len() < t,
    ensures
        share_set_error(package, shares) == Some(CoordinationError::InsufficientShares),
{
}

/// The public data that key generation writes as text reads back as the
/// engine's values: where the wire records were made from the engine's
/// verifying shares (distinct identifiers) and its 32-byte group key, the
/// group key reads back unchanged and the engine package is rebuilt from
/// exactly those verifying shares.
pub proof fn lemma_dealt_public_keys_read_back(
    k: crate::TrustedKeyGeneration,
    shares: Seq<(Seq<u8>, Seq<u8>)>,
    parts: (Seq<(Seq<u8>, Seq<u8>)>, Seq<u8>),
)
    requires
        crate::dealt_records(k, shares, parts),
        all_distinct(crate::bytes::firsts(parts.0)),
        parts.1.len() == 32,
    ensures
        group_key(k.public_key_package) == Some(parts.1),
        public_keys_of(k.public_key_package) == engine_public_key_package(parts.0, parts.1),
{
    let pkp = k.public_key_package;
    crate::hex_text::lemma_hex_round_trip(parts.1);
    assert(entry_ids(pkp) =~= crate::bytes::firsts(parts.0));
    assert forall|i: int| 0 <= i < pkp.verifying_shares@.len() implies (#[trigger] hex_decoded(pkp.verifying_shares@[i].1@)) is Some by {
        crate::hex_text::lemma_hex_round_trip(parts.0[i].1);
    }
    assert forall|i: int| 0 <= i < parts.0.len() implies decoded_entries(pkp)[i] == parts.0[i] by {
        crate::hex_text::lemma_hex_round_trip(parts.0[i].1);
    }
    assert(decoded_entries(pkp) =~= parts.0);
}

} // verus!
