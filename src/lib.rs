//! Orchestration of threshold Schnorr signing (FROST over Ed25519): the
//! trusted dealer, the two participant rounds and the coordinator, over
//! wire records whose opaque bytes the signature engine reads.
use vstd::prelude::*;

pub mod bytes;
pub mod codec;
pub mod engine;
pub mod hex_text;
pub mod coordinator;
pub mod participant;

use crate::bytes::{all_distinct, contains_bytes, copy_bytes, firsts, has_duplicate, index_bytes, one_each, pair_views, views};
use crate::engine::{identifier_accepts, key_package_from_share, public_parts_of, share_identifier, Dealt};
use crate::hex_text::hex_of;

verus! {

/// A participant's handle: the 32-byte encoding of a nonzero scalar.
#[derive(Clone, Debug)]
pub struct ParticipantIdentifier {
    pub data: Vec<u8>,
}

/// Identifiers chosen by the caller for a key generation.
#[derive(Clone, Debug)]
pub struct ParticipantList {
    pub identifiers: Vec<ParticipantIdentifier>,
}

/// One participant's private share as handed out by the dealer.
#[derive(Clone, Debug)]
pub struct FrostSecretKeyShare {
    pub identifier: ParticipantIdentifier,
    pub data: Vec<u8>,
}

/// The group's public data: each participant's verifying share and the
/// group verifying key, all as hexadecimal text.
#[derive(Clone, Debug)]
pub struct FrostPublicKeyPackage {
    pub verifying_shares: Vec<(ParticipantIdentifier, String)>,
    pub verifying_key: String,
}

/// What the dealer hands out: one secret share per participant and the
/// group's public data.
#[derive(Clone, Debug)]
pub struct TrustedKeyGeneration {
    pub secret_shares: Vec<FrostSecretKeyShare>,
    pub public_key_package: FrostPublicKeyPackage,
}

/// Parameters of a key generation. An empty `secret` asks for a fresh
/// random group key; otherwise it is the 32-byte group signing key.
#[derive(Clone, Debug)]
pub struct Configuration {
    pub min_signers: u16,
    pub max_signers: u16,
    pub secret: Vec<u8>,
}

#[derive(Clone, Copy, Debug, PartialEq, Eq, Structural)]
pub enum ConfigurationError {
    InvalidMaxSigners,
    InvalidMinSigners,
    InvalidIdentifier,
    UnknownError,
}

#[derive(Clone, Copy, Debug, PartialEq, Eq, Structural)]
pub enum FrostError {
    SerializationError,
    DeserializationError,
    InvalidKeyPackage,
    InvalidSecretKey,
    UnknownIdentifier,
}

/// A participant's signing credential: its identifier as hexadecimal text
/// and the engine's serialized key package.
#[derive(Clone, Debug)]
pub struct FrostKeyPackage {
    pub identifier: String,
    pub data: Vec<u8>,
}

impl ParticipantIdentifier {
    /// The engine accepts these bytes as an identifier.
    pub open spec fn is_valid(&self) -> bool {
        self.data@.len() == 32 && identifier_accepts(self.data@)
    }

    /// The identifier of the participant with a given index, as the engine
    /// numbers participants when it assigns identifiers itself.
    pub fn from_index(i: u16) -> (r: ParticipantIdentifier)
        ensures
            r.data@ == index_bytes(i),
    {
        let mut data: Vec<u8> = Vec::new();
        data.push((i % 256) as u8);
        data.push((i / 256) as u8);
        let mut k: usize = 0;
        while k < 30
            invariant
                k <= 30,
                data@ == seq![(i % 256) as u8, (i / 256) as u8] + Seq::new(k as nat, |j: int| 0u8),
            decreases 30 - k,
        {
            data.push(0u8);
            k += 1;
            assert(data@ =~= seq![(i % 256) as u8, (i / 256) as u8] + Seq::new(k as nat, |j: int| 0u8));
        }
        ParticipantIdentifier { data }
    }

    /// The identifier's 32 bytes, once the engine accepts them.
    pub fn into_identifier(&self) -> (r: Result<Vec<u8>, FrostError>)
        ensures
            self.is_valid() ==> (r matches Ok(b) && b@ == self.data@),
            !self.is_valid() ==> r == Err::<Vec<u8>, FrostError>(FrostError::DeserializationError),
    {
        if self.data.len() != 32 {
            return Err(FrostError::DeserializationError);
        }
        if !crate::engine::identifier_is_valid(&self.data) {
            return Err(FrostError::DeserializationError);
        }
        Ok(copy_bytes(&self.data))
    }
}

/// Why a configuration is refused, if it is.
pub open spec fn config_error(min_signers: u16, max_signers: u16) -> Option<ConfigurationError> {
    if min_signers < 2 {
        Some(ConfigurationError::InvalidMinSigners)
    } else if max_signers < 2 {
        Some(ConfigurationError::InvalidMaxSigners)
    } else if min_signers > max_signers {
        Some(ConfigurationError::InvalidMinSigners)
    } else {
        None
    }
}

/// Checks the threshold parameters before any key generation.
pub fn validate_config(config: &Configuration) -> (r: Result<(), ConfigurationError>)
    ensures
        r == match config_error(config.min_signers, config.max_signers) {
            Some(e) => Err(e),
            None => Ok(()),
        },
{
    if config.min_signers < 2 {
        return Err(ConfigurationError::InvalidMinSigners);
    }
    if config.max_signers < 2 {
        return Err(ConfigurationError::InvalidMaxSigners);
    }
    if config.min_signers > config.max_signers {
        return Err(ConfigurationError::InvalidMinSigners);
    }
    Ok(())
}

fn check_one_each(got: &Vec<Vec<u8>>, ids: &Vec<Vec<u8>>) -> (r: bool)
    ensures
        r == one_each(views(got@), views(ids@)),
{
    if got.len() != ids.len() || has_duplicate(got) {
        return false;
    }
    let mut i: usize = 0;
    while i < got.len()
        invariant
            i <= got@.len(),
            got@.len() == ids@.len(),
            all_distinct(views(got@)),
            forall|k: int| 0 <= k < i ==> views(ids@).contains(#[trigger] views(got@)[k]),
        decreases got@.len() - i,
    {
        if !contains_bytes(ids, &got[i]) {
            assert(!views(ids@).contains(views(got@)[i as int]));
            return false;
        }
        i += 1;
    }
    true
}

fn first_parts(pairs: &Vec<(Vec<u8>, Vec<u8>)>) -> (r: Vec<Vec<u8>>)
    ensures
        r@.len() == pairs@.len(),
        forall|k: int| 0 <= k < r@.len() ==> r@[k]@ == pairs@[k].0@,
{
    let mut r: Vec<Vec<u8>> = Vec::new();
    let mut i: usize = 0;
    while i < pairs.len()
        invariant
            i <= pairs@.len(),
            r@.len() == i,
            forall|k: int| 0 <= k < i ==> r@[k]@ == pairs@[k].0@,
        decreases pairs@.len() - i,
    {
        r.push(copy_bytes(&pairs[i].0));
        i += 1;
    }
    r
}

impl TrustedKeyGeneration {
    pub open spec fn share_ids(&self) -> Seq<Seq<u8>> {
        self.secret_shares@.map_values(|s: FrostSecretKeyShare| s.identifier.data@)
    }

    pub open spec fn verifying_ids(&self) -> Seq<Seq<u8>> {
        self.public_key_package.verifying_shares@.map_values(|p: (ParticipantIdentifier, String)| p.0.data@)
    }

    /// One secret share and one verifying share for each of `ids`, and no
    /// others.
    pub open spec fn covers(&self, ids: Seq<Seq<u8>>) -> bool {
        one_each(self.share_ids(), ids) && one_each(self.verifying_ids(), ids)
    }
}

/// The wire records for what the engine dealt: each share record carries
/// the engine's identifier and share bytes, each verifying share and the
/// group key are hexadecimal text of the engine's serializations.
pub open spec fn dealt_records(k: TrustedKeyGeneration, shares: Seq<(Seq<u8>, Seq<u8>)>, parts: (Seq<(Seq<u8>, Seq<u8>)>, Seq<u8>)) -> bool {
    &&& k.secret_shares@.len() == shares.len()
    &&& forall|i: int| 0 <= i < shares.len() ==> (#[trigger] k.secret_shares@[i]).identifier.data@ == shares[i].0
            && k.secret_shares@[i].data@ == shares[i].1
    &&& k.public_key_package.verifying_shares@.len() == parts.0.len()
    &&& forall|i: int| 0 <= i < parts.0.len() ==> (#[trigger] k.public_key_package.verifying_shares@[i]).0.data@ == parts.0[i].0
            && k.public_key_package.verifying_shares@[i].1@ == hex_of(parts.0[i].1)
    &&& k.public_key_package.verifying_key@ == hex_of(parts.1)
}

/// Wraps what the engine dealt into wire records, refusing an outcome that
/// does not hold exactly one share and one verifying share per identifier.
pub fn wrap_dealt(dealt: &Dealt, ids: &Vec<Vec<u8>>) -> (r: Option<TrustedKeyGeneration>)
    ensures
        r is Some <==> (public_parts_of(dealt.1@) matches Some(p)
            && one_each(firsts(pair_views(dealt.0@)), views(ids@))
            && one_each(firsts(p.0), views(ids@))),
        r matches Some(k) ==> (public_parts_of(dealt.1@) matches Some(p) && dealt_records(k, pair_views(dealt.0@), p)),
        r matches Some(k) ==> k.covers(views(ids@)),
{
    let parts = match crate::engine::public_key_parts(&dealt.1) {
        Some(p) => p,
        None => return None,
    };
    let dealt_shares = &dealt.0;
    let dealt_verifying = &parts.0;
    let share_ids = first_parts(&dealt_shares);
    let verifying_ids = first_parts(&dealt_verifying);
    assert(views(share_ids@) =~= firsts(pair_views(dealt_shares@)));
    assert(views(verifying_ids@) =~= firsts(pair_views(dealt_verifying@)));
    if !check_one_each(&share_ids, ids) || !check_one_each(&verifying_ids, ids) {
        return None;
    }
    let mut secret_shares: Vec<FrostSecretKeyShare> = Vec::new();
    let mut i: usize = 0;
    while i < dealt_shares.len()
        invariant
            i <= dealt_shares@.len(),
            share_ids@.len() == dealt_shares@.len(),
            forall|k: int| 0 <= k < share_ids@.len() ==> share_ids@[k]@ == dealt_shares@[k].0@,
            secret_shares@.len() == i,
            forall|k: int| 0 <= k < i ==> (#[trigger] secret_shares@[k]).identifier.data@ == dealt_shares@[k].0@
                && secret_shares@[k].data@ == dealt_shares@[k].1@,
        decreases dealt_shares@.len() - i,
    {
        let pair = &dealt_shares[i];
        let identifier = ParticipantIdentifier { data: copy_bytes(&pair.0) };
        secret_shares.push(FrostSecretKeyShare { identifier, data: copy_bytes(&pair.1) });
        i += 1;
    }
    let mut verifying_shares: Vec<(ParticipantIdentifier, String)> = Vec::new();
    let mut j: usize = 0;
    while j < dealt_verifying.len()
        invariant
            j <= dealt_verifying@.len(),
            verifying_ids@.len() == dealt_verifying@.len(),
            forall|k: int| 0 <= k < verifying_ids@.len() ==> verifying_ids@[k]@ == dealt_verifying@[k].0@,
            verifying_shares@.len() == j,
            forall|k: int| 0 <= k < j ==> (#[trigger] verifying_shares@[k]).0.data@ == dealt_verifying@[k].0@
                && verifying_shares@[k].1@ == hex_of(dealt_verifying@[k].1@),
        decreases dealt_verifying@.len() - j,
    {
        let pair = &dealt_verifying[j];
        let identifier = ParticipantIdentifier { data: copy_bytes(&pair.0) };
        verifying_shares.push((identifier, crate::engine::to_hex(&pair.1)));
        j += 1;
    }
    let public_key_package = FrostPublicKeyPackage {
        verifying_shares,
        verifying_key: crate::engine::to_hex(&parts.1),
    };
    let k = TrustedKeyGeneration { secret_shares, public_key_package };
    assert(k.share_ids() =~= views(share_ids@));
    assert(k.verifying_ids() =~= views(verifying_ids@));
    Some(k)
}

/// Splits the configured group key (or a fresh random one) among `ids`.
fn deal(configuration: &Configuration, ids: &Vec<Vec<u8>>) -> (r: Result<TrustedKeyGeneration, ConfigurationError>)
    requires
        forall|i: int| 0 <= i < ids@.len() ==> ids@[i]@.len() == 32,
    ensures
        r matches Ok(k) ==> k.covers(views(ids@)),
        r matches Ok(k) ==> forall|i: int| 0 <= i < k.secret_shares@.len()
            ==> share_identifier((#[trigger] k.secret_shares@[i]).data@) == Some(k.secret_shares@[i].identifier.data@),
        r is Err ==> r == Err::<TrustedKeyGeneration, ConfigurationError>(ConfigurationError::UnknownError),
{
    let dealt = if configuration.secret.len() == 0 {
        crate::engine::deal_random_key(configuration.min_signers, configuration.max_signers, ids)
    } else {
        crate::engine::deal_given_key(&configuration.secret, configuration.min_signers, configuration.max_signers, ids)
    };
    match dealt {
        Some(d) => match wrap_dealt(&d, ids) {
            Some(k) => {
                assert(forall|i: int| 0 <= i < k.secret_shares@.len() ==> share_identifier((#[trigger] k.secret_shares@[i]).data@)
                    == Some(k.secret_shares@[i].identifier.data@)) by {
                    assert(forall|i: int| 0 <= i < d.0@.len() ==> share_identifier((#[trigger] d.0@[i]).1@) == Some(d.0@[i].0@));
                    assert(forall|i: int| 0 <= i < d.0@.len() ==> pair_views(d.0@)[i] == (d.0@[i].0@, d.0@[i].1@));
                }
                Ok(k)
            },
            None => Err(ConfigurationError::UnknownError),
        },
        None => Err(ConfigurationError::UnknownError),
    }
}

proof fn lemma_le_value_zeros(n: nat)
    ensures
        crate::engine::le_value(Seq::new(n, |k: int| 0u8)) == 0,
    decreases n,
{
    if n > 0 {
        assert(Seq::new(n, |k: int| 0u8).drop_first() =~= Seq::new((n - 1) as nat, |k: int| 0u8));
        lemma_le_value_zeros((n - 1) as nat);
    }
}

/// The identifier of a nonzero index is one the engine accepts.
proof fn lemma_index_valid(i: u16)
    requires
        i > 0,
    ensures
        identifier_accepts(index_bytes(i)),
        index_bytes(i).len() == 32,
{
    let z = Seq::new(30, |k: int| 0u8);
    let b = index_bytes(i);
    lemma_le_value_zeros(30);
    let c = seq![(i / 256) as u8] + z;
    assert(b.drop_first() =~= c);
    assert(c.drop_first() =~= z);
    assert(crate::engine::le_value(c) == c[0] as nat + 256 * crate::engine::le_value(c.drop_first()));
    assert(crate::engine::le_value(c) == (i / 256) as nat);
    assert(crate::engine::le_value(b) == b[0] as nat + 256 * crate::engine::le_value(b.drop_first()));
    assert(crate::engine::le_value(b) == (i % 256) as nat + 256 * ((i / 256) as nat));
    assert(crate::engine::le_value(b) == i as nat);
}

/// The identifiers `1..=n` in the engine's encoding.
pub open spec fn default_ids(n: u16) -> Seq<Seq<u8>> {
    Seq::new(n as nat, |k: int| index_bytes((k + 1) as u16))
}

/// Trusted-dealer key generation for the participants `1..=max_signers`.
/// Either the whole outcome covers every participant once, or it fails.
pub fn trusted_dealer_keygen_from(configuration: Configuration) -> (r: Result<TrustedKeyGeneration, ConfigurationError>)
    ensures
        config_error(configuration.min_signers, configuration.max_signers) matches Some(e) ==> r == Err::<TrustedKeyGeneration, ConfigurationError>(e),
        config_error(configuration.min_signers, configuration.max_signers) is None ==> (r is Ok || r == Err::<TrustedKeyGeneration, ConfigurationError>(ConfigurationError::UnknownError)),
        r matches Ok(k) ==> k.covers(default_ids(configuration.max_signers)),
        r matches Ok(k) ==> forall|i: int| 0 <= i < k.secret_shares@.len() ==> share_binding_error(#[trigger] k.secret_shares@[i]) is None,
{
    if let Err(e) = validate_config(&configuration) {
        return Err(e);
    }
    let mut ids: Vec<Vec<u8>> = Vec::new();
    let mut i: u16 = 0;
    while i < configuration.max_signers
        invariant
            i <= configuration.max_signers,
            ids@.len() == i,
            forall|k: int| 0 <= k < ids@.len() ==> ids@[k]@ == index_bytes((k + 1) as u16),
        decreases configuration.max_signers - i,
    {
        ids.push(ParticipantIdentifier::from_index(i + 1).data);
        i += 1;
    }
    assert(views(ids@) =~= default_ids(configuration.max_signers));
    let r = deal(&configuration, &ids);
    proof {
        if r is Ok {
            let k = r->Ok_0;
            let want = default_ids(configuration.max_signers);
            assert forall|i: int| 0 <= i < k.secret_shares@.len() implies share_binding_error(#[trigger] k.secret_shares@[i]) is None by {
                assert(k.share_ids()[i] == k.secret_shares@[i].identifier.data@);
                assert(want.contains(k.share_ids()[i]));
                let j = choose|j: int| 0 <= j < want.len() && want[j] == k.share_ids()[i];
                lemma_index_valid((j + 1) as u16);
            }
        }
    }
    r
}

/// A key generation for `n` participants hands out exactly `n` secret
/// shares and `n` verifying shares, no identifier twice, each identifier one
/// of `1..=n`.
pub proof fn lemma_keygen_shares_distinct(k: TrustedKeyGeneration, n: u16)
    requires
        k.covers(default_ids(n)),
    ensures
        k.secret_shares@.len() == n,
        k.public_key_package.verifying_shares@.len() == n,
        all_distinct(k.share_ids()),
        forall|i: int| 0 <= i < n ==> default_ids(n).contains(#[trigger] k.share_ids()[i]),
{
}

/// Trusted-dealer key generation for identifiers the caller chooses, such
/// as ones derived from device keys.
pub fn trusted_dealer_keygen_with_identifiers(configuration: Configuration, participants: ParticipantList) -> (r: Result<TrustedKeyGeneration, ConfigurationError>)
    ensures
        configuration.max_signers as int != participants.identifiers@.len() ==> r == Err::<TrustedKeyGeneration, ConfigurationError>(ConfigurationError::InvalidMaxSigners),
        configuration.max_signers as int == participants.identifiers@.len() ==> {
            if exists|k: int| 0 <= k < participants.identifiers@.len() && !(#[trigger] participants.identifiers@[k]).is_valid() {
                r == Err::<TrustedKeyGeneration, ConfigurationError>(ConfigurationError::InvalidIdentifier)
            } else if config_error(configuration.min_signers, configuration.max_signers) is Some {
                r == Err::<TrustedKeyGeneration, ConfigurationError>(config_error(configuration.min_signers, configuration.max_signers).unwrap())
            } else {
                r is Ok || r == Err::<TrustedKeyGeneration, ConfigurationError>(ConfigurationError::UnknownError)
            }
        },
        r matches Ok(k) ==> k.covers(participants.identifiers@.map_values(|p: ParticipantIdentifier| p.data@)),
        r matches Ok(k) ==> forall|i: int| 0 <= i < k.secret_shares@.len() ==> share_binding_error(#[trigger] k.secret_shares@[i]) is None,
{
    if configuration.max_signers as usize != participants.identifiers.len() {
        return Err(ConfigurationError::InvalidMaxSigners);
    }
    let mut ids: Vec<Vec<u8>> = Vec::new();
    let mut i: usize = 0;
    while i < participants.identifiers.len()
        invariant
            i <= participants.identifiers@.len(),
            configuration.max_signers as int == participants.identifiers@.len(),
            ids@.len() == i,
            forall|k: int| 0 <= k < i ==> participants.identifiers@[k].is_valid(),
            forall|k: int| 0 <= k < i ==> ids@[k]@ == participants.identifiers@[k].data@,
        decreases participants.identifiers@.len() - i,
    {
        match participants.identifiers[i].into_identifier() {
            Ok(b) => ids.push(b),
            Err(_) => return Err(ConfigurationError::InvalidIdentifier),
        }
        i += 1;
    }
    if let Err(e) = validate_config(&configuration) {
        return Err(e);
    }
    let want = Ghost(participants.identifiers@.map_values(|p: ParticipantIdentifier| p.data@));
    assert(views(ids@) =~= want@);
    let r = deal(&configuration, &ids);
    proof {
        if r is Ok {
            let k = r->Ok_0;
            assert forall|i: int| 0 <= i < k.secret_shares@.len() implies share_binding_error(#[trigger] k.secret_shares@[i]) is None by {
                assert(k.share_ids()[i] == k.secret_shares@[i].identifier.data@);
                assert(want@.contains(k.share_ids()[i]));
                let j = choose|j: int| 0 <= j < want@.len() && want@[j] == k.share_ids()[i];
                assert(participants.identifiers@[j].is_valid());
            }
        }
    }
    r
}

/// Why a secret share does not bind to its declared identifier, if it
/// does not: the identifier or the share bytes do not read, or the share
/// embeds another identifier.
pub open spec fn share_binding_error(share: FrostSecretKeyShare) -> Option<FrostError> {
    if !share.identifier.is_valid() {
        Some(FrostError::DeserializationError)
    } else {
        match share_identifier(share.data@) {
            None => Some(FrostError::DeserializationError),
            Some(embedded) => if embedded != share.identifier.data@ {
                Some(FrostError::UnknownIdentifier)
            } else {
                None
            },
        }
    }
}

/// The key package derived from a secret share, if the share binds to its
/// identifier and passes the engine's verification.
pub open spec fn derived_key_package(share: FrostSecretKeyShare) -> Option<Seq<u8>> {
    if share_binding_error(share) is Some {
        None
    } else {
        key_package_from_share(share.data@)
    }
}

impl FrostSecretKeyShare {
    /// The share's bytes, once they are known to carry the declared
    /// identifier.
    pub fn to_secret_share(&self) -> (r: Result<Vec<u8>, FrostError>)
        ensures
            share_binding_error(*self) matches Some(e) ==> r == Err::<Vec<u8>, FrostError>(e),
            share_binding_error(*self) is None ==> (r matches Ok(b) && b@ == self.data@),
    {
        if let Err(e) = self.identifier.into_identifier() {
            return Err(e);
        }
        match crate::engine::embedded_identifier(&self.data) {
            None => Err(FrostError::DeserializationError),
            Some(embedded) => if crate::bytes::bytes_eq(&embedded, &self.identifier.data) {
                Ok(copy_bytes(&self.data))
            } else {
                Err(FrostError::UnknownIdentifier)
            },
        }
    }

    /// Derives the signing credential from a share, refusing any share
    /// that does not bind to its identifier or does not verify.
    pub fn into_key_package(&self) -> (r: Result<FrostKeyPackage, FrostError>)
        ensures
            derived_key_package(*self) is None ==> r == Err::<FrostKeyPackage, FrostError>(FrostError::InvalidSecretKey),
            derived_key_package(*self) matches Some(kp) ==> (r matches Ok(p) && p.data@ == kp
                && p.identifier@ == hex_of(self.identifier.data@)),
    {
        let share = match self.to_secret_share() {
            Ok(b) => b,
            Err(_) => return Err(FrostError::InvalidSecretKey),
        };
        match crate::engine::derive_key_package(&share) {
            None => Err(FrostError::InvalidSecretKey),
            Some(data) => Ok(FrostKeyPackage { identifier: crate::engine::to_hex(&self.identifier.data), data }),
        }
    }
}

impl FrostKeyPackage {
    /// The engine's serialized key package, once the engine reads it.
    pub fn into_key_package(&self) -> (r: Result<Vec<u8>, FrostError>)
        ensures
            crate::engine::key_package_decodes(self.data@) ==> (r matches Ok(b) && b@ == self.data@),
            !crate::engine::key_package_decodes(self.data@) ==> r == Err::<Vec<u8>, FrostError>(FrostError::DeserializationError),
    {
        if crate::engine::check_key_package(&self.data) {
            Ok(copy_bytes(&self.data))
        } else {
            Err(FrostError::DeserializationError)
        }
    }
}

/// Checks a secret share received from the dealer and derives the
/// participant's key package from it.
pub fn verify_and_get_key_package_from(secret_share: FrostSecretKeyShare) -> (r: Result<FrostKeyPackage, FrostError>)
    ensures
        derived_key_package(secret_share) is None ==> r == Err::<FrostKeyPackage, FrostError>(FrostError::InvalidSecretKey),
        derived_key_package(secret_share) matches Some(kp) ==> (r matches Ok(p) && p.data@ == kp
            && p.identifier@ == hex_of(secret_share.identifier.data@)),
{
    secret_share.into_key_package()
}

} // verus!
