use frost_mobile_sdk::coordinator::{aggregate, new_signing_package, read_public_keys, verify_signature, CoordinationError, FrostSignature, FrostSigningPackage};
use frost_mobile_sdk::participant::{generate_nonces_and_commitments, generate_nonces_and_commitments_from_seed, sign, FirstRoundCommitment, FrostSignatureShare, FrostSigningCommitments, FrostSigningNonces, Round1Error, Round2Error};
use frost_mobile_sdk::{
    trusted_dealer_keygen_from, trusted_dealer_keygen_with_identifiers, validate_config, verify_and_get_key_package_from, Configuration,
    ConfigurationError, FrostError, FrostKeyPackage, FrostSecretKeyShare, ParticipantIdentifier, ParticipantList, TrustedKeyGeneration, wrap_dealt,
};

fn config(min: u16, max: u16) -> Configuration {
    Configuration { min_signers: min, max_signers: max, secret: vec![] }
}

fn ids(n: u16) -> ParticipantList {
    ParticipantList { identifiers: (1..=n).map(ParticipantIdentifier::from_index).collect() }
}

fn share_of(keys: &TrustedKeyGeneration, i: u16) -> FrostSecretKeyShare {
    let id = ParticipantIdentifier::from_index(i).data;
    keys.secret_shares.iter().find(|s| s.identifier.data == id).unwrap().clone()
}

fn dealt_2_of_3() -> TrustedKeyGeneration {
    trusted_dealer_keygen_with_identifiers(config(2, 3), ids(3)).unwrap()
}

struct Session {
    package: FrostSigningPackage,
    shares: Vec<FrostSignatureShare>,
}

fn run_session(keys: &TrustedKeyGeneration, signers: &[u16], message: &[u8]) -> Session {
    let rounds: Vec<(FrostSecretKeyShare, FirstRoundCommitment)> =
        signers.iter().map(|i| {
            let s = share_of(keys, *i);
            (s.clone(), generate_nonces_and_commitments(s).unwrap())
        }).collect();
    let commitments: Vec<FrostSigningCommitments> = rounds.iter().map(|(_, r)| r.commitments.clone()).collect();
    let package = new_signing_package(message.to_vec(), commitments, 2).unwrap();
    let shares = rounds
        .into_iter()
        .map(|(s, r)| sign(package.clone(), r.nonces, verify_and_get_key_package_from(s).unwrap()).unwrap())
        .collect();
    Session { package, shares }
}

#[test]
fn two_of_three_signs_hello() {
    let keys = dealt_2_of_3();
    let session = run_session(&keys, &[1, 2], b"hello");
    let sig = aggregate(&session.package, &session.shares, &keys.public_key_package).unwrap();
    assert_eq!(sig.data.len(), 64);
    assert!(verify_signature(&keys.public_key_package, &b"hello".to_vec(), &sig));
    assert!(!verify_signature(&keys.public_key_package, &b"goodbye".to_vec(), &sig));
}

#[test]
fn any_two_of_three_sign() {
    let keys = trusted_dealer_keygen_from(config(2, 3)).unwrap();
    for pair in [[1u16, 2], [1, 3], [2, 3]] {
        let session = run_session(&keys, &pair, b"msg");
        let sig = aggregate(&session.package, &session.shares, &keys.public_key_package).unwrap();
        assert!(verify_signature(&keys.public_key_package, &b"msg".to_vec(), &sig));
    }
}

#[test]
fn validate_config_errors() {
    assert_eq!(validate_config(&config(1, 3)), Err(ConfigurationError::InvalidMinSigners));
    assert_eq!(validate_config(&config(2, 1)), Err(ConfigurationError::InvalidMaxSigners));
    assert_eq!(validate_config(&config(3, 2)), Err(ConfigurationError::InvalidMinSigners));
    assert_eq!(validate_config(&config(2, 2)), Ok(()));
    assert_eq!(validate_config(&config(0, 0)), Err(ConfigurationError::InvalidMinSigners));
}

#[test]
fn keygen_gives_one_share_per_identifier() {
    let keys = trusted_dealer_keygen_from(config(3, 5)).unwrap();
    assert_eq!(keys.secret_shares.len(), 5);
    assert_eq!(keys.public_key_package.verifying_shares.len(), 5);
    for i in 1..=5u16 {
        let id = ParticipantIdentifier::from_index(i).data;
        assert_eq!(keys.secret_shares.iter().filter(|s| s.identifier.data == id).count(), 1);
        assert_eq!(keys.public_key_package.verifying_shares.iter().filter(|(p, _)| p.data == id).count(), 1);
    }
    let vk = &keys.public_key_package.verifying_key;
    assert_eq!(vk.len(), 64);
    assert!(vk.chars().all(|c| c.is_ascii_hexdigit() && !c.is_ascii_uppercase()));
}

#[test]
fn keygen_refuses_bad_configuration() {
    assert_eq!(trusted_dealer_keygen_from(config(1, 3)).err(), Some(ConfigurationError::InvalidMinSigners));
    assert_eq!(trusted_dealer_keygen_from(config(2, 1)).err(), Some(ConfigurationError::InvalidMaxSigners));
    assert_eq!(trusted_dealer_keygen_from(config(4, 3)).err(), Some(ConfigurationError::InvalidMinSigners));
}

#[test]
fn keygen_with_given_secret_keeps_group_key() {
    let mut secret = vec![0u8; 32];
    secret[0] = 7;
    let c = Configuration { min_signers: 2, max_signers: 3, secret };
    let a = trusted_dealer_keygen_from(c.clone()).unwrap();
    let b = trusted_dealer_keygen_from(c).unwrap();
    assert_eq!(a.public_key_package.verifying_key, b.public_key_package.verifying_key);
}

#[test]
fn keygen_with_identifiers_errors() {
    assert_eq!(trusted_dealer_keygen_with_identifiers(config(2, 3), ids(2)).err(), Some(ConfigurationError::InvalidMaxSigners));
    let mut list = ids(3);
    list.identifiers[1] = ParticipantIdentifier { data: vec![0u8; 32] };
    assert_eq!(trusted_dealer_keygen_with_identifiers(config(2, 3), list).err(), Some(ConfigurationError::InvalidIdentifier));
    let mut list = ids(3);
    list.identifiers[0] = ParticipantIdentifier { data: vec![1u8; 31] };
    assert_eq!(trusted_dealer_keygen_with_identifiers(config(2, 3), list).err(), Some(ConfigurationError::InvalidIdentifier));
    assert_eq!(trusted_dealer_keygen_with_identifiers(config(4, 3), ids(3)).err(), Some(ConfigurationError::InvalidMinSigners));
}

#[test]
fn custom_identifiers_are_kept() {
    let mut a = vec![0u8; 32];
    a[0] = 9;
    let mut b = vec![0u8; 32];
    b[1] = 4;
    let list = ParticipantList { identifiers: vec![ParticipantIdentifier { data: a.clone() }, ParticipantIdentifier { data: b.clone() }] };
    let keys = trusted_dealer_keygen_with_identifiers(config(2, 2), list).unwrap();
    let mut got: Vec<Vec<u8>> = keys.secret_shares.iter().map(|s| s.identifier.data.clone()).collect();
    got.sort();
    let mut want = vec![a, b];
    want.sort();
    assert_eq!(got, want);
}

#[test]
fn identifier_from_index_is_little_endian() {
    let id = ParticipantIdentifier::from_index(258);
    assert_eq!(id.data.len(), 32);
    assert_eq!(&id.data[0..3], &[2, 1, 0]);
    assert!(id.data[2..].iter().all(|b| *b == 0));
}

#[test]
fn key_package_carries_hex_identifier() {
    let keys = dealt_2_of_3();
    let kp = verify_and_get_key_package_from(share_of(&keys, 1)).unwrap();
    let mut want = String::from("01");
    want.push_str(&"0".repeat(62));
    assert_eq!(kp.identifier, want);
    assert!(kp.into_key_package().is_ok());
}

#[test]
fn tampered_share_never_derives_a_key_package() {
    let keys = dealt_2_of_3();
    let share = share_of(&keys, 2);
    for i in 0..share.data.len() {
        let mut bad = share.clone();
        bad.data[i] ^= 0x01;
        let r = verify_and_get_key_package_from(bad);
        assert!(matches!(r, Err(FrostError::InvalidSecretKey) | Err(FrostError::DeserializationError)), "byte {}", i);
    }
}

#[test]
fn mismatched_identifier_is_unknown() {
    let keys = dealt_2_of_3();
    let mut share = share_of(&keys, 1);
    share.identifier = ParticipantIdentifier::from_index(2);
    assert_eq!(share.to_secret_share().err(), Some(FrostError::UnknownIdentifier));
    assert_eq!(verify_and_get_key_package_from(share).err(), Some(FrostError::InvalidSecretKey));
}

#[test]
fn secret_share_errors() {
    let keys = dealt_2_of_3();
    let mut share = share_of(&keys, 1);
    share.identifier = ParticipantIdentifier { data: vec![0u8; 32] };
    assert_eq!(share.to_secret_share().err(), Some(FrostError::DeserializationError));
    let share = FrostSecretKeyShare { identifier: ParticipantIdentifier::from_index(1), data: vec![1, 2, 3] };
    assert_eq!(share.to_secret_share().err(), Some(FrostError::DeserializationError));
    let good = share_of(&keys, 3);
    assert_eq!(good.to_secret_share().unwrap(), good.data);
}

#[test]
fn round1_refuses_bad_share() {
    let keys = dealt_2_of_3();
    let mut share = share_of(&keys, 1);
    share.identifier = ParticipantIdentifier::from_index(3);
    assert_eq!(generate_nonces_and_commitments(share).err(), Some(Round1Error::InvalidKeyPackage));
    let ok = generate_nonces_and_commitments(share_of(&keys, 3)).unwrap();
    assert_eq!(ok.commitments.identifier.data, ParticipantIdentifier::from_index(3).data);
}

#[test]
fn round1_nonces_are_fresh() {
    let keys = dealt_2_of_3();
    let a = generate_nonces_and_commitments(share_of(&keys, 1)).unwrap();
    let b = generate_nonces_and_commitments(share_of(&keys, 1)).unwrap();
    assert_ne!(a.nonces.data, b.nonces.data);
    assert_ne!(a.commitments.data, b.commitments.data);
}

#[test]
fn assembly_errors() {
    let keys = dealt_2_of_3();
    let c1 = generate_nonces_and_commitments(share_of(&keys, 1)).unwrap().commitments;
    let c2 = generate_nonces_and_commitments(share_of(&keys, 2)).unwrap().commitments;
    assert_eq!(new_signing_package(b"m".to_vec(), vec![c1.clone()], 2).err(), Some(CoordinationError::InsufficientCommitments));
    assert_eq!(new_signing_package(b"m".to_vec(), vec![c1.clone(), c1.clone()], 2).err(), Some(CoordinationError::DuplicateIdentifier));
    let junk = FrostSigningCommitments { identifier: ParticipantIdentifier::from_index(2), data: vec![5, 5] };
    assert_eq!(new_signing_package(b"m".to_vec(), vec![c1.clone(), junk], 2).err(), Some(CoordinationError::DeserializationError));
    let p = new_signing_package(b"m".to_vec(), vec![c1, c2], 2).unwrap();
    assert_eq!(p.message, b"m".to_vec());
    assert_eq!(p.commitments.len(), 2);
}

#[test]
fn too_few_shares_are_refused() {
    let keys = dealt_2_of_3();
    let session = run_session(&keys, &[1, 2], b"hello");
    let one = vec![session.shares[0].clone()];
    assert_eq!(aggregate(&session.package, &one, &keys.public_key_package).err(), Some(CoordinationError::InsufficientShares));
    assert_eq!(aggregate(&session.package, &vec![], &keys.public_key_package).err(), Some(CoordinationError::InsufficientShares));
}

#[test]
fn aggregation_errors() {
    let keys = dealt_2_of_3();
    let session = run_session(&keys, &[1, 2], b"hello");
    let twice = vec![session.shares[0].clone(), session.shares[0].clone()];
    assert_eq!(aggregate(&session.package, &twice, &keys.public_key_package).err(), Some(CoordinationError::DuplicateIdentifier));
    let mut stranger = session.shares[1].clone();
    stranger.identifier = ParticipantIdentifier::from_index(3);
    let shares = vec![session.shares[0].clone(), stranger];
    assert_eq!(aggregate(&session.package, &shares, &keys.public_key_package).err(), Some(CoordinationError::UnknownIdentifier));
    let mut bad = session.shares[1].clone();
    bad.data[0] ^= 0x01;
    let shares = vec![session.shares[0].clone(), bad];
    assert_eq!(aggregate(&session.package, &shares, &keys.public_key_package).err(), Some(CoordinationError::InvalidShare));
    let mut pkp = keys.public_key_package.clone();
    pkp.verifying_key = String::from("zz");
    assert_eq!(aggregate(&session.package, &session.shares, &pkp).err(), Some(CoordinationError::DeserializationError));
}

#[test]
fn signing_errors() {
    let keys = dealt_2_of_3();
    let r1 = generate_nonces_and_commitments(share_of(&keys, 1)).unwrap();
    let r2 = generate_nonces_and_commitments(share_of(&keys, 2)).unwrap();
    let package = new_signing_package(b"x".to_vec(), vec![r1.commitments.clone(), r2.commitments.clone()], 2).unwrap();
    let kp1 = verify_and_get_key_package_from(share_of(&keys, 1)).unwrap();
    let kp3 = verify_and_get_key_package_from(share_of(&keys, 3)).unwrap();
    let broken = FrostSigningPackage { message: b"x".to_vec(), commitments: vec![FrostSigningCommitments { identifier: ParticipantIdentifier::from_index(1), data: vec![1] }] };
    assert!(matches!(sign(broken, FrostSigningNonces { data: r1.nonces.data.clone() }, kp1.clone()), Err(Round2Error::SigningPackageDeserializationError)));
    assert!(matches!(sign(package.clone(), FrostSigningNonces { data: vec![9] }, kp1.clone()), Err(Round2Error::NonceSerializationError)));
    let junk_kp = FrostKeyPackage { identifier: kp1.identifier.clone(), data: vec![3, 3] };
    assert!(matches!(sign(package.clone(), FrostSigningNonces { data: r1.nonces.data.clone() }, junk_kp), Err(Round2Error::InvalidKeyPackage)));
    assert!(matches!(sign(package.clone(), FrostSigningNonces { data: r2.nonces.data.clone() }, kp3), Err(Round2Error::SigningFailed { .. })));
    let share = sign(package, r1.nonces, kp1).unwrap();
    assert_eq!(share.identifier.data, ParticipantIdentifier::from_index(1).data);
}

#[test]
fn package_survives_the_wire() {
    let keys = dealt_2_of_3();
    let r1 = generate_nonces_and_commitments(share_of(&keys, 1)).unwrap();
    let r3 = generate_nonces_and_commitments(share_of(&keys, 3)).unwrap();
    let package = new_signing_package(b"over the wire".to_vec(), vec![r1.commitments.clone(), r3.commitments.clone()], 2).unwrap();
    let received = FrostSigningPackage::decode(&package.encode()).unwrap();
    let s1 = sign(received.clone(), r1.nonces, verify_and_get_key_package_from(share_of(&keys, 1)).unwrap()).unwrap();
    let s3 = sign(received, r3.nonces, verify_and_get_key_package_from(share_of(&keys, 3)).unwrap()).unwrap();
    let shares = vec![
        FrostSignatureShare::decode(&s1.encode()).unwrap(),
        FrostSignatureShare::decode(&s3.encode()).unwrap(),
    ];
    let sig = aggregate(&package, &shares, &keys.public_key_package).unwrap();
    let sig = FrostSignature::decode(&sig.encode()).unwrap();
    assert!(verify_signature(&keys.public_key_package, &b"over the wire".to_vec(), &sig));
}

#[test]
fn seeded_round_one_is_deterministic() {
    let keys = dealt_2_of_3();
    let a = generate_nonces_and_commitments_from_seed(share_of(&keys, 1), [7u8; 32]).unwrap();
    let b = generate_nonces_and_commitments_from_seed(share_of(&keys, 1), [7u8; 32]).unwrap();
    let c = generate_nonces_and_commitments_from_seed(share_of(&keys, 1), [8u8; 32]).unwrap();
    assert_eq!(a.nonces.data, b.nonces.data);
    assert_eq!(a.commitments.data, b.commitments.data);
    assert_ne!(a.commitments.data, c.commitments.data);
    let mut bad = share_of(&keys, 1);
    bad.identifier = ParticipantIdentifier::from_index(2);
    assert_eq!(generate_nonces_and_commitments_from_seed(bad, [7u8; 32]).err(), Some(Round1Error::InvalidKeyPackage));
}

#[test]
fn signing_is_deterministic() {
    let keys = dealt_2_of_3();
    let r1 = generate_nonces_and_commitments_from_seed(share_of(&keys, 1), [1u8; 32]).unwrap();
    let r2 = generate_nonces_and_commitments(share_of(&keys, 2)).unwrap();
    let package = new_signing_package(b"d".to_vec(), vec![r1.commitments.clone(), r2.commitments.clone()], 2).unwrap();
    let kp1 = verify_and_get_key_package_from(share_of(&keys, 1)).unwrap();
    let a = sign(package.clone(), FrostSigningNonces { data: r1.nonces.data.clone() }, kp1.clone()).unwrap();
    let b = sign(package, r1.nonces, kp1).unwrap();
    assert_eq!(a.data, b.data);
}

#[test]
fn signing_with_other_nonces_fails() {
    let keys = dealt_2_of_3();
    let r1 = generate_nonces_and_commitments(share_of(&keys, 1)).unwrap();
    let r2 = generate_nonces_and_commitments(share_of(&keys, 2)).unwrap();
    let stale = generate_nonces_and_commitments(share_of(&keys, 1)).unwrap();
    let package = new_signing_package(b"n".to_vec(), vec![r1.commitments.clone(), r2.commitments.clone()], 2).unwrap();
    let kp1 = verify_and_get_key_package_from(share_of(&keys, 1)).unwrap();
    assert!(matches!(sign(package, stale.nonces, kp1), Err(Round2Error::SigningFailed { .. })));
}

#[test]
fn public_keys_refuse_duplicates_and_bad_text() {
    let keys = dealt_2_of_3();
    assert!(read_public_keys(&keys.public_key_package).is_some());
    let mut dup = keys.public_key_package.clone();
    let first = dup.verifying_shares[0].clone();
    dup.verifying_shares[1] = first;
    assert!(read_public_keys(&dup).is_none());
    let mut bad = keys.public_key_package.clone();
    bad.verifying_shares[0].1 = String::from("xyz");
    assert!(read_public_keys(&bad).is_none());
    let mut short = keys.public_key_package.clone();
    short.verifying_key = String::from("abcd");
    assert!(read_public_keys(&short).is_none());
}

#[test]
fn wrap_dealt_refuses_missing_public_data() {
    let ids = vec![ParticipantIdentifier::from_index(1).data];
    let dealt = (vec![(ParticipantIdentifier::from_index(1).data, vec![1, 2])], vec![9, 9, 9]);
    assert!(wrap_dealt(&dealt, &ids).is_none());
}

#[test]
fn dealt_shares_bind_and_verify() {
    let keys = trusted_dealer_keygen_from(config(2, 4)).unwrap();
    for s in &keys.secret_shares {
        assert_eq!(s.to_secret_share().unwrap(), s.data);
        assert!(generate_nonces_and_commitments(s.clone()).is_ok());
    }
}
