use frost_mobile_sdk::coordinator::{FrostSignature, FrostSigningPackage};
use frost_mobile_sdk::participant::{FrostSignatureShare, FrostSigningCommitments, FrostSigningNonces};
use frost_mobile_sdk::{
    trusted_dealer_keygen_from, Configuration, FrostError, FrostKeyPackage, FrostPublicKeyPackage, FrostSecretKeyShare, ParticipantIdentifier,
};

#[test]
fn identifier_round_trip() {
    let id = ParticipantIdentifier::from_index(7);
    let bytes = id.encode();
    assert_eq!(bytes.len(), 32);
    assert_eq!(bytes, id.data);
    assert_eq!(ParticipantIdentifier::decode(&bytes).unwrap().data, id.data);
}

#[test]
fn identifier_decode_refuses_non_scalars() {
    assert_eq!(ParticipantIdentifier::decode(&vec![0u8; 32]).err(), Some(FrostError::DeserializationError));
    assert_eq!(ParticipantIdentifier::decode(&vec![0xffu8; 32]).err(), Some(FrostError::DeserializationError));
    assert_eq!(ParticipantIdentifier::decode(&vec![1u8; 31]).err(), Some(FrostError::DeserializationError));
}

#[test]
fn secret_share_round_trip() {
    let s = FrostSecretKeyShare { identifier: ParticipantIdentifier::from_index(2), data: vec![9, 8, 7] };
    let bytes = s.encode();
    assert_eq!(bytes, [vec![2, 32, 0, 0, 0], s.identifier.data.clone(), vec![3, 0, 0, 0, 9, 8, 7]].concat());
    let back = FrostSecretKeyShare::decode(&bytes).unwrap();
    assert_eq!(back.identifier.data, s.identifier.data);
    assert_eq!(back.data, s.data);
}

#[test]
fn other_records_round_trip() {
    let n = FrostSigningNonces { data: vec![1, 2, 3, 4] };
    assert_eq!(FrostSigningNonces::decode(&n.encode()).unwrap().data, n.data);
    let c = FrostSigningCommitments { identifier: ParticipantIdentifier::from_index(3), data: vec![] };
    let cb = FrostSigningCommitments::decode(&c.encode()).unwrap();
    assert_eq!((cb.identifier.data, cb.data), (c.identifier.data.clone(), c.data.clone()));
    let s = FrostSignatureShare { identifier: ParticipantIdentifier::from_index(4), data: vec![0xff; 32] };
    let sb = FrostSignatureShare::decode(&s.encode()).unwrap();
    assert_eq!((sb.identifier.data, sb.data), (s.identifier.data.clone(), s.data.clone()));
    let g = FrostSignature { data: vec![5; 64] };
    assert_eq!(FrostSignature::decode(&g.encode()).unwrap().data, g.data);
}

#[test]
fn malformed_records_are_refused() {
    assert_eq!(ParticipantIdentifier::decode(&vec![]).err(), Some(FrostError::DeserializationError));
    let s = FrostSecretKeyShare { identifier: ParticipantIdentifier::from_index(2), data: vec![9, 8, 7] };
    let mut bytes = s.encode();
    assert_eq!(ParticipantIdentifier::decode(&bytes).err(), Some(FrostError::DeserializationError));
    bytes.pop();
    assert_eq!(FrostSecretKeyShare::decode(&bytes).err(), Some(FrostError::DeserializationError));
    let mut longer = s.encode();
    longer.push(0);
    assert_eq!(FrostSecretKeyShare::decode(&longer).err(), Some(FrostError::DeserializationError));
    let id_bytes = ParticipantIdentifier::from_index(1).encode();
    assert!(FrostSignature::decode(&id_bytes).is_err());
}

#[test]
fn signing_package_round_trip() {
    let c1 = FrostSigningCommitments { identifier: ParticipantIdentifier::from_index(1), data: vec![1, 1] };
    let c2 = FrostSigningCommitments { identifier: ParticipantIdentifier::from_index(2), data: vec![2] };
    let p = FrostSigningPackage { message: b"hello".to_vec(), commitments: vec![c1, c2] };
    let bytes = p.encode();
    assert_eq!(bytes[0], 7);
    assert_eq!(&bytes[1..10], &[5, 0, 0, 0, b'h', b'e', b'l', b'l', b'o']);
    let back = FrostSigningPackage::decode(&bytes).unwrap();
    assert_eq!(back.message, p.message);
    assert_eq!(back.commitments.len(), 2);
    for (a, b) in back.commitments.iter().zip(p.commitments.iter()) {
        assert_eq!(a.identifier.data, b.identifier.data);
        assert_eq!(a.data, b.data);
    }
    let empty = FrostSigningPackage { message: vec![], commitments: vec![] };
    let e = FrostSigningPackage::decode(&empty.encode()).unwrap();
    assert!(e.message.is_empty() && e.commitments.is_empty());
    let two_fields = FrostSecretKeyShare { identifier: ParticipantIdentifier::from_index(1), data: vec![] }.encode();
    let mut relabelled = two_fields.clone();
    relabelled[0] = 7;
    assert_eq!(FrostSigningPackage::decode(&relabelled).err(), Some(FrostError::DeserializationError));
}

#[test]
fn key_package_round_trip() {
    let kp = FrostKeyPackage { identifier: String::from("0a0b"), data: vec![4, 5, 6] };
    let bytes = kp.encode();
    assert_eq!(bytes, vec![8, 4, 0, 0, 0, b'0', b'a', b'0', b'b', 3, 0, 0, 0, 4, 5, 6]);
    let back = FrostKeyPackage::decode(&bytes).unwrap();
    assert_eq!(back.identifier, kp.identifier);
    assert_eq!(back.data, kp.data);
    let mut bad = bytes.clone();
    bad[5] = 0xff;
    assert_eq!(FrostKeyPackage::decode(&bad).err(), Some(FrostError::DeserializationError));
}

#[test]
fn public_key_package_round_trip() {
    let p = FrostPublicKeyPackage {
        verifying_shares: vec![
            (ParticipantIdentifier::from_index(1), String::from("aa")),
            (ParticipantIdentifier::from_index(2), String::from("bb")),
        ],
        verifying_key: String::from("cc"),
    };
    let bytes = p.encode();
    assert_eq!(&bytes[0..7], &[9, 2, 0, 0, 0, b'c', b'c']);
    let back = FrostPublicKeyPackage::decode(&bytes).unwrap();
    assert_eq!(back.verifying_key, p.verifying_key);
    assert_eq!(back.verifying_shares.len(), 2);
    for (a, b) in back.verifying_shares.iter().zip(p.verifying_shares.iter()) {
        assert_eq!(a.0.data, b.0.data);
        assert_eq!(a.1, b.1);
    }
    let mut bad = bytes.clone();
    bad[5] = 0xc3;
    assert_eq!(FrostPublicKeyPackage::decode(&bad).err(), Some(FrostError::DeserializationError));
}

#[test]
fn dealt_public_key_package_survives_the_wire() {
    let keys = trusted_dealer_keygen_from(Configuration { min_signers: 2, max_signers: 4, secret: vec![] }).unwrap();
    let back = FrostPublicKeyPackage::decode(&keys.public_key_package.encode()).unwrap();
    assert_eq!(back.verifying_key, keys.public_key_package.verifying_key);
    assert_eq!(back.verifying_shares.len(), 4);
}
