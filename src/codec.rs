//! The wire form of the records exchanged between roles: a kind byte, then
//! each field as a four-byte little-endian length and its bytes.
use crate::bytes::views;
use crate::coordinator::{FrostSignature, FrostSigningPackage};
use crate::participant::{FrostSignatureShare, FrostSigningCommitments, FrostSigningNonces};
use crate::{FrostError, FrostKeyPackage, FrostPublicKeyPackage, FrostSecretKeyShare, ParticipantIdentifier};
use vstd::string::StrSliceExecFns;
use vstd::utf8::{decode_utf8, encode_utf8, valid_utf8};
use vstd::prelude::*;

verus! {

pub open spec fn le32(n: nat) -> Seq<u8> {
    seq![(n % 256) as u8, (n / 256 % 256) as u8, (n / 65536 % 256) as u8, (n / 16777216 % 256) as u8]
}

pub open spec fn read_le32(b: Seq<u8>, pos: int) -> nat {
    (b[pos] + 256 * b[pos + 1] + 65536 * b[pos + 2] + 16777216 * b[pos + 3]) as nat
}

pub open spec fn frame(f: Seq<u8>) -> Seq<u8> {
    le32(f.len()) + f
}

pub open spec fn frames(fs: Seq<Seq<u8>>) -> Seq<u8>
    decreases fs.len(),
{
    if fs.len() == 0 {
        Seq::empty()
    } else {
        frame(fs[0]) + frames(fs.drop_first())
    }
}

/// The wire form of a record of the given kind.
pub open spec fn record(kind: u8, fs: Seq<Seq<u8>>) -> Seq<u8> {
    seq![kind] + frames(fs)
}

/// Every field fits a four-byte length.
pub open spec fn fields_fit(fs: Seq<Seq<u8>>) -> bool {
    forall|i: int| 0 <= i < fs.len() ==> (#[trigger] fs[i]).len() < 0x1_0000_0000
}

/// The fields from `pos` to the end of `b`, where they read.
pub open spec fn fields_from(b: Seq<u8>, pos: int) -> Option<Seq<Seq<u8>>>
    decreases b.len() - pos,
{
    if pos < 0 || pos > b.len() {
        None
    } else if pos == b.len() {
        Some(Seq::empty())
    } else if pos + 4 > b.len() || pos + 4 + read_le32(b, pos) > b.len() {
        None
    } else {
        let next = pos + 4 + read_le32(b, pos);
        match fields_from(b, next) {
            Some(rest) => Some(seq![b.subrange(pos + 4, next)] + rest),
            None => None,
        }
    }
}

/// The fields of a record of the given kind, where `b` is one.
pub open spec fn parse_record(b: Seq<u8>, kind: u8) -> Option<Seq<Seq<u8>>> {
    if b.len() >= 1 && b[0] == kind {
        fields_from(b, 1)
    } else {
        None
    }
}

proof fn lemma_le32_read(b: Seq<u8>, q: int, n: nat)
    requires
        n < 0x1_0000_0000,
        0 <= q,
        q + 4 <= b.len(),
        b.subrange(q, q + 4) == le32(n),
    ensures
        read_le32(b, q) == n,
{
    assert(b[q] == b.subrange(q, q + 4)[0]);
    assert(b[q + 1] == b.subrange(q, q + 4)[1]);
    assert(b[q + 2] == b.subrange(q, q + 4)[2]);
    assert(b[q + 3] == b.subrange(q, q + 4)[3]);
    assert(n == n % 256 + 256 * (n / 256 % 256) + 65536 * (n / 65536 % 256) + 16777216 * (n / 16777216 % 256))
        by (nonlinear_arith)
        requires n < 0x1_0000_0000;
}

proof fn lemma_fields_from_frames(b: Seq<u8>, q: int, fs: Seq<Seq<u8>>)
    requires
        fields_fit(fs),
        0 <= q <= b.len(),
        b.subrange(q, b.len() as int) == frames(fs),
    ensures
        fields_from(b, q) == Some(fs),
    decreases fs.len(),
{
    if fs.len() == 0 {
        assert(fs =~= Seq::<Seq<u8>>::empty());
        assert(frames(fs).len() == 0);
        assert(q == b.len());
    } else {
        let f = fs[0];
        let tail = fs.drop_first();
        assert(fields_fit(tail)) by {
            assert forall|i: int| 0 <= i < tail.len() implies (#[trigger] tail[i]).len() < 0x1_0000_0000 by {
                assert(tail[i] == fs[i + 1]);
            }
        }
        let s = b.subrange(q, b.len() as int);
        let next = q + 4 + f.len();
        assert(s == le32(f.len()) + f + frames(tail));
        assert(b.subrange(q, q + 4) =~= s.subrange(0, 4));
        assert(s.subrange(0, 4) =~= le32(f.len()));
        assert(fs[0].len() < 0x1_0000_0000);
        lemma_le32_read(b, q, f.len());
        assert(b.subrange(q + 4, next) =~= s.subrange(4, 4 + f.len() as int));
        assert(s.subrange(4, 4 + f.len() as int) =~= f);
        assert(b.subrange(next, b.len() as int) =~= s.subrange(4 + f.len() as int, s.len() as int));
        assert(s.subrange(4 + f.len() as int, s.len() as int) =~= frames(tail));
        lemma_fields_from_frames(b, next, tail);
        assert(q < b.len());
        assert(read_le32(b, q) == f.len());
        assert(next <= b.len());
        assert(fields_from(b, q) == Some(seq![b.subrange(q + 4, next)] + tail));
        assert(seq![f] + tail =~= fs);
    }
}

/// Decoding the wire form of a record gives back its fields.
pub proof fn lemma_record_round_trip(kind: u8, fs: Seq<Seq<u8>>)
    requires
        fields_fit(fs),
    ensures
        parse_record(record(kind, fs), kind) == Some(fs),
{
    let b = record(kind, fs);
    assert(b.subrange(1, b.len() as int) =~= frames(fs));
    lemma_fields_from_frames(b, 1, fs);
}

fn push_le32(out: &mut Vec<u8>, n: usize)
    requires
        n < 0x1_0000_0000,
    ensures
        final(out)@ == old(out)@ + le32(n as nat),
{
    out.push((n % 256) as u8);
    out.push((n / 256 % 256) as u8);
    out.push((n / 65536 % 256) as u8);
    out.push((n / 16777216 % 256) as u8);
    assert(final(out)@ =~= old(out)@ + le32(n as nat));
}

/// The wire form of a record of the given kind with the given fields.
pub fn encode_record(kind: u8, fields: &Vec<Vec<u8>>) -> (r: Vec<u8>)
    requires
        fields_fit(views(fields@)),
    ensures
        r@ == record(kind, views(fields@)),
{
    let mut out: Vec<u8> = Vec::new();
    out.push(kind);
    assert(views(fields@).subrange(0, fields@.len() as int) =~= views(fields@));
    let mut i: usize = 0;
    while i < fields.len()
        invariant
            i <= fields@.len(),
            fields_fit(views(fields@)),
            out@ + frames(views(fields@).subrange(i as int, fields@.len() as int)) == record(kind, views(fields@)),
        decreases fields@.len() - i,
    {
        let ghost rest = views(fields@).subrange(i as int, fields@.len() as int);
        assert(rest[0] == fields@[i as int]@);
        assert(rest.drop_first() =~= views(fields@).subrange(i + 1, fields@.len() as int));
        assert(views(fields@)[i as int].len() < 0x1_0000_0000);
        let f = &fields[i];
        let ghost start = out@;
        push_le32(&mut out, f.len());
        let ghost before = out@;
        let mut k: usize = 0;
        while k < f.len()
            invariant
                k <= f@.len(),
                out@ == before + f@.subrange(0, k as int),
            decreases f@.len() - k,
        {
            out.push(f[k]);
            k += 1;
            assert(out@ =~= before + f@.subrange(0, k as int));
        }
        assert(out@ =~= start + frame(f@));
        assert(start + frames(rest) =~= out@ + frames(views(fields@).subrange(i + 1, fields@.len() as int)));
        i += 1;
    }
    assert(views(fields@).subrange(i as int, fields@.len() as int) =~= Seq::<Seq<u8>>::empty());
    assert(out@ =~= out@ + Seq::<u8>::empty());
    out
}

fn read_le32_at(b: &Vec<u8>, pos: usize) -> (r: u64)
    requires
        pos + 4 <= b@.len(),
    ensures
        r as nat == read_le32(b@, pos as int),
{
    let len = b.len();
    assert(pos + 4 <= len);
    (b[pos] as u64) + 256 * (b[pos + 1] as u64) + 65536 * (b[pos + 2] as u64) + 16777216 * (b[pos + 3] as u64)
}

fn copy_range(b: &Vec<u8>, from: usize, to: usize) -> (r: Vec<u8>)
    requires
        from <= to <= b@.len(),
    ensures
        r@ == b@.subrange(from as int, to as int),
{
    let mut r: Vec<u8> = Vec::new();
    let mut i: usize = from;
    while i < to
        invariant
            from <= i <= to,
            to <= b@.len(),
            r@ == b@.subrange(from as int, i as int),
        decreases to - i,
    {
        r.push(b[i]);
        i += 1;
        assert(r@ =~= b@.subrange(from as int, i as int));
    }
    r
}

/// The fields of a record of the given kind, or `None` where `b` is not
/// one.
pub fn decode_record(b: &Vec<u8>, kind: u8) -> (r: Option<Vec<Vec<u8>>>)
    ensures
        match parse_record(b@, kind) {
            Some(fs) => r matches Some(v) && views(v@) == fs,
            None => r is None,
        },
{
    if b.len() < 1 || b[0] != kind {
        return None;
    }
    let mut out: Vec<Vec<u8>> = Vec::new();
    let mut pos: usize = 1;
    while pos < b.len()
        invariant
            1 <= pos <= b@.len(),
            b@.len() >= 1 && b@[0] == kind,
            parse_record(b@, kind) == match fields_from(b@, pos as int) {
                Some(rest) => Some(views(out@) + rest),
                None => None::<Seq<Seq<u8>>>,
            },
        decreases b@.len() - pos,
    {
        if b.len() - pos < 4 {
            return None;
        }
        let n = read_le32_at(b, pos);
        if ((b.len() - pos - 4) as u64) < n {
            return None;
        }
        let next = pos + 4 + n as usize;
        let f = copy_range(b, pos + 4, next);
        proof {
            match fields_from(b@, next as int) {
                Some(rest) => {
                    assert(views(out@.push(f)) =~= views(out@).push(f@));
                    assert(views(out@) + (seq![f@] + rest) =~= views(out@).push(f@) + rest);
                },
                None => {},
            }
        }
        out.push(f);
        pos = next;
    }
    assert(views(out@) + Seq::<Seq<u8>>::empty() =~= views(out@));
    Some(out)
}

pub const KIND_SECRET_SHARE: u8 = 2;
pub const KIND_NONCES: u8 = 3;
pub const KIND_COMMITMENTS: u8 = 4;
pub const KIND_SIGNATURE_SHARE: u8 = 5;
pub const KIND_SIGNATURE: u8 = 6;
pub const KIND_SIGNING_PACKAGE: u8 = 7;
pub const KIND_KEY_PACKAGE: u8 = 8;
pub const KIND_PUBLIC_KEY_PACKAGE: u8 = 9;

/// The one field of a record of the given kind, where `b` is one.
pub open spec fn single_field(b: Seq<u8>, kind: u8) -> Option<Seq<u8>> {
    match parse_record(b, kind) {
        Some(fs) => if fs.len() == 1 { Some(fs[0]) } else { None },
        None => None,
    }
}

/// The two fields of a record of the given kind, where `b` is one.
pub open spec fn field_pair(b: Seq<u8>, kind: u8) -> Option<(Seq<u8>, Seq<u8>)> {
    match parse_record(b, kind) {
        Some(fs) => if fs.len() == 2 { Some((fs[0], fs[1])) } else { None },
        None => None,
    }
}

fn encode_single(kind: u8, a: &Vec<u8>) -> (r: Vec<u8>)
    requires
        a@.len() < 0x1_0000_0000,
    ensures
        r@ == record(kind, seq![a@]),
{
    let mut fields: Vec<Vec<u8>> = Vec::new();
    fields.push(crate::bytes::copy_bytes(a));
    assert(views(fields@) =~= seq![a@]);
    encode_record(kind, &fields)
}

fn encode_pair(kind: u8, a: &Vec<u8>, b: &Vec<u8>) -> (r: Vec<u8>)
    requires
        a@.len() < 0x1_0000_0000,
        b@.len() < 0x1_0000_0000,
    ensures
        r@ == record(kind, seq![a@, b@]),
{
    let mut fields: Vec<Vec<u8>> = Vec::new();
    fields.push(crate::bytes::copy_bytes(a));
    fields.push(crate::bytes::copy_bytes(b));
    assert(views(fields@) =~= seq![a@, b@]);
    encode_record(kind, &fields)
}

fn decode_single(b: &Vec<u8>, kind: u8) -> (r: Result<Vec<u8>, FrostError>)
    ensures
        match single_field(b@, kind) {
            Some(f) => r matches Ok(v) && v@ == f,
            None => r == Err::<Vec<u8>, FrostError>(FrostError::DeserializationError),
        },
{
    match decode_record(b, kind) {
        Some(mut fields) => {
            if fields.len() != 1 {
                return Err(FrostError::DeserializationError);
            }
            let ghost fs = views(fields@);
            let a = fields.pop().unwrap();
            assert(a@ == fs[0]);
            Ok(a)
        },
        None => Err(FrostError::DeserializationError),
    }
}

fn decode_pair(b: &Vec<u8>, kind: u8) -> (r: Result<(Vec<u8>, Vec<u8>), FrostError>)
    ensures
        match field_pair(b@, kind) {
            Some(p) => r matches Ok(v) && v.0@ == p.0 && v.1@ == p.1,
            None => r == Err::<(Vec<u8>, Vec<u8>), FrostError>(FrostError::DeserializationError),
        },
{
    match decode_record(b, kind) {
        Some(mut fields) => {
            if fields.len() != 2 {
                return Err(FrostError::DeserializationError);
            }
            let ghost fs = views(fields@);
            let second = fields.pop().unwrap();
            let first = fields.pop().unwrap();
            assert(first@ == fs[0] && second@ == fs[1]);
            Ok((first, second))
        },
        None => Err(FrostError::DeserializationError),
    }
}

impl ParticipantIdentifier {
    /// The fixed 32-byte scalar encoding.
    pub fn encode(&self) -> (r: Vec<u8>)
        ensures
            r@ == self.data@,
    {
        crate::bytes::copy_bytes(&self.data)
    }

    /// Reads a 32-byte scalar encoding, refusing any that the engine does
    /// not accept as an identifier (zero among them).
    pub fn decode(b: &Vec<u8>) -> (r: Result<ParticipantIdentifier, FrostError>)
        ensures
            r is Ok <==> (b@.len() == 32 && crate::engine::identifier_accepts(b@)),
            r matches Ok(v) ==> v.data@ == b@ && v.is_valid(),
            r is Err ==> r == Err::<ParticipantIdentifier, FrostError>(FrostError::DeserializationError),
    {
        let id = ParticipantIdentifier { data: crate::bytes::copy_bytes(b) };
        match id.into_identifier() {
            Ok(_) => Ok(id),
            Err(e) => Err(e),
        }
    }
}

impl FrostSecretKeyShare {
    pub fn encode(&self) -> (r: Vec<u8>)
        requires
            self.identifier.data@.len() < 0x1_0000_0000,
            self.data@.len() < 0x1_0000_0000,
        ensures
            r@ == record(KIND_SECRET_SHARE, seq![self.identifier.data@, self.data@]),
    {
        encode_pair(KIND_SECRET_SHARE, &self.identifier.data, &self.data)
    }

    pub fn decode(b: &Vec<u8>) -> (r: Result<FrostSecretKeyShare, FrostError>)
        ensures
            match field_pair(b@, KIND_SECRET_SHARE) {
                Some(p) => r matches Ok(v) && v.identifier.data@ == p.0 && v.data@ == p.1,
                None => r == Err::<FrostSecretKeyShare, FrostError>(FrostError::DeserializationError),
            },
    {
        match decode_pair(b, KIND_SECRET_SHARE) {
            Ok((id, data)) => Ok(FrostSecretKeyShare { identifier: ParticipantIdentifier { data: id }, data }),
            Err(e) => Err(e),
        }
    }
}

impl FrostSigningNonces {
    pub fn encode(&self) -> (r: Vec<u8>)
        requires
            self.data@.len() < 0x1_0000_0000,
        ensures
            r@ == record(KIND_NONCES, seq![self.data@]),
    {
        encode_single(KIND_NONCES, &self.data)
    }

    pub fn decode(b: &Vec<u8>) -> (r: Result<FrostSigningNonces, FrostError>)
        ensures
            match single_field(b@, KIND_NONCES) {
                Some(f) => r matches Ok(v) && v.data@ == f,
                None => r is Err,
            },
    {
        match decode_single(b, KIND_NONCES) {
            Ok(data) => Ok(FrostSigningNonces { data }),
            Err(e) => Err(e),
        }
    }
}

impl FrostSigningCommitments {
    pub fn encode(&self) -> (r: Vec<u8>)
        requires
            self.identifier.data@.len() < 0x1_0000_0000,
            self.data@.len() < 0x1_0000_0000,
        ensures
            r@ == record(KIND_COMMITMENTS, seq![self.identifier.data@, self.data@]),
    {
        encode_pair(KIND_COMMITMENTS, &self.identifier.data, &self.data)
    }

    pub fn decode(b: &Vec<u8>) -> (r: Result<FrostSigningCommitments, FrostError>)
        ensures
            match field_pair(b@, KIND_COMMITMENTS) {
                Some(p) => r matches Ok(v) && v.identifier.data@ == p.0 && v.data@ == p.1,
                None => r is Err,
            },
    {
        match decode_pair(b, KIND_COMMITMENTS) {
            Ok((id, data)) => Ok(FrostSigningCommitments { identifier: ParticipantIdentifier { data: id }, data }),
            Err(e) => Err(e),
        }
    }
}

impl FrostSignatureShare {
    pub fn encode(&self) -> (r: Vec<u8>)
        requires
            self.identifier.data@.len() < 0x1_0000_0000,
            self.data@.len() < 0x1_0000_0000,
        ensures
            r@ == record(KIND_SIGNATURE_SHARE, seq![self.identifier.data@, self.data@]),
    {
        encode_pair(KIND_SIGNATURE_SHARE, &self.identifier.data, &self.data)
    }

    pub fn decode(b: &Vec<u8>) -> (r: Result<FrostSignatureShare, FrostError>)
        ensures
            match field_pair(b@, KIND_SIGNATURE_SHARE) {
                Some(p) => r matches Ok(v) && v.identifier.data@ == p.0 && v.data@ == p.1,
                None => r is Err,
            },
    {
        match decode_pair(b, KIND_SIGNATURE_SHARE) {
            Ok((id, data)) => Ok(FrostSignatureShare { identifier: ParticipantIdentifier { data: id }, data }),
            Err(e) => Err(e),
        }
    }
}

impl FrostSignature {
    pub fn encode(&self) -> (r: Vec<u8>)
        requires
            self.data@.len() < 0x1_0000_0000,
        ensures
            r@ == record(KIND_SIGNATURE, seq![self.data@]),
    {
        encode_single(KIND_SIGNATURE, &self.data)
    }

    pub fn decode(b: &Vec<u8>) -> (r: Result<FrostSignature, FrostError>)
        ensures
            match single_field(b@, KIND_SIGNATURE) {
                Some(f) => r matches Ok(v) && v.data@ == f,
                None => r is Err,
            },
    {
        match decode_single(b, KIND_SIGNATURE) {
            Ok(data) => Ok(FrostSignature { data }),
            Err(e) => Err(e),
        }
    }
}

/// Decoding an encoded single-field record gives back its field.
pub proof fn lemma_single_round_trip(kind: u8, a: Seq<u8>)
    requires
        a.len() < 0x1_0000_0000,
    ensures
        single_field(record(kind, seq![a]), kind) == Some(a),
{
    let fs = seq![a];
    assert(fields_fit(fs)) by {
        assert forall|i: int| 0 <= i < fs.len() implies (#[trigger] fs[i]).len() < 0x1_0000_0000 by {
            assert(fs[i] == a);
        }
    }
    lemma_record_round_trip(kind, fs);
}

/// Decoding an encoded two-field record gives back both fields, in order.
pub proof fn lemma_pair_round_trip(kind: u8, a: Seq<u8>, b: Seq<u8>)
    requires
        a.len() < 0x1_0000_0000,
        b.len() < 0x1_0000_0000,
    ensures
        field_pair(record(kind, seq![a, b]), kind) == Some((a, b)),
{
    let fs = seq![a, b];
    assert(fields_fit(fs)) by {
        assert forall|i: int| 0 <= i < fs.len() implies (#[trigger] fs[i]).len() < 0x1_0000_0000 by {
            if i == 0 { assert(fs[i] == a); } else { assert(fs[i] == b); }
        }
    }
    lemma_record_round_trip(kind, fs);
}

/// The fields of a signing package on the wire: the message, then each
/// commitment's identifier and bytes in turn.
pub open spec fn package_fields(p: FrostSigningPackage) -> Seq<Seq<u8>> {
    seq![p.message@] + Seq::new(
        2 * p.commitments@.len(),
        |k: int|
            if k % 2 == 0 {
                p.commitments@[k / 2].identifier.data@
            } else {
                p.commitments@[k / 2].data@
            },
    )
}

impl FrostSigningPackage {
    pub fn encode(&self) -> (r: Vec<u8>)
        requires
            fields_fit(package_fields(*self)),
        ensures
            r@ == record(KIND_SIGNING_PACKAGE, package_fields(*self)),
    {
        let mut fields: Vec<Vec<u8>> = Vec::new();
        fields.push(crate::bytes::copy_bytes(&self.message));
        let mut i: usize = 0;
        while i < self.commitments.len()
            invariant
                i <= self.commitments@.len(),
                fields@.len() == 1 + 2 * i,
                forall|k: int| 0 <= k < fields@.len() ==> (#[trigger] fields@[k])@ == package_fields(*self)[k],
            decreases self.commitments@.len() - i,
        {
            let c = &self.commitments[i];
            fields.push(crate::bytes::copy_bytes(&c.identifier.data));
            fields.push(crate::bytes::copy_bytes(&c.data));
            assert(package_fields(*self)[1 + 2 * i] == c.identifier.data@);
            assert(package_fields(*self)[2 + 2 * i] == c.data@);
            i += 1;
        }
        assert(views(fields@) =~= package_fields(*self));
        encode_record(KIND_SIGNING_PACKAGE, &fields)
    }

    pub fn decode(b: &Vec<u8>) -> (r: Result<FrostSigningPackage, FrostError>)
        ensures
            match parse_record(b@, KIND_SIGNING_PACKAGE) {
                Some(fs) => if fs.len() % 2 == 1 {
                    r matches Ok(p) && package_fields(p) == fs
                } else {
                    r == Err::<FrostSigningPackage, FrostError>(FrostError::DeserializationError)
                },
                None => r == Err::<FrostSigningPackage, FrostError>(FrostError::DeserializationError),
            },
    {
        let fields = match decode_record(b, KIND_SIGNING_PACKAGE) {
            Some(f) => f,
            None => return Err(FrostError::DeserializationError),
        };
        if fields.len() % 2 != 1 {
            return Err(FrostError::DeserializationError);
        }
        let ghost fs = views(fields@);
        let message = crate::bytes::copy_bytes(&fields[0]);
        let mut commitments: Vec<FrostSigningCommitments> = Vec::new();
        let mut i: usize = 0;
        let n = fields.len();
        let count = n / 2;
        while i < count
            invariant
                n == fields@.len(),
                count * 2 + 1 == fields@.len(),
                fields@.len() % 2 == 1,
                fs == views(fields@),
                i <= count,
                commitments@.len() == i,
                forall|k: int| 0 <= k < i ==> (#[trigger] commitments@[k]).identifier.data@ == fs[1 + 2 * k]
                    && commitments@[k].data@ == fs[2 + 2 * k],
            decreases count - i,
        {
            let identifier = ParticipantIdentifier { data: crate::bytes::copy_bytes(&fields[1 + 2 * i]) };
            let data = crate::bytes::copy_bytes(&fields[2 + 2 * i]);
            commitments.push(FrostSigningCommitments { identifier, data });
            i += 1;
        }
        let p = FrostSigningPackage { message, commitments };
        assert(package_fields(p) =~= fs) by {
            assert forall|k: int| 0 <= k < fs.len() implies package_fields(p)[k] == fs[k] by {
                if k > 0 {
                    let j = (k - 1) / 2;
                    assert(p.commitments@[j].identifier.data@ == fs[1 + 2 * j]);
                }
            }
        }
        Ok(p)
    }
}

/// Decoding an encoded signing package gives back its message and its
/// commitments, in order.
pub proof fn lemma_signing_package_round_trip(p: FrostSigningPackage)
    requires
        fields_fit(package_fields(p)),
    ensures
        parse_record(record(KIND_SIGNING_PACKAGE, package_fields(p)), KIND_SIGNING_PACKAGE) == Some(package_fields(p)),
        package_fields(p).len() % 2 == 1,
{
    lemma_record_round_trip(KIND_SIGNING_PACKAGE, package_fields(p));
}

/// The UTF-8 bytes of a string.
fn text_bytes(s: &String) -> (r: Vec<u8>)
    ensures
        r@ == encode_utf8(s@),
{
    s.as_str().as_bytes_vec()
}

impl FrostKeyPackage {
    pub open spec fn wire_fields(&self) -> Seq<Seq<u8>> {
        seq![encode_utf8(self.identifier@), self.data@]
    }

    pub fn encode(&self) -> (r: Vec<u8>)
        requires
            fields_fit(self.wire_fields()),
        ensures
            r@ == record(KIND_KEY_PACKAGE, self.wire_fields()),
    {
        let label = text_bytes(&self.identifier);
        assert(self.wire_fields()[0] == label@ && self.wire_fields()[1] == self.data@);
        encode_pair(KIND_KEY_PACKAGE, &label, &self.data)
    }

    pub fn decode(b: &Vec<u8>) -> (r: Result<FrostKeyPackage, FrostError>)
        ensures
            match field_pair(b@, KIND_KEY_PACKAGE) {
                Some(p) => if valid_utf8(p.0) {
                    r matches Ok(v) && v.identifier@ == decode_utf8(p.0) && v.data@ == p.1
                } else {
                    r == Err::<FrostKeyPackage, FrostError>(FrostError::DeserializationError)
                },
                None => r == Err::<FrostKeyPackage, FrostError>(FrostError::DeserializationError),
            },
    {
        match decode_pair(b, KIND_KEY_PACKAGE) {
            Ok((label, data)) => match crate::engine::text_from_utf8(label) {
                Some(identifier) => Ok(FrostKeyPackage { identifier, data }),
                None => Err(FrostError::DeserializationError),
            },
            Err(e) => Err(e),
        }
    }
}

/// Decoding an encoded key package gives back its label and its bytes.
pub proof fn lemma_key_package_round_trip(kp: FrostKeyPackage)
    requires
        fields_fit(kp.wire_fields()),
    ensures
        field_pair(record(KIND_KEY_PACKAGE, kp.wire_fields()), KIND_KEY_PACKAGE) == Some((encode_utf8(kp.identifier@), kp.data@)),
        valid_utf8(encode_utf8(kp.identifier@)),
        decode_utf8(encode_utf8(kp.identifier@)) == kp.identifier@,
{
    vstd::utf8::encode_utf8_valid_utf8(kp.identifier@);
    vstd::utf8::encode_utf8_decode_utf8(kp.identifier@);
    assert(kp.wire_fields()[0].len() < 0x1_0000_0000);
    assert(kp.wire_fields()[1].len() < 0x1_0000_0000);
    lemma_pair_round_trip(KIND_KEY_PACKAGE, encode_utf8(kp.identifier@), kp.data@);
}

/// The fields of a public key package on the wire: the group key's text,
/// then each participant's identifier and verifying-share text in turn.
pub open spec fn public_fields(p: FrostPublicKeyPackage) -> Seq<Seq<u8>> {
    seq![encode_utf8(p.verifying_key@)] + Seq::new(
        2 * p.verifying_shares@.len(),
        |k: int|
            if k % 2 == 0 {
                p.verifying_shares@[k / 2].0.data@
            } else {
                encode_utf8(p.verifying_shares@[k / 2].1@)
            },
    )
}

/// The text fields of a public key package record are valid UTF-8.
pub open spec fn texts_valid(fs: Seq<Seq<u8>>) -> bool {
    fs.len() >= 1 && valid_utf8(fs[0]) && forall|k: int| 1 <= k < fs.len() && k % 2 == 0 ==> valid_utf8(#[trigger] fs[k])
}

impl FrostPublicKeyPackage {
    pub fn encode(&self) -> (r: Vec<u8>)
        requires
            fields_fit(public_fields(*self)),
        ensures
            r@ == record(KIND_PUBLIC_KEY_PACKAGE, public_fields(*self)),
    {
        let mut fields: Vec<Vec<u8>> = Vec::new();
        fields.push(text_bytes(&self.verifying_key));
        let mut i: usize = 0;
        while i < self.verifying_shares.len()
            invariant
                i <= self.verifying_shares@.len(),
                fields@.len() == 1 + 2 * i,
                forall|k: int| 0 <= k < fields@.len() ==> (#[trigger] fields@[k])@ == public_fields(*self)[k],
            decreases self.verifying_shares@.len() - i,
        {
            let entry = &self.verifying_shares[i];
            fields.push(crate::bytes::copy_bytes(&entry.0.data));
            fields.push(text_bytes(&entry.1));
            assert(public_fields(*self)[1 + 2 * i] == entry.0.data@);
            assert(public_fields(*self)[2 + 2 * i] == encode_utf8(entry.1@));
            i += 1;
        }
        assert(views(fields@) =~= public_fields(*self));
        encode_record(KIND_PUBLIC_KEY_PACKAGE, &fields)
    }

    pub fn decode(b: &Vec<u8>) -> (r: Result<FrostPublicKeyPackage, FrostError>)
        ensures
            match parse_record(b@, KIND_PUBLIC_KEY_PACKAGE) {
                Some(fs) => if fs.len() % 2 == 1 && texts_valid(fs) {
                    r matches Ok(p) && public_fields(p) == fs
                } else {
                    r == Err::<FrostPublicKeyPackage, FrostError>(FrostError::DeserializationError)
                },
                None => r == Err::<FrostPublicKeyPackage, FrostError>(FrostError::DeserializationError),
            },
    {
        broadcast use vstd::utf8::decode_utf8_encode_utf8;
        let fields = match decode_record(b, KIND_PUBLIC_KEY_PACKAGE) {
            Some(f) => f,
            None => return Err(FrostError::DeserializationError),
        };
        if fields.len() % 2 != 1 {
            return Err(FrostError::DeserializationError);
        }
        let ghost fs = views(fields@);
        let verifying_key = match crate::engine::text_from_utf8(crate::bytes::copy_bytes(&fields[0])) {
            Some(t) => t,
            None => return Err(FrostError::DeserializationError),
        };
        let mut verifying_shares: Vec<(ParticipantIdentifier, String)> = Vec::new();
        let mut i: usize = 0;
        let n = fields.len();
        let count = n / 2;
        while i < count
            invariant
                n == fields@.len(),
                count * 2 + 1 == fields@.len(),
                fs == views(fields@),
                parse_record(b@, KIND_PUBLIC_KEY_PACKAGE) == Some(fs),
                valid_utf8(fs[0]),
                i <= count,
                verifying_shares@.len() == i,
                forall|k: int| 1 <= k < 1 + 2 * i && k % 2 == 0 ==> valid_utf8(#[trigger] fs[k]),
                forall|k: int| 0 <= k < i ==> (#[trigger] verifying_shares@[k]).0.data@ == fs[1 + 2 * k]
                    && verifying_shares@[k].1@ == decode_utf8(fs[2 + 2 * k]),
            decreases count - i,
        {
            let identifier = ParticipantIdentifier { data: crate::bytes::copy_bytes(&fields[1 + 2 * i]) };
            let text = match crate::engine::text_from_utf8(crate::bytes::copy_bytes(&fields[2 + 2 * i])) {
                Some(t) => t,
                None => {
                    let ghost k = 2 + 2 * i as int;
                    assert(fs[k] == fields@[k]@);
                    assert(!valid_utf8(fs[k]));
                    assert(1 <= k < fs.len() && k % 2 == 0);
                    assert(!texts_valid(fs));
                    return Err(FrostError::DeserializationError);
                },
            };
            verifying_shares.push((identifier, text));
            i += 1;
        }
        let p = FrostPublicKeyPackage { verifying_shares, verifying_key };
        assert(texts_valid(fs));
        assert(public_fields(p) =~= fs) by {
            assert forall|k: int| 0 <= k < fs.len() implies public_fields(p)[k] == fs[k] by {
                if k == 0 {
                    assert(encode_utf8(decode_utf8(fs[0])) == fs[0]);
                } else {
                    let j = (k - 1) / 2;
                    assert(p.verifying_shares@[j].0.data@ == fs[1 + 2 * j]);
                    if k % 2 == 0 {
                        assert(valid_utf8(fs[k]));
                        assert(encode_utf8(decode_utf8(fs[k])) == fs[k]);
                    }
                }
            }
        }
        Ok(p)
    }
}

/// Encoding a public key package gives a record that reads back as the
/// same fields, with every text field valid UTF-8.
pub proof fn lemma_public_key_package_round_trip(p: FrostPublicKeyPackage)
    requires
        fields_fit(public_fields(p)),
    ensures
        parse_record(record(KIND_PUBLIC_KEY_PACKAGE, public_fields(p)), KIND_PUBLIC_KEY_PACKAGE) == Some(public_fields(p)),
        public_fields(p).len() % 2 == 1,
        texts_valid(public_fields(p)),
{
    broadcast use vstd::utf8::encode_utf8_valid_utf8;
    lemma_record_round_trip(KIND_PUBLIC_KEY_PACKAGE, public_fields(p));
    let fs = public_fields(p);
    assert forall|k: int| 1 <= k < fs.len() && k % 2 == 0 implies valid_utf8(#[trigger] fs[k]) by {
        assert(fs[k] == encode_utf8(p.verifying_shares@[(k - 1) / 2].1@));
    }
}

} // verus!
