//! Sealed physical-token codec.
//!
//! A user's QR badge carries a sealed token: an identity triple
//! {user id, username, passcode hash} serialized to a canonical byte encoding
//! and then sealed (encrypted, authenticated and timestamped) under the
//! service-wide symmetric key. Decoding either yields the full triple or
//! fails atomically with [`TokenError::InvalidToken`].
//!
//! The byte encoding is this module's own: big-endian id (4 + 8 bytes), then
//! each of the two byte strings prefixed by its big-endian 32-bit length.

use vstd::prelude::*;
use crate::ApiError;
use crate::id::EntityId;

verus! {

/// Failure of the sealed-token codec: the authentication tag did not verify,
/// or the token or its payload is malformed.
#[derive(Clone, Copy, PartialEq, Eq, Structural, Debug)]
pub enum TokenError {
    InvalidToken,
}

/// The identity triple carried by a sealed physical token. The username and
/// passcode hash are held as their byte encodings.
#[derive(Debug)]
pub struct UserRawPhysicalToken {
    pub user_id: EntityId,
    pub username: Vec<u8>,
    pub pass_hash: Vec<u8>,
}

/// Mathematical value of an identity triple.
pub struct PayloadView {
    pub user_id: EntityId,
    pub username: Seq<u8>,
    pub pass_hash: Seq<u8>,
}

impl PayloadView {
    /// A payload is encodable when each byte string fits its 32-bit length
    /// prefix.
    pub open spec fn wf(self) -> bool {
        self.username.len() < 0x1_0000_0000 && self.pass_hash.len() < 0x1_0000_0000
    }
}

impl View for UserRawPhysicalToken {
    type V = PayloadView;

    open spec fn view(&self) -> PayloadView {
        PayloadView {
            user_id: self.user_id,
            username: self.username@,
            pass_hash: self.pass_hash@,
        }
    }
}

/// Big-endian bytes of a 32-bit value.
pub open spec fn be_u32_bytes(n: u32) -> Seq<u8> {
    seq![(n >> 24) as u8, (n >> 16) as u8, (n >> 8) as u8, n as u8]
}

/// Value of 4 big-endian bytes.
pub open spec fn be_u32_val(s: Seq<u8>) -> u32 {
    ((s[0] as u32) << 24) | ((s[1] as u32) << 16) | ((s[2] as u32) << 8) | (s[3] as u32)
}

/// Big-endian bytes of a 64-bit value.
pub open spec fn be_u64_bytes(n: u64) -> Seq<u8> {
    seq![
        (n >> 56) as u8,
        (n >> 48) as u8,
        (n >> 40) as u8,
        (n >> 32) as u8,
        (n >> 24) as u8,
        (n >> 16) as u8,
        (n >> 8) as u8,
        n as u8,
    ]
}

/// Value of 8 big-endian bytes.
pub open spec fn be_u64_val(s: Seq<u8>) -> u64 {
    ((s[0] as u64) << 56) | ((s[1] as u64) << 48) | ((s[2] as u64) << 40) | ((s[3] as u64)
        << 32) | ((s[4] as u64) << 24) | ((s[5] as u64) << 16) | ((s[6] as u64) << 8) | (s[7]
        as u64)
}

proof fn lemma_be_u32_roundtrip(n: u32)
    ensures
        be_u32_val(be_u32_bytes(n)) == n,
{
    assert((((((n >> 24) as u8) as u32) << 24) | ((((n >> 16) as u8) as u32) << 16) | ((((n
        >> 8) as u8) as u32) << 8) | ((n as u8) as u32)) == n) by (bit_vector);
}

proof fn lemma_be_u64_roundtrip(n: u64)
    ensures
        be_u64_val(be_u64_bytes(n)) == n,
{
    assert((((((n >> 56) as u8) as u64) << 56) | ((((n >> 48) as u8) as u64) << 48) | ((((n
        >> 40) as u8) as u64) << 40) | ((((n >> 32) as u8) as u64) << 32) | ((((n >> 24) as u8)
        as u64) << 24) | ((((n >> 16) as u8) as u64) << 16) | ((((n >> 8) as u8) as u64) << 8)
        | ((n as u8) as u64)) == n) by (bit_vector);
}

/// The canonical byte encoding of an identity triple.
pub open spec fn payload_bytes(p: PayloadView) -> Seq<u8> {
    be_u32_bytes(p.user_id.hi) + be_u64_bytes(p.user_id.lo) + be_u32_bytes(
        p.username.len() as u32,
    ) + p.username + be_u32_bytes(p.pass_hash.len() as u32) + p.pass_hash
}

/// What decoding a byte string as an identity triple yields. Decoding is
/// atomic: the full triple, or nothing.
pub open spec fn parse_payload_spec(b: Seq<u8>) -> Option<PayloadView> {
    if b.len() < 16 {
        None
    } else {
        let hi = be_u32_val(b.subrange(0, 4));
        let lo = be_u64_val(b.subrange(4, 12));
        let ulen = be_u32_val(b.subrange(12, 16)) as int;
        if b.len() < 20 + ulen {
            None
        } else {
            let username = b.subrange(16, 16 + ulen);
            let hlen = be_u32_val(b.subrange(16 + ulen, 20 + ulen)) as int;
            if b.len() == 20 + ulen + hlen {
                Some(
                    PayloadView {
                        user_id: EntityId { hi, lo },
                        username,
                        pass_hash: b.subrange(20 + ulen, b.len() as int),
                    },
                )
            } else {
                None
            }
        }
    }
}

fn push_be_u32(out: &mut Vec<u8>, n: u32)
    ensures
        final(out)@ == old(out)@ + be_u32_bytes(n),
{
    out.push(#[verifier::truncate] ((n >> 24) as u8));
    out.push(#[verifier::truncate] ((n >> 16) as u8));
    out.push(#[verifier::truncate] ((n >> 8) as u8));
    out.push(#[verifier::truncate] (n as u8));
    proof {
        assert(final(out)@ =~= old(out)@ + be_u32_bytes(n));
    }
}

fn push_be_u64(out: &mut Vec<u8>, n: u64)
    ensures
        final(out)@ == old(out)@ + be_u64_bytes(n),
{
    out.push(#[verifier::truncate] ((n >> 56) as u8));
    out.push(#[verifier::truncate] ((n >> 48) as u8));
    out.push(#[verifier::truncate] ((n >> 40) as u8));
    out.push(#[verifier::truncate] ((n >> 32) as u8));
    out.push(#[verifier::truncate] ((n >> 24) as u8));
    out.push(#[verifier::truncate] ((n >> 16) as u8));
    out.push(#[verifier::truncate] ((n >> 8) as u8));
    out.push(#[verifier::truncate] (n as u8));
    proof {
        assert(final(out)@ =~= old(out)@ + be_u64_bytes(n));
    }
}

fn push_bytes(out: &mut Vec<u8>, src: &Vec<u8>)
    ensures
        final(out)@ == old(out)@ + src@,
{
    let mut k: usize = 0;
    while k < src.len()
        invariant
            0 <= k <= src@.len(),
            out@ == old(out)@ + src@.subrange(0, k as int),
        decreases src@.len() - k,
    {
        out.push(src[k]);
        proof {
            assert(old(out)@ + src@.subrange(0, k as int) + seq![src@[k as int]] =~= old(out)@
                + src@.subrange(0, k as int + 1));
        }
        k = k + 1;
    }
    proof {
        assert(src@.subrange(0, src@.len() as int) =~= src@);
    }
}

fn read_be_u32(b: &Vec<u8>, off: usize) -> (r: u32)
    requires
        off + 4 <= b@.len(),
    ensures
        r == be_u32_val(b@.subrange(off as int, off as int + 4)),
{
    let _n = b.len();
    let r = ((b[off] as u32) << 24) | ((b[off + 1] as u32) << 16) | ((b[off + 2] as u32) << 8)
        | (b[off + 3] as u32);
    proof {
        let s = b@.subrange(off as int, off as int + 4);
        assert(s[0] == b@[off as int]);
        assert(s[1] == b@[off as int + 1]);
        assert(s[2] == b@[off as int + 2]);
        assert(s[3] == b@[off as int + 3]);
    }
    r
}

fn read_be_u64(b: &Vec<u8>, off: usize) -> (r: u64)
    requires
        off + 8 <= b@.len(),
    ensures
        r == be_u64_val(b@.subrange(off as int, off as int + 8)),
{
    let _n = b.len();
    let r = ((b[off] as u64) << 56) | ((b[off + 1] as u64) << 48) | ((b[off + 2] as u64) << 40)
        | ((b[off + 3] as u64) << 32) | ((b[off + 4] as u64) << 24) | ((b[off + 5] as u64)
        << 16) | ((b[off + 6] as u64) << 8) | (b[off + 7] as u64);
    proof {
        let s = b@.subrange(off as int, off as int + 8);
        assert(s[0] == b@[off as int]);
        assert(s[1] == b@[off as int + 1]);
        assert(s[2] == b@[off as int + 2]);
        assert(s[3] == b@[off as int + 3]);
        assert(s[4] == b@[off as int + 4]);
        assert(s[5] == b@[off as int + 5]);
        assert(s[6] == b@[off as int + 6]);
        assert(s[7] == b@[off as int + 7]);
    }
    r
}

fn bytes_range(b: &Vec<u8>, from: usize, to: usize) -> (r: Vec<u8>)
    requires
        from <= to <= b@.len(),
    ensures
        r@ == b@.subrange(from as int, to as int),
{
    let mut out: Vec<u8> = Vec::new();
    let mut k: usize = from;
    while k < to
        invariant
            from <= k <= to <= b@.len(),
            out@ == b@.subrange(from as int, k as int),
        decreases to - k,
    {
        out.push(b[k]);
        proof {
            assert(b@.subrange(from as int, k as int) + seq![b@[k as int]] =~= b@.subrange(
                from as int, k as int + 1));
        }
        k = k + 1;
    }
    out
}

/// Serializes an identity triple to its canonical byte encoding.
pub fn encode_payload(p: &UserRawPhysicalToken) -> (r: Vec<u8>)
    requires
        p@.wf(),
    ensures
        r@ == payload_bytes(p@),
{
    let mut out: Vec<u8> = Vec::new();
    push_be_u32(&mut out, p.user_id.hi);
    push_be_u64(&mut out, p.user_id.lo);
    push_be_u32(&mut out, p.username.len() as u32);
    push_bytes(&mut out, &p.username);
    push_be_u32(&mut out, p.pass_hash.len() as u32);
    push_bytes(&mut out, &p.pass_hash);
    out
}

/// Decodes a canonical byte encoding back to the identity triple; `None` on
/// any malformed input.
pub fn parse_payload(b: &Vec<u8>) -> (r: Option<UserRawPhysicalToken>)
    ensures
        match r {
            Some(p) => parse_payload_spec(b@) == Some(p@),
            None => parse_payload_spec(b@) is None,
        },
{
    let blen = b.len();
    if blen < 16 {
        return None;
    }
    let hi = read_be_u32(b, 0);
    let lo = read_be_u64(b, 4);
    let ulen32 = read_be_u32(b, 12);
    if (blen as u64) < 20u64 + (ulen32 as u64) {
        return None;
    }
    let uend: usize = 16 + (ulen32 as usize);
    let username = bytes_range(b, 16, uend);
    let hlen32 = read_be_u32(b, uend);
    if (blen as u64) != 20u64 + (ulen32 as u64) + (hlen32 as u64) {
        return None;
    }
    let pass_hash = bytes_range(b, uend + 4, blen);
    Some(UserRawPhysicalToken { user_id: EntityId { hi, lo }, username, pass_hash })
}

/// Codec round-trip law: decoding the canonical encoding of any encodable
/// identity triple yields exactly that triple.
pub proof fn lemma_payload_codec_round_trip(p: PayloadView)
    requires
        p.wf(),
    ensures
        parse_payload_spec(payload_bytes(p)) == Some(p),
{
    let b = payload_bytes(p);
    let ul = p.username.len() as int;
    let hl = p.pass_hash.len() as int;
    assert(b.len() == 20 + ul + hl);
    assert(b.subrange(0, 4) =~= be_u32_bytes(p.user_id.hi));
    assert(b.subrange(4, 12) =~= be_u64_bytes(p.user_id.lo));
    assert(b.subrange(12, 16) =~= be_u32_bytes(p.username.len() as u32));
    lemma_be_u32_roundtrip(p.user_id.hi);
    lemma_be_u64_roundtrip(p.user_id.lo);
    lemma_be_u32_roundtrip(p.username.len() as u32);
    lemma_be_u32_roundtrip(p.pass_hash.len() as u32);
    assert(be_u32_val(b.subrange(12, 16)) as int == ul);
    assert(b.subrange(16, 16 + ul) =~= p.username);
    assert(b.subrange(16 + ul, 20 + ul) =~= be_u32_bytes(p.pass_hash.len() as u32));
    assert(be_u32_val(b.subrange(16 + ul, 20 + ul)) as int == hl);
    assert(b.subrange(20 + ul, b.len() as int) =~= p.pass_hash);
    let q = parse_payload_spec(b).unwrap();
    assert(q.user_id == p.user_id);
    assert(q.username == p.username);
    assert(q.pass_hash == p.pass_hash);
}

/// Name for what `branca::decode` (with TTL 0) yields on a given key and
/// token: the sealed message, or nothing when the token does not
/// authenticate. With TTL 0 no clock is read, so the result is a function of
/// the key and the token alone.
pub uninterp spec fn branca_decoded(key: Seq<u8>, token: Seq<char>) -> Option<Seq<u8>>;

/// Relies on `branca::decode` with TTL 0: base62-decodes the token, checks
/// the authentication tag and decrypts under the 32-byte key.
#[verifier::external_body]
fn branca_decode_raw(key: &Vec<u8>, token: &str) -> (r: Option<Vec<u8>>)
    requires
        key@.len() == 32,
    ensures
        r is Some <==> branca_decoded(key@, token@) is Some,
        r is Some ==> r.unwrap()@ == branca_decoded(key@, token@).unwrap(),
{
    branca::decode(token, key.as_slice(), 0).ok()
}

/// Relies on `branca::encode`: seals the message under the 32-byte key with a
/// fresh random nonce and the given timestamp. Its source shows that
/// `branca::decode` on the returned token under the same key yields exactly
/// the sealed message.
#[verifier::external_body]
fn branca_encode_raw(key: &Vec<u8>, msg: &Vec<u8>, timestamp: u32) -> (r: Option<String>)
    requires
        key@.len() == 32,
    ensures
        r is Some ==> branca_decoded(key@, r.unwrap()@) == Some(msg@),
{
    branca::encode(msg.as_slice(), key.as_slice(), timestamp).ok()
}

/// What unsealing a token under a key yields: the embedded identity triple
/// when the token authenticates and its payload decodes, nothing otherwise.
pub open spec fn unseal_spec(key: Seq<u8>, token: Seq<char>) -> Option<PayloadView> {
    match branca_decoded(key, token) {
        Some(bytes) => parse_payload_spec(bytes),
        None => None,
    }
}

/// Unseals a physical token string and returns the identity triple it
/// carries; fails atomically with `InvalidToken` when the token does not
/// authenticate under the key or its payload is malformed.
pub fn serialize_physical_token(key: &Vec<u8>, token_str: &str) -> (r: Result<
    UserRawPhysicalToken,
    TokenError,
>)
    requires
        key@.len() == 32,
    ensures
        match r {
            Ok(p) => unseal_spec(key@, token_str@) == Some(p@),
            Err(e) => e == TokenError::InvalidToken && unseal_spec(key@, token_str@) is None,
        },
{
    match branca_decode_raw(key, token_str) {
        None => Err(TokenError::InvalidToken),
        Some(bytes) => match parse_payload(&bytes) {
            None => Err(TokenError::InvalidToken),
            Some(p) => Ok(p),
        },
    }
}

/// Seals an identity triple into a token string. Any token this returns
/// unseals, under the same key, to exactly the given triple; sealing fails
/// only when the cryptographic primitive does.
pub fn seal(key: &Vec<u8>, payload: &UserRawPhysicalToken, timestamp: u32) -> (r: Result<
    String,
    ApiError,
>)
    requires
        key@.len() == 32,
        payload@.wf(),
    ensures
        match r {
            Ok(t) => unseal_spec(key@, t@) == Some(payload@),
            Err(e) => e == ApiError::InternalError,
        },
{
    let bytes = encode_payload(payload);
    match branca_encode_raw(key, &bytes, timestamp) {
        None => Err(ApiError::InternalError),
        Some(t) => {
            proof {
                lemma_payload_codec_round_trip(payload@);
            }
            Ok(t)
        },
    }
}

/// Token round-trip law: a token that carries the sealed canonical encoding
/// of an encodable identity triple unseals to exactly that triple.
pub proof fn lemma_token_round_trip(key: Seq<u8>, p: PayloadView, token: Seq<char>)
    requires
        p.wf(),
        branca_decoded(key, token) == Some(payload_bytes(p)),
    ensures
        unseal_spec(key, token) == Some(p),
{
    lemma_payload_codec_round_trip(p);
}

} // verus!
