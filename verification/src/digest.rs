//! Checking downloaded artifacts against the digest that GitHub reports for them, a
//! text of the form `sha256:` followed by the lowercase hex of the SHA-256 hash.

use vstd::prelude::*;

verus! {

/// The lowercase hex digit of a value below 16, as an ASCII byte.
pub open spec fn hex_digit(n: int) -> u8 {
    if n < 10 {
        (48 + n) as u8
    } else {
        (87 + n) as u8
    }
}

/// The lowercase hex encoding of `data`, as ASCII bytes: two digits per byte, the high
/// half first.
pub open spec fn spec_hex(data: Seq<u8>) -> Seq<u8>
    decreases data.len(),
{
    if data.len() == 0 {
        Seq::<u8>::empty()
    } else {
        seq![hex_digit(data[0] as int / 16), hex_digit(data[0] as int % 16)] + spec_hex(data.drop_first())
    }
}

/// The SHA-256 hash of `data`.
pub uninterp spec fn spec_sha256(data: Seq<u8>) -> Seq<u8>;

/// Calls `hex::encode`, which encodes each byte as two lowercase hex digits, high half
/// first; the contract states exactly that, over the bytes of the returned string.
#[verifier::external_body]
fn hex_encode(data: &[u8]) -> (r: Vec<u8>)
    ensures
        r@ == spec_hex(data@),
{
    hex::encode(data).into_bytes()
}

/// The running state of a `sha2::Sha256` hasher, opaque to the proofs; only the
/// methods of `StreamDigest` touch it.
#[verifier::external_body]
pub struct Sha256State(sha2::Sha256);

/// A SHA-256 computation over bytes that arrive in chunks, such as a streamed
/// download. It remembers, as a ghost value, every byte fed to it so far.
pub struct StreamDigest {
    state: Sha256State,
    consumed: Ghost<Seq<u8>>,
}

impl StreamDigest {
    /// The bytes fed to the computation so far, in order.
    pub closed spec fn consumed(&self) -> Seq<u8> {
        self.consumed@
    }

    /// Calls `sha2::Sha256::new`, a hasher that has consumed nothing.
    #[verifier::external_body]
    pub fn new() -> (h: Self)
        ensures
            h.consumed() == Seq::<u8>::empty(),
    {
        StreamDigest { state: Sha256State(<sha2::Sha256 as sha2::Digest>::new()), consumed: Ghost(Seq::empty()) }
    }

    /// Calls `sha2::Digest::update`, which feeds `chunk` to the hasher after what it
    /// consumed before.
    #[verifier::external_body]
    pub fn update(&mut self, chunk: &[u8])
        ensures
            final(self).consumed() == old(self).consumed() + chunk@,
    {
        sha2::Digest::update(&mut self.state.0, chunk)
    }

    /// Calls `sha2::Digest::finalize` and returns the hash as bytes; the contract names
    /// the result `spec_sha256` of everything consumed and states its length of 32 bytes.
    #[verifier::external_body]
    pub fn finalize(self) -> (r: Vec<u8>)
        ensures
            r@ == spec_sha256(self.consumed()),
            r@.len() == 32,
    {
        sha2::Digest::finalize(self.state.0).to_vec()
    }
}

/// Whether byte 7 of `digest` starts a character, so that the text after the `sha256:`
/// prefix can be cut out: the digest has at least 7 bytes, and the byte after them, if
/// any, is not a UTF-8 continuation byte.
pub open spec fn prefix_cut_ok(digest: Seq<u8>) -> bool {
    &&& digest.len() >= 7
    &&& digest.len() > 7 ==> (digest[7] < 0x80 || digest[7] >= 0xc0)
}

/// What `digest_matches` answers: the hex of `hash` equals the digest after its
/// 7-byte prefix.
pub open spec fn spec_digest_matches(hash: Seq<u8>, digest: Seq<u8>) -> bool {
    spec_hex(hash) == digest.subrange(7, digest.len() as int)
}

/// The hex encoding has two digits per byte: digit `2i` is the high half of byte `i`
/// and digit `2i + 1` its low half, each written `0`-`9` (48-57) or `a`-`f` (97-102).
pub proof fn lemma_hex_digits(data: Seq<u8>)
    ensures
        spec_hex(data).len() == 2 * data.len(),
        forall|i: int| 0 <= i < data.len() ==> {
            let hi = data[i] as int / 16;
            let lo = data[i] as int % 16;
            &&& #[trigger] spec_hex(data)[2 * i] as int == if hi < 10 { 48 + hi } else { 97 + hi - 10 }
            &&& spec_hex(data)[2 * i + 1] as int == if lo < 10 { 48 + lo } else { 97 + lo - 10 }
        },
    decreases data.len(),
{
    if data.len() > 0 {
        let rest = data.drop_first();
        lemma_hex_digits(rest);
        let h = spec_hex(data);
        assert forall|i: int| 0 <= i < data.len() implies {
            let hi = data[i] as int / 16;
            let lo = data[i] as int % 16;
            &&& #[trigger] h[2 * i] as int == if hi < 10 { 48 + hi } else { 97 + hi - 10 }
            &&& h[2 * i + 1] as int == if lo < 10 { 48 + lo } else { 97 + lo - 10 }
        } by {
            if i > 0 {
                assert(data[i] == rest[i - 1]);
                assert(h[2 * i] == spec_hex(rest)[2 * (i - 1)]);
                assert(h[2 * i + 1] == spec_hex(rest)[2 * (i - 1) + 1]);
            }
        }
    }
}

/// A hash matches a digest exactly when the digest is 7 bytes of prefix followed by
/// two lowercase hex digits per byte of the hash, high half first.
pub proof fn lemma_digest_matches_hex(hash: Seq<u8>, digest: Seq<u8>)
    requires
        digest.len() >= 7,
    ensures
        spec_digest_matches(hash, digest) <==> {
            &&& digest.len() == 7 + 2 * hash.len()
            &&& forall|i: int| 0 <= i < hash.len() ==> {
                let hi = hash[i] as int / 16;
                let lo = hash[i] as int % 16;
                &&& #[trigger] digest[7 + 2 * i] as int == if hi < 10 { 48 + hi } else { 97 + hi - 10 }
                &&& digest[8 + 2 * i] as int == if lo < 10 { 48 + lo } else { 97 + lo - 10 }
            }
        },
{
    lemma_hex_digits(hash);
    let h = spec_hex(hash);
    let tail = digest.subrange(7, digest.len() as int);
    if digest.len() == 7 + 2 * hash.len() && forall|i: int| 0 <= i < hash.len() ==> {
        let hi = hash[i] as int / 16;
        let lo = hash[i] as int % 16;
        &&& #[trigger] digest[7 + 2 * i] as int == if hi < 10 { 48 + hi } else { 97 + hi - 10 }
        &&& digest[8 + 2 * i] as int == if lo < 10 { 48 + lo } else { 97 + lo - 10 }
    } {
        assert forall|k: int| 0 <= k < h.len() implies h[k] == tail[k] by {
            let i = k / 2;
            assert(0 <= i < hash.len());
            if k % 2 == 0 {
                assert(k == 2 * i);
                assert(h[2 * i] == digest[7 + 2 * i]);
            } else {
                assert(k == 2 * i + 1);
                assert(h[2 * i] == digest[7 + 2 * i]);
                assert(h[2 * i + 1] == digest[8 + 2 * i]);
            }
        }
        assert(h =~= tail);
    }
    if spec_digest_matches(hash, digest) {
        assert forall|i: int| 0 <= i < hash.len() implies {
            let hi = hash[i] as int / 16;
            let lo = hash[i] as int % 16;
            &&& #[trigger] digest[7 + 2 * i] as int == if hi < 10 { 48 + hi } else { 97 + hi - 10 }
            &&& digest[8 + 2 * i] as int == if lo < 10 { 48 + lo } else { 97 + lo - 10 }
        } by {
            assert(h[2 * i] == tail[2 * i]);
            assert(h[2 * i + 1] == tail[2 * i + 1]);
        }
    }
}

/// Whether a computed hash matches a reported digest (`sha256:` and the lowercase hex
/// of the hash).
pub fn digest_matches(hash: &[u8], digest: &[u8]) -> (r: bool)
    requires
        prefix_cut_ok(digest@),
    ensures
        r == spec_digest_matches(hash@, digest@),
{
    let hex = hex_encode(hash);
    let n = digest.len();
    if hex.len() != n - 7 {
        return false;
    }
    let mut i: usize = 0;
    while i < hex.len()
        invariant
            n == digest@.len(),
            n >= 7,
            hex@.len() == n - 7,
            hex@ == spec_hex(hash@),
            i <= hex@.len(),
            forall|j: int| 0 <= j < i ==> hex@[j] == digest@[j + 7],
        decreases hex@.len() - i,
    {
        if hex[i] != digest[i + 7] {
            return false;
        }
        i = i + 1;
    }
    assert(hex@ =~= digest@.subrange(7, n as int));
    true
}

/// Whether downloaded bytes match a reported digest: the SHA-256 hash of the bytes,
/// in lowercase hex, equals the digest after its 7-byte prefix.
pub fn bytes_match_digest(bytes: &[u8], digest: &[u8]) -> (r: bool)
    requires
        prefix_cut_ok(digest@),
    ensures
        r == spec_digest_matches(spec_sha256(bytes@), digest@),
{
    let mut hashed = StreamDigest::new();
    hashed.update(bytes);
    assert(hashed.consumed() =~= bytes@);
    let hash = hashed.finalize();
    digest_matches(hash.as_slice(), digest)
}

} // verus!
