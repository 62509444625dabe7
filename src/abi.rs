//! The committed public values and their Ethereum contract ABI encoding.
//!
//! The record is a dynamic tuple, so its encoding opens with one offset word
//! (`0x20`) and then holds the tuple's head and tail. Fixed-size fields sit in
//! 32-byte slots; the nested signed claim and the list of signatures are
//! reached through offsets relative to the start of their enclosing tuple.
use vstd::prelude::*;

verus! {

/// `256^k`.
pub open spec fn pow256(k: nat) -> nat
    decreases k,
{
    if k == 0 {
        1
    } else {
        256 * pow256((k - 1) as nat)
    }
}

/// The `k` low-order bytes of `n`, most significant first.
pub open spec fn be_bytes(n: nat, k: nat) -> Seq<u8>
    decreases k,
{
    if k == 0 {
        Seq::empty()
    } else {
        be_bytes(n / 256, (k - 1) as nat).push((n % 256) as u8)
    }
}

/// The unsigned integer that big-endian bytes stand for.
pub open spec fn be_value(b: Seq<u8>) -> nat
    decreases b.len(),
{
    if b.len() == 0 {
        0
    } else {
        be_value(b.drop_last()) * 256 + (b.last() as nat)
    }
}

/// A 32-byte ABI word holding an unsigned integer.
pub open spec fn word(n: nat) -> Seq<u8> {
    be_bytes(n, 32)
}

/// `k` zero bytes.
pub open spec fn zeros(k: nat) -> Seq<u8> {
    Seq::new(k, |i: int| 0u8)
}

/// An address in its slot: twelve zero bytes, then its twenty bytes.
pub open spec fn address_word(a: Seq<u8>) -> Seq<u8> {
    zeros(12) + a
}

/// A length rounded up to whole 32-byte words.
pub open spec fn padded_len(n: nat) -> nat {
    ((n + 31) / 32) * 32
}

/// A byte string in the tail: its length word, its bytes, zeros up to a word boundary.
pub open spec fn bytes_tail(b: Seq<u8>) -> Seq<u8> {
    word(b.len()) + b + zeros((padded_len(b.len()) - b.len()) as nat)
}

/// The tails of a list of byte strings, one after the other.
pub open spec fn tails(s: Seq<Seq<u8>>) -> Seq<u8>
    decreases s.len(),
{
    if s.len() == 0 {
        Seq::empty()
    } else {
        tails(s.drop_last()) + bytes_tail(s.last())
    }
}

/// Where the tail of element `i` starts, counted from the first tail.
pub open spec fn tail_offset(s: Seq<Seq<u8>>, i: int) -> nat {
    tails(s.take(i)).len()
}

/// The offset words of the first `k` elements of a list of byte strings,
/// counted from the start of the list's head.
pub open spec fn heads(s: Seq<Seq<u8>>, k: nat) -> Seq<u8>
    decreases k,
{
    if k == 0 {
        Seq::empty()
    } else {
        heads(s, (k - 1) as nat) + word(32 * s.len() + tail_offset(s, k - 1))
    }
}

/// A `bytes[]` value: its element count, the elements' offsets, then their tails.
pub open spec fn bytes_array(s: Seq<Seq<u8>>) -> Seq<u8> {
    word(s.len()) + heads(s, s.len()) + tails(s)
}

/// The committed record in mathematical terms.
pub struct PublicValuesView {
    pub hashed_channel_id: Seq<u8>,
    pub hashed_channel_account: Seq<u8>,
    pub amount: nat,
    pub hashed_claim_info: Seq<u8>,
    pub identifier: Seq<u8>,
    pub owner: Seq<u8>,
    pub timestamp_s: nat,
    pub epoch: nat,
    pub signatures: Seq<Seq<u8>>,
}

/// Byte size of the head of the outer record, and of the signed claim's head.
pub const HEAD_LEN: u64 = 160;

/// The encoding of the signed claim: the claim's four static slots, the offset
/// of the signature list, then that list.
pub open spec fn signed_claim_encoding(v: PublicValuesView) -> Seq<u8> {
    v.identifier + address_word(v.owner) + word(v.timestamp_s) + word(v.epoch) + word(
        HEAD_LEN as nat,
    ) + bytes_array(v.signatures)
}

/// The ABI encoding of the record as a single dynamic tuple.
pub open spec fn public_values_encoding(v: PublicValuesView) -> Seq<u8> {
    word(32) + v.hashed_channel_id + v.hashed_channel_account + word(v.amount)
        + v.hashed_claim_info + word(HEAD_LEN as nat) + signed_claim_encoding(v)
}

/// The claim as it is committed: identifier and owner resolved to bytes.
pub struct CompleteClaimData {
    pub identifier: Vec<u8>,
    pub owner: Vec<u8>,
    pub timestamp_s: u32,
    pub epoch: u32,
}

/// The resolved claim with its signatures as opaque byte strings.
pub struct SignedClaimRecord {
    pub claim: CompleteClaimData,
    pub signatures: Vec<Vec<u8>>,
}

/// The public values that a proof commits to.
pub struct PublicValuesStruct {
    pub hashed_channel_id: Vec<u8>,
    pub hashed_channel_account: Vec<u8>,
    pub amount: u64,
    pub hashed_claim_info: Vec<u8>,
    pub signed_claim: SignedClaimRecord,
}

impl View for PublicValuesStruct {
    type V = PublicValuesView;

    open spec fn view(&self) -> PublicValuesView {
        PublicValuesView {
            hashed_channel_id: self.hashed_channel_id@,
            hashed_channel_account: self.hashed_channel_account@,
            amount: self.amount as nat,
            hashed_claim_info: self.hashed_claim_info@,
            identifier: self.signed_claim.claim.identifier@,
            owner: self.signed_claim.claim.owner@,
            timestamp_s: self.signed_claim.claim.timestamp_s as nat,
            epoch: self.signed_claim.claim.epoch as nat,
            signatures: self.signed_claim.signatures.deep_view(),
        }
    }
}

/// Fixed widths: 32-byte digests and identifier, a 20-byte owner address.
pub open spec fn well_formed(v: PublicValuesView) -> bool {
    &&& v.hashed_channel_id.len() == 32
    &&& v.hashed_channel_account.len() == 32
    &&& v.hashed_claim_info.len() == 32
    &&& v.identifier.len() == 32
    &&& v.owner.len() == 20
}

fn be_bytes_exec(n: u64, k: usize) -> (r: Vec<u8>)
    ensures
        r@ == be_bytes(n as nat, k as nat),
    decreases k,
{
    if k == 0 {
        Vec::new()
    } else {
        let mut r = be_bytes_exec(n / 256, k - 1);
        r.push((n % 256) as u8);
        r
    }
}

fn push_all(out: &mut Vec<u8>, data: &[u8])
    ensures
        final(out)@ == old(out)@ + data@,
{
    let mut i: usize = 0;
    while i < data.len()
        invariant
            i <= data@.len(),
            out@ == old(out)@ + data@.take(i as int),
        decreases data@.len() - i,
    {
        out.push(data[i]);
        i = i + 1;
        proof {
            assert(data@.take(i as int) =~= data@.take(i - 1).push(data@[i - 1]));
        }
    }
    assert(data@.take(data@.len() as int) =~= data@);
}

fn push_zeros(out: &mut Vec<u8>, k: usize)
    ensures
        final(out)@ == old(out)@ + zeros(k as nat),
{
    let mut i: usize = 0;
    while i < k
        invariant
            i <= k,
            out@ == old(out)@ + zeros(i as nat),
        decreases k - i,
    {
        out.push(0u8);
        i = i + 1;
        proof {
            assert(zeros(i as nat) =~= zeros((i - 1) as nat).push(0u8));
        }
    }
}

fn push_word(out: &mut Vec<u8>, n: u64)
    ensures
        final(out)@ == old(out)@ + word(n as nat),
{
    let w = be_bytes_exec(n, 32);
    push_all(out, w.as_slice());
}


pub(crate) proof fn lemma_be_bytes_len(n: nat, k: nat)
    ensures
        be_bytes(n, k).len() == k,
    decreases k,
{
    if k > 0 {
        lemma_be_bytes_len(n / 256, (k - 1) as nat);
    }
}

pub(crate) proof fn lemma_padded_len(n: nat)
    ensures
        padded_len(n) == (n / 32) * 32 + (if n % 32 == 0 { 0nat } else { 32nat }),
        n <= padded_len(n) < n + 32,
{
    let q = n / 32;
    let r = n % 32;
    assert(n == 32 * q + r) by (nonlinear_arith)
        requires
            q == n / 32,
            r == n % 32,
    ;
    assert((n + 31) / 32 == q + (if r == 0 { 0nat } else { 1nat })) by (nonlinear_arith)
        requires
            n == 32 * q + r,
            0 <= r < 32,
    ;
}

proof fn lemma_bytes_tail_len(b: Seq<u8>)
    ensures
        bytes_tail(b).len() == 32 + padded_len(b.len()),
{
    lemma_be_bytes_len(b.len(), 32);
    lemma_padded_len(b.len());
}

pub(crate) proof fn lemma_tails_step(s: Seq<Seq<u8>>, i: int)
    requires
        0 <= i < s.len(),
    ensures
        tails(s.take(i + 1)) == tails(s.take(i)) + bytes_tail(s[i]),
        tail_offset(s, i + 1) == tail_offset(s, i) + 32 + padded_len(s[i].len()),
{
    assert(s.take(i + 1).drop_last() =~= s.take(i));
    lemma_bytes_tail_len(s[i]);
}

/// The tails of a prefix of the list are a prefix of the list's tails.
pub(crate) proof fn lemma_tails_prefix(s: Seq<Seq<u8>>, j: int)
    requires
        0 <= j <= s.len(),
    ensures
        tail_offset(s, j) <= tails(s).len(),
        tails(s).subrange(0, tail_offset(s, j) as int) == tails(s.take(j)),
    decreases s.len(),
{
    if j == s.len() {
        assert(s.take(j) =~= s);
        assert(tails(s).subrange(0, tails(s).len() as int) =~= tails(s));
    } else {
        let d = s.drop_last();
        lemma_tails_prefix(d, j);
        assert(d.take(j) =~= s.take(j));
        assert(tails(s) == tails(d) + bytes_tail(s.last()));
        assert(tails(s).subrange(0, tail_offset(s, j) as int) =~= tails(d).subrange(
            0,
            tail_offset(d, j) as int,
        ));
    }
}

pub(crate) proof fn lemma_heads_len(s: Seq<Seq<u8>>, k: nat)
    ensures
        heads(s, k).len() == 32 * k,
    decreases k,
{
    if k > 0 {
        lemma_heads_len(s, (k - 1) as nat);
        lemma_be_bytes_len(32 * s.len() + tail_offset(s, k - 1), 32);
    }
}

pub(crate) proof fn lemma_bytes_array_len(s: Seq<Seq<u8>>)
    ensures
        bytes_array(s).len() == 32 + 32 * s.len() + tails(s).len(),
{
    lemma_be_bytes_len(s.len(), 32);
    lemma_heads_len(s, s.len());
}

fn padded_len_exec(n: usize) -> (r: usize)
    requires
        padded_len(n as nat) <= usize::MAX,
    ensures
        r == padded_len(n as nat),
{
    proof {
        lemma_padded_len(n as nat);
    }
    if n % 32 == 0 {
        n
    } else {
        n / 32 * 32 + 32
    }
}

fn push_bytes_tail(out: &mut Vec<u8>, b: &Vec<u8>)
    requires
        old(out)@.len() + bytes_tail(b@).len() <= usize::MAX,
    ensures
        final(out)@ == old(out)@ + bytes_tail(b@),
{
    proof {
        lemma_bytes_tail_len(b@);
        lemma_padded_len(b@.len());
    }
    let len = b.len();
    let padded = padded_len_exec(len);
    push_word(out, len as u64);
    push_all(out, b.as_slice());
    push_zeros(out, padded - len);
    assert(final(out)@ =~= old(out)@ + bytes_tail(b@));
}

/// Appends the `bytes[]` encoding of `s`.
fn push_bytes_array(out: &mut Vec<u8>, s: &Vec<Vec<u8>>)
    requires
        old(out)@.len() + bytes_array(s.deep_view()).len() <= usize::MAX,
    ensures
        final(out)@ == old(out)@ + bytes_array(s.deep_view()),
{
    let ghost sv = s.deep_view();
    let ghost start = old(out)@;
    proof {
        lemma_bytes_array_len(sv);
        lemma_tails_prefix(sv, sv.len() as int);
    }
    let n = s.len();
    push_word(out, n as u64);
    let mut off: usize = 0;
    let mut i: usize = 0;
    while i < n
        invariant
            n == s@.len(),
            sv == s.deep_view(),
            sv.len() == n,
            start.len() + bytes_array(sv).len() <= usize::MAX,
            bytes_array(sv).len() == 32 + 32 * n + tails(sv).len(),
            i <= n,
            off == tail_offset(sv, i as int),
            out@ == start + word(n as nat) + heads(sv, i as nat),
        decreases n - i,
    {
        proof {
            lemma_tails_step(sv, i as int);
            lemma_tails_prefix(sv, i as int + 1);
            assert(sv[i as int] == s@[i as int]@);
        }
        push_word(out, (32 * n + off) as u64);
        off = off + 32 + padded_len_exec(s[i].len());
        i = i + 1;
        proof {
            assert(out@ =~= start + word(n as nat) + heads(sv, i as nat));
        }
    }
    let ghost mid = out@;
    let mut j: usize = 0;
    while j < n
        invariant
            n == s@.len(),
            sv == s.deep_view(),
            sv.len() == n,
            start.len() + bytes_array(sv).len() <= usize::MAX,
            bytes_array(sv).len() == 32 + 32 * n + tails(sv).len(),
            mid == start + word(n as nat) + heads(sv, n as nat),
            mid.len() == start.len() + 32 + 32 * n,
            j <= n,
            out@ == mid + tails(sv.take(j as int)),
        decreases n - j,
    {
        proof {
            lemma_tails_step(sv, j as int);
            lemma_tails_prefix(sv, j as int + 1);
            assert(sv[j as int] == s@[j as int]@);
        }
        push_bytes_tail(out, &s[j]);
        j = j + 1;
        proof {
            assert(out@ =~= mid + tails(sv.take(j as int)));
        }
    }
    proof {
        assert(sv.take(n as int) =~= sv);
        assert(out@ =~= start + bytes_array(sv));
    }
}


/// `256^k` exceeds every 64-bit value once `k` is at least 8.
pub proof fn lemma_pow256_exceeds_u64(k: nat)
    requires
        8 <= k,
    ensures
        pow256(k) > u64::MAX,
    decreases k,
{
    if k == 8 {
        reveal_with_fuel(pow256, 9);
    } else {
        lemma_pow256_exceeds_u64((k - 1) as nat);
    }
}

/// The encoding of a well-formed record is 352 bytes of heads and fixed
/// slots followed by its signature list.
pub proof fn lemma_public_values_encoding_len(v: PublicValuesView)
    requires
        well_formed(v),
    ensures
        public_values_encoding(v).len() == 352 + bytes_array(v.signatures).len(),
{
    lemma_be_bytes_len(32, 32);
    lemma_be_bytes_len(HEAD_LEN as nat, 32);
    lemma_be_bytes_len(v.amount, 32);
    lemma_be_bytes_len(v.timestamp_s, 32);
    lemma_be_bytes_len(v.epoch, 32);
}

impl PublicValuesStruct {
    /// The ABI encoding of the record, as a standard decoder reads it back.
    pub fn abi_encode(&self) -> (r: Vec<u8>)
        requires
            public_values_encoding(self@).len() <= usize::MAX,
        ensures
            r@ == public_values_encoding(self@),
    {
        let ghost v = self@;
        let claim = &self.signed_claim.claim;
        let mut out: Vec<u8> = Vec::new();
        proof {
            lemma_be_bytes_len(32, 32);
            lemma_be_bytes_len(HEAD_LEN as nat, 32);
            lemma_be_bytes_len(v.amount, 32);
            lemma_be_bytes_len(v.timestamp_s, 32);
            lemma_be_bytes_len(v.epoch, 32);
        }
        push_word(&mut out, 32);
        push_all(&mut out, self.hashed_channel_id.as_slice());
        push_all(&mut out, self.hashed_channel_account.as_slice());
        push_word(&mut out, self.amount);
        push_all(&mut out, self.hashed_claim_info.as_slice());
        push_word(&mut out, HEAD_LEN);
        push_all(&mut out, claim.identifier.as_slice());
        push_zeros(&mut out, 12);
        push_all(&mut out, claim.owner.as_slice());
        push_word(&mut out, claim.timestamp_s as u64);
        push_word(&mut out, claim.epoch as u64);
        push_word(&mut out, HEAD_LEN);
        proof {
            assert(out@ + bytes_array(v.signatures) =~= public_values_encoding(v));
        }
        push_bytes_array(&mut out, &self.signed_claim.signatures);
        out
    }
}

} // verus!
