//! Reading committed public values back, as a standard ABI decoder does, and
//! the law that this recovers every field of an encoded record.
use vstd::prelude::*;
use crate::abi::{
    address_word, be_bytes, be_value, bytes_array, bytes_tail, heads, lemma_be_bytes_len,
    lemma_bytes_array_len, lemma_heads_len, lemma_tails_prefix, lemma_tails_step, pow256,
    public_values_encoding, signed_claim_encoding, tail_offset, tails, well_formed, word,
    PublicValuesView, HEAD_LEN,
};

verus! {

/// The 32-byte word at a byte position.
pub open spec fn word_at(b: Seq<u8>, at: int) -> Seq<u8> {
    b.subrange(at, at + 32)
}

/// The unsigned integer in the word at a byte position.
pub open spec fn uint_at(b: Seq<u8>, at: int) -> nat {
    be_value(word_at(b, at))
}

/// Where element `i` of a `bytes[]` whose offset words start at `elems` begins.
pub open spec fn element_start(b: Seq<u8>, elems: int, i: int) -> int {
    elems + uint_at(b, elems + 32 * i)
}

/// Element `i`'s length word and bytes lie inside the input.
pub open spec fn element_fits(b: Seq<u8>, elems: int, i: int) -> bool {
    let e = element_start(b, elems, i);
    e + 32 <= b.len() && e + 32 + uint_at(b, e) <= b.len()
}

/// The bytes of element `i`.
pub open spec fn element(b: Seq<u8>, elems: int, i: int) -> Seq<u8> {
    let e = element_start(b, elems, i);
    b.subrange(e + 32, e + 32 + uint_at(b, e))
}

/// Decodes public values by following the offsets found in the input;
/// `None` where an offset or length points outside it.
pub open spec fn decode_public_values(b: Seq<u8>) -> Option<PublicValuesView> {
    if b.len() < 32 {
        None
    } else {
        let t = uint_at(b, 0) as int;
        if t + 160 > b.len() {
            None
        } else {
            let sc = t + uint_at(b, t + 128);
            if sc + 160 > b.len() {
                None
            } else {
                let arr = sc + uint_at(b, sc + 128);
                if arr + 32 > b.len() {
                    None
                } else {
                    let n = uint_at(b, arr);
                    let elems = arr + 32;
                    if elems + 32 * n > b.len() || !(forall|i: int|
                        0 <= i < n ==> #[trigger] element_fits(b, elems, i)) {
                        None
                    } else {
                        Some(
                            PublicValuesView {
                                hashed_channel_id: word_at(b, t),
                                hashed_channel_account: word_at(b, t + 32),
                                amount: uint_at(b, t + 64),
                                hashed_claim_info: word_at(b, t + 96),
                                identifier: word_at(b, sc),
                                owner: word_at(b, sc + 32).subrange(12, 32),
                                timestamp_s: uint_at(b, sc + 64),
                                epoch: uint_at(b, sc + 96),
                                signatures: Seq::new(n, |i: int| element(b, elems, i)),
                            },
                        )
                    }
                }
            }
        }
    }
}

proof fn lemma_be_bytes_value(n: nat, k: nat)
    requires
        n < pow256(k),
    ensures
        be_bytes(n, k).len() == k,
        be_value(be_bytes(n, k)) == n,
    decreases k,
{
    if k > 0 {
        let m = n / 256;
        let p = pow256((k - 1) as nat);
        assert(m < p) by (nonlinear_arith)
            requires
                n < 256 * p,
                m == n / 256,
        ;
        lemma_be_bytes_value(m, (k - 1) as nat);
        let s = be_bytes(n, k);
        assert(s.drop_last() =~= be_bytes(m, (k - 1) as nat));
        assert(m * 256 + n % 256 == n) by (nonlinear_arith)
            requires
                m == n / 256,
        ;
    }
}

proof fn lemma_word(n: nat)
    requires
        n < pow256(32),
    ensures
        word(n).len() == 32,
        be_value(word(n)) == n,
{
    lemma_be_bytes_value(n, 32);
}

proof fn lemma_subrange_left(x: Seq<u8>, y: Seq<u8>, i: int, j: int)
    requires
        0 <= i <= j <= x.len(),
    ensures
        (x + y).subrange(i, j) == x.subrange(i, j),
{
    assert((x + y).subrange(i, j) =~= x.subrange(i, j));
}

proof fn lemma_subrange_right(x: Seq<u8>, y: Seq<u8>, i: int, j: int)
    requires
        x.len() <= i <= j <= x.len() + y.len(),
    ensures
        (x + y).subrange(i, j) == y.subrange(i - x.len(), j - x.len()),
{
    assert((x + y).subrange(i, j) =~= y.subrange(i - x.len(), j - x.len()));
}

proof fn lemma_heads_word(s: Seq<Seq<u8>>, k: nat, i: int)
    requires
        0 <= i < k,
    ensures
        heads(s, k).len() == 32 * k,
        heads(s, k).subrange(32 * i, 32 * i + 32) == word(32 * s.len() + tail_offset(s, i)),
    decreases k,
{
    let w = word(32 * s.len() + tail_offset(s, (k - 1) as int));
    lemma_be_bytes_len(32 * s.len() + tail_offset(s, (k - 1) as int), 32);
    if i == k - 1 {
        if k > 1 {
            lemma_heads_word(s, (k - 1) as nat, 0);
        }
        lemma_subrange_right(heads(s, (k - 1) as nat), w, 32 * i, 32 * i + 32);
        assert(w.subrange(0, 32) =~= w);
    } else {
        lemma_heads_word(s, (k - 1) as nat, i);
        lemma_subrange_left(heads(s, (k - 1) as nat), w, 32 * i, 32 * i + 32);
    }
}

/// Element `i`'s tail within the tails of the list: length word, then bytes.
proof fn lemma_tail_element(s: Seq<Seq<u8>>, i: int)
    requires
        0 <= i < s.len(),
    ensures
        tail_offset(s, i) + 32 + s[i].len() <= tail_offset(s, i + 1) <= tails(s).len(),
        tails(s).subrange(tail_offset(s, i) as int, tail_offset(s, i) + 32int) == word(s[i].len()),
        tails(s).subrange(tail_offset(s, i) + 32int, tail_offset(s, i) + 32int + s[i].len()) == s[i],
{
    let o = tail_offset(s, i) as int;
    let bt = bytes_tail(s[i]);
    let w = word(s[i].len());
    lemma_be_bytes_len(s[i].len(), 32);
    lemma_tails_step(s, i);
    lemma_tails_prefix(s, i + 1);
    let pre = tails(s.take(i + 1));
    assert(bt.len() >= 32 + s[i].len());
    assert(tails(s).subrange(o, o + 32) =~= pre.subrange(o, o + 32));
    lemma_subrange_right(tails(s.take(i)), bt, o, o + 32);
    assert(bt.subrange(0, 32) =~= w);
    assert(tails(s).subrange(o + 32, o + 32 + s[i].len()) =~= pre.subrange(o + 32, o + 32 + s[i].len()));
    lemma_subrange_right(tails(s.take(i)), bt, o + 32, o + 32 + s[i].len());
    assert(bt.subrange(32, 32int + s[i].len()) =~= s[i]);
}


/// The outer record's head: the tuple offset and five slots.
spec fn head_part(v: PublicValuesView) -> Seq<u8> {
    word(32) + v.hashed_channel_id + v.hashed_channel_account + word(v.amount)
        + v.hashed_claim_info + word(HEAD_LEN as nat)
}

/// The signed claim's head: four claim slots and the signature list's offset.
spec fn claim_part(v: PublicValuesView) -> Seq<u8> {
    v.identifier + address_word(v.owner) + word(v.timestamp_s) + word(v.epoch) + word(
        HEAD_LEN as nat,
    )
}

proof fn lemma_layout(v: PublicValuesView)
    requires
        well_formed(v),
    ensures
        public_values_encoding(v) == head_part(v) + (claim_part(v) + bytes_array(v.signatures)),
        head_part(v).len() == 192,
        claim_part(v).len() == 160,
{
    lemma_be_bytes_len(32, 32);
    lemma_be_bytes_len(HEAD_LEN as nat, 32);
    lemma_be_bytes_len(v.amount, 32);
    lemma_be_bytes_len(v.timestamp_s, 32);
    lemma_be_bytes_len(v.epoch, 32);
    assert(signed_claim_encoding(v) == claim_part(v) + bytes_array(v.signatures));
    assert(public_values_encoding(v) =~= head_part(v) + (claim_part(v) + bytes_array(v.signatures)));
}

proof fn lemma_head_slots(v: PublicValuesView)
    requires
        well_formed(v),
    ensures
        head_part(v).subrange(0, 32) == word(32),
        head_part(v).subrange(32, 64) == v.hashed_channel_id,
        head_part(v).subrange(64, 96) == v.hashed_channel_account,
        head_part(v).subrange(96, 128) == word(v.amount),
        head_part(v).subrange(128, 160) == v.hashed_claim_info,
        head_part(v).subrange(160, 192) == word(HEAD_LEN as nat),
{
    lemma_be_bytes_len(32, 32);
    lemma_be_bytes_len(HEAD_LEN as nat, 32);
    lemma_be_bytes_len(v.amount, 32);
    let h = head_part(v);
    assert(h.subrange(0, 32) =~= word(32));
    assert(h.subrange(32, 64) =~= v.hashed_channel_id);
    assert(h.subrange(64, 96) =~= v.hashed_channel_account);
    assert(h.subrange(96, 128) =~= word(v.amount));
    assert(h.subrange(128, 160) =~= v.hashed_claim_info);
    assert(h.subrange(160, 192) =~= word(HEAD_LEN as nat));
}

proof fn lemma_claim_slots(v: PublicValuesView)
    requires
        well_formed(v),
    ensures
        claim_part(v).subrange(0, 32) == v.identifier,
        claim_part(v).subrange(32, 64).subrange(12, 32) == v.owner,
        claim_part(v).subrange(64, 96) == word(v.timestamp_s),
        claim_part(v).subrange(96, 128) == word(v.epoch),
        claim_part(v).subrange(128, 160) == word(HEAD_LEN as nat),
{
    lemma_be_bytes_len(HEAD_LEN as nat, 32);
    lemma_be_bytes_len(v.timestamp_s, 32);
    lemma_be_bytes_len(v.epoch, 32);
    let c = claim_part(v);
    assert(c.subrange(0, 32) =~= v.identifier);
    assert(c.subrange(32, 64).subrange(12, 32) =~= v.owner);
    assert(c.subrange(64, 96) =~= word(v.timestamp_s));
    assert(c.subrange(96, 128) =~= word(v.epoch));
    assert(c.subrange(128, 160) =~= word(HEAD_LEN as nat));
}

proof fn lemma_fixed_slots(v: PublicValuesView)
    requires
        well_formed(v),
        v.amount < pow256(32),
        v.timestamp_s < pow256(32),
        v.epoch < pow256(32),
        public_values_encoding(v).len() < pow256(32),
    ensures
        public_values_encoding(v).len() == 384 + 32 * v.signatures.len() + tails(v.signatures).len(),
        uint_at(public_values_encoding(v), 0) == 32,
        word_at(public_values_encoding(v), 32) == v.hashed_channel_id,
        word_at(public_values_encoding(v), 64) == v.hashed_channel_account,
        uint_at(public_values_encoding(v), 96) == v.amount,
        word_at(public_values_encoding(v), 128) == v.hashed_claim_info,
        uint_at(public_values_encoding(v), 160) == HEAD_LEN,
        word_at(public_values_encoding(v), 192) == v.identifier,
        word_at(public_values_encoding(v), 224).subrange(12, 32) == v.owner,
        uint_at(public_values_encoding(v), 256) == v.timestamp_s,
        uint_at(public_values_encoding(v), 288) == v.epoch,
        uint_at(public_values_encoding(v), 320) == HEAD_LEN,
        uint_at(public_values_encoding(v), 352) == v.signatures.len(),
{
    let s = v.signatures;
    let n = s.len();
    let b = public_values_encoding(v);
    let head = HEAD_LEN as nat;
    let h = head_part(v);
    let c = claim_part(v);
    let w = word(n);
    let hd = heads(s, n);
    let tl = tails(s);
    let l = bytes_array(s);
    let rest = c + l;
    lemma_layout(v);
    lemma_head_slots(v);
    lemma_claim_slots(v);
    lemma_be_bytes_len(n, 32);
    lemma_bytes_array_len(s);
    lemma_heads_len(s, n);
    assert(l == (w + hd) + tl);
    lemma_word(32);
    lemma_word(head);
    lemma_word(v.amount);
    lemma_word(v.timestamp_s);
    lemma_word(v.epoch);
    lemma_word(n);
    lemma_subrange_left(h, rest, 0, 32);
    lemma_subrange_left(h, rest, 32, 64);
    lemma_subrange_left(h, rest, 64, 96);
    lemma_subrange_left(h, rest, 96, 128);
    lemma_subrange_left(h, rest, 128, 160);
    lemma_subrange_left(h, rest, 160, 192);
    lemma_subrange_right(h, rest, 192, 224);
    lemma_subrange_right(h, rest, 224, 256);
    lemma_subrange_right(h, rest, 256, 288);
    lemma_subrange_right(h, rest, 288, 320);
    lemma_subrange_right(h, rest, 320, 352);
    lemma_subrange_right(h, rest, 352, 384);
    lemma_subrange_left(c, l, 0, 32);
    lemma_subrange_left(c, l, 32, 64);
    lemma_subrange_left(c, l, 64, 96);
    lemma_subrange_left(c, l, 96, 128);
    lemma_subrange_left(c, l, 128, 160);
    lemma_subrange_right(c, l, 160, 192);
    lemma_subrange_left(w + hd, tl, 0, 32);
    lemma_subrange_left(w, hd, 0, 32);
    assert(w.subrange(0, 32) =~= w);
}

proof fn lemma_element_slot(v: PublicValuesView, i: int)
    requires
        well_formed(v),
        public_values_encoding(v).len() < pow256(32),
        0 <= i < v.signatures.len(),
    ensures
        element_fits(public_values_encoding(v), 384, i),
        element(public_values_encoding(v), 384, i) == v.signatures[i],
{
    let s = v.signatures;
    let n = s.len();
    let b = public_values_encoding(v);
    let h = head_part(v);
    let c = claim_part(v);
    let w = word(n);
    let hd = heads(s, n);
    let tl = tails(s);
    let l = bytes_array(s);
    let rest = c + l;
    lemma_layout(v);
    lemma_be_bytes_len(n, 32);
    lemma_bytes_array_len(s);
    lemma_heads_len(s, n);
    assert(l == (w + hd) + tl);
    let off = tail_offset(s, i) as int;
    let len = s[i].len() as int;
    lemma_heads_word(s, n, i);
    lemma_tail_element(s, i);
    lemma_subrange_right(h, rest, 384 + 32 * i, 416 + 32 * i);
    lemma_subrange_right(c, l, 192 + 32 * i, 224 + 32 * i);
    lemma_subrange_left(w + hd, tl, 32 + 32 * i, 64 + 32 * i);
    lemma_subrange_right(w, hd, 32 + 32 * i, 64 + 32 * i);
    lemma_word(32 * n + tail_offset(s, i));
    let e = 384 + 32 * n + off;
    assert(element_start(b, 384, i) == e);
    lemma_subrange_right(h, rest, e, e + 32);
    lemma_subrange_right(c, l, e - 192, e - 160);
    lemma_subrange_right(w + hd, tl, e - 352, e - 320);
    lemma_word(s[i].len());
    lemma_subrange_right(h, rest, e + 32, e + 32 + len);
    lemma_subrange_right(c, l, e - 160, e - 160 + len);
    lemma_subrange_right(w + hd, tl, e - 320, e - 320 + len);
}

/// Decoding the encoding of a well-formed record gives back the same record:
/// digests, amount, identifier, owner, epoch, timestamp and every signature.
pub proof fn lemma_decode_encode(v: PublicValuesView)
    requires
        well_formed(v),
        v.amount < pow256(32),
        v.timestamp_s < pow256(32),
        v.epoch < pow256(32),
        public_values_encoding(v).len() < pow256(32),
    ensures
        decode_public_values(public_values_encoding(v)) == Some(v),
{
    let b = public_values_encoding(v);
    let s = v.signatures;
    let n = s.len();
    lemma_fixed_slots(v);
    assert forall|i: int| 0 <= i < n implies #[trigger] element_fits(b, 384, i) by {
        lemma_element_slot(v, i);
    }
    assert forall|i: int| 0 <= i < n implies #[trigger] element(b, 384, i) == s[i] by {
        lemma_element_slot(v, i);
    }
    assert(Seq::new(n, |i: int| element(b, 384, i)) =~= s);
}

} // verus!
