//! One-time-pad encoding of a piece's record: the record's bits, least
//! significant bit of each byte first, are cut into chunks of `space_l` bits
//! and each chunk is XORed with the leading bits of its own pad.

use vstd::prelude::*;

verus! {

/// Bit `k` of `bytes`, counting from the least significant bit of byte 0.
pub open spec fn bit_of(bytes: Seq<u8>, k: nat) -> bool {
    (bytes[(k / 8) as int] >> ((k % 8) as u8)) & 1u8 == 1u8
}

/// Whether bit `k` of a record is flipped: the bit of chunk `k / w`'s pad at
/// offset `k % w`, where that pad has such a bit.
pub open spec fn pad_bit(pads: Seq<Seq<u8>>, w: nat, k: nat) -> bool {
    w > 0 && (k / w) < pads.len() && (k % w) < 8 * pads[(k / w) as int].len() && bit_of(
        pads[(k / w) as int],
        k % w,
    )
}

/// The low `n` bits of the mask applied to byte `b` of a record.
pub open spec fn mask_upto(pads: Seq<Seq<u8>>, w: nat, b: nat, n: nat) -> u8
    decreases n,
{
    if n == 0 {
        0u8
    } else {
        let rest = mask_upto(pads, w, b, (n - 1) as nat);
        if pad_bit(pads, w, 8 * b + (n - 1) as nat) {
            rest | (1u8 << ((n - 1) as u8))
        } else {
            rest
        }
    }
}

/// The mask that encoding XORs into byte `b` of a record.
pub open spec fn mask_byte(pads: Seq<Seq<u8>>, w: nat, b: nat) -> u8 {
    mask_upto(pads, w, b, 8)
}

/// `piece` with the first `record_size` bytes encoded under `pads`, with
/// chunks of `w` bits; the bytes after the record are kept.
pub open spec fn encoded(piece: Seq<u8>, record_size: nat, w: nat, pads: Seq<Seq<u8>>) -> Seq<u8> {
    Seq::new(
        piece.len(),
        |b: int|
            if b < record_size {
                piece[b] ^ mask_byte(pads, w, b as nat)
            } else {
                piece[b]
            },
    )
}

/// The views of a list of pads.
pub open spec fn pads_view(pads: Seq<Vec<u8>>) -> Seq<Seq<u8>> {
    pads.map_values(|p: Vec<u8>| p@)
}

/// Number of chunks of `space_l` bits in a record of `record_size` bytes; the
/// last one may be shorter.
pub open spec fn chunk_count_spec(record_size: nat, space_l: nat) -> nat {
    if space_l == 0 {
        0
    } else {
        ((8 * record_size + space_l - 1) as nat) / space_l
    }
}

/// Number of chunks of `space_l` bits in a record of `record_size` bytes.
pub fn chunk_count(record_size: usize, space_l: usize) -> (r: usize)
    requires
        record_size * 8 + space_l <= usize::MAX,
    ensures
        r == chunk_count_spec(record_size as nat, space_l as nat),
{
    if space_l == 0 {
        0
    } else {
        (8 * record_size + space_l - 1) / space_l
    }
}

/// Bit `k` of `bytes`.
fn get_bit(bytes: &Vec<u8>, k: usize) -> (r: bool)
    requires
        k / 8 < bytes@.len(),
    ensures
        r == bit_of(bytes@, k as nat),
{
    (bytes[k / 8] >> ((k % 8) as u8)) & 1u8 == 1u8
}

/// Whether bit `k` of a record is flipped by `pads`.
fn get_pad_bit(pads: &Vec<Vec<u8>>, w: usize, k: usize) -> (r: bool)
    ensures
        r == pad_bit(pads_view(pads@), w as nat, k as nat),
{
    if w == 0 {
        return false;
    }
    let c = k / w;
    let o = k % w;
    if c >= pads.len() {
        return false;
    }
    let pad = &pads[c];
    if o / 8 >= pad.len() {
        assert(!(o < 8 * pad@.len()));
        return false;
    }
    get_bit(pad, o)
}

/// The mask that encoding XORs into byte `b` of a record.
fn mask_for_byte(pads: &Vec<Vec<u8>>, w: usize, b: usize) -> (r: u8)
    requires
        b * 8 + 8 <= usize::MAX,
    ensures
        r == mask_byte(pads_view(pads@), w as nat, b as nat),
{
    let mut m: u8 = 0;
    let mut t: usize = 0;
    while t < 8
        invariant
            0 <= t <= 8,
            b * 8 + 8 <= usize::MAX,
            m == mask_upto(pads_view(pads@), w as nat, b as nat, t as nat),
        decreases 8 - t,
    {
        if get_pad_bit(pads, w, 8 * b + t) {
            m = m | (1u8 << (t as u8));
        }
        t = t + 1;
    }
    m
}

/// Encodes the first `record_size` bytes of `piece` in place: chunk `i` of
/// `space_l` bits is XORed, bit by bit, with the leading bits of `pads[i]`.
/// A chunk without a pad, or bits past the end of its pad, stay as they are.
pub fn encode_record(piece: &mut Vec<u8>, record_size: usize, space_l: usize, pads: &Vec<Vec<u8>>)
    requires
        record_size <= old(piece)@.len(),
        old(piece)@.len() * 8 + 8 <= usize::MAX,
    ensures
        final(piece)@ == encoded(old(piece)@, record_size as nat, space_l as nat, pads_view(pads@)),
        encodes_bits(
            final(piece)@,
            old(piece)@,
            record_size as nat,
            space_l as nat,
            pads_view(pads@),
        ),
{
    let ghost orig = piece@;
    let mut b: usize = 0;
    while b < record_size
        invariant
            0 <= b <= record_size,
            record_size <= orig.len(),
            orig.len() * 8 + 8 <= usize::MAX,
            piece@.len() == orig.len(),
            forall|j: int|
                0 <= j < b ==> #[trigger] piece@[j] == orig[j] ^ mask_byte(
                    pads_view(pads@),
                    space_l as nat,
                    j as nat,
                ),
            forall|j: int| b <= j < orig.len() ==> #[trigger] piece@[j] == orig[j],
        decreases record_size - b,
    {
        let m = mask_for_byte(pads, space_l, b);
        let v = piece[b] ^ m;
        piece.set(b, v);
        b = b + 1;
    }
    assert(piece@ =~= encoded(orig, record_size as nat, space_l as nat, pads_view(pads@)));
    proof {
        lemma_encoded_bits(orig, record_size as nat, space_l as nat, pads_view(pads@));
    }
}

/// Whether `result` is `piece` encoded bit by bit: every bit `k` of the first
/// `record_size` bytes is the piece's bit XOR `pad_bit(pads, w, k)`, and the
/// bytes after the record are the piece's.
pub open spec fn encodes_bits(
    result: Seq<u8>,
    piece: Seq<u8>,
    record_size: nat,
    w: nat,
    pads: Seq<Seq<u8>>,
) -> bool {
    &&& result.len() == piece.len()
    &&& forall|b: int| record_size <= b < piece.len() ==> #[trigger] result[b] == piece[b]
    &&& forall|k: nat|
        k < 8 * record_size ==> #[trigger] bit_of(result, k) == (bit_of(piece, k) != pad_bit(
            pads,
            w,
            k,
        ))
}

proof fn lemma_mask_bit(pads: Seq<Seq<u8>>, w: nat, b: nat, n: nat, t: nat)
    requires
        n <= 8,
        t < 8,
    ensures
        ((mask_upto(pads, w, b, n) >> (t as u8)) & 1u8 == 1u8) == (t < n && pad_bit(
            pads,
            w,
            8 * b + t,
        )),
    decreases n,
{
    let tt = t as u8;
    if n == 0 {
        assert((0u8 >> tt) & 1u8 == 0u8) by (bit_vector);
    } else {
        let rest = mask_upto(pads, w, b, (n - 1) as nat);
        lemma_mask_bit(pads, w, b, (n - 1) as nat, t);
        let nn = (n - 1) as u8;
        assert(mask_upto(pads, w, b, n) == if pad_bit(pads, w, 8 * b + nn as nat) {
            rest | (1u8 << nn)
        } else {
            rest
        });
        assert(((rest | (1u8 << nn)) >> tt) & 1u8 == 1u8 <==> ((rest >> tt) & 1u8 == 1u8 || tt
            == nn)) by (bit_vector)
            requires
                nn < 8,
                tt < 8,
        ;
    }
}

/// The bytes that `encoded` gives satisfy the bit-level statement.
pub proof fn lemma_encoded_bits(piece: Seq<u8>, record_size: nat, w: nat, pads: Seq<Seq<u8>>)
    requires
        record_size <= piece.len(),
    ensures
        encodes_bits(encoded(piece, record_size, w, pads), piece, record_size, w, pads),
{
    let e = encoded(piece, record_size, w, pads);
    assert forall|k: nat| k < 8 * record_size implies #[trigger] bit_of(e, k) == (bit_of(piece, k)
        != pad_bit(pads, w, k)) by {
        let b = k / 8;
        let t = k % 8;
        assert(k == 8 * b + t);
        assert(b < record_size);
        lemma_mask_bit(pads, w, b, 8, t);
        let x = piece[b as int];
        let m = mask_byte(pads, w, b);
        let tt = t as u8;
        assert(((x ^ m) >> tt) & 1u8 == 1u8 <==> (((x >> tt) & 1u8 == 1u8) != ((m >> tt) & 1u8
            == 1u8))) by (bit_vector)
            requires
                tt < 8,
        ;
    }
}

/// Encoding twice under the same pads gives back the piece: the transform is
/// its own inverse.
pub proof fn lemma_encoding_is_involution(
    piece: Seq<u8>,
    record_size: nat,
    space_l: nat,
    pads: Seq<Seq<u8>>,
)
    ensures
        encoded(encoded(piece, record_size, space_l, pads), record_size, space_l, pads) == piece,
{
    let once = encoded(piece, record_size, space_l, pads);
    let twice = encoded(once, record_size, space_l, pads);
    assert forall|b: int| 0 <= b < piece.len() implies twice[b] == piece[b] by {
        if b < record_size {
            let m = mask_byte(pads, space_l, b as nat);
            let x = piece[b];
            assert((x ^ m) ^ m == x) by (bit_vector);
        }
    }
    assert(twice =~= piece);
}

} // verus!
