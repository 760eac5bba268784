//! Little-endian byte codecs for the SRAM exchange areas.
//!
//! The console and the client exchange items through two ring-buffer-like
//! structures in SRAM.  Everything there is little-endian: the inbound
//! header is five fields `[u16, u16, u16, u16, i32]`, an inbound message
//! slot is `(u16 from_world_id, u16 item_id)`, and an outbound message slot
//! is `(u16 to_world_id, u16 item_id, u16 item_index)` followed by two
//! reserved bytes.

use vstd::prelude::*;

verus! {

/// The value of two little-endian bytes.
pub open spec fn le16(b: Seq<u8>) -> u16
    recommends
        b.len() == 2,
{
    (b[0] + b[1] * 0x100) as u16
}

/// The two little-endian bytes of a 16-bit value.
pub open spec fn le16_bytes(v: u16) -> Seq<u8> {
    seq![(v % 0x100) as u8, (v / 0x100) as u8]
}

/// The value of four little-endian bytes.
pub open spec fn le32(b: Seq<u8>) -> u32
    recommends
        b.len() == 4,
{
    (b[0] + b[1] * 0x100 + b[2] * 0x10000 + b[3] * 0x1000000) as u32
}

/// The four little-endian bytes of a 32-bit value.
pub open spec fn le32_bytes(v: u32) -> Seq<u8> {
    seq![
        (v % 0x100) as u8,
        ((v / 0x100) % 0x100) as u8,
        ((v / 0x10000) % 0x100) as u8,
        (v / 0x1000000) as u8,
    ]
}

/// Reinterpretation of a 32-bit pattern as a signed value (two's complement).
pub open spec fn as_signed32(n: u32) -> int {
    if n < 0x80000000 {
        n as int
    } else {
        n - 0x100000000
    }
}

/// The 32-bit pattern of a signed value (two's complement).
pub open spec fn as_unsigned32(v: i32) -> u32 {
    if v >= 0 {
        v as u32
    } else {
        (v + 0x100000000) as u32
    }
}

pub proof fn lemma_signed32_round_trip(v: i32)
    ensures
        as_signed32(as_unsigned32(v)) == v as int,
{
}

/// Reads the `u16` stored little-endian at `off`.
pub fn u16_from_le_at(b: &Vec<u8>, off: usize) -> (r: u16)
    requires
        off + 2 <= b.len(),
    ensures
        r == le16(b@.subrange(off as int, off + 2)),
{
    let lo: u16 = b[off] as u16;
    let hi: u16 = b[off + 1] as u16;
    let r: u16 = lo + hi * 0x100;
    proof {
        let s = b@.subrange(off as int, off + 2);
        assert(s[0] == b@[off as int]);
        assert(s[1] == b@[off as int + 1]);
    }
    r
}

/// The two little-endian bytes of `v`.
pub fn u16_to_le(v: u16) -> (r: Vec<u8>)
    ensures
        r@ == le16_bytes(v),
{
    let mut r: Vec<u8> = Vec::new();
    r.push((v % 0x100) as u8);
    r.push((v / 0x100) as u8);
    proof {
        assert(r@ =~= le16_bytes(v));
    }
    r
}

/// Reads the `i32` stored little-endian at `off`.
pub fn i32_from_le_at(b: &Vec<u8>, off: usize) -> (r: i32)
    requires
        off + 4 <= b.len(),
    ensures
        r as int == as_signed32(le32(b@.subrange(off as int, off + 4))),
{
    let b0: u32 = b[off] as u32;
    let b1: u32 = b[off + 1] as u32;
    let b2: u32 = b[off + 2] as u32;
    let b3: u32 = b[off + 3] as u32;
    let n: u32 = b0 + b1 * 0x100 + b2 * 0x10000 + b3 * 0x1000000;
    proof {
        let s = b@.subrange(off as int, off + 4);
        assert(s[0] == b@[off as int]);
        assert(s[1] == b@[off as int + 1]);
        assert(s[2] == b@[off as int + 2]);
        assert(s[3] == b@[off as int + 3]);
    }
    if n < 0x80000000 {
        n as i32
    } else {
        -((0xFFFFFFFFu32 - n) as i32) - 1
    }
}

/// The four little-endian bytes of `v`.
pub fn i32_to_le(v: i32) -> (r: Vec<u8>)
    ensures
        r@ == le32_bytes(as_unsigned32(v)),
{
    let n: u32 = if v >= 0 {
        v as u32
    } else {
        0xFFFFFFFFu32 - ((-(v + 1)) as u32)
    };
    assert(n == as_unsigned32(v));
    let mut r: Vec<u8> = Vec::new();
    r.push((n % 0x100) as u8);
    r.push(((n / 0x100) % 0x100) as u8);
    r.push(((n / 0x10000) % 0x100) as u8);
    r.push((n / 0x1000000) as u8);
    proof {
        assert(r@ =~= le32_bytes(n));
    }
    r
}

/// The five-field header at the head of either exchange area: two ring
/// pointers, two further words, and the last committed event id.
pub struct ExchangeHeader {
    pub read_ptr: u16,
    pub write_ptr: u16,
    pub word_a: u16,
    pub word_b: u16,
    pub event_id: i32,
}

/// The twelve bytes of a header, fields in order, each little-endian.
pub open spec fn header_bytes(h: ExchangeHeader) -> Seq<u8> {
    le16_bytes(h.read_ptr) + le16_bytes(h.write_ptr) + le16_bytes(h.word_a) + le16_bytes(h.word_b)
        + le32_bytes(as_unsigned32(h.event_id))
}

/// The header stored in the first twelve bytes of `b`.
pub open spec fn header_of(b: Seq<u8>) -> ExchangeHeader
    recommends
        b.len() >= 12,
{
    ExchangeHeader {
        read_ptr: le16(b.subrange(0, 2)),
        write_ptr: le16(b.subrange(2, 4)),
        word_a: le16(b.subrange(4, 6)),
        word_b: le16(b.subrange(6, 8)),
        event_id: as_signed32(le32(b.subrange(8, 12))) as i32,
    }
}

impl ExchangeHeader {
    /// Serializes the header as `[u16, u16, u16, u16, i32]`, little-endian.
    pub fn encode(&self) -> (r: Vec<u8>)
        ensures
            r@ == header_bytes(*self),
            r@.len() == 12,
    {
        let mut r: Vec<u8> = u16_to_le(self.read_ptr);
        let mut t: Vec<u8> = u16_to_le(self.write_ptr);
        r.append(&mut t);
        let mut t: Vec<u8> = u16_to_le(self.word_a);
        r.append(&mut t);
        let mut t: Vec<u8> = u16_to_le(self.word_b);
        r.append(&mut t);
        let mut t: Vec<u8> = i32_to_le(self.event_id);
        r.append(&mut t);
        proof {
            assert(r@ =~= header_bytes(*self));
        }
        r
    }

    /// Reads the header stored in the first twelve bytes of `b`.
    pub fn decode(b: &Vec<u8>) -> (r: ExchangeHeader)
        requires
            b.len() >= 12,
        ensures
            r == header_of(b@),
    {
        let r = ExchangeHeader {
            read_ptr: u16_from_le_at(b, 0),
            write_ptr: u16_from_le_at(b, 2),
            word_a: u16_from_le_at(b, 4),
            word_b: u16_from_le_at(b, 6),
            event_id: i32_from_le_at(b, 8),
        };
        proof {
            lemma_signed32_round_trip(r.event_id);
        }
        r
    }
}

/// Encoding then decoding a header is the identity: the twelve bytes of a
/// header decode back to the same five fields.
pub proof fn lemma_header_round_trip(h: ExchangeHeader)
    ensures
        header_of(header_bytes(h)) == h,
{
    let b = header_bytes(h);
    assert(b.subrange(0, 2) =~= le16_bytes(h.read_ptr));
    assert(b.subrange(2, 4) =~= le16_bytes(h.write_ptr));
    assert(b.subrange(4, 6) =~= le16_bytes(h.word_a));
    assert(b.subrange(6, 8) =~= le16_bytes(h.word_b));
    assert(b.subrange(8, 12) =~= le32_bytes(as_unsigned32(h.event_id)));
    lemma_signed32_round_trip(h.event_id);
}

/// The concatenated encoding of `(from_world_id, item_id)` pairs, each field
/// two little-endian bytes.
pub open spec fn pairs_bytes(s: Seq<(u16, u16)>) -> Seq<u8>
    decreases s.len(),
{
    if s.len() == 0 {
        Seq::empty()
    } else {
        le16_bytes(s[0].0) + le16_bytes(s[0].1) + pairs_bytes(s.drop_first())
    }
}

pub proof fn lemma_pairs_bytes_len(s: Seq<(u16, u16)>)
    ensures
        pairs_bytes(s).len() == 4 * s.len(),
    decreases s.len(),
{
    if s.len() > 0 {
        lemma_pairs_bytes_len(s.drop_first());
    }
}

/// The `n` pairs stored in `b`, four bytes each.
pub open spec fn pairs_of(b: Seq<u8>, n: nat) -> Seq<(u16, u16)>
    recommends
        b.len() >= 4 * n,
    decreases n,
{
    if n == 0 {
        Seq::empty()
    } else {
        seq![(le16(b.subrange(0, 2)), le16(b.subrange(2, 4)))] + pairs_of(
            b.skip(4),
            (n - 1) as nat,
        )
    }
}

/// Serializes a list of `(from_world_id, item_id)` pairs.
pub fn encode_pairs(pairs: &Vec<(u16, u16)>) -> (r: Vec<u8>)
    ensures
        r@ == pairs_bytes(pairs@),
        r@.len() == 4 * pairs@.len(),
{
    let mut r: Vec<u8> = Vec::new();
    let mut i: usize = 0;
    proof {
        lemma_pairs_bytes_len(pairs@);
    }
    while i < pairs.len()
        invariant
            i <= pairs.len(),
            r@ == pairs_bytes(pairs@.take(i as int)),
            r@.len() == 4 * i,
        decreases pairs.len() - i,
    {
        let (w, it) = pairs[i];
        let mut t: Vec<u8> = u16_to_le(w);
        r.append(&mut t);
        let mut t: Vec<u8> = u16_to_le(it);
        r.append(&mut t);
        proof {
            lemma_pairs_bytes_snoc(pairs@.take(i as int), (w, it));
            assert(pairs@.take(i + 1) =~= pairs@.take(i as int).push((w, it)));
        }
        i = i + 1;
    }
    proof {
        assert(pairs@.take(pairs@.len() as int) =~= pairs@);
    }
    r
}

pub proof fn lemma_pairs_bytes_snoc(s: Seq<(u16, u16)>, p: (u16, u16))
    ensures
        pairs_bytes(s.push(p)) == pairs_bytes(s) + le16_bytes(p.0) + le16_bytes(p.1),
    decreases s.len(),
{
    let t = s.push(p);
    if s.len() == 0 {
        assert(t[0] == p);
        assert(t.drop_first() =~= Seq::<(u16, u16)>::empty());
        assert(pairs_bytes(t) == le16_bytes(p.0) + le16_bytes(p.1) + pairs_bytes(t.drop_first()));
        assert(pairs_bytes(t) =~= pairs_bytes(s) + le16_bytes(p.0) + le16_bytes(p.1));
    } else {
        assert(t[0] == s[0]);
        assert(t.drop_first() =~= s.drop_first().push(p));
        lemma_pairs_bytes_snoc(s.drop_first(), p);
        assert(pairs_bytes(t) == le16_bytes(s[0].0) + le16_bytes(s[0].1) + pairs_bytes(
            t.drop_first(),
        ));
        assert(pairs_bytes(t) =~= pairs_bytes(s) + le16_bytes(p.0) + le16_bytes(p.1));
    }
}

/// Reads `n` pairs from the front of `b`.
pub fn decode_pairs(b: &Vec<u8>, n: usize) -> (r: Vec<(u16, u16)>)
    requires
        4 * n <= b.len(),
    ensures
        r@ == pairs_of(b@, n as nat),
        r@.len() == n,
{
    let mut r: Vec<(u16, u16)> = Vec::new();
    let mut i: usize = 0;
    proof {
        lemma_pairs_of_len(b@, n as nat);
    }
    while i < n
        invariant
            i <= n,
            4 * n <= b.len(),
            r@.len() == i,
            r@ == pairs_of(b@, n as nat).take(i as int),
            pairs_of(b@, n as nat).len() == n,
        decreases n - i,
    {
        proof {
            lemma_pairs_of_index(b@, n as nat, i as int);
        }
        let w: u16 = u16_from_le_at(b, 4 * i);
        let it: u16 = u16_from_le_at(b, 4 * i + 2);
        proof {
            assert(b@.subrange(4 * i, 4 * i + 2) =~= b@.subrange(4 * i, 4 * i + 4).subrange(0, 2));
            assert(b@.subrange(4 * i + 2, 4 * i + 4) =~= b@.subrange(4 * i, 4 * i + 4).subrange(
                2,
                4,
            ));
        }
        r.push((w, it));
        proof {
            assert(pairs_of(b@, n as nat).take(i + 1) =~= pairs_of(b@, n as nat).take(
                i as int,
            ).push(pairs_of(b@, n as nat)[i as int]));
        }
        i = i + 1;
    }
    proof {
        assert(pairs_of(b@, n as nat).take(n as int) =~= pairs_of(b@, n as nat));
    }
    r
}

/// Each decoded pair is read from its own four bytes.
pub proof fn lemma_pairs_of_index(b: Seq<u8>, n: nat, i: int)
    requires
        b.len() >= 4 * n,
        0 <= i < n,
    ensures
        pairs_of(b, n).len() == n,
        pairs_of(b, n)[i] == (
            le16(b.subrange(4 * i, 4 * i + 2)),
            le16(b.subrange(4 * i + 2, 4 * i + 4)),
        ),
    decreases n,
{
    lemma_pairs_of_len(b, n);
    if i > 0 {
        lemma_pairs_of_index(b.skip(4), (n - 1) as nat, i - 1);
        assert(b.skip(4).subrange(4 * (i - 1), 4 * (i - 1) + 2) =~= b.subrange(4 * i, 4 * i + 2));
        assert(b.skip(4).subrange(4 * (i - 1) + 2, 4 * (i - 1) + 4) =~= b.subrange(
            4 * i + 2,
            4 * i + 4,
        ));
    }
}

pub proof fn lemma_pairs_of_len(b: Seq<u8>, n: nat)
    requires
        b.len() >= 4 * n,
    ensures
        pairs_of(b, n).len() == n,
    decreases n,
{
    if n > 0 {
        lemma_pairs_of_len(b.skip(4), (n - 1) as nat);
    }
}

/// The concatenated pair encoding is invertible given the number of pairs:
/// decoding the bytes of `s` as `s.len()` pairs gives back `s`.
pub proof fn lemma_pairs_round_trip(s: Seq<(u16, u16)>)
    ensures
        pairs_of(pairs_bytes(s), s.len()) == s,
    decreases s.len(),
{
    lemma_pairs_bytes_len(s);
    if s.len() > 0 {
        let b = pairs_bytes(s);
        lemma_pairs_bytes_len(s.drop_first());
        assert(b.subrange(0, 2) =~= le16_bytes(s[0].0));
        assert(b.subrange(2, 4) =~= le16_bytes(s[0].1));
        assert(b.skip(4) =~= pairs_bytes(s.drop_first()));
        lemma_pairs_round_trip(s.drop_first());
        assert(pairs_of(b, s.len()) =~= s);
    } else {
        assert(pairs_of(pairs_bytes(s), s.len()) =~= s);
    }
}

/// The three fields of an outbound message slot stored at `off`:
/// `(to_world_id, item_id, item_index)`, each two little-endian bytes.
pub open spec fn slot_of(b: Seq<u8>, off: int) -> (u16, u16, u16)
    recommends
        0 <= off,
        off + 6 <= b.len(),
{
    (
        le16(b.subrange(off, off + 2)),
        le16(b.subrange(off + 2, off + 4)),
        le16(b.subrange(off + 4, off + 6)),
    )
}

/// Reads the outbound message slot stored at `off`.
pub fn decode_slot_at(b: &Vec<u8>, off: usize) -> (r: (u16, u16, u16))
    requires
        off + 6 <= b.len(),
    ensures
        r == slot_of(b@, off as int),
{
    (u16_from_le_at(b, off), u16_from_le_at(b, off + 2), u16_from_le_at(b, off + 4))
}

} // verus!
