//! Byte-level model of the USBTMC bulk-out wire format: the envelope, the two
//! 12-byte headers, payload padding, and the chunking of large payloads.

use vstd::prelude::*;

verus! {

/// Message id of a device-dependent message carrying command bytes out.
pub const USBTMC_MSGID_DEV_DEP_MSG_OUT: u8 = 1;

/// Message id of a request asking the instrument for a device-dependent response.
pub const USBTMC_MSGID_DEV_DEP_MSG_IN: u8 = 2;

/// The transfer tag that follows `t`: always in `[1, 255]`, never 0,
/// advancing by one and wrapping from 255 back to 1.
pub open spec fn next_tag(t: u8) -> u8 {
    ((t % 255) + 1) as u8
}

/// The transfer tag reached after advancing `k` times from `t`.
pub open spec fn nth_tag(t: u8, k: nat) -> u8
    decreases k,
{
    if k == 0 {
        t
    } else {
        next_tag(nth_tag(t, (k - 1) as nat))
    }
}

/// The four-byte little-endian encoding of `v`.
pub open spec fn le32(v: u32) -> Seq<u8> {
    seq![
        (v % 256) as u8,
        ((v / 256) % 256) as u8,
        ((v / 65536) % 256) as u8,
        ((v / 16777216) % 256) as u8,
    ]
}

/// The four-byte bulk-out envelope: message id, transfer tag, bitwise
/// complement of the tag, and a reserved zero byte.
pub open spec fn bulk_out_envelope(msgid: u8, tag: u8) -> Seq<u8> {
    seq![msgid, tag, !tag, 0u8]
}

/// The end-of-message flag byte.
pub open spec fn eom_byte(eom: bool) -> u8 {
    if eom {
        1u8
    } else {
        0u8
    }
}

/// The 12-byte DEV_DEP_MSG_OUT header: envelope, little-endian transfer
/// size, end-of-message flag, three reserved zero bytes.
pub open spec fn dev_dep_msg_out_header(tag: u8, size: u32, eom: bool) -> Seq<u8> {
    bulk_out_envelope(USBTMC_MSGID_DEV_DEP_MSG_OUT, tag) + le32(size) + seq![
        eom_byte(eom),
        0u8,
        0u8,
        0u8,
    ]
}

/// The term-char-enable flag byte: 0x02 when a terminating character is set,
/// 0x00 otherwise.
pub open spec fn term_flag_byte(term_char: u8) -> u8 {
    if term_char == 0 {
        0u8
    } else {
        2u8
    }
}

/// The 12-byte DEV_DEP_MSG_IN request header: envelope, little-endian
/// requested size, term-char-enable flag, term-char value, two reserved
/// zero bytes.
pub open spec fn dev_dep_msg_in_header(tag: u8, size: u32, term_char: u8) -> Seq<u8> {
    bulk_out_envelope(USBTMC_MSGID_DEV_DEP_MSG_IN, tag) + le32(size) + seq![
        term_flag_byte(term_char),
        term_char,
        0u8,
        0u8,
    ]
}

/// How many zero bytes follow a payload of length `l` so that the whole
/// frame length (12-byte header plus payload plus padding) is a multiple
/// of four.
pub open spec fn pad_len(l: int) -> int {
    (4 - l % 4) % 4
}

/// A payload followed by its zero padding.
pub open spec fn padded(p: Seq<u8>) -> Seq<u8> {
    p + Seq::new(pad_len(p.len() as int) as nat, |i: int| 0u8)
}

/// A complete DEV_DEP_MSG_OUT bulk transfer: header, payload, zero padding.
pub open spec fn out_frame(tag: u8, p: Seq<u8>, eom: bool) -> Seq<u8> {
    dev_dep_msg_out_header(tag, p.len() as u32, eom) + padded(p)
}

/// A payload split into consecutive chunks of at most `m` bytes, in order.
/// An empty payload yields no chunks.
pub open spec fn chunks_of(data: Seq<u8>, m: nat) -> Seq<Seq<u8>>
    decreases data.len(),
{
    if m == 0 {
        seq![]
    } else if data.len() == 0 {
        seq![]
    } else if data.len() <= m {
        seq![data]
    } else {
        seq![data.take(m as int)] + chunks_of(data.skip(m as int), m)
    }
}

/// `n / m` rounded up.
pub open spec fn ceil_div(n: int, m: int) -> int {
    (n + m - 1) / m
}

/// Law: the transfer tag never leaves `[1, 255]`, is never 0, and cycles
/// through 1, 2, ..., 255, 1, ...: it advances by one below 255 and wraps
/// from 255 back to 1.
pub proof fn lemma_tag_cycle(t: u8)
    ensures
        1 <= next_tag(t) <= 255,
        next_tag(t) != 0,
        t < 255 ==> next_tag(t) == t + 1,
        t == 255 ==> next_tag(t) == 1,
{
}

/// Law: for every tag, envelope byte 1 carries the tag, byte 2 its bitwise
/// complement masked to 8 bits, and the reserved byte is zero.
pub proof fn lemma_envelope_bytes(msgid: u8, tag: u8)
    ensures
        bulk_out_envelope(msgid, tag).len() == 4,
        bulk_out_envelope(msgid, tag)[0] == msgid,
        bulk_out_envelope(msgid, tag)[1] == tag,
        bulk_out_envelope(msgid, tag)[2] == (!tag & 0xFF),
        bulk_out_envelope(msgid, tag)[3] == 0,
{
    assert(!tag & 0xFF == !tag) by (bit_vector);
}

/// Law: in every DEV_DEP_MSG_IN request header the byte after the envelope
/// and size is 0x02 exactly when a terminating character is set, and the
/// following byte always carries the terminating character itself.
pub proof fn lemma_msg_in_header_term_bytes(tag: u8, size: u32, term_char: u8)
    ensures
        dev_dep_msg_in_header(tag, size, term_char).len() == 12,
        dev_dep_msg_in_header(tag, size, term_char)[8] == term_flag_byte(term_char),
        term_char != 0 ==> dev_dep_msg_in_header(tag, size, term_char)[8] == 2,
        term_char == 0 ==> dev_dep_msg_in_header(tag, size, term_char)[8] == 0,
        dev_dep_msg_in_header(tag, size, term_char)[9] == term_char,
{
}

/// One chunking step: while bytes remain, the first chunk holds the next
/// `min(len, m)` bytes and the rest chunk as before.
pub proof fn lemma_chunks_step(data: Seq<u8>, m: nat)
    requires
        m >= 1,
        data.len() > 0,
    ensures
        ({
            let s = if data.len() <= m {
                data.len() as int
            } else {
                m as int
            };
            chunks_of(data, m) == seq![data.take(s)] + chunks_of(data.skip(s), m)
        }),
{
    let s = if data.len() <= m {
        data.len() as int
    } else {
        m as int
    };
    if data.len() <= m {
        assert(data.take(s) =~= data);
        assert(data.skip(s).len() == 0);
        assert(chunks_of(data.skip(s), m) =~= Seq::<Seq<u8>>::empty());
        assert(chunks_of(data, m) =~= seq![data.take(s)] + chunks_of(data.skip(s), m));
    }
}

/// Law: a payload of length `n` splits into exactly `ceil(n / m)` chunks.
pub proof fn lemma_chunk_count(data: Seq<u8>, m: nat)
    requires
        m >= 1,
    ensures
        chunks_of(data, m).len() == ceil_div(data.len() as int, m as int),
    decreases data.len(),
{
    let n = data.len() as int;
    let mi = m as int;
    if data.len() == 0 {
        assert((0 + mi - 1) / mi == 0) by (nonlinear_arith)
            requires
                mi >= 1,
        ;
    } else if data.len() <= m {
        assert((n + mi - 1) / mi == 1) by (nonlinear_arith)
            requires
                1 <= n <= mi,
        ;
    } else {
        lemma_chunk_count(data.skip(mi), m);
        assert((n + mi - 1) / mi == 1 + ((n - mi) + mi - 1) / mi) by (nonlinear_arith)
            requires
                n > mi >= 1,
        ;
    }
}

/// Law: the padding after a payload of length `l` is 0 to 3 bytes, equals
/// `(4 - l % 4) % 4`, and completes the 12-byte header plus payload to a
/// length that is a multiple of four.
pub proof fn lemma_frame_padding(l: int)
    requires
        l >= 0,
    ensures
        0 <= pad_len(l) < 4,
        (12 + l + pad_len(l)) % 4 == 0,
{
}

} // verus!
