//! The binary netlink wire format: header and attribute encoding.
//!
//! A message is a fixed 16-byte header followed by a payload of typed
//! attributes. The header holds, in order: total message length (u32),
//! message type (u16), address family (u16), flags (u16), sequence number
//! (u32) and two reserved zero bytes. Multi-byte header and attribute-length
//! fields are little-endian; 64-bit attribute values are big-endian, as
//! netlink carries them. An attribute is its total length (u16, counting the
//! 4-byte attribute header), its type (u16) and its value, padded with zero
//! bytes to a 4-byte boundary.
//!
//! Building a message is a two-step process: [`build_hdr`] writes the header
//! at the current cursor with a zero length field and returns its position;
//! once the payload has been appended, [`finalize_hdr`] patches the length
//! field to the true total. The header is not complete until then.

use vstd::prelude::*;

verus! {

/// Message type: create a rule.
pub const NFT_MSG_NEWRULE: u16 = 6;

/// Message type: fetch rules.
pub const NFT_MSG_GETRULE: u16 = 7;

/// Message type: delete a rule.
pub const NFT_MSG_DELRULE: u16 = 8;

/// Flag: acknowledge the request.
pub const NLM_F_ACK: u16 = 0x4;

/// Flag: fail if the object already exists.
pub const NLM_F_EXCL: u16 = 0x200;

/// Flag: create the object if it does not exist.
pub const NLM_F_CREATE: u16 = 0x400;

/// Flag: append the object after its siblings.
pub const NLM_F_APPEND: u16 = 0x800;

/// Flag: dump all matching objects; used by fetch requests.
pub const NLM_F_DUMP: u16 = 0x300;

/// Attribute type: table name, as a zero-terminated string.
pub const NFTA_RULE_TABLE: u16 = 1;

/// Attribute type: chain name, as a zero-terminated string.
pub const NFTA_RULE_CHAIN: u16 = 2;

/// Attribute type: kernel handle, as a big-endian u64.
pub const NFTA_RULE_HANDLE: u16 = 3;

/// Attribute type: the encoded expression list.
pub const NFTA_RULE_EXPRESSIONS: u16 = 4;

/// Attribute type: position within the chain, as a big-endian u64.
pub const NFTA_RULE_POSITION: u16 = 6;

/// Attribute type: opaque caller bookkeeping bytes.
pub const NFTA_RULE_USERDATA: u16 = 7;

/// Length of the fixed message header.
pub const MSG_HDR_LEN: usize = 16;

/// Largest attribute value that still fits the u16 attribute length field.
pub const MAX_ATTR_PAYLOAD: usize = 65531;

/// A valid object name: short and free of the zero byte that terminates it on
/// the wire.
pub open spec fn name_ok(s: Seq<u8>) -> bool {
    s.len() <= 255 && forall|i: int| 0 <= i < s.len() ==> s[i] != 0
}

/// Valid userdata: fits one attribute and is free of zero bytes, since the
/// native layer stores it as a zero-terminated string.
pub open spec fn data_ok(s: Seq<u8>) -> bool {
    s.len() <= MAX_ATTR_PAYLOAD as int && forall|i: int| 0 <= i < s.len() ==> s[i] != 0
}

/// The two little-endian bytes of `x`.
pub open spec fn le16(x: u16) -> Seq<u8> {
    seq![(x & 0xff) as u8, ((x >> 8) & 0xff) as u8]
}

/// The four little-endian bytes of `x`.
pub open spec fn le32(x: u32) -> Seq<u8> {
    seq![
        (x & 0xff) as u8,
        ((x >> 8) & 0xff) as u8,
        ((x >> 16) & 0xff) as u8,
        ((x >> 24) & 0xff) as u8,
    ]
}

/// The eight big-endian bytes of `x`.
pub open spec fn be64(x: u64) -> Seq<u8> {
    seq![
        ((x >> 56) & 0xff) as u8,
        ((x >> 48) & 0xff) as u8,
        ((x >> 40) & 0xff) as u8,
        ((x >> 32) & 0xff) as u8,
        ((x >> 24) & 0xff) as u8,
        ((x >> 16) & 0xff) as u8,
        ((x >> 8) & 0xff) as u8,
        (x & 0xff) as u8,
    ]
}

/// The u16 read little-endian at position `i`.
pub open spec fn le16_at(s: Seq<u8>, i: int) -> u16 {
    (s[i] as u16) | ((s[i + 1] as u16) << 8)
}

/// The u32 read little-endian at position `i`.
pub open spec fn le32_at(s: Seq<u8>, i: int) -> u32 {
    (s[i] as u32) | ((s[i + 1] as u32) << 8) | ((s[i + 2] as u32) << 16) | ((s[i + 3] as u32)
        << 24)
}

/// The u64 read big-endian at position `i`.
pub open spec fn be64_at(s: Seq<u8>, i: int) -> u64 {
    ((s[i] as u64) << 56) | ((s[i + 1] as u64) << 48) | ((s[i + 2] as u64) << 40) | ((s[i
        + 3] as u64) << 32) | ((s[i + 4] as u64) << 24) | ((s[i + 5] as u64) << 16) | ((s[i
        + 6] as u64) << 8) | (s[i + 7] as u64)
}

/// `n` zero bytes.
pub open spec fn zeros(n: int) -> Seq<u8> {
    Seq::new(if n >= 0 {
        n as nat
    } else {
        0
    }, |i: int| 0u8)
}

/// Zero bytes that pad a field of `n` bytes to a 4-byte boundary.
pub open spec fn pad_len(n: int) -> int {
    (4 - n % 4) % 4
}

/// One encoded attribute: length, type, value, alignment padding.
pub open spec fn attr_bytes(ty: u16, val: Seq<u8>) -> Seq<u8> {
    le16((val.len() + 4) as u16) + le16(ty) + val + zeros(pad_len(val.len() as int + 4))
}

/// The fixed message header with the given length field.
pub open spec fn header_bytes(len: u32, ty: u16, family: u16, flags: u16, seqno: u32) -> Seq<
    u8,
> {
    le32(len) + le16(ty) + le16(family) + le16(flags) + le32(seqno) + le16(0)
}

/// `s` with the four bytes at `at` replaced by `repl`.
pub open spec fn splice4(s: Seq<u8>, at: int, repl: Seq<u8>) -> Seq<u8> {
    s.take(at) + repl + s.skip(at + 4)
}

/// Reading back the two little-endian bytes of `x` yields `x`.
pub proof fn lemma_le16_roundtrip(x: u16)
    ensures
        le16_at(le16(x), 0) == x,
{
    assert(((((x & 0xff) as u8) as u16) | (((((x >> 8) & 0xff) as u8) as u16) << 8)) == x)
        by (bit_vector);
}

/// Reading back the four little-endian bytes of `x` yields `x`.
pub proof fn lemma_le32_roundtrip(x: u32)
    ensures
        le32_at(le32(x), 0) == x,
{
    assert(((((x & 0xff) as u8) as u32) | (((((x >> 8) & 0xff) as u8) as u32) << 8) | (((((x
        >> 16) & 0xff) as u8) as u32) << 16) | (((((x >> 24) & 0xff) as u8) as u32) << 24))
        == x) by (bit_vector);
}

/// Reading back the eight big-endian bytes of `x` yields `x`.
pub proof fn lemma_be64_roundtrip(x: u64)
    ensures
        be64_at(be64(x), 0) == x,
{
    assert((((((x >> 56) & 0xff) as u8) as u64) << 56 | ((((x >> 48) & 0xff) as u8) as u64)
        << 48 | ((((x >> 40) & 0xff) as u8) as u64) << 40 | ((((x >> 32) & 0xff) as u8) as u64)
        << 32 | ((((x >> 24) & 0xff) as u8) as u64) << 24 | ((((x >> 16) & 0xff) as u8) as u64)
        << 16 | ((((x >> 8) & 0xff) as u8) as u64) << 8 | (((x & 0xff) as u8) as u64)) == x)
        by (bit_vector);
}

/// Returns a copy of `v`.
pub fn clone_bytes(v: &Vec<u8>) -> (r: Vec<u8>)
    ensures
        r@ == v@,
{
    let mut r: Vec<u8> = Vec::new();
    let mut i: usize = 0;
    while i < v.len()
        invariant
            i <= v.len(),
            r@ == v@.take(i as int),
        decreases v.len() - i,
    {
        r.push(v[i]);
        assert(r@ =~= v@.take(i + 1));
        i = i + 1;
    }
    assert(r@ =~= v@);
    r
}

/// Returns the bytes of `v` in positions `from` (inclusive) to `to`
/// (exclusive).
pub fn copy_range(v: &Vec<u8>, from: usize, to: usize) -> (r: Vec<u8>)
    requires
        from <= to <= v@.len(),
    ensures
        r@ == v@.subrange(from as int, to as int),
{
    let mut r: Vec<u8> = Vec::new();
    let mut i: usize = from;
    while i < to
        invariant
            from <= i <= to <= v@.len(),
            r@ == v@.subrange(from as int, i as int),
        decreases to - i,
    {
        r.push(v[i]);
        assert(r@ =~= v@.subrange(from as int, i + 1));
        i = i + 1;
    }
    r
}

/// Whether no byte of `v` is zero.
pub fn bytes_nonzero(v: &Vec<u8>) -> (r: bool)
    ensures
        r == forall|i: int| 0 <= i < v@.len() ==> v@[i] != 0,
{
    let mut i: usize = 0;
    while i < v.len()
        invariant
            i <= v.len(),
            forall|j: int| 0 <= j < i ==> v@[j] != 0,
        decreases v.len() - i,
    {
        if v[i] == 0 {
            return false;
        }
        i = i + 1;
    }
    true
}

/// Appends the bytes of `v` to `buf`.
pub fn append_bytes(buf: &mut Vec<u8>, v: &Vec<u8>)
    ensures
        final(buf)@ == old(buf)@ + v@,
{
    let mut i: usize = 0;
    while i < v.len()
        invariant
            i <= v.len(),
            buf@ == old(buf)@ + v@.take(i as int),
        decreases v.len() - i,
    {
        buf.push(v[i]);
        assert(buf@ =~= old(buf)@ + v@.take(i + 1));
        i = i + 1;
    }
    assert(buf@ =~= old(buf)@ + v@);
}

/// Appends `n` zero bytes to `buf`.
pub fn push_zeros(buf: &mut Vec<u8>, n: usize)
    ensures
        final(buf)@ == old(buf)@ + zeros(n as int),
{
    let mut i: usize = 0;
    while i < n
        invariant
            i <= n,
            buf@ == old(buf)@ + zeros(i as int),
        decreases n - i,
    {
        buf.push(0);
        assert(buf@ =~= old(buf)@ + zeros(i + 1));
        i = i + 1;
    }
}

/// Appends `x` little-endian to `buf`.
pub fn push_le16(buf: &mut Vec<u8>, x: u16)
    ensures
        final(buf)@ == old(buf)@ + le16(x),
{
    buf.push((x & 0xff) as u8);
    buf.push(((x >> 8) & 0xff) as u8);
    assert(buf@ =~= old(buf)@ + le16(x));
}

/// Appends `x` little-endian to `buf`.
pub fn push_le32(buf: &mut Vec<u8>, x: u32)
    ensures
        final(buf)@ == old(buf)@ + le32(x),
{
    buf.push((x & 0xff) as u8);
    buf.push(((x >> 8) & 0xff) as u8);
    buf.push(((x >> 16) & 0xff) as u8);
    buf.push(((x >> 24) & 0xff) as u8);
    assert(buf@ =~= old(buf)@ + le32(x));
}

/// Appends `x` big-endian to `buf`.
pub fn push_be64(buf: &mut Vec<u8>, x: u64)
    ensures
        final(buf)@ == old(buf)@ + be64(x),
{
    buf.push(((x >> 56) & 0xff) as u8);
    buf.push(((x >> 48) & 0xff) as u8);
    buf.push(((x >> 40) & 0xff) as u8);
    buf.push(((x >> 32) & 0xff) as u8);
    buf.push(((x >> 24) & 0xff) as u8);
    buf.push(((x >> 16) & 0xff) as u8);
    buf.push(((x >> 8) & 0xff) as u8);
    buf.push((x & 0xff) as u8);
    assert(buf@ =~= old(buf)@ + be64(x));
}

/// Reads the u16 at position `i` of `v`, little-endian.
pub fn read_le16(v: &Vec<u8>, i: usize) -> (r: u16)
    requires
        i + 2 <= v@.len(),
    ensures
        r == le16_at(v@, i as int),
{
    let n = v.len();
    assert(i + 2 <= n);
    (v[i] as u16) | ((v[i + 1] as u16) << 8)
}

/// Reads the u32 at position `i` of `v`, little-endian.
pub fn read_le32(v: &Vec<u8>, i: usize) -> (r: u32)
    requires
        i + 4 <= v@.len(),
    ensures
        r == le32_at(v@, i as int),
{
    let n = v.len();
    assert(i + 4 <= n);
    (v[i] as u32) | ((v[i + 1] as u32) << 8) | ((v[i + 2] as u32) << 16) | ((v[i
        + 3] as u32) << 24)
}

/// Reads the u64 at position `i` of `v`, big-endian.
pub fn read_be64(v: &Vec<u8>, i: usize) -> (r: u64)
    requires
        i + 8 <= v@.len(),
    ensures
        r == be64_at(v@, i as int),
{
    let n = v.len();
    assert(i + 8 <= n);
    ((v[i] as u64) << 56) | ((v[i + 1] as u64) << 48) | ((v[i + 2] as u64) << 40) | ((v[i
        + 3] as u64) << 32) | ((v[i + 4] as u64) << 24) | ((v[i + 5] as u64) << 16) | ((v[i
        + 6] as u64) << 8) | (v[i + 7] as u64)
}

/// Appends one attribute to `buf`.
pub fn push_attr(buf: &mut Vec<u8>, ty: u16, val: &Vec<u8>)
    requires
        val@.len() + 4 <= 0xffff,
    ensures
        final(buf)@ == old(buf)@ + attr_bytes(ty, val@),
{
    let total: usize = val.len() + 4;
    push_le16(buf, total as u16);
    push_le16(buf, ty);
    append_bytes(buf, val);
    let pad: usize = (4 - (total % 4)) % 4;
    push_zeros(buf, pad);
    assert(buf@ =~= old(buf)@ + attr_bytes(ty, val@));
}

/// Writes the fixed header with a zero length field at the current end of
/// `buf` and returns its position. The length field is patched by
/// [`finalize_hdr`] once the payload is in place.
pub fn build_hdr(buf: &mut Vec<u8>, ty: u16, family: u16, flags: u16, seqno: u32) -> (hdr:
    usize)
    ensures
        hdr == old(buf)@.len(),
        final(buf)@ == old(buf)@ + header_bytes(0, ty, family, flags, seqno),
        final(buf)@.len() == old(buf)@.len() + MSG_HDR_LEN,
{
    let hdr = buf.len();
    push_le32(buf, 0);
    push_le16(buf, ty);
    push_le16(buf, family);
    push_le16(buf, flags);
    push_le32(buf, seqno);
    push_le16(buf, 0);
    assert(buf@ =~= old(buf)@ + header_bytes(0, ty, family, flags, seqno));
    hdr
}

/// Patches the length field of the header at `hdr` to cover everything from
/// the header to the current end of `buf`.
pub fn finalize_hdr(buf: &mut Vec<u8>, hdr: usize)
    requires
        hdr + MSG_HDR_LEN <= old(buf)@.len(),
        old(buf)@.len() - hdr <= u32::MAX,
    ensures
        final(buf)@ == splice4(old(buf)@, hdr as int, le32((old(buf)@.len() - hdr) as u32)),
        final(buf)@.len() == old(buf)@.len(),
{
    let len: u32 = (buf.len() - hdr) as u32;
    buf[hdr] = (len & 0xff) as u8;
    buf[hdr + 1] = ((len >> 8) & 0xff) as u8;
    buf[hdr + 2] = ((len >> 16) & 0xff) as u8;
    buf[hdr + 3] = ((len >> 24) & 0xff) as u8;
    assert(buf@ =~= splice4(old(buf)@, hdr as int, le32(len)));
}

} // verus!
