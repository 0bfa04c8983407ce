//! Laws the crate's data model and wire format obey, stated and proved once
//! for all values.

use vstd::prelude::*;

use crate::MsgType;
use crate::chain::ChainView;
use crate::rule::RawRuleView;
use crate::rule::RuleView;
use crate::rule::apply_attr;
use crate::rule::frags_concat;
use crate::rule::init_raw;
use crate::rule::parse_attrs;
use crate::rule::rule_eq;
use crate::rule::rule_msg;
use crate::rule::rule_payload;
use crate::rule::lemma_payload_len_bound;
use crate::rule::spec_msg_flags;
use crate::rule::spec_msg_type;
use crate::rule::spec_parse;
use crate::rule::userdata_attr;
use crate::wire::MSG_HDR_LEN;
use crate::wire::NFTA_RULE_CHAIN;
use crate::wire::NFTA_RULE_EXPRESSIONS;
use crate::wire::NFTA_RULE_HANDLE;
use crate::wire::NFTA_RULE_POSITION;
use crate::wire::NFTA_RULE_TABLE;
use crate::wire::NFTA_RULE_USERDATA;
use crate::wire::attr_bytes;
use crate::wire::be64;
use crate::wire::be64_at;
use crate::wire::header_bytes;
use crate::wire::le16;
use crate::wire::le16_at;
use crate::wire::le32;
use crate::wire::le32_at;
use crate::wire::lemma_be64_roundtrip;
use crate::wire::lemma_le16_roundtrip;
use crate::wire::lemma_le32_roundtrip;
use crate::wire::pad_len;

verus! {

/// Rule equality is reflexive.
pub proof fn lemma_rule_eq_reflexive(a: RuleView)
    ensures
        rule_eq(a, a),
{
}

/// Rule equality is symmetric.
pub proof fn lemma_rule_eq_symmetric(a: RuleView, b: RuleView)
    ensures
        rule_eq(a, b) == rule_eq(b, a),
{
}

/// Rule equality is transitive.
pub proof fn lemma_rule_eq_transitive(a: RuleView, b: RuleView, c: RuleView)
    requires
        rule_eq(a, b),
        rule_eq(b, c),
    ensures
        rule_eq(a, c),
{
}

/// Two distinct rule objects whose handle is still `0` are never equal, even
/// when structurally identical: without a kernel-assigned handle only the
/// object identity counts, and distinct allocations carry distinct
/// identities.
pub proof fn lemma_unconfirmed_rules_never_equal(a: RuleView, b: RuleView)
    requires
        a.raw.handle == 0,
        a.raw.id != b.raw.id,
    ensures
        !rule_eq(a, b),
{
}

/// A rule's snapshot — family, table name, chain name, copied out of the
/// chain at construction — keeps matching the chain it came from even after
/// the chain is mutated: the chain's setters touch only its attachment and
/// policy metadata, never its name or its table.
pub proof fn lemma_snapshot_survives_chain_mutation(r: RuleView, c: ChainView, c2: ChainView)
    requires
        r.raw.family == c.table.family.spec_value(),
        r.raw.table_name == c.table.name,
        r.raw.chain_name == c.name,
        c2 == (ChainView { attach: c2.attach, policy: c2.policy, ..c }),
    ensures
        r.raw.family == c2.table.family.spec_value(),
        r.raw.table_name == c2.table.name,
        r.raw.chain_name == c2.name,
{
}

/// The fixed mapping from operation to message type and flags, down to the
/// documented bit values: an addition is create | append | exclusive | ack,
/// a deletion is ack alone.
pub proof fn lemma_msg_constants()
    ensures
        spec_msg_type(MsgType::Add) == 6,
        spec_msg_type(MsgType::Del) == 8,
        spec_msg_flags(MsgType::Add) == 0xe04,
        spec_msg_flags(MsgType::Del) == 0x4,
{
    assert((0x400u16 | 0x800u16 | 0x200u16 | 0x4u16) == 0xe04u16) by (bit_vector);
}

/// Where the expression fragments start inside a serialized payload.
pub open spec fn exprs_start(r: RawRuleView) -> int {
    rule_payload(r).len() as int - pad_len(frags_concat(r.exprs).len() as int + 4)
        - frags_concat(r.exprs).len() as int
}

/// The serialized payload carries the expression fragments laid end to end
/// in append order, as one contiguous byte range.
pub proof fn lemma_exprs_serialized_in_order(r: RawRuleView)
    requires
        r.wf(),
    ensures
        rule_payload(r).subrange(exprs_start(r), exprs_start(r) + frags_concat(
            r.exprs,
        ).len()) == frags_concat(r.exprs),
{
    let p = rule_payload(r);
    let e = frags_concat(r.exprs);
    let last = attr_bytes(NFTA_RULE_EXPRESSIONS, e);
    let prefix = attr_bytes(NFTA_RULE_TABLE, r.table_name + seq![0u8]) + attr_bytes(
        NFTA_RULE_CHAIN,
        r.chain_name + seq![0u8],
    ) + attr_bytes(NFTA_RULE_POSITION, be64(r.position)) + attr_bytes(
        NFTA_RULE_HANDLE,
        be64(r.handle),
    ) + userdata_attr(r.userdata);
    assert(p =~= prefix + last);
    assert(last.len() == 4 + e.len() + pad_len(e.len() as int + 4));
    assert(exprs_start(r) == prefix.len() + 4);
    assert(p.subrange(exprs_start(r), exprs_start(r) + e.len()) =~= e);
}

/// What reading back a serialized rule yields: the same family, names,
/// position, handle and userdata, under the fresh identity `id`, with the
/// expression fragments merged into one opaque fragment whose bytes are
/// their concatenation.
pub open spec fn parsed_of(r: RawRuleView, id: u64) -> RawRuleView {
    RawRuleView {
        id,
        family: r.family,
        table_name: r.table_name,
        chain_name: r.chain_name,
        position: r.position,
        handle: r.handle,
        exprs: seq![frags_concat(r.exprs)],
        userdata: r.userdata,
    }
}

/// One well-formed attribute standing at position `i` of the message drives
/// the attribute walk exactly one step forward.
proof fn lemma_parse_attrs_step(msg: Seq<u8>, i: int, acc: RawRuleView, ty: u16, val: Seq<u8>)
    requires
        0 <= i,
        val.len() + 4 <= 0xffff,
        i + attr_bytes(ty, val).len() <= msg.len(),
        msg.subrange(i, i + attr_bytes(ty, val).len()) == attr_bytes(ty, val),
    ensures
        parse_attrs(msg, i, acc) == match apply_attr(acc, ty, val) {
            Some(acc2) => parse_attrs(msg, i + attr_bytes(ty, val).len(), acc2),
            None => None,
        },
{
    let ab = attr_bytes(ty, val);
    let alen16 = (val.len() + 4) as u16;
    assert(alen16 as int == val.len() + 4);
    assert(msg[i] == ab[0]);
    assert(msg[i + 1] == ab[1]);
    assert(msg[i + 2] == ab[2]);
    assert(msg[i + 3] == ab[3]);
    assert(ab[0] == le16(alen16)[0]);
    assert(ab[1] == le16(alen16)[1]);
    assert(ab[2] == le16(ty)[0]);
    assert(ab[3] == le16(ty)[1]);
    lemma_le16_roundtrip(alen16);
    lemma_le16_roundtrip(ty);
    assert(le16_at(msg, i) == alen16);
    assert(le16_at(msg, i + 2) == ty);
    let alen = le16_at(msg, i) as int;
    assert(alen == val.len() + 4);
    assert(ab.len() == alen + pad_len(alen));
    assert forall|j: int| 0 <= j < val.len() implies msg[i + 4 + j] == val[j] by {
        assert(msg.subrange(i, i + ab.len())[4 + j] == ab[4 + j]);
    }
    assert(msg.subrange(i + 4, i + alen) =~= val);
}

/// The attribute walk steps over the attribute standing between `front` and
/// `rest` of the message.
#[verifier::rlimit(60)]
proof fn lemma_step_at(
    msg: Seq<u8>,
    front: Seq<u8>,
    ty: u16,
    val: Seq<u8>,
    rest: Seq<u8>,
    acc: RawRuleView,
)
    requires
        val.len() + 4 <= 0xffff,
        msg == front + attr_bytes(ty, val) + rest,
    ensures
        parse_attrs(msg, front.len() as int, acc) == match apply_attr(acc, ty, val) {
            Some(acc2) => parse_attrs(
                msg,
                front.len() as int + attr_bytes(ty, val).len() as int,
                acc2,
            ),
            None => None,
        },
{
    let ab = attr_bytes(ty, val);
    let i = front.len() as int;
    assert(msg.len() == front.len() + ab.len() + rest.len());
    assert forall|k: int| 0 <= k < ab.len() implies msg[i + k] == ab[k] by {
        assert(msg[i + k] == (front + ab + rest)[i + k]);
    }
    assert(msg.subrange(i, i + ab.len()) =~= ab);
    lemma_parse_attrs_step(msg, i, acc, ty, val);
}

/// The attribute walk consumes the two name attributes.
#[verifier::rlimit(100)]
proof fn lemma_walk_names(r: RawRuleView, msg: Seq<u8>, hdr: Seq<u8>, acc0: RawRuleView)
    requires
        r.wf(),
        hdr.len() == 16,
        msg == hdr + rule_payload(r),
    ensures
        parse_attrs(msg, 16, acc0) == parse_attrs(
            msg,
            16 + attr_bytes(NFTA_RULE_TABLE, r.table_name + seq![0u8]).len() as int
                + attr_bytes(NFTA_RULE_CHAIN, r.chain_name + seq![0u8]).len() as int,
            RawRuleView { table_name: r.table_name, chain_name: r.chain_name, ..acc0 },
        ),
{
    let tn = r.table_name + seq![0u8];
    let cn = r.chain_name + seq![0u8];
    let e = frags_concat(r.exprs);
    let a1 = attr_bytes(NFTA_RULE_TABLE, tn);
    let a2 = attr_bytes(NFTA_RULE_CHAIN, cn);
    let a3 = attr_bytes(NFTA_RULE_POSITION, be64(r.position));
    let a4 = attr_bytes(NFTA_RULE_HANDLE, be64(r.handle));
    let au = userdata_attr(r.userdata);
    let a6 = attr_bytes(NFTA_RULE_EXPRESSIONS, e);
    let i0 = 16int;
    let i1 = i0 + a1.len();
    let i2 = i1 + a2.len();

    let acc1 = RawRuleView { table_name: r.table_name, ..acc0 };
    assert(msg == hdr + a1 + (a2 + a3 + a4 + au + a6)) by {
        assert(msg =~= hdr + a1 + (a2 + a3 + a4 + au + a6));
    }
    lemma_step_at(msg, hdr, NFTA_RULE_TABLE, tn, a2 + a3 + a4 + au + a6, acc0);
    assert(apply_attr(acc0, NFTA_RULE_TABLE, tn) == Some(acc1)) by {
        assert(tn[tn.len() - 1] == 0);
        assert(tn.drop_last() =~= r.table_name);
        assert(RawRuleView { table_name: tn.drop_last(), ..acc0 } =~= acc1);
    }
    assert(parse_attrs(msg, i0, acc0) == parse_attrs(msg, i1, acc1));

    let acc2 = RawRuleView { chain_name: r.chain_name, ..acc1 };
    assert(msg == (hdr + a1) + a2 + (a3 + a4 + au + a6)) by {
        assert(msg =~= (hdr + a1) + a2 + (a3 + a4 + au + a6));
    }
    lemma_step_at(msg, hdr + a1, NFTA_RULE_CHAIN, cn, a3 + a4 + au + a6, acc1);
    assert(apply_attr(acc1, NFTA_RULE_CHAIN, cn) == Some(acc2)) by {
        assert(cn[cn.len() - 1] == 0);
        assert(cn.drop_last() =~= r.chain_name);
        assert(RawRuleView { chain_name: cn.drop_last(), ..acc1 } =~= acc2);
    }
    assert(parse_attrs(msg, i1, acc1) == parse_attrs(msg, i2, acc2));
    assert(acc2 =~= (RawRuleView { table_name: r.table_name, chain_name: r.chain_name, ..acc0 }));
}

/// The attribute walk consumes the position and handle attributes.
#[verifier::rlimit(100)]
proof fn lemma_walk_nums(r: RawRuleView, msg: Seq<u8>, hdr: Seq<u8>, acc2: RawRuleView)
    requires
        r.wf(),
        hdr.len() == 16,
        msg == hdr + rule_payload(r),
    ensures
        parse_attrs(
            msg,
            16 + attr_bytes(NFTA_RULE_TABLE, r.table_name + seq![0u8]).len() as int
                + attr_bytes(NFTA_RULE_CHAIN, r.chain_name + seq![0u8]).len() as int,
            acc2,
        ) == parse_attrs(
            msg,
            16 + attr_bytes(NFTA_RULE_TABLE, r.table_name + seq![0u8]).len() as int
                + attr_bytes(NFTA_RULE_CHAIN, r.chain_name + seq![0u8]).len() as int
                + attr_bytes(NFTA_RULE_POSITION, be64(r.position)).len() as int
                + attr_bytes(NFTA_RULE_HANDLE, be64(r.handle)).len() as int,
            RawRuleView { position: r.position, handle: r.handle, ..acc2 },
        ),
{
    let tn = r.table_name + seq![0u8];
    let cn = r.chain_name + seq![0u8];
    let e = frags_concat(r.exprs);
    let a1 = attr_bytes(NFTA_RULE_TABLE, tn);
    let a2 = attr_bytes(NFTA_RULE_CHAIN, cn);
    let a3 = attr_bytes(NFTA_RULE_POSITION, be64(r.position));
    let a4 = attr_bytes(NFTA_RULE_HANDLE, be64(r.handle));
    let au = userdata_attr(r.userdata);
    let a6 = attr_bytes(NFTA_RULE_EXPRESSIONS, e);
    let i2 = 16 + a1.len() as int + a2.len();
    let i3 = i2 + a3.len();
    let i4 = i3 + a4.len();

    let acc3 = RawRuleView { position: r.position, ..acc2 };
    assert(msg == (hdr + a1 + a2) + a3 + (a4 + au + a6)) by {
        assert(msg =~= (hdr + a1 + a2) + a3 + (a4 + au + a6));
    }
    lemma_step_at(msg, hdr + a1 + a2, NFTA_RULE_POSITION, be64(r.position), a4 + au + a6, acc2);
    assert(apply_attr(acc2, NFTA_RULE_POSITION, be64(r.position)) == Some(acc3)) by {
        lemma_be64_roundtrip(r.position);
        assert(RawRuleView { position: be64_at(be64(r.position), 0), ..acc2 } =~= acc3);
    }
    assert(parse_attrs(msg, i2, acc2) == parse_attrs(msg, i3, acc3));

    let acc4 = RawRuleView { handle: r.handle, ..acc3 };
    assert(msg == (hdr + a1 + a2 + a3) + a4 + (au + a6)) by {
        assert(msg =~= (hdr + a1 + a2 + a3) + a4 + (au + a6));
    }
    lemma_step_at(msg, hdr + a1 + a2 + a3, NFTA_RULE_HANDLE, be64(r.handle), au + a6, acc3);
    assert(apply_attr(acc3, NFTA_RULE_HANDLE, be64(r.handle)) == Some(acc4)) by {
        lemma_be64_roundtrip(r.handle);
        assert(RawRuleView { handle: be64_at(be64(r.handle), 0), ..acc3 } =~= acc4);
    }
    assert(parse_attrs(msg, i3, acc3) == parse_attrs(msg, i4, acc4));
    assert(acc4 =~= (RawRuleView { position: r.position, handle: r.handle, ..acc2 }));
}

/// The attribute walk consumes the userdata and expression-list attributes
/// and reaches the end of the message.
#[verifier::rlimit(100)]
proof fn lemma_walk_tail(r: RawRuleView, msg: Seq<u8>, hdr: Seq<u8>, acc4: RawRuleView)
    requires
        r.wf(),
        hdr.len() == 16,
        msg == hdr + rule_payload(r),
        acc4.userdata is None,
    ensures
        parse_attrs(
            msg,
            16 + attr_bytes(NFTA_RULE_TABLE, r.table_name + seq![0u8]).len() as int
                + attr_bytes(NFTA_RULE_CHAIN, r.chain_name + seq![0u8]).len() as int
                + attr_bytes(NFTA_RULE_POSITION, be64(r.position)).len() as int
                + attr_bytes(NFTA_RULE_HANDLE, be64(r.handle)).len() as int,
            acc4,
        ) == Some(
            RawRuleView {
                userdata: r.userdata,
                exprs: seq![frags_concat(r.exprs)],
                ..acc4
            },
        ),
{
    let tn = r.table_name + seq![0u8];
    let cn = r.chain_name + seq![0u8];
    let e = frags_concat(r.exprs);
    let a1 = attr_bytes(NFTA_RULE_TABLE, tn);
    let a2 = attr_bytes(NFTA_RULE_CHAIN, cn);
    let a3 = attr_bytes(NFTA_RULE_POSITION, be64(r.position));
    let a4 = attr_bytes(NFTA_RULE_HANDLE, be64(r.handle));
    let au = userdata_attr(r.userdata);
    let a6 = attr_bytes(NFTA_RULE_EXPRESSIONS, e);
    let i4 = 16 + a1.len() as int + a2.len() + a3.len() + a4.len();
    let i5 = i4 + au.len();
    let i6 = i5 + a6.len();
    assert(i6 == msg.len());

    let acc5 = RawRuleView { userdata: r.userdata, ..acc4 };
    match r.userdata {
        Some(u) => {
            assert(au == attr_bytes(NFTA_RULE_USERDATA, u));
            assert(msg == (hdr + a1 + a2 + a3 + a4) + au + a6) by {
                assert(msg =~= (hdr + a1 + a2 + a3 + a4) + au + a6);
            }
            lemma_step_at(msg, hdr + a1 + a2 + a3 + a4, NFTA_RULE_USERDATA, u, a6, acc4);
            assert(apply_attr(acc4, NFTA_RULE_USERDATA, u) == Some(acc5)) by {
                assert(RawRuleView { userdata: Some(u), ..acc4 } =~= acc5);
            }
            assert(parse_attrs(msg, i4, acc4) == parse_attrs(msg, i5, acc5));
        },
        None => {
            assert(au.len() == 0);
            assert(i4 == i5);
            assert(acc4 =~= acc5);
            assert(parse_attrs(msg, i4, acc4) == parse_attrs(msg, i5, acc5));
        },
    }

    let acc6 = RawRuleView { exprs: seq![e], ..acc5 };
    assert(msg == (hdr + a1 + a2 + a3 + a4 + au) + a6 + Seq::<u8>::empty()) by {
        assert(msg =~= (hdr + a1 + a2 + a3 + a4 + au) + a6 + Seq::<u8>::empty());
    }
    lemma_step_at(msg, hdr + a1 + a2 + a3 + a4 + au, NFTA_RULE_EXPRESSIONS, e, Seq::empty(), acc5);
    assert(apply_attr(acc5, NFTA_RULE_EXPRESSIONS, e) == Some(acc6)) by {
        assert(RawRuleView { exprs: seq![e], ..acc5 } =~= acc6);
    }
    assert(parse_attrs(msg, i5, acc5) == parse_attrs(msg, i6, acc6));
    assert(parse_attrs(msg, i6, acc6) == Some(acc6));
    assert(acc6 =~= (RawRuleView {
        userdata: r.userdata,
        exprs: seq![frags_concat(r.exprs)],
        ..acc4
    }));
}

/// Serializing a rule and parsing the message back yields the rule's own
/// field state: names, position, handle and userdata return verbatim (or
/// "no value" where none was set), whatever operation and sequence number
/// the message carried.
#[verifier::rlimit(100)]
pub proof fn lemma_write_parse_round_trip(r: RawRuleView, op: MsgType, seqno: u32, id: u64)
    requires
        r.wf(),
    ensures
        spec_parse(rule_msg(r, op, seqno), id) == Some(parsed_of(r, id)),
{
    let p = rule_payload(r);
    let ty = spec_msg_type(op);
    let flags = spec_msg_flags(op);
    lemma_payload_len_bound(r);
    let ll = (MSG_HDR_LEN as int + p.len()) as u32;
    let hdr = header_bytes(ll, ty, r.family, flags, seqno);
    let msg = rule_msg(r, op, seqno);
    assert(msg == hdr + p);
    assert(hdr.len() == 16);
    assert(msg.len() == 16 + p.len());
    assert(le32_at(msg, 0) == ll) by {
        assert(msg[0] == le32(ll)[0]);
        assert(msg[1] == le32(ll)[1]);
        assert(msg[2] == le32(ll)[2]);
        assert(msg[3] == le32(ll)[3]);
        lemma_le32_roundtrip(ll);
    }
    assert(ll as int == msg.len() as int);
    assert(le16_at(msg, 6) == r.family) by {
        assert(msg[6] == le16(r.family)[0]);
        assert(msg[7] == le16(r.family)[1]);
        lemma_le16_roundtrip(r.family);
    }

    let acc0 = init_raw(id, r.family);
    assert(spec_parse(msg, id) == parse_attrs(msg, 16, acc0));

    let acc2 = RawRuleView { table_name: r.table_name, chain_name: r.chain_name, ..acc0 };
    let acc4 = RawRuleView { position: r.position, handle: r.handle, ..acc2 };
    lemma_walk_names(r, msg, hdr, acc0);
    lemma_walk_nums(r, msg, hdr, acc2);
    lemma_walk_tail(r, msg, hdr, acc4);
    assert((RawRuleView {
        userdata: r.userdata,
        exprs: seq![frags_concat(r.exprs)],
        ..acc4
    }) =~= parsed_of(r, id));
}

} // verus!
