//! A rule: an ordered sequence of expressions scoped to a chain, and the unit
//! of serialization and query.

use vstd::prelude::*;

use crate::Error;
use crate::MsgType;
use crate::chain::Chain;
use crate::chain::ChainView;
use crate::expr::Expression;
use crate::handle::Allocator;
use crate::wire::MAX_ATTR_PAYLOAD;
use crate::wire::MSG_HDR_LEN;
use crate::wire::NFTA_RULE_CHAIN;
use crate::wire::NFTA_RULE_EXPRESSIONS;
use crate::wire::NFTA_RULE_HANDLE;
use crate::wire::NFTA_RULE_POSITION;
use crate::wire::NFTA_RULE_TABLE;
use crate::wire::NFTA_RULE_USERDATA;
use crate::wire::NFT_MSG_DELRULE;
use crate::wire::NFT_MSG_NEWRULE;
use crate::wire::NLM_F_ACK;
use crate::wire::NLM_F_APPEND;
use crate::wire::NLM_F_CREATE;
use crate::wire::NLM_F_EXCL;
use crate::wire::append_bytes;
use crate::wire::attr_bytes;
use crate::wire::be64;
use crate::wire::be64_at;
use crate::wire::build_hdr;
use crate::wire::bytes_nonzero;
use crate::wire::copy_range;
use crate::wire::le16_at;
use crate::wire::le32_at;
use crate::wire::pad_len;
use crate::wire::read_be64;
use crate::wire::read_le16;
use crate::wire::read_le32;
use crate::wire::clone_bytes;
use crate::wire::data_ok;
use crate::wire::finalize_hdr;
use crate::wire::header_bytes;
use crate::wire::name_ok;
use crate::wire::push_attr;
use crate::wire::push_be64;

verus! {

/// The mathematical state of one native rule object: the fields the kernel
/// serializes and parses. `id` is the identity of the native allocation that
/// holds them.
#[verifier::ext_equal]
pub ghost struct RawRuleView {
    pub id: u64,
    pub family: u16,
    pub table_name: Seq<u8>,
    pub chain_name: Seq<u8>,
    pub position: u64,
    pub handle: u64,
    pub exprs: Seq<Seq<u8>>,
    pub userdata: Option<Seq<u8>>,
}

/// The expression fragments of a rule laid end to end, in append order.
pub open spec fn frags_concat(fs: Seq<Seq<u8>>) -> Seq<u8>
    decreases fs.len(),
{
    if fs.len() == 0 {
        Seq::empty()
    } else {
        fs[0] + frags_concat(fs.drop_first())
    }
}

/// Appending one fragment extends the concatenation at its end.
pub proof fn lemma_frags_concat_push(fs: Seq<Seq<u8>>, f: Seq<u8>)
    ensures
        frags_concat(fs.push(f)) == frags_concat(fs) + f,
    decreases fs.len(),
{
    if fs.len() == 0 {
        assert(fs.push(f).drop_first() =~= fs);
        assert(fs.push(f)[0] =~= f);
        assert(frags_concat(fs.push(f)) =~= frags_concat(fs) + f);
    } else {
        assert(fs.push(f).drop_first() =~= fs.drop_first().push(f));
        lemma_frags_concat_push(fs.drop_first(), f);
        assert(frags_concat(fs.push(f)) =~= frags_concat(fs) + f);
    }
}

/// The first `i + 1` fragments concatenate to the first `i` plus the next.
pub proof fn lemma_frags_concat_take_succ(fs: Seq<Seq<u8>>, i: int)
    requires
        0 <= i < fs.len(),
    ensures
        frags_concat(fs.take(i + 1)) == frags_concat(fs.take(i)) + fs[i],
{
    assert(fs.take(i + 1) =~= fs.take(i).push(fs[i]));
    lemma_frags_concat_push(fs.take(i), fs[i]);
}

impl RawRuleView {
    /// A well-formed native rule: valid names, valid userdata, and an
    /// expression list that still fits one attribute.
    pub open spec fn wf(self) -> bool {
        &&& name_ok(self.table_name)
        &&& name_ok(self.chain_name)
        &&& match self.userdata {
            Some(u) => data_ok(u),
            None => true,
        }
        &&& frags_concat(self.exprs).len() <= MAX_ATTR_PAYLOAD as int
    }
}

/// A freshly allocated native rule object: identity `id`, every field at its
/// default.
pub open spec fn fresh_raw(id: u64) -> RawRuleView {
    RawRuleView {
        id,
        family: 0,
        table_name: Seq::empty(),
        chain_name: Seq::empty(),
        position: 0,
        handle: 0,
        exprs: Seq::empty(),
        userdata: None,
    }
}

/// One native rule object, exclusively owned.
#[derive(Debug)]
pub struct RawRule {
    pub(crate) id: u64,
    pub(crate) family: u16,
    pub(crate) table_name: Vec<u8>,
    pub(crate) chain_name: Vec<u8>,
    pub(crate) position: u64,
    pub(crate) handle: u64,
    pub(crate) exprs: Vec<Vec<u8>>,
    pub(crate) userdata: Option<Vec<u8>>,
}

impl View for RawRule {
    type V = RawRuleView;

    closed spec fn view(&self) -> RawRuleView {
        RawRuleView {
            id: self.id,
            family: self.family,
            table_name: self.table_name@,
            chain_name: self.chain_name@,
            position: self.position,
            handle: self.handle,
            exprs: Seq::new(self.exprs@.len(), |i: int| self.exprs@[i]@),
            userdata: match self.userdata {
                Some(ref u) => Some(u@),
                None => None,
            },
        }
    }
}

impl RawRule {
    /// Allocates a fresh, empty native rule object, or nothing when the
    /// allocator has nothing left, as the native allocator returns null.
    pub fn allocate(heap: &mut Allocator) -> (r: Option<RawRule>)
        ensures
            match r {
                Some(raw) => {
                    &&& old(heap)@.can_alloc()
                    &&& raw@ == fresh_raw(old(heap)@.next_id)
                    &&& raw@.wf()
                    &&& final(heap)@ == old(heap)@.after_alloc()
                },
                None => {
                    &&& !old(heap)@.can_alloc()
                    &&& final(heap)@ == old(heap)@
                },
            },
    {
        match heap.allocate() {
            Some(id) => {
                let raw = RawRule {
                    id,
                    family: 0,
                    table_name: Vec::new(),
                    chain_name: Vec::new(),
                    position: 0,
                    handle: 0,
                    exprs: Vec::new(),
                    userdata: None,
                };
                proof {
                    assert(raw@ =~= fresh_raw(id));
                    assert(frags_concat(raw@.exprs) =~= Seq::<u8>::empty());
                }
                Some(raw)
            },
            None => None,
        }
    }

    /// Copies the three identifying fields — family, table name, chain name —
    /// from the chain's current state into this object. This is the snapshot
    /// a rule takes at construction.
    pub fn set_identity(&mut self, chain: &Chain)
        ensures
            final(self)@ == (RawRuleView {
                family: chain@.table.family.spec_value(),
                table_name: chain@.table.name,
                chain_name: chain@.name,
                ..old(self)@
            }),
    {
        self.family = chain.get_table().get_family().value();
        self.table_name = clone_bytes(chain.get_table().get_name());
        self.chain_name = clone_bytes(chain.get_name());
        assert(self@ =~= (RawRuleView {
            family: chain@.table.family.spec_value(),
            table_name: chain@.table.name,
            chain_name: chain@.name,
            ..old(self)@
        }));
    }
}

/// The attribute carrying a rule's userdata, or nothing when none was set.
pub open spec fn userdata_attr(ud: Option<Seq<u8>>) -> Seq<u8> {
    match ud {
        Some(u) => attr_bytes(NFTA_RULE_USERDATA, u),
        None => Seq::empty(),
    }
}

/// The serialized payload of a rule: its fields as typed attributes, the
/// expression fragments laid end to end in append order inside the
/// expression-list attribute.
pub open spec fn rule_payload(r: RawRuleView) -> Seq<u8> {
    attr_bytes(NFTA_RULE_TABLE, r.table_name + seq![0u8]) + attr_bytes(
        NFTA_RULE_CHAIN,
        r.chain_name + seq![0u8],
    ) + attr_bytes(NFTA_RULE_POSITION, be64(r.position)) + attr_bytes(
        NFTA_RULE_HANDLE,
        be64(r.handle),
    ) + userdata_attr(r.userdata) + attr_bytes(NFTA_RULE_EXPRESSIONS, frags_concat(r.exprs))
}

/// The wire message type an operation maps to.
pub open spec fn spec_msg_type(op: MsgType) -> u16 {
    match op {
        MsgType::Add => NFT_MSG_NEWRULE,
        MsgType::Del => NFT_MSG_DELRULE,
    }
}

/// The header flags an operation maps to: create, append, exclusive and ack
/// for an addition; ack alone for a deletion.
pub open spec fn spec_msg_flags(op: MsgType) -> u16 {
    match op {
        MsgType::Add => NLM_F_CREATE | NLM_F_APPEND | NLM_F_EXCL | NLM_F_ACK,
        MsgType::Del => NLM_F_ACK,
    }
}

/// A complete message for one rule, under the given type and flags: the
/// header, its length field covering header plus payload, then the payload.
pub open spec fn msg_with(r: RawRuleView, ty: u16, flags: u16, seqno: u32) -> Seq<u8> {
    header_bytes(
        (MSG_HDR_LEN as int + rule_payload(r).len()) as u32,
        ty,
        r.family,
        flags,
        seqno,
    ) + rule_payload(r)
}

/// The complete message that `op` on a rule produces.
pub open spec fn rule_msg(r: RawRuleView, op: MsgType, seqno: u32) -> Seq<u8> {
    msg_with(r, spec_msg_type(op), spec_msg_flags(op), seqno)
}

/// A well-formed rule's payload is far below the length a header can state.
pub proof fn lemma_payload_len_bound(r: RawRuleView)
    requires
        r.wf(),
    ensures
        rule_payload(r).len() <= 200000,
{
}

/// Serializes the current field state of `raw` as a payload at the end of
/// `buf`, using the wire encoding of [`rule_payload`].
pub fn build_rule_payload(buf: &mut Vec<u8>, raw: &RawRule)
    requires
        raw@.wf(),
    ensures
        final(buf)@ == old(buf)@ + rule_payload(raw@),
{
    let mut tn = clone_bytes(&raw.table_name);
    tn.push(0);
    push_attr(buf, NFTA_RULE_TABLE, &tn);
    let mut cn = clone_bytes(&raw.chain_name);
    cn.push(0);
    push_attr(buf, NFTA_RULE_CHAIN, &cn);
    let mut pos: Vec<u8> = Vec::new();
    push_be64(&mut pos, raw.position);
    push_attr(buf, NFTA_RULE_POSITION, &pos);
    let mut hd: Vec<u8> = Vec::new();
    push_be64(&mut hd, raw.handle);
    push_attr(buf, NFTA_RULE_HANDLE, &hd);
    match &raw.userdata {
        Some(ud) => push_attr(buf, NFTA_RULE_USERDATA, ud),
        None => {},
    }
    let mut ev: Vec<u8> = Vec::new();
    let mut i: usize = 0;
    while i < raw.exprs.len()
        invariant
            i <= raw.exprs.len(),
            raw@.wf(),
            raw@.exprs.len() == raw.exprs@.len(),
            forall|j: int| 0 <= j < raw.exprs@.len() ==> raw@.exprs[j] == raw.exprs@[j]@,
            ev@ == frags_concat(raw@.exprs.take(i as int)),
        decreases raw.exprs.len() - i,
    {
        proof {
            lemma_frags_concat_take_succ(raw@.exprs, i as int);
        }
        append_bytes(&mut ev, &raw.exprs[i]);
        i = i + 1;
    }
    proof {
        assert(raw@.exprs.take(raw@.exprs.len() as int) =~= raw@.exprs);
    }
    push_attr(buf, NFTA_RULE_EXPRESSIONS, &ev);
    assert(buf@ =~= old(buf)@ + rule_payload(raw@));
}

/// A nftables firewall rule.
///
/// A rule owns one native allocation and holds a shared reference to the
/// chain it lives in; the chain (and through it the table) stays alive for
/// at least as long as the rule. The family, table name and chain name it
/// serializes are the snapshot taken from the chain when the rule was
/// created.
#[derive(Debug)]
pub struct Rule {
    pub(crate) raw: RawRule,
    pub(crate) chain: Chain,
}

/// The mathematical state of a [`Rule`]: its native object and its chain.
#[verifier::ext_equal]
pub ghost struct RuleView {
    pub raw: RawRuleView,
    pub chain: ChainView,
}

impl RuleView {
    /// A well-formed rule wraps a well-formed native object and chain.
    pub open spec fn wf(self) -> bool {
        self.raw.wf() && self.chain.wf()
    }
}

impl View for Rule {
    type V = RuleView;

    closed spec fn view(&self) -> RuleView {
        RuleView { raw: self.raw@, chain: self.chain@ }
    }
}

/// Rule equality: same chain identity and same kernel handle. A handle is
/// kernel-authoritative and `0` until the kernel assigns one, so two rules
/// whose handle is still `0` are equal only if they are the same object —
/// never merely structurally alike.
pub open spec fn rule_eq(a: RuleView, b: RuleView) -> bool {
    &&& a.chain.id == b.chain.id
    &&& a.raw.handle == b.raw.handle
    &&& (a.raw.handle == 0 ==> a.raw.id == b.raw.id)
}

impl PartialEq for Rule {
    fn eq(&self, other: &Rule) -> (r: bool) {
        self.chain.id() == other.chain.id() && self.raw.handle == other.raw.handle && (
        self.raw.handle != 0 || self.raw.id == other.raw.id)
    }
}

impl vstd::std_specs::cmp::PartialEqSpecImpl for Rule {
    open spec fn obeys_eq_spec() -> bool {
        true
    }

    open spec fn eq_spec(&self, other: &Rule) -> bool {
        rule_eq(self@, other@)
    }
}

impl Rule {
    /// Creates a new rule object in the given [`Chain`], snapshotting the
    /// chain's family, table name and chain name at this instant. Fails with
    /// [`Error::AllocationFailed`], before any field is set, when the native
    /// allocator has nothing left; no partially constructed rule exists then
    /// and the allocator is untouched.
    pub fn new(chain: &Chain, heap: &mut Allocator) -> (r: Result<Rule, Error>)
        requires
            chain@.wf(),
        ensures
            match r {
                Ok(rule) => {
                    &&& rule@.chain == chain@
                    &&& rule@.raw == (RawRuleView {
                        id: old(heap)@.next_id,
                        family: chain@.table.family.spec_value(),
                        table_name: chain@.table.name,
                        chain_name: chain@.name,
                        position: 0,
                        handle: 0,
                        exprs: Seq::empty(),
                        userdata: None,
                    })
                    &&& rule@.wf()
                    &&& old(heap)@.can_alloc()
                    &&& final(heap)@ == old(heap)@.after_alloc()
                },
                Err(e) => {
                    &&& e == Error::AllocationFailed
                    &&& !old(heap)@.can_alloc()
                    &&& final(heap)@ == old(heap)@
                },
            },
    {
        let mut raw = match RawRule::allocate(heap) {
            Some(raw) => raw,
            None => {
                return Err(Error::AllocationFailed);
            },
        };
        raw.set_identity(chain);
        let rule = Rule { raw, chain: chain.clone() };
        proof {
            assert(frags_concat(rule@.raw.exprs) =~= Seq::<u8>::empty());
        }
        Ok(rule)
    }

    /// Wraps an already-allocated native rule object, attaching the chain it
    /// is known to belong to. Used when the kernel hands rules back.
    pub fn from_raw(raw: RawRule, chain: Chain) -> (r: Rule)
        ensures
            r@.raw == raw@,
            r@.chain == chain@,
    {
        Rule { raw, chain }
    }

    /// Returns the rule's position within its chain.
    pub fn get_position(&self) -> (r: u64)
        ensures
            r == self@.raw.position,
    {
        self.raw.position
    }

    /// Sets the position of this rule within the chain it lives in. By
    /// default a new rule is added to the end of the chain. No validation is
    /// done here: ordering conflicts are the kernel's concern.
    pub fn set_position(&mut self, position: u64)
        ensures
            final(self)@ == (RuleView {
                raw: RawRuleView { position, ..old(self)@.raw },
                ..old(self)@
            }),
    {
        self.raw.position = position;
        assert(self@ =~= (RuleView {
            raw: RawRuleView { position, ..old(self)@.raw },
            ..old(self)@
        }));
    }

    /// Returns the kernel-assigned handle; `0` until the kernel confirmed
    /// one.
    pub fn get_handle(&self) -> (r: u64)
        ensures
            r == self@.raw.handle,
    {
        self.raw.handle
    }

    /// Sets the kernel handle. This is caller-asserted state: setting a
    /// handle does not make it kernel-confirmed.
    pub fn set_handle(&mut self, handle: u64)
        ensures
            final(self)@ == (RuleView {
                raw: RawRuleView { handle, ..old(self)@.raw },
                ..old(self)@
            }),
    {
        self.raw.handle = handle;
        assert(self@ =~= (RuleView {
            raw: RawRuleView { handle, ..old(self)@.raw },
            ..old(self)@
        }));
    }

    /// Adds an expression to this rule; the side effect is irreversible, no
    /// removal exists. Expressions are evaluated from first to last added: as
    /// soon as one does not match the packet, evaluation stops and the packet
    /// moves to the next rule in the chain.
    pub fn add_expr<E: Expression>(&mut self, expr: &E)
        requires
            old(self)@.wf(),
            frags_concat(old(self)@.raw.exprs).len() + expr.fragment(old(self)@).len()
                <= MAX_ATTR_PAYLOAD as int,
        ensures
            final(self)@ == (RuleView {
                raw: RawRuleView {
                    exprs: old(self)@.raw.exprs.push(expr.fragment(old(self)@)),
                    ..old(self)@.raw
                },
                ..old(self)@
            }),
            final(self)@.wf(),
    {
        let frag = expr.to_expr(self);
        self.raw.exprs.push(frag);
        proof {
            lemma_frags_concat_push(old(self)@.raw.exprs, expr.fragment(old(self)@));
            assert(self@.raw.exprs =~= old(self)@.raw.exprs.push(
                expr.fragment(old(self)@),
            ));
            assert(self@ =~= (RuleView {
                raw: RawRuleView {
                    exprs: old(self)@.raw.exprs.push(expr.fragment(old(self)@)),
                    ..old(self)@.raw
                },
                ..old(self)@
            }));
        }
    }

    /// Returns a shared reference to the [`Chain`] this rule lives in.
    pub fn get_chain(&self) -> (r: Chain)
        ensures
            r@ == self@.chain,
    {
        self.chain.clone()
    }

    /// Returns the userdata of this rule, or nothing when none was ever set.
    pub fn get_userdata(&self) -> (r: Option<&Vec<u8>>)
        ensures
            match r {
                Some(v) => self@.raw.userdata == Some(v@),
                None => self@.raw.userdata is None,
            },
    {
        match &self.raw.userdata {
            Some(v) => Some(v),
            None => None,
        }
    }

    /// Attaches opaque bookkeeping bytes to the rule, stored and later
    /// returned verbatim. The bytes are kept zero-terminated natively, so
    /// they must be free of zero bytes and fit one attribute.
    pub fn set_userdata(&mut self, data: &Vec<u8>)
        requires
            data_ok(data@),
        ensures
            final(self)@ == (RuleView {
                raw: RawRuleView { userdata: Some(data@), ..old(self)@.raw },
                ..old(self)@
            }),
    {
        self.raw.userdata = Some(clone_bytes(data));
        assert(self@ =~= (RuleView {
            raw: RawRuleView { userdata: Some(data@), ..old(self)@.raw },
            ..old(self)@
        }));
    }

    /// Returns the identity of the raw native handle, for interop with the
    /// serialization layer. The identity must not be used to outlive the
    /// rule.
    pub fn as_ptr(&self) -> (r: u64)
        ensures
            r == self@.raw.id,
    {
        self.raw.id
    }

    /// Returns the identity of the raw native handle of a mutably held rule.
    pub fn as_mut_ptr(&mut self) -> (r: u64)
        ensures
            r == old(self)@.raw.id,
            final(self)@ == old(self)@,
    {
        self.raw.id
    }

    /// Writes one complete message for this rule into `buf`: the header for
    /// `msg_type` with the given sequence number, then the serialized
    /// payload, with the header's length field patched once the payload size
    /// is known. A pure transformation of the buffer; the rule is unchanged.
    pub fn write(&self, buf: &mut Vec<u8>, seqno: u32, msg_type: MsgType)
        requires
            self@.wf(),
        ensures
            final(buf)@ == old(buf)@ + rule_msg(self@.raw, msg_type, seqno),
    {
        let ty: u16 = match msg_type {
            MsgType::Add => NFT_MSG_NEWRULE,
            MsgType::Del => NFT_MSG_DELRULE,
        };
        let flags: u16 = match msg_type {
            MsgType::Add => NLM_F_CREATE | NLM_F_APPEND | NLM_F_EXCL | NLM_F_ACK,
            MsgType::Del => NLM_F_ACK,
        };
        let hdr = build_hdr(buf, ty, self.raw.family, flags, seqno);
        build_rule_payload(buf, &self.raw);
        proof {
            lemma_payload_len_bound(self@.raw);
        }
        finalize_hdr(buf, hdr);
        assert(buf@ =~= old(buf)@ + rule_msg(self@.raw, msg_type, seqno));
    }
}

/// Capacity of the buffer behind [`Rule::get_str`]: the rendering is
/// truncated to one byte less, leaving room for the native terminator.
pub const RULE_STR_CAPACITY: usize = 4096;

/// The decimal digits of `n`.
pub open spec fn spec_dec(n: u64) -> Seq<u8>
    decreases n,
{
    if n < 10 {
        seq![(48 + n) as u8]
    } else {
        spec_dec(n / 10) + seq![(48 + n % 10) as u8]
    }
}

/// The full textual rendering of a rule: table, chain, handle and position.
pub open spec fn spec_render(r: RawRuleView) -> Seq<u8> {
    r.table_name + seq![32u8] + r.chain_name + seq![
        32u8,
        104u8,
        97u8,
        110u8,
        100u8,
        108u8,
        101u8,
        32u8,
    ] + spec_dec(r.handle) + seq![32u8, 112u8, 111u8, 115u8, 105u8, 116u8, 105u8, 111u8, 110u8, 32u8]
        + spec_dec(r.position)
}

/// The rendering clipped to what the bounded buffer holds.
pub open spec fn spec_render_clipped(r: RawRuleView) -> Seq<u8> {
    if spec_render(r).len() <= (RULE_STR_CAPACITY - 1) as int {
        spec_render(r)
    } else {
        spec_render(r).take((RULE_STR_CAPACITY - 1) as int)
    }
}

/// Writes the decimal digits of `n`.
pub fn dec_bytes(n: u64) -> (r: Vec<u8>)
    ensures
        r@ == spec_dec(n),
    decreases n,
{
    if n < 10 {
        let mut v: Vec<u8> = Vec::new();
        v.push((48 + n) as u8);
        assert(v@ =~= spec_dec(n));
        v
    } else {
        let mut v = dec_bytes(n / 10);
        v.push((48 + (n % 10)) as u8);
        assert(v@ =~= spec_dec(n));
        v
    }
}

impl Rule {
    /// Returns a bounded human-readable rendering of the rule — table name,
    /// chain name, handle and position — truncated safely beyond the fixed
    /// buffer capacity of [`RULE_STR_CAPACITY`] bytes. For logging and
    /// debugging only; not a machine-parsed format.
    pub fn get_str(&self) -> (r: Vec<u8>)
        ensures
            r@ == spec_render_clipped(self@.raw),
            r@.len() < RULE_STR_CAPACITY,
    {
        let mut out: Vec<u8> = Vec::new();
        append_bytes(&mut out, &self.raw.table_name);
        out.push(32u8);
        append_bytes(&mut out, &self.raw.chain_name);
        out.push(32u8);
        out.push(104u8);
        out.push(97u8);
        out.push(110u8);
        out.push(100u8);
        out.push(108u8);
        out.push(101u8);
        out.push(32u8);
        let hd = dec_bytes(self.raw.handle);
        append_bytes(&mut out, &hd);
        out.push(32u8);
        out.push(112u8);
        out.push(111u8);
        out.push(115u8);
        out.push(105u8);
        out.push(116u8);
        out.push(105u8);
        out.push(111u8);
        out.push(110u8);
        out.push(32u8);
        let pd = dec_bytes(self.raw.position);
        append_bytes(&mut out, &pd);
        assert(out@ =~= spec_render(self@.raw));
        if out.len() > RULE_STR_CAPACITY - 1 {
            out.truncate(RULE_STR_CAPACITY - 1);
        }
        assert(out@ =~= spec_render_clipped(self@.raw));
        out
    }
}

/// The negative code the parse routine returns for a malformed message.
pub const PARSE_ERR: i32 = -2;

/// The state of a fresh native rule right after the header of a response
/// message has been read: only identity and family are known.
pub open spec fn init_raw(id: u64, family: u16) -> RawRuleView {
    RawRuleView { family, ..fresh_raw(id) }
}

/// How one decoded attribute updates the rule being parsed. Name attributes
/// must be zero-terminated with nothing but the terminator zero; 64-bit
/// attributes must be exactly eight bytes; userdata must be free of zero
/// bytes; an expression-list attribute is kept as one opaque fragment;
/// attributes of unknown type are ignored, as netlink asks.
pub open spec fn apply_attr(acc: RawRuleView, ty: u16, val: Seq<u8>) -> Option<RawRuleView> {
    if ty == NFTA_RULE_TABLE {
        if val.len() >= 1 && val[val.len() - 1] == 0 && name_ok(val.drop_last()) {
            Some(RawRuleView { table_name: val.drop_last(), ..acc })
        } else {
            None
        }
    } else if ty == NFTA_RULE_CHAIN {
        if val.len() >= 1 && val[val.len() - 1] == 0 && name_ok(val.drop_last()) {
            Some(RawRuleView { chain_name: val.drop_last(), ..acc })
        } else {
            None
        }
    } else if ty == NFTA_RULE_POSITION {
        if val.len() == 8 {
            Some(RawRuleView { position: be64_at(val, 0), ..acc })
        } else {
            None
        }
    } else if ty == NFTA_RULE_HANDLE {
        if val.len() == 8 {
            Some(RawRuleView { handle: be64_at(val, 0), ..acc })
        } else {
            None
        }
    } else if ty == NFTA_RULE_USERDATA {
        if data_ok(val) {
            Some(RawRuleView { userdata: Some(val), ..acc })
        } else {
            None
        }
    } else if ty == NFTA_RULE_EXPRESSIONS {
        Some(RawRuleView { exprs: seq![val], ..acc })
    } else {
        Some(acc)
    }
}

/// Walks the attributes of `msg` from position `i`, folding them into `acc`.
/// Nothing, when the attribute stream is malformed.
pub open spec fn parse_attrs(msg: Seq<u8>, i: int, acc: RawRuleView) -> Option<RawRuleView>
    decreases msg.len() - i,
{
    if i < 0 || i > msg.len() {
        None
    } else if i == msg.len() {
        Some(acc)
    } else if i + 4 > msg.len() {
        None
    } else {
        let alen = le16_at(msg, i) as int;
        if alen < 4 || i + alen > msg.len() {
            None
        } else {
            let ty = le16_at(msg, i + 2);
            let val = msg.subrange(i + 4, i + alen);
            let next = i + alen + pad_len(alen);
            if next > msg.len() {
                None
            } else {
                match apply_attr(acc, ty, val) {
                    Some(acc2) => parse_attrs(msg, next, acc2),
                    None => None,
                }
            }
        }
    }
}

/// What parsing a whole response message yields for a rule whose native
/// allocation has identity `id`: the header must cover the message exactly,
/// the family is taken from the header, and every attribute must decode.
pub open spec fn spec_parse(msg: Seq<u8>, id: u64) -> Option<RawRuleView> {
    if msg.len() < MSG_HDR_LEN as int {
        None
    } else if le32_at(msg, 0) as int != msg.len() as int {
        None
    } else {
        parse_attrs(msg, MSG_HDR_LEN as int, init_raw(id, le16_at(msg, 6)))
    }
}

/// One decoded attribute keeps the rule being parsed well-formed.
pub proof fn lemma_apply_attr_wf(acc: RawRuleView, ty: u16, val: Seq<u8>)
    requires
        acc.wf(),
        val.len() <= MAX_ATTR_PAYLOAD as int,
    ensures
        apply_attr(acc, ty, val) matches Some(v) ==> v.wf(),
{
    if ty == NFTA_RULE_EXPRESSIONS {
        assert(seq![val].drop_first() =~= Seq::<Seq<u8>>::empty());
        assert(frags_concat(Seq::<Seq<u8>>::empty()) =~= Seq::<u8>::empty());
        assert(seq![val][0] == val);
        assert(frags_concat(seq![val]) =~= val);
    }
}

/// A fully parsed rule is well-formed.
pub proof fn lemma_parse_attrs_wf(msg: Seq<u8>, i: int, acc: RawRuleView)
    requires
        acc.wf(),
    ensures
        parse_attrs(msg, i, acc) matches Some(v) ==> v.wf(),
    decreases msg.len() - i,
{
    if 0 <= i && i < msg.len() && i + 4 <= msg.len() {
        let alen = le16_at(msg, i) as int;
        if alen >= 4 && i + alen <= msg.len() {
            let ty = le16_at(msg, i + 2);
            let val = msg.subrange(i + 4, i + alen);
            let next = i + alen + pad_len(alen);
            if next <= msg.len() {
                lemma_apply_attr_wf(acc, ty, val);
                match apply_attr(acc, ty, val) {
                    Some(acc2) => lemma_parse_attrs_wf(msg, next, acc2),
                    None => {},
                }
            }
        }
    }
}

impl RawRule {
    /// The family field, as the serialization layer reads it.
    pub fn family(&self) -> (r: u16)
        ensures
            r == self@.family,
    {
        self.family
    }

    /// Runs the parse routine against one response message, filling this
    /// freshly allocated object from its header and attributes. Returns `0`
    /// on success; on a malformed message returns the negative
    /// [`PARSE_ERR`], exactly when [`spec_parse`] yields nothing.
    pub fn parse(&mut self, msg: &Vec<u8>) -> (rc: i32)
        ensures
            match spec_parse(msg@, old(self)@.id) {
                Some(v) => rc == 0 && final(self)@ == v && v.wf(),
                None => rc == PARSE_ERR,
            },
            final(self)@.id == old(self)@.id,
    {
        if msg.len() < MSG_HDR_LEN {
            return PARSE_ERR;
        }
        if msg.len() > u32::MAX as usize {
            return PARSE_ERR;
        }
        let total = read_le32(msg, 0);
        if total as usize != msg.len() {
            return PARSE_ERR;
        }
        let family = read_le16(msg, 6);
        self.family = family;
        self.table_name = Vec::new();
        self.chain_name = Vec::new();
        self.position = 0;
        self.handle = 0;
        self.exprs = Vec::new();
        self.userdata = None;
        proof {
            assert(self@ =~= init_raw(old(self)@.id, le16_at(msg@, 6)));
        }
        let ghost init = self@;
        proof {
            assert(frags_concat(init.exprs) =~= Seq::<u8>::empty());
            assert(init.wf());
        }
        let mut i: usize = MSG_HDR_LEN;
        while i < msg.len()
            invariant
                MSG_HDR_LEN <= i <= msg@.len(),
                msg@.len() <= u32::MAX as int,
                self@.id == old(self)@.id,
                init == init_raw(old(self)@.id, le16_at(msg@, 6)),
                init.wf(),
                spec_parse(msg@, old(self)@.id) == parse_attrs(msg@, i as int, self@),
            decreases msg@.len() - i,
        {
            let ghost acc0 = self@;
            if msg.len() - i < 4 {
                return PARSE_ERR;
            }
            let alen = read_le16(msg, i) as usize;
            if alen < 4 || alen > msg.len() - i {
                return PARSE_ERR;
            }
            let ty = read_le16(msg, i + 2);
            let pad = (4 - (alen % 4)) % 4;
            proof {
                assert(pad == pad_len(alen as int));
            }
            if pad > msg.len() - i - alen {
                return PARSE_ERR;
            }
            let ghost val = msg@.subrange(i as int + 4, i as int + alen as int);
            if ty == NFTA_RULE_TABLE || ty == NFTA_RULE_CHAIN {
                if alen < 5 {
                    return PARSE_ERR;
                }
                if msg[i + alen - 1] != 0 {
                    proof {
                        assert(val[val.len() - 1] == msg@[i as int + alen as int - 1]);
                    }
                    return PARSE_ERR;
                }
                let name = copy_range(msg, i + 4, i + alen - 1);
                proof {
                    assert(name@ =~= val.drop_last());
                    assert(val[val.len() - 1] == msg@[i as int + alen as int - 1]);
                }
                if name.len() > 255 {
                    return PARSE_ERR;
                }
                if !bytes_nonzero(&name) {
                    return PARSE_ERR;
                }
                if ty == NFTA_RULE_TABLE {
                    self.table_name = name;
                    assert(self@ =~= (RawRuleView { table_name: val.drop_last(), ..acc0 }));
                } else {
                    self.chain_name = name;
                    assert(self@ =~= (RawRuleView { chain_name: val.drop_last(), ..acc0 }));
                }
            } else if ty == NFTA_RULE_POSITION || ty == NFTA_RULE_HANDLE {
                if alen != 12 {
                    return PARSE_ERR;
                }
                let x = read_be64(msg, i + 4);
                proof {
                    assert(be64_at(val, 0) == be64_at(msg@, i as int + 4));
                }
                if ty == NFTA_RULE_POSITION {
                    self.position = x;
                    assert(self@ =~= (RawRuleView { position: be64_at(val, 0), ..acc0 }));
                } else {
                    self.handle = x;
                    assert(self@ =~= (RawRuleView { handle: be64_at(val, 0), ..acc0 }));
                }
            } else if ty == NFTA_RULE_USERDATA {
                let data = copy_range(msg, i + 4, i + alen);
                if !bytes_nonzero(&data) {
                    return PARSE_ERR;
                }
                self.userdata = Some(data);
                assert(self@ =~= (RawRuleView { userdata: Some(val), ..acc0 }));
            } else if ty == NFTA_RULE_EXPRESSIONS {
                let data = copy_range(msg, i + 4, i + alen);
                let mut es: Vec<Vec<u8>> = Vec::new();
                es.push(data);
                self.exprs = es;
                assert(self@.exprs =~= seq![val]);
                assert(self@ =~= (RawRuleView { exprs: seq![val], ..acc0 }));
            } else {
                assert(self@ =~= acc0);
            }
            proof {
                assert(apply_attr(acc0, ty, val) == Some(self@));
                assert(parse_attrs(msg@, i as int, acc0) == parse_attrs(
                    msg@,
                    i as int + alen as int + pad as int,
                    self@,
                ));
            }
            i = i + alen + pad;
        }
        proof {
            assert(parse_attrs(msg@, i as int, self@) == Some(self@));
            lemma_parse_attrs_wf(msg@, MSG_HDR_LEN as int, init);
        }
        0
    }
}

} // verus!
