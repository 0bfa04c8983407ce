//! The query/list subsystem: building a GET request and turning the stream
//! of response messages into rules.
//!
//! The transport itself — opening the socket, sending the request, reading
//! responses — is a collaborator outside this crate. It hands every raw
//! response message it received to [`list_rules_for_chain`], which parses
//! each into a [`Rule`] owned by the queried chain. Any single malformed
//! response aborts the whole operation: the caller receives either a
//! complete, consistent sequence or an error, never a partial result.

use vstd::prelude::*;

use crate::Error;
use crate::chain::Chain;
use crate::chain::ChainView;
use crate::handle::Allocator;
use crate::rule::PARSE_ERR;
use crate::rule::RawRule;
use crate::rule::RawRuleView;
use crate::rule::Rule;
use crate::rule::build_rule_payload;
use crate::rule::lemma_payload_len_bound;
use crate::rule::msg_with;
use crate::rule::spec_parse;
use crate::wire::NFT_MSG_GETRULE;
use crate::wire::NLM_F_DUMP;
use crate::wire::build_hdr;
use crate::wire::finalize_hdr;

verus! {

/// Callback result: the response was consumed, the stream may continue.
pub const CB_OK: i32 = 1;

/// Callback result: abort, the native allocator returned null.
pub const CB_ERROR: i32 = -1;

/// The filter object serialized into a GET request: a fresh rule carrying
/// only the family, table name and chain name of the queried chain, so the
/// kernel returns the rules of that chain alone.
pub open spec fn filter_raw(chain: ChainView, id: u64) -> RawRuleView {
    RawRuleView {
        id,
        family: chain.table.family.spec_value(),
        table_name: chain.table.name,
        chain_name: chain.name,
        position: 0,
        handle: 0,
        exprs: Seq::empty(),
        userdata: None,
    }
}

/// Builds the GET request that asks for all rules of `chain`: a dump request
/// whose payload is the serialized filter. A temporary native rule carries
/// the filter fields and is released before returning. Fails with
/// [`Error::AllocationFailed`] when the allocator has nothing left.
pub fn build_list_request(chain: &Chain, seqno: u32, heap: &mut Allocator) -> (r: Result<
    Vec<u8>,
    Error,
>)
    requires
        chain@.wf(),
    ensures
        match r {
            Ok(buf) => {
                &&& buf@ == msg_with(
                    filter_raw(chain@, old(heap)@.next_id),
                    NFT_MSG_GETRULE,
                    NLM_F_DUMP,
                    seqno,
                )
                &&& old(heap)@.can_alloc()
                &&& final(heap)@ == old(heap)@.after_alloc()
            },
            Err(e) => {
                &&& e == Error::AllocationFailed
                &&& !old(heap)@.can_alloc()
                &&& final(heap)@ == old(heap)@
            },
        },
{
    let mut raw = match RawRule::allocate(heap) {
        Some(raw) => raw,
        None => {
            return Err(Error::AllocationFailed);
        },
    };
    raw.set_identity(chain);
    proof {
        assert(raw@ =~= filter_raw(chain@, old(heap)@.next_id));
    }
    let mut buf: Vec<u8> = Vec::new();
    let hdr = build_hdr(&mut buf, NFT_MSG_GETRULE, raw.family(), NLM_F_DUMP, seqno);
    build_rule_payload(&mut buf, &raw);
    proof {
        lemma_payload_len_bound(raw@);
    }
    finalize_hdr(&mut buf, hdr);
    assert(buf@ =~= msg_with(
        filter_raw(chain@, old(heap)@.next_id),
        NFT_MSG_GETRULE,
        NLM_F_DUMP,
        seqno,
    ));
    Ok(buf)
}

/// Parses one response message into a rule of `chain` and appends it to
/// `rules`. Returns [`CB_OK`] on success; [`CB_ERROR`] when the native
/// allocator returned null; the negative parse code when the message is
/// malformed — either failure leaves `rules` as it was and tells the caller
/// to abort the response stream.
pub fn get_rules_cb(msg: &Vec<u8>, chain: &Chain, rules: &mut Vec<Rule>, heap: &mut Allocator)
    -> (rc: i32)
    requires
        chain@.wf(),
    ensures
        !old(heap)@.can_alloc() ==> {
            &&& rc == CB_ERROR
            &&& final(heap)@ == old(heap)@
            &&& final(rules)@ == old(rules)@
        },
        old(heap)@.can_alloc() ==> {
            &&& final(heap)@ == old(heap)@.after_alloc()
            &&& match spec_parse(msg@, old(heap)@.next_id) {
                Some(v) => {
                    &&& rc == CB_OK
                    &&& final(rules)@.len() == old(rules)@.len() + 1
                    &&& (forall|j: int|
                        0 <= j < old(rules)@.len() ==> final(rules)@[j] == old(rules)@[j])
                    &&& final(rules)@.last()@.raw == v
                    &&& final(rules)@.last()@.chain == chain@
                    &&& final(rules)@.last()@.wf()
                },
                None => {
                    &&& rc == PARSE_ERR
                    &&& final(rules)@ == old(rules)@
                },
            }
        },
{
    let mut raw = match RawRule::allocate(heap) {
        Some(raw) => raw,
        None => {
            return CB_ERROR;
        },
    };
    let rc = raw.parse(msg);
    if rc < 0 {
        // the freshly allocated native object is released here, unused
        return rc;
    }
    rules.push(Rule::from_raw(raw, chain.clone()));
    CB_OK
}

/// All of the first `k` responses parse, under consecutive identities
/// starting at `base`.
pub open spec fn responses_parse_to(resps: Seq<Vec<u8>>, k: int, base: u64) -> bool {
    forall|j: int| 0 <= j < k ==> spec_parse(resps[j]@, (base + j) as u64) is Some
}

/// Collects the rules of `chain` out of the response messages a transport
/// delivered for its GET request, in delivery order.
///
/// Returns the complete sequence, one rule per response, each owned by
/// `chain`; or the first failure: [`Error::AllocationFailed`] when the
/// native allocator ran out, [`Error::ParseFailed`] with the negative parse
/// code when a response was malformed. On failure no rules are returned at
/// all — there is no partial-success mode.
pub fn list_rules_for_chain(chain: &Chain, responses: &Vec<Vec<u8>>, heap: &mut Allocator)
    -> (r: Result<Vec<Rule>, Error>)
    requires
        chain@.wf(),
    ensures
        match r {
            Ok(rules) => {
                &&& old(heap)@.available >= responses@.len()
                &&& old(heap)@.next_id + responses@.len() <= u64::MAX
                &&& responses_parse_to(responses@, responses@.len() as int, old(heap)@.next_id)
                &&& rules@.len() == responses@.len()
                &&& (forall|j: int|
                    0 <= j < rules@.len() ==> rules@[j]@.chain == chain@ && Some(
                        rules@[j]@.raw,
                    ) == spec_parse(responses@[j]@, (old(heap)@.next_id + j) as u64)
                        && rules@[j]@.wf())
                &&& final(heap)@ == old(heap)@.after_allocs(responses@.len() as int)
            },
            Err(e) => exists|k: int|
                {
                    &&& 0 <= k <= responses@.len()
                    &&& responses_parse_to(responses@, k, old(heap)@.next_id)
                    &&& if !old(heap)@.after_allocs(k).can_alloc() {
                        &&& e == Error::AllocationFailed
                        &&& final(heap)@ == old(heap)@.after_allocs(k)
                    } else {
                        &&& k < responses@.len()
                        &&& spec_parse(
                            responses@[k]@,
                            (old(heap)@.next_id + k) as u64,
                        ) is None
                        &&& e == Error::ParseFailed(PARSE_ERR)
                        &&& final(heap)@ == old(heap)@.after_allocs(k + 1)
                    }
                },
        },
{
    let mut rules: Vec<Rule> = Vec::new();
    let mut i: usize = 0;
    while i < responses.len()
        invariant
            i <= responses@.len(),
            chain@.wf(),
            heap@ == old(heap)@.after_allocs(i as int),
            heap@.next_id == old(heap)@.next_id + i,
            heap@.available as int == old(heap)@.available as int - i,
            responses_parse_to(responses@, i as int, old(heap)@.next_id),
            rules@.len() == i,
            forall|j: int|
                0 <= j < i ==> rules@[j]@.chain == chain@ && Some(rules@[j]@.raw) == spec_parse(
                    responses@[j]@,
                    (old(heap)@.next_id + j) as u64,
                ) && rules@[j]@.wf(),
        decreases responses@.len() - i,
    {
        let ghost k = i as int;
        let rc = get_rules_cb(&responses[i], chain, &mut rules, heap);
        if rc == CB_ERROR {
            return Err(Error::AllocationFailed);
        }
        if rc < 0 {
            proof {
                assert(old(heap)@.after_allocs(k + 1) == old(heap)@.after_allocs(k).after_alloc());
            }
            return Err(Error::ParseFailed(rc));
        }
        i = i + 1;
    }
    Ok(rules)
}

} // verus!
