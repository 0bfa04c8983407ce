//! The expression contract: anything that can encode itself into a rule.

use vstd::prelude::*;

use crate::rule::Rule;
use crate::rule::RuleView;
use crate::wire::clone_bytes;

verus! {

/// A match or action primitive that a rule evaluates. Any construct that can
/// produce an encodable fragment for a target rule satisfies this contract;
/// the fragment is appended to the rule verbatim and evaluated by the kernel
/// in append order.
pub trait Expression {
    /// The encoded wire fragment this expression contributes to `rule`.
    spec fn fragment(&self, rule: RuleView) -> Seq<u8>;

    /// Encodes this expression for `rule`.
    fn to_expr(&self, rule: &Rule) -> (r: Vec<u8>)
        ensures
            r@ == self.fragment(rule@),
    ;
}

/// An already-encoded expression fragment, appended to a rule as it stands.
#[derive(Debug)]
pub struct VerbatimExpr {
    /// The encoded fragment.
    pub bytes: Vec<u8>,
}

impl VerbatimExpr {
    /// Wraps an encoded fragment.
    pub fn new(bytes: Vec<u8>) -> (r: VerbatimExpr)
        ensures
            r.bytes@ == bytes@,
    {
        VerbatimExpr { bytes }
    }
}

impl Expression for VerbatimExpr {
    /// The fragment is the stored bytes, whatever the target rule.
    open spec fn fragment(&self, rule: RuleView) -> Seq<u8> {
        self.bytes@
    }

    fn to_expr(&self, rule: &Rule) -> (r: Vec<u8>) {
        clone_bytes(&self.bytes)
    }
}

} // verus!
