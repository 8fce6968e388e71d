//! Gateways and their region-priority rules, together with the
//! specification of how a preferred gateway is selected.

use vstd::prelude::*;

verus! {

/// One region-scoped priority override. A rule applies to the region it
/// names, or to every region when its name is the "Any" sentinel. Lower
/// priority values are more preferred.
#[derive(Debug, Clone)]
pub struct PriorityRule {
    pub name: String,
    pub priority: u32,
}

/// A connection target offered by the portal. `name` and `address` are
/// both valid match keys for lookup; `priority` is the baseline used only
/// as a last resort, and `priority_rules` hold the per-region overrides.
#[derive(Debug, Clone)]
pub struct Gateway {
    pub name: String,
    pub address: String,
    pub priority: u32,
    pub priority_rules: Vec<PriorityRule>,
}

impl Gateway {
    /// A bare gateway with no region rules and the most-preferred
    /// baseline priority; used to synthesize the portal-host fallback.
    pub fn new(name: String, address: String) -> (g: Gateway)
        ensures
            g.name == name,
            g.address == address,
            g.priority == 0,
            g.priority_rules@ == Seq::<PriorityRule>::empty(),
    {
        let rules: Vec<PriorityRule> = Vec::new();
        Gateway { name, address, priority: 0, priority_rules: rules }
    }
}

/// The sentinel region name that makes a rule apply to any region.
pub open spec fn any_region() -> Seq<char> {
    "Any"@
}

/// A rule applies to a region when it names that region or the sentinel.
pub open spec fn rule_applies(rule: PriorityRule, region: Seq<char>) -> bool {
    rule.name@ == region || rule.name@ == any_region()
}

/// Gateway `g` has a rule applying to `region` with priority exactly `p`.
pub open spec fn has_rule_with(g: Gateway, region: Seq<char>, p: u32) -> bool {
    exists|j: int|
        0 <= j < g.priority_rules@.len() && rule_applies(
            #[trigger] g.priority_rules@[j],
            region,
        ) && g.priority_rules@[j].priority == p
}

/// Some gateway in `gws` has a rule applying to `region` whose priority
/// is strictly below `p`.
pub open spec fn has_rule_below(gws: Seq<Gateway>, region: Seq<char>, p: u32) -> bool {
    exists|i: int, j: int|
        0 <= i < gws.len() && 0 <= j < gws[i].priority_rules@.len() && rule_applies(
            #[trigger] gws[i].priority_rules@[j],
            region,
        ) && gws[i].priority_rules@[j].priority < p
}

/// The region scan starts from the largest u32 and only a strictly lower
/// priority ever displaces the running best, so a rule can win the scan
/// only when its priority lies strictly below that bound.
pub open spec fn some_rule_applies(gws: Seq<Gateway>, region: Seq<char>) -> bool {
    has_rule_below(gws, region, u32::MAX)
}

/// Index `i` holds the gateway the region scan selects, with winning
/// priority `p`: no applying rule anywhere lies below `p`, and no earlier
/// gateway reaches `p` (ties are broken by first occurrence in scan
/// order, because only strictly lower priorities displace the best).
pub open spec fn is_rule_preferred(gws: Seq<Gateway>, region: Seq<char>, i: int, p: u32) -> bool {
    &&& 0 <= i < gws.len()
    &&& p < u32::MAX
    &&& has_rule_with(gws[i], region, p)
    &&& !has_rule_below(gws, region, p)
    &&& forall|k: int| 0 <= k < i ==> !has_rule_with(#[trigger] gws[k], region, p)
}

/// Index `i` holds the first gateway whose baseline priority is minimal;
/// this is the fallback when no rule applies to the region at all.
pub open spec fn is_baseline_preferred(gws: Seq<Gateway>, i: int) -> bool {
    &&& 0 <= i < gws.len()
    &&& forall|k: int| 0 <= k < gws.len() ==> gws[i].priority <= (#[trigger] gws[k]).priority
    &&& forall|k: int| 0 <= k < i ==> gws[i].priority < (#[trigger] gws[k]).priority
}

/// Index `i` is the one the preferred-gateway selection returns.
pub open spec fn is_preferred_index(gws: Seq<Gateway>, region: Seq<char>, i: int) -> bool {
    if some_rule_applies(gws, region) {
        exists|p: u32| #[trigger] is_rule_preferred(gws, region, i, p)
    } else {
        is_baseline_preferred(gws, i)
    }
}

/// Gateway value `g` is the one the preferred-gateway selection returns.
pub open spec fn is_preferred_gateway(gws: Seq<Gateway>, region: Seq<char>, g: Gateway) -> bool {
    exists|i: int| #[trigger] is_preferred_index(gws, region, i) && gws[i] == g
}

/// A gateway matches a lookup key when its name or its address equals the
/// key exactly.
pub open spec fn gateway_matches_key(g: Gateway, key: Seq<char>) -> bool {
    g.name@ == key || g.address@ == key
}

} // verus!
