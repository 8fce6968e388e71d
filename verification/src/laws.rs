//! Library-wide laws of the gateway selection, stated and proved once.

use vstd::prelude::*;

use crate::gateway::any_region;
use crate::gateway::has_rule_below;
use crate::gateway::has_rule_with;
use crate::gateway::is_baseline_preferred;
use crate::gateway::is_preferred_gateway;
use crate::gateway::is_preferred_index;
use crate::gateway::is_rule_preferred;
use crate::gateway::rule_applies;
use crate::gateway::some_rule_applies;
use crate::gateway::Gateway;

verus! {

/// The preferred gateway is always a member of the list it was selected
/// from.
pub proof fn lemma_preferred_gateway_in_list(gws: Seq<Gateway>, region: Seq<char>, g: Gateway)
    requires
        is_preferred_gateway(gws, region, g),
    ensures
        gws.contains(g),
{
    let i = choose|i: int| #[trigger] is_preferred_index(gws, region, i) && gws[i] == g;
    assert(0 <= i < gws.len() && gws[i] == g);
}

/// The selection is deterministic: for one list and one region there is
/// exactly one preferred gateway value.
pub proof fn lemma_preferred_gateway_unique(
    gws: Seq<Gateway>,
    region: Seq<char>,
    g1: Gateway,
    g2: Gateway,
)
    requires
        is_preferred_gateway(gws, region, g1),
        is_preferred_gateway(gws, region, g2),
    ensures
        g1 == g2,
{
    let i1 = choose|i: int| #[trigger] is_preferred_index(gws, region, i) && gws[i] == g1;
    let i2 = choose|i: int| #[trigger] is_preferred_index(gws, region, i) && gws[i] == g2;
    lemma_preferred_index_unique(gws, region, i1, i2);
}

/// The selection pins a single index of the list.
pub proof fn lemma_preferred_index_unique(gws: Seq<Gateway>, region: Seq<char>, i1: int, i2: int)
    requires
        is_preferred_index(gws, region, i1),
        is_preferred_index(gws, region, i2),
    ensures
        i1 == i2,
{
    if some_rule_applies(gws, region) {
        let p1 = choose|p: u32| #[trigger] is_rule_preferred(gws, region, i1, p);
        let p2 = choose|p: u32| #[trigger] is_rule_preferred(gws, region, i2, p);
        if p1 < p2 {
            lemma_rule_with_gives_below(gws, region, i1, p1, p2);
        }
        if p2 < p1 {
            lemma_rule_with_gives_below(gws, region, i2, p2, p1);
        }
        assert(p1 == p2);
        if i1 < i2 {
            assert(!has_rule_with(gws[i1], region, p2));
        }
        if i2 < i1 {
            assert(!has_rule_with(gws[i2], region, p1));
        }
    } else {
        if i1 < i2 {
            assert(gws[i2].priority < gws[i1].priority);
            assert(gws[i1].priority <= gws[i2].priority);
        }
        if i2 < i1 {
            assert(gws[i1].priority < gws[i2].priority);
            assert(gws[i2].priority <= gws[i1].priority);
        }
    }
}

/// A gateway holding an applying rule at priority `p` witnesses an
/// applying rule below any strictly larger bound.
proof fn lemma_rule_with_gives_below(
    gws: Seq<Gateway>,
    region: Seq<char>,
    i: int,
    p: u32,
    bound: u32,
)
    requires
        0 <= i < gws.len(),
        has_rule_with(gws[i], region, p),
        p < bound,
    ensures
        has_rule_below(gws, region, bound),
{
    let j = choose|j: int|
        0 <= j < gws[i].priority_rules@.len() && rule_applies(
            #[trigger] gws[i].priority_rules@[j],
            region,
        ) && gws[i].priority_rules@[j].priority == p;
    assert(rule_applies(gws[i].priority_rules@[j], region) && gws[i].priority_rules@[j].priority
        < bound);
}

/// When no rule applies to the region at all, the preferred gateway is
/// the first one whose baseline priority is minimal over the whole list.
pub proof fn lemma_no_applying_rule_gives_baseline(
    gws: Seq<Gateway>,
    region: Seq<char>,
    g: Gateway,
)
    requires
        !some_rule_applies(gws, region),
        is_preferred_gateway(gws, region, g),
    ensures
        exists|i: int| #[trigger] is_baseline_preferred(gws, i) && gws[i] == g,
{
    let i = choose|i: int| #[trigger] is_preferred_index(gws, region, i) && gws[i] == g;
    assert(is_baseline_preferred(gws, i) && gws[i] == g);
}

/// In a two-gateway list where one gateway carries a rule for the region
/// itself and the other a strictly lower rule under the "Any" sentinel,
/// the sentinel gateway wins, whichever order the two stand in.
pub proof fn lemma_lower_any_rule_wins(
    gws: Seq<Gateway>,
    region: Seq<char>,
    gi: int,
    hi: int,
    pg: u32,
    ph: u32,
)
    requires
        gws.len() == 2,
        0 <= gi < 2,
        0 <= hi < 2,
        gi != hi,
        gws[gi].priority_rules@.len() == 1,
        gws[gi].priority_rules@[0].name@ == region,
        gws[gi].priority_rules@[0].priority == pg,
        gws[hi].priority_rules@.len() == 1,
        gws[hi].priority_rules@[0].name@ == any_region(),
        gws[hi].priority_rules@[0].priority == ph,
        ph < pg,
    ensures
        is_preferred_gateway(gws, region, gws[hi]),
{
    assert(rule_applies(gws[hi].priority_rules@[0], region));
    assert(has_rule_with(gws[hi], region, ph));
    assert(has_rule_below(gws, region, u32::MAX));
    assert(!has_rule_below(gws, region, ph)) by {
        if has_rule_below(gws, region, ph) {
            let (k, j) = choose|k: int, j: int|
                0 <= k < gws.len() && 0 <= j < gws[k].priority_rules@.len() && rule_applies(
                    #[trigger] gws[k].priority_rules@[j],
                    region,
                ) && gws[k].priority_rules@[j].priority < ph;
            assert(k == gi || k == hi);
            assert(j == 0);
        }
    }
    assert forall|k: int| 0 <= k < hi implies !has_rule_with(#[trigger] gws[k], region, ph) by {
        if has_rule_with(gws[k], region, ph) {
            assert(k == gi);
            let j = choose|j: int|
                0 <= j < gws[k].priority_rules@.len() && rule_applies(
                    #[trigger] gws[k].priority_rules@[j],
                    region,
                ) && gws[k].priority_rules@[j].priority == ph;
            assert(j == 0);
            assert(gws[gi].priority_rules@[0].priority == pg);
        }
    }
    assert(is_rule_preferred(gws, region, hi, ph));
    assert(is_preferred_index(gws, region, hi) && gws[hi] == gws[hi]);
}

/// Exchanging two positions of a list keeps exactly its contents: the
/// multiset of gateways is unchanged by the swap.
pub proof fn lemma_swap_keeps_contents(s: Seq<Gateway>, i: int)
    requires
        0 <= i < s.len(),
    ensures
        s.update(0, s[i]).update(i, s[0]).to_multiset() == s.to_multiset(),
{
    broadcast use vstd::multiset::group_multiset_axioms;
    broadcast use vstd::multiset::group_multiset_properties;

    if i == 0 {
        assert(s.update(0, s[0]).update(0, s[0]) =~= s);
    } else {
        let s1 = s.update(0, s[i]);
        vstd::seq_lib::to_multiset_update(s, 0, s[i]);
        vstd::seq_lib::to_multiset_update(s1, i, s[0]);
        vstd::seq_lib::to_multiset_contains(s, s[0]);
        vstd::seq_lib::to_multiset_contains(s, s[i]);
        assert(s.contains(s[0]) && s.contains(s[i]));
        assert(s1[i] == s[i]);
        assert(s.update(0, s[i]).update(i, s[0]).to_multiset() =~= s.to_multiset());
    }
}

} // verus!
