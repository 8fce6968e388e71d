//! The portal configuration object and its gateway selection operations.

use vstd::prelude::*;

use crate::credential::AuthCookieCredential;
use crate::credential::Credential;
use crate::gateway::any_region;
use crate::gateway::gateway_matches_key;
use crate::gateway::has_rule_below;
use crate::gateway::has_rule_with;
use crate::gateway::is_baseline_preferred;
use crate::gateway::is_preferred_gateway;
use crate::gateway::is_preferred_index;
use crate::gateway::is_rule_preferred;
use crate::gateway::rule_applies;
use crate::gateway::some_rule_applies;
use crate::gateway::Gateway;
use crate::xml::opt_view;
use crate::xml::or_empty;
use crate::xml::xml_child_text;
use crate::xml::xml_text_of;

verus! {

/// The result of a successful portal-configuration retrieval.
#[derive(Debug)]
pub struct PortalConfig {
    /// The normalized portal host, with no scheme.
    pub portal: String,
    /// The session token derived from the response.
    pub auth_cookie: AuthCookieCredential,
    /// The credential the request was made with, retained for reuse.
    pub config_cred: Credential,
    /// The reachable gateways, never empty once assembled.
    pub gateways: Vec<Gateway>,
    /// The server-supplied digest; `None` when the response had none.
    pub config_digest: Option<String>,
}

/// Among the applying rules of the gateways before `upto`, none has a
/// priority strictly below `p`.
spec fn prefix_no_rule_below(gws: Seq<Gateway>, region: Seq<char>, upto: int, p: u32) -> bool {
    forall|k: int, j: int|
        0 <= k < upto && 0 <= j < gws[k].priority_rules@.len() && rule_applies(
            #[trigger] gws[k].priority_rules@[j],
            region,
        ) ==> gws[k].priority_rules@[j].priority >= p
}

/// Among the first `upto` rules of gateway `g`, none applies with a
/// priority strictly below `p`.
spec fn gw_prefix_no_rule_below(g: Gateway, region: Seq<char>, upto: int, p: u32) -> bool {
    forall|j: int|
        0 <= j < upto && j < g.priority_rules@.len() && rule_applies(
            #[trigger] g.priority_rules@[j],
            region,
        ) ==> g.priority_rules@[j].priority >= p
}

/// The gateway list consists of the single synthesized fallback: the
/// portal host itself, as both name and address, with no region rules.
pub open spec fn synthesized_fallback(gws: Seq<Gateway>, server: Seq<char>) -> bool {
    &&& gws.len() == 1
    &&& gws[0].name@ == server
    &&& gws[0].address@ == server
    &&& gws[0].priority == 0
    &&& gws[0].priority_rules@.len() == 0
}

/// `si` is the first index whose gateway carries `name`.
pub open spec fn first_index_named(gws: Seq<Gateway>, name: Seq<char>, si: int) -> bool {
    &&& 0 <= si < gws.len()
    &&& gws[si].name@ == name
    &&& forall|k: int| 0 <= k < si ==> (#[trigger] gws[k]).name@ != name
}

impl PortalConfig {
    /// A retrieved configuration always carries at least one gateway.
    pub open spec fn wf(self) -> bool {
        self.gateways@.len() > 0
    }

    /// The normalized portal host this configuration was retrieved from.
    pub fn portal(&self) -> (r: &str)
        ensures
            r@ == self.portal@,
    {
        self.portal.as_str()
    }

    /// A read-only view of the gateways, in their current order.
    pub fn gateways(&self) -> (r: Vec<&Gateway>)
        ensures
            r@.len() == self.gateways@.len(),
            forall|i: int| 0 <= i < r@.len() ==> *(#[trigger] r@[i]) == self.gateways@[i],
    {
        let mut out: Vec<&Gateway> = Vec::new();
        let n = self.gateways.len();
        let mut k: usize = 0;
        while k < n
            invariant
                n == self.gateways@.len(),
                k <= n,
                out@.len() == k,
                forall|i: int| 0 <= i < k ==> *(#[trigger] out@[i]) == self.gateways@[i],
            decreases n - k,
        {
            out.push(&self.gateways[k]);
            k += 1;
        }
        out
    }

    /// The session token derived from the response.
    pub fn auth_cookie(&self) -> (r: &AuthCookieCredential)
        ensures
            *r == self.auth_cookie,
    {
        &self.auth_cookie
    }

    /// The credential the configuration was requested with.
    pub fn config_cred(&self) -> (r: &Credential)
        ensures
            *r == self.config_cred,
    {
        &self.config_cred
    }

    /// Find a gateway by name or address: the first gateway, in list
    /// order, whose name or address equals the key exactly; `None` when
    /// no gateway matches.
    pub fn find_gateway(&self, name_or_address: &str) -> (r: Option<&Gateway>)
        ensures
            match r {
                Some(g) => exists|i: int|
                    {
                        &&& 0 <= i < self.gateways@.len()
                        &&& *g == self.gateways@[i]
                        &&& gateway_matches_key(#[trigger] self.gateways@[i], name_or_address@)
                        &&& forall|k: int|
                            0 <= k < i ==> !gateway_matches_key(
                                #[trigger] self.gateways@[k],
                                name_or_address@,
                            )
                    },
                None => forall|k: int|
                    0 <= k < self.gateways@.len() ==> !gateway_matches_key(
                        #[trigger] self.gateways@[k],
                        name_or_address@,
                    ),
            },
    {
        let key: String = name_or_address.to_owned();
        let n = self.gateways.len();
        let mut k: usize = 0;
        while k < n
            invariant
                n == self.gateways@.len(),
                k <= n,
                key@ == name_or_address@,
                forall|q: int|
                    0 <= q < k ==> !gateway_matches_key(
                        #[trigger] self.gateways@[q],
                        name_or_address@,
                    ),
            decreases n - k,
        {
            let g = &self.gateways[k];
            if g.name == key || g.address == key {
                return Some(g);
            }
            k += 1;
        }
        None
    }

    /// The index the preferred-gateway scan selects for `region`.
    fn preferred_index(&self, region: &str) -> (r: usize)
        requires
            self.wf(),
        ensures
            is_preferred_index(self.gateways@, region@, r as int),
    {
        let ghost gws = self.gateways@;
        let ghost reg = region@;
        let region_key: String = region.to_owned();
        let any_key: String = "Any".to_owned();
        let n = self.gateways.len();
        let mut best: usize = 0;
        let mut found: bool = false;
        let mut best_prio: u32 = u32::MAX;
        let mut i: usize = 0;
        while i < n
            invariant
                gws == self.gateways@,
                reg == region@,
                n == gws.len(),
                i <= n,
                region_key@ == reg,
                any_key@ == any_region(),
                prefix_no_rule_below(gws, reg, i as int, best_prio),
                !found ==> best_prio == u32::MAX,
                found ==> {
                    &&& best < i
                    &&& best_prio < u32::MAX
                    &&& has_rule_with(gws[best as int], reg, best_prio)
                    &&& forall|k: int|
                        0 <= k < best ==> !has_rule_with(#[trigger] gws[k], reg, best_prio)
                },
            decreases n - i,
        {
            let rules_len = self.gateways[i].priority_rules.len();
            let mut j: usize = 0;
            while j < rules_len
                invariant
                    gws == self.gateways@,
                    reg == region@,
                    n == gws.len(),
                    i < n,
                    j <= rules_len,
                    rules_len == gws[i as int].priority_rules@.len(),
                    region_key@ == reg,
                    any_key@ == any_region(),
                    prefix_no_rule_below(gws, reg, i as int, best_prio),
                    gw_prefix_no_rule_below(gws[i as int], reg, j as int, best_prio),
                    !found ==> best_prio == u32::MAX,
                    found ==> {
                        &&& best <= i
                        &&& best_prio < u32::MAX
                        &&& has_rule_with(gws[best as int], reg, best_prio)
                        &&& forall|k: int|
                            0 <= k < best ==> !has_rule_with(#[trigger] gws[k], reg, best_prio)
                    },
                decreases rules_len - j,
            {
                let rule = &self.gateways[i].priority_rules[j];
                let applies = rule.name == region_key || rule.name == any_key;
                if applies && rule.priority < best_prio {
                    proof {
                        assert(rule_applies(gws[i as int].priority_rules@[j as int], reg));
                        assert forall|k: int| 0 <= k < i as int implies !has_rule_with(
                            #[trigger] gws[k],
                            reg,
                            rule.priority,
                        ) by {
                            if has_rule_with(gws[k], reg, rule.priority) {
                                let j0 = choose|j0: int|
                                    0 <= j0 < gws[k].priority_rules@.len() && rule_applies(
                                        #[trigger] gws[k].priority_rules@[j0],
                                        reg,
                                    ) && gws[k].priority_rules@[j0].priority == rule.priority;
                                assert(gws[k].priority_rules@[j0].priority >= best_prio);
                            }
                        }
                    }
                    best = i;
                    best_prio = rule.priority;
                    found = true;
                    proof {
                        assert(has_rule_with(gws[best as int], reg, best_prio));
                    }
                }
                j += 1;
            }
            proof {
                assert forall|k: int, j2: int|
                    0 <= k < i as int + 1 && 0 <= j2 < gws[k].priority_rules@.len() && rule_applies(
                        #[trigger] gws[k].priority_rules@[j2],
                        reg,
                    ) implies gws[k].priority_rules@[j2].priority >= best_prio by {
                    if k < i as int {
                        assert(prefix_no_rule_below(gws, reg, i as int, best_prio));
                    } else {
                        assert(gw_prefix_no_rule_below(gws[i as int], reg, rules_len as int,
                            best_prio));
                    }
                }
            }
            i += 1;
        }
        if found {
            proof {
                assert(!has_rule_below(gws, reg, best_prio)) by {
                    if has_rule_below(gws, reg, best_prio) {
                        let (k, j0) = choose|k: int, j0: int|
                            0 <= k < gws.len() && 0 <= j0 < gws[k].priority_rules@.len()
                                && rule_applies(#[trigger] gws[k].priority_rules@[j0], reg)
                                && gws[k].priority_rules@[j0].priority < best_prio;
                        assert(gws[k].priority_rules@[j0].priority >= best_prio);
                    }
                }
                let j0 = choose|j0: int|
                    0 <= j0 < gws[best as int].priority_rules@.len() && rule_applies(
                        #[trigger] gws[best as int].priority_rules@[j0],
                        reg,
                    ) && gws[best as int].priority_rules@[j0].priority == best_prio;
                assert(gws[best as int].priority_rules@[j0].priority < u32::MAX);
                assert(has_rule_below(gws, reg, u32::MAX));
                assert(is_rule_preferred(gws, reg, best as int, best_prio));
            }
            return best;
        }
        proof {
            assert(!some_rule_applies(gws, reg)) by {
                if has_rule_below(gws, reg, u32::MAX) {
                    let (k, j0) = choose|k: int, j0: int|
                        0 <= k < gws.len() && 0 <= j0 < gws[k].priority_rules@.len()
                            && rule_applies(#[trigger] gws[k].priority_rules@[j0], reg)
                            && gws[k].priority_rules@[j0].priority < u32::MAX;
                    assert(gws[k].priority_rules@[j0].priority >= best_prio);
                }
            }
        }
        let mut m: usize = 0;
        let mut k: usize = 1;
        while k < n
            invariant
                gws == self.gateways@,
                n == gws.len(),
                n >= 1,
                m < k,
                k <= n,
                forall|q: int| 0 <= q < k ==> gws[m as int].priority <= (#[trigger] gws[q]).priority,
                forall|q: int| 0 <= q < m ==> gws[m as int].priority < (#[trigger] gws[q]).priority,
            decreases n - k,
        {
            if self.gateways[k].priority < self.gateways[m].priority {
                m = k;
            }
            k += 1;
        }
        proof {
            assert(is_baseline_preferred(gws, m as int));
        }
        m
    }

    /// The first index, in list order, whose gateway carries the same
    /// name as the gateway at `pi`.
    fn first_named_index(gws: &Vec<Gateway>, pi: usize) -> (si: usize)
        requires
            pi < gws@.len(),
        ensures
            first_index_named(gws@, gws@[pi as int].name@, si as int),
            si <= pi,
    {
        let mut k: usize = 0;
        while k < pi
            invariant
                pi < gws@.len(),
                k <= pi,
                forall|q: int| 0 <= q < k ==> (#[trigger] gws@[q]).name@ != gws@[pi as int].name@,
            decreases pi - k,
        {
            if gws[k].name == gws[pi].name {
                return k;
            }
            k += 1;
        }
        pi
    }

    /// Promote the preferred gateway for `region` to the front: locate
    /// the first gateway named like the preferred one and exchange it
    /// with position 0. A single two-element swap: every other gateway
    /// keeps its place, and the list keeps exactly the same contents.
    pub fn sort_gateways(&mut self, region: &str)
        requires
            old(self).wf(),
        ensures
            final(self).wf(),
            final(self).portal == old(self).portal,
            final(self).auth_cookie == old(self).auth_cookie,
            final(self).config_cred == old(self).config_cred,
            final(self).config_digest == old(self).config_digest,
            final(self).gateways@.to_multiset() == old(self).gateways@.to_multiset(),
            exists|pi: int, si: int|
                #![auto]
                {
                    &&& is_preferred_index(old(self).gateways@, region@, pi)
                    &&& first_index_named(old(self).gateways@, old(self).gateways@[pi].name@, si)
                    &&& final(self).gateways@ == old(self).gateways@.update(
                        0,
                        old(self).gateways@[si],
                    ).update(si, old(self).gateways@[0])
                },
    {
        let ghost s = self.gateways@;
        let pi = self.preferred_index(region);
        let si = Self::first_named_index(&self.gateways, pi);
        if si != 0 {
            let g_si = self.gateways.remove(si);
            let g_0 = self.gateways.remove(0);
            self.gateways.insert(0, g_si);
            self.gateways.insert(si, g_0);
            proof {
                assert(self.gateways@ =~= s.update(0, s[si as int]).update(si as int, s[0]));
            }
        } else {
            proof {
                assert(self.gateways@ =~= s.update(0, s[0]).update(0, s[0]));
            }
        }
        proof {
            crate::laws::lemma_swap_keeps_contents(s, si as int);
            assert(is_preferred_index(s, region@, pi as int) && first_index_named(
                s,
                s[pi as int].name@,
                si as int,
            ) && self.gateways@ == s.update(0, s[si as int]).update(si as int, s[0]));
        }
    }

    /// Assemble a configuration from a checked response body, the bare
    /// server string, the credential the request was made with, and the
    /// gateway list the gateway-list collaborator extracted from the
    /// document (`None` when the response carried none). The cookies
    /// default to empty when absent; the digest stays `None` when absent;
    /// an absent or empty gateway list is replaced by a single
    /// synthesized gateway carrying the server host.
    pub fn build_portal_config(
        server: &str,
        cred: Credential,
        body: &str,
        gateways: Option<Vec<Gateway>>,
    ) -> (r: PortalConfig)
        ensures
            r.wf(),
            r.portal@ == server@,
            r.config_cred == cred,
            r.auth_cookie.username@ == cred.username@,
            r.auth_cookie.user_auth_cookie@ == or_empty(
                xml_text_of(body@, "portal-userauthcookie"@),
            ),
            r.auth_cookie.prelogon_user_auth_cookie@ == or_empty(
                xml_text_of(body@, "portal-prelogonuserauthcookie"@),
            ),
            opt_view(r.config_digest) == xml_text_of(body@, "config-digest"@),
            match gateways {
                Some(gs) => if gs@.len() > 0 {
                    r.gateways@ == gs@
                } else {
                    synthesized_fallback(r.gateways@, server@)
                },
                None => synthesized_fallback(r.gateways@, server@),
            },
    {
        let mut gws: Vec<Gateway> = match gateways {
            Some(gs) => gs,
            None => Vec::new(),
        };
        if gws.is_empty() {
            gws.push(Gateway::new(server.to_owned(), server.to_owned()));
        }
        let user_auth_cookie = match xml_child_text(body, "portal-userauthcookie") {
            Some(s) => s,
            None => String::new(),
        };
        let prelogon_user_auth_cookie = match xml_child_text(body, "portal-prelogonuserauthcookie")
            {
            Some(s) => s,
            None => String::new(),
        };
        let auth_cookie = AuthCookieCredential::new(
            cred.username(),
            user_auth_cookie.as_str(),
            prelogon_user_auth_cookie.as_str(),
        );
        let config_digest = xml_child_text(body, "config-digest");
        PortalConfig {
            portal: server.to_owned(),
            auth_cookie,
            config_cred: cred,
            gateways: gws,
            config_digest,
        }
    }

    /// Find the preferred gateway for the given region: the first
    /// gateway, in scan order, holding the lowest applying rule priority;
    /// when no rule applies at all, the first gateway with the lowest
    /// baseline priority.
    pub fn find_preferred_gateway(&self, region: &str) -> (g: &Gateway)
        requires
            self.wf(),
        ensures
            is_preferred_gateway(self.gateways@, region@, *g),
    {
        let i = self.preferred_index(region);
        let g = &self.gateways[i];
        proof {
            assert(is_preferred_index(self.gateways@, region@, i as int) && self.gateways@[i as int]
                == *g);
        }
        g
    }
}

} // verus!
