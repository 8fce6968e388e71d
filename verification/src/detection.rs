//! The network-topology classifier: decide whether the gateways of a
//! configuration are external, from the server-supplied address/hostname
//! pairs and the outcome of a reverse lookup on each.

use vstd::prelude::*;

use crate::xml::opt_view;
use crate::xml::xml_child_text;
use crate::xml::xml_text_of;

verus! {

/// One server-supplied address/hostname pair examined by internal-host
/// detection.
#[derive(Debug, Clone)]
pub struct HostPair {
    /// The IP literal to reverse-resolve.
    pub address: String,
    /// The hostname a reverse lookup must return for this pair to
    /// confirm an internal network.
    pub host: String,
}

/// A pair is examined only when both halves are present and non-empty.
pub open spec fn pair_usable(a: Option<Seq<char>>, h: Option<Seq<char>>) -> bool {
    &&& a matches Some(x) && x.len() > 0
    &&& h matches Some(y) && y.len() > 0
}

/// Detection runs only when the response carries the marker element.
pub open spec fn detection_enabled(body: Seq<char>) -> bool {
    xml_text_of(body, "internal-host-detection"@) is Some
}

/// The address/hostname pairs detection examines for `body`, in
/// examination order: the IPv4 pair before the IPv6 pair, each kept only
/// when usable.
pub open spec fn detection_pairs_of(body: Seq<char>) -> Seq<(Seq<char>, Seq<char>)> {
    let a4 = xml_text_of(body, "ip-address"@);
    let h4 = xml_text_of(body, "host"@);
    let a6 = xml_text_of(body, "ipv6-address"@);
    let h6 = xml_text_of(body, "ipv6-host"@);
    let p4: Seq<(Seq<char>, Seq<char>)> = if pair_usable(a4, h4) {
        seq![(a4.unwrap(), h4.unwrap())]
    } else {
        Seq::empty()
    };
    let p6: Seq<(Seq<char>, Seq<char>)> = if pair_usable(a6, h6) {
        seq![(a6.unwrap(), h6.unwrap())]
    } else {
        Seq::empty()
    };
    p4 + p6
}

/// The view of a pair list as plain text pairs.
pub open spec fn pairs_view(ps: Seq<HostPair>) -> Seq<(Seq<char>, Seq<char>)> {
    ps.map_values(|p: HostPair| (p.address@, p.host@))
}

/// Extract the detection plan from the response body: `None` when the
/// marker element is absent (detection is skipped entirely), otherwise
/// the usable pairs in examination order.
pub fn host_detection_pairs(body: &str) -> (r: Option<Vec<HostPair>>)
    ensures
        r is Some <==> detection_enabled(body@),
        r matches Some(ps) ==> pairs_view(ps@) == detection_pairs_of(body@),
{
    if xml_child_text(body, "internal-host-detection").is_none() {
        return None;
    }
    let mut out: Vec<HostPair> = Vec::new();
    let a4 = xml_child_text(body, "ip-address");
    let h4 = xml_child_text(body, "host");
    match (a4, h4) {
        (Some(a), Some(h)) => {
            if !a.as_str().is_empty() && !h.as_str().is_empty() {
                out.push(HostPair { address: a, host: h });
            }
        },
        _ => {},
    }
    let a6 = xml_child_text(body, "ipv6-address");
    let h6 = xml_child_text(body, "ipv6-host");
    match (a6, h6) {
        (Some(a), Some(h)) => {
            if !a.as_str().is_empty() && !h.as_str().is_empty() {
                out.push(HostPair { address: a, host: h });
            }
        },
        _ => {},
    }
    proof {
        assert(pairs_view(out@) =~= detection_pairs_of(body@));
    }
    Some(out)
}

/// Decide the external-gateway flag from the examined pairs and the
/// reverse-lookup outcome of each: internal (false) exactly when some
/// lookup returned its pair's hostname. A `None` outcome stands for an
/// address that is no IP literal or a lookup that failed; neither is an
/// error, both merely fail to confirm an internal network, so with no
/// confirming pair the gateways stay external (true).
pub fn classify_external(pairs: &Vec<HostPair>, outcomes: &Vec<Option<String>>) -> (r: bool)
    requires
        pairs@.len() == outcomes@.len(),
    ensures
        !r <==> exists|i: int|
            {
                &&& 0 <= i < pairs@.len()
                &&& (#[trigger] outcomes@[i]) matches Some(h)
                &&& h@ == pairs@[i].host@
            },
{
    let n = pairs.len();
    let mut i: usize = 0;
    while i < n
        invariant
            n == pairs@.len(),
            n == outcomes@.len(),
            i <= n,
            forall|q: int|
                0 <= q < i ==> !((#[trigger] outcomes@[q]) matches Some(h) && h@
                    == pairs@[q].host@),
        decreases n - i,
    {
        match &outcomes[i] {
            Some(h) => {
                if *h == pairs[i].host {
                    return false;
                }
            },
            None => {},
        }
        i += 1;
    }
    true
}

} // verus!
