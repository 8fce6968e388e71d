//! Building the configuration request: the endpoint URL and the form
//! parameters, with their override precedence.

use vstd::prelude::*;
use vstd::string::StringExecFns;

verus! {

/// The mapping a parameter list denotes: each pair inserted left to
/// right, a later occurrence of a key overriding an earlier one.
pub open spec fn params_map(ps: Seq<(String, String)>) -> Map<Seq<char>, Seq<char>>
    decreases ps.len(),
{
    if ps.len() == 0 {
        Map::empty()
    } else {
        params_map(ps.drop_last()).insert(ps.last().0@, ps.last().1@)
    }
}

/// No two entries of the list share a key.
pub open spec fn unique_keys(ps: Seq<(String, String)>) -> bool {
    forall|i: int, j: int|
        0 <= i < j < ps.len() ==> (#[trigger] ps[i]).0@ != (#[trigger] ps[j]).0@
}

/// A key stands in the denoted mapping exactly when some entry holds it.
proof fn lemma_params_map_key(ps: Seq<(String, String)>, k: Seq<char>)
    ensures
        params_map(ps).contains_key(k) <==> exists|i: int|
            0 <= i < ps.len() && (#[trigger] ps[i]).0@ == k,
    decreases ps.len(),
{
    if ps.len() > 0 {
        lemma_params_map_key(ps.drop_last(), k);
        if params_map(ps).contains_key(k) {
            if ps.last().0@ == k {
                assert(ps[ps.len() - 1].0@ == k);
            } else {
                let i = choose|i: int|
                    0 <= i < ps.drop_last().len() && (#[trigger] ps.drop_last()[i]).0@ == k;
                assert(ps[i].0@ == k);
            }
        }
        if exists|i: int| 0 <= i < ps.len() && (#[trigger] ps[i]).0@ == k {
            let i = choose|i: int| 0 <= i < ps.len() && (#[trigger] ps[i]).0@ == k;
            if i < ps.len() - 1 {
                assert(ps.drop_last()[i].0@ == k);
            }
        }
    }
}

/// Replacing the value at an existing key denotes the same mapping as an
/// insert of that key.
proof fn lemma_params_map_update(ps: Seq<(String, String)>, i: int, v: (String, String))
    requires
        0 <= i < ps.len(),
        unique_keys(ps),
        ps[i].0@ == v.0@,
    ensures
        params_map(ps.update(i, v)) == params_map(ps).insert(v.0@, v.1@),
    decreases ps.len(),
{
    if i == ps.len() - 1 {
        assert(ps.update(i, v).drop_last() =~= ps.drop_last());
        assert(params_map(ps.drop_last()).insert(ps[i].0@, ps[i].1@).insert(v.0@, v.1@)
            =~= params_map(ps.drop_last()).insert(v.0@, v.1@));
    } else {
        assert(ps.drop_last()[i] == ps[i]);
        lemma_params_map_update(ps.drop_last(), i, v);
        assert(ps.update(i, v).drop_last() =~= ps.drop_last().update(i, v));
        assert(ps.update(i, v).last() == ps.last());
        assert(ps[i].0@ != ps.last().0@);
        assert(params_map(ps.drop_last()).insert(v.0@, v.1@).insert(ps.last().0@, ps.last().1@)
            =~= params_map(ps.drop_last()).insert(ps.last().0@, ps.last().1@).insert(
            v.0@,
            v.1@,
        ));
    }
}

/// Appending one entry denotes an insert.
proof fn lemma_params_map_push(ps: Seq<(String, String)>, v: (String, String))
    ensures
        params_map(ps.push(v)) == params_map(ps).insert(v.0@, v.1@),
{
    assert(ps.push(v).drop_last() =~= ps);
    assert(ps.push(v).last() == v);
}

/// Insert one parameter into a unique-key list, overriding an existing
/// entry with the same key.
fn insert_param(ps: &mut Vec<(String, String)>, key: String, value: String)
    requires
        unique_keys(old(ps)@),
    ensures
        unique_keys(final(ps)@),
        params_map(final(ps)@) == params_map(old(ps)@).insert(key@, value@),
{
    let n = ps.len();
    let mut i: usize = 0;
    while i < n
        invariant
            ps@ == old(ps)@,
            n == ps@.len(),
            i <= n,
            unique_keys(ps@),
            forall|q: int| 0 <= q < i ==> (#[trigger] ps@[q]).0@ != key@,
        decreases n - i,
    {
        if ps[i].0 == key {
            let ghost before = ps@;
            ps[i] = (key, value);
            proof {
                lemma_params_map_update(before, i as int, (ps@[i as int].0, ps@[i as int].1));
                assert(ps@[i as int] == (ps@[i as int].0, ps@[i as int].1));
                assert(ps@ == before.update(i as int, ps@[i as int]));
                assert forall|a: int, b: int| 0 <= a < b < ps@.len() implies (
                #[trigger] ps@[a]).0@ != (#[trigger] ps@[b]).0@ by {
                    assert(before[a].0@ != before[b].0@);
                }
            }
            return ;
        }
        i += 1;
    }
    let ghost before = ps@;
    ps.push((key, value));
    proof {
        lemma_params_map_push(before, ps@.last());
        assert(ps@.last().0@ == key@);
        assert forall|a: int, b: int| 0 <= a < b < ps@.len() implies (#[trigger] ps@[a]).0@ != (
        #[trigger] ps@[b]).0@ by {
            if b < ps@.len() - 1 {
                assert(before[a].0@ != before[b].0@);
            } else {
                assert(before[a].0@ != key@);
            }
        }
    }
}

/// Build the form parameters of a configuration request: the
/// credential's parameters first, then the extra request parameters, and
/// finally `server` and `host` both forced to the bare server string —
/// each later source overriding same-named entries of an earlier one.
pub fn build_config_params(
    cred_params: &Vec<(String, String)>,
    extra_params: &Vec<(String, String)>,
    server: &str,
) -> (r: Vec<(String, String)>)
    ensures
        unique_keys(r@),
        params_map(r@) == params_map(cred_params@ + extra_params@).insert("server"@, server@)
            .insert("host"@, server@),
{
    let mut out: Vec<(String, String)> = Vec::new();
    let n1 = cred_params.len();
    let mut i: usize = 0;
    while i < n1
        invariant
            n1 == cred_params@.len(),
            i <= n1,
            unique_keys(out@),
            params_map(out@) == params_map(cred_params@.take(i as int)),
        decreases n1 - i,
    {
        let k = cred_params[i].0.clone();
        let v = cred_params[i].1.clone();
        proof {
            assert(cred_params@.take(i as int + 1).drop_last() =~= cred_params@.take(i as int));
            assert(cred_params@.take(i as int + 1).last() == cred_params@[i as int]);
        }
        insert_param(&mut out, k, v);
        i += 1;
    }
    proof {
        assert(cred_params@.take(n1 as int) =~= cred_params@);
    }
    let n2 = extra_params.len();
    let mut j: usize = 0;
    while j < n2
        invariant
            n2 == extra_params@.len(),
            j <= n2,
            unique_keys(out@),
            params_map(out@) == params_map(cred_params@ + extra_params@.take(j as int)),
        decreases n2 - j,
    {
        let k = extra_params[j].0.clone();
        let v = extra_params[j].1.clone();
        proof {
            assert((cred_params@ + extra_params@.take(j as int + 1)).drop_last() =~= cred_params@
                + extra_params@.take(j as int));
            assert((cred_params@ + extra_params@.take(j as int + 1)).last() == extra_params@[
                j as int]);
        }
        insert_param(&mut out, k, v);
        j += 1;
    }
    proof {
        assert(cred_params@ + extra_params@.take(n2 as int) =~= cred_params@ + extra_params@);
    }
    insert_param(&mut out, "server".to_owned(), server.to_owned());
    insert_param(&mut out, "host".to_owned(), server.to_owned());
    out
}

/// The request target: the fixed configuration endpoint path appended to
/// the normalized portal.
pub fn config_endpoint_url(portal: &str) -> (r: String)
    ensures
        r@ == portal@ + "/global-protect/getconfig.esp"@,
{
    let mut url = portal.to_owned();
    url.append("/global-protect/getconfig.esp");
    url
}

} // verus!
