//! Environment entries of a launch request: splitting `KEY=VALUE`, finding
//! ports and the egress token, and the proxy address a workload is given.

use vstd::prelude::*;
use crate::readiness::{parse_u16, parse_u16_exec};
use crate::text::{strs_view, chars_of, dec, find_first, find_from, lemma_find_first_bounds, str_eq, string_of_range, u64_to_string};

verus! {

/// Environment key that carries a workload's egress proxy token.
pub const ENV_KEY_EGRESS_TOKEN: &'static str = "CAPSULED_EGRESS_TOKEN";

/// `e.split_once('=')`: key and value around the first `=`.
pub open spec fn env_split(e: Seq<char>) -> Option<(Seq<char>, Seq<char>)> {
    match find_first(e, seq!['=']) {
        Some(i) => Some((e.take(i), e.skip(i + 1))),
        None => None,
    }
}

/// Key and value of an environment entry, split at its first `=`.
pub fn split_env(e: &str) -> (r: Option<(String, String)>)
    ensures
        match (r, env_split(e@)) {
            (Some((k, v)), Some((a, b))) => k@ == a && v@ == b,
            (None, None) => true,
            _ => false,
        },
{
    let v = chars_of(e);
    let eq: Vec<char> = vec!['='];
    assert(eq@ =~= seq!['=']);
    assert(v@.skip(0) =~= v@);
    match find_from(&v, &eq, 0) {
        Some(i) => {
            proof {
                lemma_find_first_bounds(v@, seq!['=']);
            }
            assert(i < v.len());
            let k = string_of_range(&v, 0, i);
            let val = string_of_range(&v, i + 1, v.len());
            assert(k@ =~= v@.take(i as int));
            assert(val@ =~= v@.skip(i + 1));
            Some((k, val))
        },
        None => None,
    }
}

/// The key/value pairs among `entries`, in order; entries without `=` are left out.
pub open spec fn env_pairs(entries: Seq<Seq<char>>) -> Seq<(Seq<char>, Seq<char>)>
    decreases entries.len(),
{
    if entries.len() == 0 {
        Seq::empty()
    } else {
        let rest = env_pairs(entries.drop_last());
        match env_split(entries.last()) {
            Some(kv) => rest.push(kv),
            None => rest,
        }
    }
}

/// Views of a list of string pairs.
pub open spec fn pairs_view(v: Seq<(String, String)>) -> Seq<(Seq<char>, Seq<char>)> {
    Seq::new(v.len(), |i: int| (v[i].0@, v[i].1@))
}

/// The entries that split into key and value, split.
pub fn env_pairs_of(entries: &Vec<String>) -> (r: Vec<(String, String)>)
    ensures
        pairs_view(r@) == env_pairs(strs_view(entries@)),
{
    let ghost es = strs_view(entries@);
    let mut out: Vec<(String, String)> = Vec::new();
    let mut i: usize = 0;
    assert(es.take(0) =~= Seq::<Seq<char>>::empty());
    while i < entries.len()
        invariant
            es == strs_view(entries@),
            i <= entries@.len(),
            pairs_view(out@) == env_pairs(es.take(i as int)),
        decreases entries@.len() - i,
    {
        let ghost before = pairs_view(out@);
        assert(es.take(i + 1).drop_last() =~= es.take(i as int));
        assert(es.take(i + 1).last() == entries@[i as int]@);
        match split_env(entries[i].as_str()) {
            Some(kv) => {
                let ghost kv_view = (kv.0@, kv.1@);
                assert(kv_view == env_split(entries@[i as int]@).unwrap());
                out.push(kv);
                assert(pairs_view(out@) =~= before.push(kv_view));
            },
            None => {
                assert(pairs_view(out@) =~= before);
            },
        }
        i += 1;
    }
    assert(es.take(entries@.len() as int) =~= es);
    out
}

/// The value of the first pair whose key is `key`.
pub open spec fn first_value(pairs: Seq<(Seq<char>, Seq<char>)>, key: Seq<char>) -> Option<Seq<char>>
    decreases pairs.len(),
{
    if pairs.len() == 0 {
        None
    } else if pairs[0].0 == key {
        Some(pairs[0].1)
    } else {
        first_value(pairs.drop_first(), key)
    }
}

/// The value of the last pair whose key is `key`.
pub open spec fn last_value(pairs: Seq<(Seq<char>, Seq<char>)>, key: Seq<char>) -> Option<Seq<char>>
    decreases pairs.len(),
{
    if pairs.len() == 0 {
        None
    } else if pairs.last().0 == key {
        Some(pairs.last().1)
    } else {
        last_value(pairs.drop_last(), key)
    }
}

/// The value of the first pair with key `key`.
pub fn first_value_of(pairs: &Vec<(String, String)>, key: &str) -> (r: Option<String>)
    ensures
        match (r, first_value(pairs_view(pairs@), key@)) {
            (Some(a), Some(b)) => a@ == b,
            (None, None) => true,
            _ => false,
        },
{
    let ghost ps = pairs_view(pairs@);
    let mut i: usize = 0;
    assert(ps.skip(0) =~= ps);
    while i < pairs.len()
        invariant
            ps == pairs_view(pairs@),
            i <= pairs@.len(),
            first_value(ps, key@) == first_value(ps.skip(i as int), key@),
        decreases pairs@.len() - i,
    {
        assert(ps.skip(i as int)[0] == ps[i as int]);
        if str_eq(pairs[i].0.as_str(), key) {
            return Some(pairs[i].1.clone());
        }
        assert(ps.skip(i as int).drop_first() =~= ps.skip(i + 1));
        i += 1;
    }
    assert(ps.skip(i as int).len() == 0);
    None
}

/// The value of the last pair with key `key`.
pub fn last_value_of(pairs: &Vec<(String, String)>, key: &str) -> (r: Option<String>)
    ensures
        match (r, last_value(pairs_view(pairs@), key@)) {
            (Some(a), Some(b)) => a@ == b,
            (None, None) => true,
            _ => false,
        },
{
    let ghost ps = pairs_view(pairs@);
    let mut i: usize = pairs.len();
    assert(ps.take(i as int) =~= ps);
    while i > 0
        invariant
            ps == pairs_view(pairs@),
            i <= pairs@.len(),
            last_value(ps, key@) == last_value(ps.take(i as int), key@),
        decreases i,
    {
        assert(ps.take(i as int).last() == ps[i - 1]);
        if str_eq(pairs[i - 1].0.as_str(), key) {
            return Some(pairs[i - 1].1.clone());
        }
        assert(ps.take(i as int).drop_last() =~= ps.take(i - 1));
        i -= 1;
    }
    None
}

/// The proxy address a workload is given: with its egress token when it has
/// one, `http://<workload>:<token>@<host>:<port>`, else `http://<host>:<port>`.
pub open spec fn proxy_url(workload_id: Seq<char>, token: Option<Seq<char>>, host: Seq<char>, port: u16) -> Seq<char> {
    match token {
        Some(t) => "http://"@ + workload_id + ":"@ + t + "@"@ + host + ":"@ + dec(port as nat),
        None => "http://"@ + host + ":"@ + dec(port as nat),
    }
}

/// The proxy address for a workload.
pub fn proxy_url_for(workload_id: &str, token: &Option<String>, host: &str, port: u16) -> (r: String)
    ensures
        r@ == proxy_url(
            workload_id@,
            match *token {
                Some(t) => Some(t@),
                None => None,
            },
            host@,
            port,
        ),
{
    let mut s = String::from_str("http://");
    match token {
        Some(t) => {
            s.append(workload_id);
            s.append(":");
            s.append(t.as_str());
            s.append("@");
        },
        None => {},
    }
    s.append(host);
    s.append(":");
    let p = u64_to_string(port as u64);
    s.append(p.as_str());
    s
}

/// The three proxy variables a workload is given, all set to `url`.
pub open spec fn proxy_env(url: Seq<char>) -> Seq<(Seq<char>, Seq<char>)> {
    seq![("HTTP_PROXY"@, url), ("HTTPS_PROXY"@, url), ("ALL_PROXY"@, url)]
}

/// `HTTP_PROXY`, `HTTPS_PROXY` and `ALL_PROXY`, each set to `url`.
pub fn proxy_env_for(url: &str) -> (r: Vec<(String, String)>)
    ensures
        pairs_view(r@) == proxy_env(url@),
{
    let mut r: Vec<(String, String)> = Vec::new();
    r.push((String::from_str("HTTP_PROXY"), String::from_str(url)));
    r.push((String::from_str("HTTPS_PROXY"), String::from_str(url)));
    r.push((String::from_str("ALL_PROXY"), String::from_str(url)));
    assert(pairs_view(r@) =~= proxy_env(url@));
    r
}

} // verus!
