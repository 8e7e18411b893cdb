//! Planning for supervisor mode: start order, port registry and the
//! replacement of `{{...}}` port placeholders in service specs.

use vstd::prelude::*;
use crate::deps::{
    dependency_order, names_ascending, no_deps, deps_known, gview, has_cycle, is_dependency_order, is_genuine_error, names_distinct,
    resolve_order,
};
use crate::strmap::{entries_map, keys_distinct, lemma_entry_in_map, StrMap};
use crate::text::{copy_strings, seq_lt, str_lt, digit_char, is_ascii_digit,
    chars_of, dec, find_first, find_from, split_char, split_char_ranges, starts_with,
    string_of_range, strs_view, trim, trim_bounds, u64_to_string, all_ascii_digits,
    all_ascii_digits_exec, contains_seq, trim_str, lemma_find_first_bounds,
};

verus! {

/// Readiness probe of a service: an HTTP path or a TCP host, and a port.
#[derive(Debug)]
pub struct ReadinessProbe {
    pub http_get: Option<String>,
    pub tcp_connect: Option<String>,
    pub port: String,
}

/// One service of a supervisor-mode capsule.
#[derive(Debug)]
pub struct ServiceSpec {
    pub entrypoint: String,
    pub depends_on: Option<Vec<String>>,
    pub expose: Option<Vec<String>>,
    pub env: Option<StrMap<String>>,
    pub readiness_probe: Option<ReadinessProbe>,
}

/// Services by name.
pub type ServiceMap = StrMap<ServiceSpec>;

/// Ports by service name, then by port name.
pub type PortRegistry = StrMap<StrMap<u16>>;

/// The mathematical content of a port registry.
pub open spec fn ports_view(p: PortRegistry) -> Map<Seq<char>, Map<Seq<char>, u16>> {
    p.view_map().map_values(|m: StrMap<u16>| m.view_map())
}

/// What supervisor mode starts: the order, the ports and the services with
/// their placeholders replaced.
#[derive(Debug)]
pub struct SupervisorModePlan {
    pub startup_order: Vec<String>,
    pub ports: PortRegistry,
    pub services: ServiceMap,
}

// ---------------------------------------------------------------------------
// Port lookup

pub open spec fn no_ports_message(my: Seq<char>, port_name: Seq<char>) -> Seq<char> {
    "No ports allocated for service '"@ + my + "' (needed for placeholder '"@ + port_name + "')"@
}

pub open spec fn no_exposed_port_message(my: Seq<char>, port_name: Seq<char>) -> Seq<char> {
    "Service '"@ + my + "' has no exposed port named '"@ + port_name
        + "' (add to expose=...)"@
}

/// The port named `port_name` among the ports of service `my`.
pub open spec fn lookup_local_spec(
    my: Seq<char>,
    port_name: Seq<char>,
    ports: Map<Seq<char>, Map<Seq<char>, u16>>,
) -> Result<u16, Seq<char>> {
    if !ports.dom().contains(my) {
        Err(no_ports_message(my, port_name))
    } else if !ports[my].dom().contains(port_name) {
        Err(no_exposed_port_message(my, port_name))
    } else {
        Ok(ports[my][port_name])
    }
}

pub fn lookup_local_port(my_name: &str, port_name: &str, ports: &PortRegistry) -> (r: Result<
    u16,
    String,
>)
    ensures
        match (r, lookup_local_spec(my_name@, port_name@, ports_view(*ports))) {
            (Ok(a), Ok(b)) => a == b,
            (Err(a), Err(b)) => a@ == b,
            _ => false,
        },
{
    match ports.get(my_name) {
        None => {
            let mut m = String::from_str("No ports allocated for service '");
            m.append(my_name);
            m.append("' (needed for placeholder '");
            m.append(port_name);
            m.append("')");
            Err(m)
        },
        Some(svc_ports) => match svc_ports.get(port_name) {
            None => {
                let mut m = String::from_str("Service '");
                m.append(my_name);
                m.append("' has no exposed port named '");
                m.append(port_name);
                m.append("' (add to expose=...)");
                Err(m)
            },
            Some(p) => Ok(*p),
        },
    }
}

// ---------------------------------------------------------------------------
// One placeholder

pub open spec fn services_prefix() -> Seq<char> {
    seq!['s', 'e', 'r', 'v', 'i', 'c', 'e', 's', '.']
}

pub open spec fn ports_word() -> Seq<char> {
    seq!['p', 'o', 'r', 't', 's']
}

pub open spec fn invalid_placeholder_message(key: Seq<char>) -> Seq<char> {
    "Invalid placeholder '{{"@ + key + "}}'"@
}

pub open spec fn expected_ports_message(key: Seq<char>) -> Seq<char> {
    "Invalid placeholder '{{"@ + key + "}}': expected 'ports'"@
}

pub open spec fn unknown_service_message(svc: Seq<char>, key: Seq<char>) -> Seq<char> {
    "Unknown service '"@ + svc + "' in placeholder '{{"@ + key + "}}'"@
}

pub open spec fn unknown_port_message(
    port_name: Seq<char>,
    svc: Seq<char>,
    key: Seq<char>,
) -> Seq<char> {
    "Unknown port name '"@ + port_name + "' for service '"@ + svc + "' in placeholder '{{"@ + key
        + "}}'"@
}

/// What `{{key}}` stands for: `services.<svc>.ports.<NAME>` names a port of
/// another service, any other key a port of the service itself.
pub open spec fn resolve_placeholder_spec(
    key: Seq<char>,
    my: Seq<char>,
    ports: Map<Seq<char>, Map<Seq<char>, u16>>,
) -> Result<Seq<char>, Seq<char>> {
    if starts_with(key, services_prefix()) {
        let parts = split_char(key.skip(services_prefix().len() as int), '.');
        if parts.len() < 2 {
            Err(invalid_placeholder_message(key))
        } else if parts[1] != ports_word() {
            Err(expected_ports_message(key))
        } else if parts.len() != 3 {
            Err(invalid_placeholder_message(key))
        } else if !ports.dom().contains(parts[0]) {
            Err(unknown_service_message(parts[0], key))
        } else if !ports[parts[0]].dom().contains(parts[2]) {
            Err(unknown_port_message(parts[2], parts[0], key))
        } else {
            Ok(dec(ports[parts[0]][parts[2]] as nat))
        }
    } else {
        match lookup_local_spec(my, key, ports) {
            Ok(p) => Ok(dec(p as nat)),
            Err(e) => Err(e),
        }
    }
}

fn placeholder_message(head: &str, key: &str, tail: &str) -> (m: String)
    ensures
        m@ == head@ + key@ + tail@,
{
    let mut m = String::from_str(head);
    m.append(key);
    m.append(tail);
    m
}

pub fn resolve_placeholder(key: &str, my_name: &str, ports: &PortRegistry) -> (r: Result<
    String,
    String,
>)
    ensures
        match (r, resolve_placeholder_spec(key@, my_name@, ports_view(*ports))) {
            (Ok(a), Ok(b)) => a@ == b,
            (Err(a), Err(b)) => a@ == b,
            _ => false,
        },
{
    let kv = chars_of(key);
    let prefix: Vec<char> = vec!['s', 'e', 'r', 'v', 'i', 'c', 'e', 's', '.'];
    assert(prefix@ =~= services_prefix());
    if crate::text::matches_at(&kv, 0, &prefix) {
        assert(kv@.skip(0) =~= kv@);
        let stripped = string_of_range(&kv, 9, kv.len());
        let sv = chars_of(stripped.as_str());
        let ranges = split_char_ranges(&sv, '.');
        let ghost parts = split_char(key@.skip(9), '.');
        assert(sv@ =~= key@.skip(9));
        assert(parts.len() == ranges@.len());
        if ranges.len() < 2 {
            return Err(placeholder_message("Invalid placeholder '{{", key, "}}'"));
        }
        let kind = string_of_range(&sv, ranges[1].0, ranges[1].1);
        assert(kind@ == parts[1]);
        let pw: Vec<char> = vec!['p', 'o', 'r', 't', 's'];
        assert(pw@ =~= ports_word());
        let kind_chars = chars_of(kind.as_str());
        let is_ports = kind_chars.len() == pw.len() && crate::text::matches_at(&kind_chars, 0, &pw);
        assert(is_ports == (parts[1] == ports_word())) by {
            assert(kind_chars@.skip(0) =~= kind_chars@);
            if kind_chars@.len() == pw@.len() && crate::text::starts_with(kind_chars@, pw@) {
                assert(kind_chars@ =~= kind_chars@.take(pw@.len() as int));
            }
        }
        if !is_ports {
            return Err(placeholder_message("Invalid placeholder '{{", key, "}}': expected 'ports'"));
        }
        if ranges.len() != 3 {
            return Err(placeholder_message("Invalid placeholder '{{", key, "}}'"));
        }
        let svc = string_of_range(&sv, ranges[0].0, ranges[0].1);
        let port_name = string_of_range(&sv, ranges[2].0, ranges[2].1);
        assert(svc@ == parts[0]);
        assert(port_name@ == parts[2]);
        match ports.get(svc.as_str()) {
            None => {
                let mut m = String::from_str("Unknown service '");
                m.append(svc.as_str());
                m.append("' in placeholder '{{");
                m.append(key);
                m.append("}}'");
                Err(m)
            },
            Some(svc_ports) => match svc_ports.get(port_name.as_str()) {
                None => {
                    let mut m = String::from_str("Unknown port name '");
                    m.append(port_name.as_str());
                    m.append("' for service '");
                    m.append(svc.as_str());
                    m.append("' in placeholder '{{");
                    m.append(key);
                    m.append("}}'");
                    Err(m)
                },
                Some(p) => Ok(u64_to_string(*p as u64)),
            },
        }
    } else {
        assert(kv@.skip(0) =~= kv@);
        match lookup_local_port(my_name, key, ports) {
            Ok(p) => Ok(u64_to_string(p as u64)),
            Err(e) => Err(e),
        }
    }
}


// ---------------------------------------------------------------------------
// Placeholders in a string

pub open spec fn open_mark() -> Seq<char> {
    seq!['{', '{']
}

pub open spec fn close_mark() -> Seq<char> {
    seq!['}', '}']
}

pub open spec fn unclosed_message(input: Seq<char>) -> Seq<char> {
    "Unclosed placeholder in: "@ + input
}

/// `out` put in front of a successful result.
pub open spec fn prepend(out: Seq<char>, r: Result<Seq<char>, Seq<char>>) -> Result<
    Seq<char>,
    Seq<char>,
> {
    match r {
        Ok(t) => Ok(out + t),
        Err(e) => Err(e),
    }
}

/// `rest` with each `{{key}}` replaced by what the trimmed key stands for,
/// from left to right; `input` is the whole string, named in errors.
pub open spec fn replace_spec(
    rest: Seq<char>,
    input: Seq<char>,
    my: Seq<char>,
    ports: Map<Seq<char>, Map<Seq<char>, u16>>,
) -> Result<Seq<char>, Seq<char>>
    decreases rest.len(),
{
    match find_first(rest, open_mark()) {
        None => Ok(rest),
        Some(start) => {
            let after = rest.skip(start + 2);
            match find_first(after, close_mark()) {
                None => Err(unclosed_message(input)),
                Some(end) => match resolve_placeholder_spec(trim(after.take(end)), my, ports) {
                    Err(e) => Err(e),
                    Ok(rep) => if 0 <= start && start + 2 <= rest.len() && 0 <= end && end + 2
                        <= after.len() {
                        prepend(rest.take(start) + rep, replace_spec(after.skip(end + 2), input, my, ports))
                    } else {
                        Ok(rest)
                    },
                },
            }
        },
    }
}

/// All placeholders of `s` replaced.
pub open spec fn replaced(
    s: Seq<char>,
    my: Seq<char>,
    ports: Map<Seq<char>, Map<Seq<char>, u16>>,
) -> Result<Seq<char>, Seq<char>> {
    replace_spec(s, s, my, ports)
}

/// `t` has `{{` at position `i`.
pub open spec fn open_at(t: Seq<char>, i: int) -> bool {
    t[i] == '{' && t[i + 1] == '{'
}

/// No `{{` anywhere in `t`.
pub open spec fn no_open_mark(t: Seq<char>) -> bool {
    forall|i: int| 0 <= i && i + 1 < t.len() ==> !#[trigger] open_at(t, i)
}

proof fn lemma_first_open(s: Seq<char>)
    ensures
        match find_first(s, open_mark()) {
            None => no_open_mark(s),
            Some(k) => forall|i: int| 0 <= i < k && i + 1 < s.len() ==> !#[trigger] open_at(s, i),
        },
    decreases s.len(),
{
    if s.len() < 2 {
    } else if s.take(2) == open_mark() {
    } else {
        let d = s.drop_first();
        lemma_first_open(d);
        assert(!open_at(s, 0)) by {
            if open_at(s, 0) {
                assert(s.take(2) =~= open_mark());
            }
        }
        assert forall|i: int| 1 <= i && i + 1 < s.len() implies #[trigger] open_at(s, i) == open_at(d, i - 1) by {
            assert(s[i] == d[i - 1]);
            assert(s[i + 1] == d[i]);
        }
    }
}

proof fn lemma_dec_no_brace(n: nat)
    ensures
        dec(n).len() >= 1,
        forall|i: int| 0 <= i < dec(n).len() ==> #[trigger] dec(n)[i] != '{',
    decreases n,
{
    assert(('{' as int) == 123);
    if n >= 10 {
        lemma_dec_no_brace(n / 10);
        let d = (n % 10) as int;
        assert(0 <= d < 10);
        assert(digit_char(d) as int == 48 + d);
    } else {
        assert(digit_char(n as int) as int == 48 + n);
    }
}

proof fn lemma_concat_no_open(a: Seq<char>, b: Seq<char>)
    requires
        no_open_mark(a),
        no_open_mark(b),
        !(a.len() > 0 && b.len() > 0 && a.last() == '{' && b[0] == '{'),
    ensures
        no_open_mark(a + b),
{
    let c = a + b;
    assert forall|i: int| 0 <= i && i + 1 < c.len() implies !#[trigger] open_at(c, i) by {
        if i + 1 < a.len() {
            assert(c[i] == a[i] && c[i + 1] == a[i + 1]);
            assert(!open_at(a, i));
        } else if i >= a.len() {
            assert(c[i] == b[i - a.len()] && c[i + 1] == b[i + 1 - a.len()]);
            assert(!open_at(b, i - a.len()));
        } else {
            assert(c[i] == a.last() && c[i + 1] == b[0]);
        }
    }
}

proof fn lemma_placeholder_value(key: Seq<char>, my: Seq<char>, ports: Map<Seq<char>, Map<Seq<char>, u16>>)
    ensures
        resolve_placeholder_spec(key, my, ports) matches Ok(rep) ==> rep.len() >= 1 && forall|i: int|
            0 <= i < rep.len() ==> #[trigger] rep[i] != '{',
{
    if starts_with(key, services_prefix()) {
        let parts = split_char(key.skip(services_prefix().len() as int), '.');
        if parts.len() == 3 && ports.dom().contains(parts[0]) && ports[parts[0]].dom().contains(parts[2]) {
            lemma_dec_no_brace(ports[parts[0]][parts[2]] as nat);
        }
    } else {
        match lookup_local_spec(my, key, ports) {
            Ok(p) => lemma_dec_no_brace(p as nat),
            Err(_) => {},
        }
    }
}

proof fn lemma_replace_spec_no_open(
    rest: Seq<char>,
    input: Seq<char>,
    my: Seq<char>,
    ports: Map<Seq<char>, Map<Seq<char>, u16>>,
)
    ensures
        replace_spec(rest, input, my, ports) matches Ok(t) ==> no_open_mark(t),
    decreases rest.len(),
{
    lemma_first_open(rest);
    lemma_find_first_bounds(rest, open_mark());
    match find_first(rest, open_mark()) {
        None => {},
        Some(start) => {
            let after = rest.skip(start + 2);
            lemma_find_first_bounds(after, close_mark());
            match find_first(after, close_mark()) {
                None => {},
                Some(end) => {
                    let key = trim(after.take(end));
                    lemma_placeholder_value(key, my, ports);
                    match resolve_placeholder_spec(key, my, ports) {
                        Err(_) => {},
                        Ok(rep) => {
                            if 0 <= start && start + 2 <= rest.len() && 0 <= end && end + 2 <= after.len() {
                                let tail = after.skip(end + 2);
                                lemma_replace_spec_no_open(tail, input, my, ports);
                                let head = rest.take(start);
                                assert forall|i: int| 0 <= i && i + 1 < head.len() implies !#[trigger] open_at(head, i) by {
                                    assert(head[i] == rest[i] && head[i + 1] == rest[i + 1]);
                                    assert(!open_at(rest, i));
                                }
                                assert(no_open_mark(rep)) by {
                                    assert forall|i: int| 0 <= i && i + 1 < rep.len() implies !#[trigger] open_at(rep, i) by {
                                        assert(rep[i] != '{');
                                    }
                                }
                                lemma_concat_no_open(head, rep);
                                assert((head + rep).last() == rep.last());
                                assert(rep.last() != '{');
                                match replace_spec(tail, input, my, ports) {
                                    Ok(t2) => {
                                        lemma_concat_no_open(head + rep, t2);
                                        assert(replace_spec(rest, input, my, ports) == Ok::<Seq<char>, Seq<char>>(head + rep + t2));
                                    },
                                    Err(_) => {},
                                }
                            }
                        },
                    }
                },
            }
        },
    }
}

/// A successful replacement leaves no `{{` in the result.
pub proof fn lemma_replaced_leaves_no_placeholder(
    s: Seq<char>,
    my: Seq<char>,
    ports: Map<Seq<char>, Map<Seq<char>, u16>>,
)
    ensures
        replaced(s, my, ports) matches Ok(t) ==> no_open_mark(t),
{
    lemma_replace_spec_no_open(s, s, my, ports);
}

pub fn replace_placeholders(input: &str, my_name: &str, ports: &PortRegistry) -> (r: Result<
    String,
    String,
>)
    ensures
        match (r, replaced(input@, my_name@, ports_view(*ports))) {
            (Ok(a), Ok(b)) => a@ == b,
            (Err(a), Err(b)) => a@ == b,
            _ => false,
        },
{
    let ghost pv = ports_view(*ports);
    let v = chars_of(input);
    let open: Vec<char> = vec!['{', '{'];
    let close: Vec<char> = vec!['}', '}'];
    assert(open@ =~= open_mark());
    assert(close@ =~= close_mark());
    let mut out = String::new();
    let mut pos: usize = 0;
    let n = v.len();
    assert(v@.skip(0) =~= v@);
    assert(Seq::<char>::empty() + v@ =~= v@);
    assert(prepend(out@, replace_spec(v@.skip(0), input@, my_name@, pv)) == replaced(input@, my_name@, pv)) by {
        match replace_spec(v@, input@, my_name@, pv) {
            Ok(t) => { assert(Seq::<char>::empty() + t =~= t); },
            Err(e) => {},
        }
    }
    loop
        invariant
            v@ == input@,
            n == v@.len(),
            pv == ports_view(*ports),
            open@ == open_mark(),
            close@ == close_mark(),
            pos <= v@.len(),
            replaced(input@, my_name@, pv) == prepend(
                out@,
                replace_spec(v@.skip(pos as int), input@, my_name@, pv),
            ),
        decreases v@.len() - pos,
    {
        let ghost rest = v@.skip(pos as int);
        match find_from(&v, &open, pos) {
            None => {
                let tail = string_of_range(&v, pos, v.len());
                assert(tail@ =~= rest);
                out.append(tail.as_str());
                return Ok(out);
            },
            Some(s) => {
                let ghost start = (s - pos) as int;
                proof {
                    lemma_find_first_bounds(rest, open_mark());
                    assert(find_first(rest, open_mark()) == Some(start));
                    assert(start + 2 <= rest.len());
                }
                let a = s + 2;
                let ghost after = rest.skip(start + 2);
                assert(after =~= v@.skip(a as int));
                match find_from(&v, &close, a) {
                    None => {
                        let mut m = String::from_str("Unclosed placeholder in: ");
                        m.append(input);
                        return Err(m);
                    },
                    Some(e) => {
                        let ghost end = (e - a) as int;
                        proof {
                            lemma_find_first_bounds(after, close_mark());
                            assert(find_first(after, close_mark()) == Some(end));
                            assert(end + 2 <= after.len());
                        }
                        let raw = string_of_range(&v, a, e);
                        assert(raw@ =~= after.take(end));
                        let key = trim_str(raw.as_str());
                        match resolve_placeholder(key.as_str(), my_name, ports) {
                            Err(m) => {
                                return Err(m);
                            },
                            Ok(rep) => {
                                let before = string_of_range(&v, pos, s);
                                assert(before@ =~= rest.take(start));
                                let ghost old_out = out@;
                                out.append(before.as_str());
                                out.append(rep.as_str());
                                assert(after.skip(end + 2) =~= v@.skip(e + 2));
                                pos = e + 2;
                                assert(replace_spec(rest, input@, my_name@, pv) == prepend(
                                    rest.take(start) + rep@,
                                    replace_spec(v@.skip(pos as int), input@, my_name@, pv),
                                ));
                                proof {
                                    match replace_spec(v@.skip(pos as int), input@, my_name@, pv) {
                                        Ok(t) => {
                                            assert(old_out + (rest.take(start) + rep@ + t) =~= out@ + t);
                                        },
                                        Err(x) => {},
                                    }
                                }
                            },
                        }
                    },
                }
            },
        }
    }
}

// ---------------------------------------------------------------------------
// The port field of a readiness probe

/// A number stays as it is, a string with placeholders has them replaced,
/// anything else names a port of the service itself.
pub open spec fn port_field_spec(
    port: Seq<char>,
    my: Seq<char>,
    ports: Map<Seq<char>, Map<Seq<char>, u16>>,
) -> Result<Seq<char>, Seq<char>> {
    let t = trim(port);
    if contains_seq(t, open_mark()) {
        replaced(t, my, ports)
    } else if all_ascii_digits(t) {
        Ok(t)
    } else {
        match lookup_local_spec(my, t, ports) {
            Ok(p) => Ok(dec(p as nat)),
            Err(e) => Err(e),
        }
    }
}

pub fn resolve_port_field(port: &str, my_name: &str, ports: &PortRegistry) -> (r: Result<
    String,
    String,
>)
    ensures
        match (r, port_field_spec(port@, my_name@, ports_view(*ports))) {
            (Ok(a), Ok(b)) => a@ == b,
            (Err(a), Err(b)) => a@ == b,
            _ => false,
        },
{
    let trimmed = trim_str(port);
    let tv = chars_of(trimmed.as_str());
    let open: Vec<char> = vec!['{', '{'];
    assert(open@ =~= open_mark());
    assert(tv@.skip(0) =~= tv@);
    if find_from(&tv, &open, 0).is_some() {
        return replace_placeholders(trimmed.as_str(), my_name, ports);
    }
    if all_ascii_digits_exec(&tv) {
        return Ok(trimmed);
    }
    match lookup_local_port(my_name, trimmed.as_str(), ports) {
        Ok(p) => Ok(u64_to_string(p as u64)),
        Err(e) => Err(e),
    }
}


// ---------------------------------------------------------------------------
// Start order

/// Names of a service's `depends_on` list (none when absent).
pub open spec fn deps_of(s: ServiceSpec) -> Seq<Seq<char>> {
    match s.depends_on {
        Some(v) => strs_view(v@),
        None => Seq::empty(),
    }
}

/// The dependency graph of a set of services, in entry order.
pub open spec fn service_graph(m: ServiceMap) -> Seq<(Seq<char>, Seq<Seq<char>>)> {
    Seq::new(m.entries().len(), |i: int| (m.entries()[i].0@, deps_of(m.entries()[i].1)))
}

fn copy_opt_strings(v: &Option<Vec<String>>) -> (r: Option<Vec<String>>)
    ensures
        match (r, *v) {
            (Some(a), Some(b)) => strs_view(a@) == strs_view(b@),
            (None, None) => true,
            _ => false,
        },
{
    match v {
        Some(x) => Some(copy_strings(x)),
        None => None,
    }
}

/// Resolve `depends_on` into a startup order: every dependency comes
/// before the services that depend on it. An unknown dependency or a
/// circular dependency is an error.
pub fn resolve_dependencies(services: &ServiceMap) -> (r: Result<Vec<String>, String>)
    ensures
        r is Ok <==> deps_known(service_graph(*services)) && !has_cycle(service_graph(*services)),
        r matches Ok(v) ==> is_dependency_order(service_graph(*services), strs_view(v@)),
        r matches Err(m) ==> is_genuine_error(service_graph(*services), m@),
        no_deps(service_graph(*services)) ==> (r matches Ok(v) && names_ascending(strs_view(v@))),
        dependency_order(service_graph(*services)) == match r {
            Ok(v) => Ok::<Seq<Seq<char>>, Seq<char>>(strs_view(v@)),
            Err(m) => Err(m@),
        },
{
    let n = services.len();
    let ghost e = services.entries();
    let mut g: Vec<(String, Vec<String>)> = Vec::new();
    let mut i: usize = 0;
    while i < n
        invariant
            n == e.len(),
            e == services.entries(),
            i <= n,
            g@.len() == i,
            forall|k: int| 0 <= k < i ==> (#[trigger] g@[k]).0@ == e[k].0@ && strs_view(g@[k].1@) == deps_of(e[k].1),
        decreases n - i,
    {
        let (name, spec) = services.entry_at(i);
        let deps = match &spec.depends_on {
            Some(d) => copy_strings(d),
            None => Vec::new(),
        };
        assert(strs_view(deps@) =~= deps_of(*spec));
        let ghost g0 = g@;
        g.push((name.clone(), deps));
        assert(g@ == g0.push(g@[i as int]));
        assert(g@[i as int].0@ == e[i as int].0@);
        i += 1;
    }
    assert(gview(g@) =~= service_graph(*services));
    assert(names_distinct(gview(g@))) by {
        assert forall|a: int, b: int|
            0 <= a < gview(g@).len() && 0 <= b < gview(g@).len() && a != b implies #[trigger] gview(
            g@,
        )[a].0 != #[trigger] gview(g@)[b].0 by {
            assert(e[a].0@ != e[b].0@);
        }
    }
    resolve_order(&g)
}

// ---------------------------------------------------------------------------
// Port allocation

/// Names a service exposes (none when absent).
pub open spec fn expose_of(s: ServiceSpec) -> Seq<Seq<char>> {
    match s.expose {
        Some(v) => strs_view(v@),
        None => Seq::empty(),
    }
}

/// How many ports the services whose names sort before `name` expose.
pub open spec fn exposed_before(e: Seq<(String, ServiceSpec)>, name: Seq<char>) -> nat
    decreases e.len(),
{
    if e.len() == 0 {
        0
    } else {
        exposed_before(e.drop_last(), name) + if seq_lt(e.last().0@, name) {
            expose_of(e.last().1).len()
        } else {
            0
        }
    }
}

/// How many ports all services expose.
pub open spec fn exposed_total(e: Seq<(String, ServiceSpec)>) -> nat
    decreases e.len(),
{
    if e.len() == 0 {
        0
    } else {
        exposed_total(e.drop_last()) + expose_of(e.last().1).len()
    }
}

/// Ports for the names `x`, taken from `fp` from position `off` on; a name
/// listed twice keeps the later port.
pub open spec fn port_map(x: Seq<Seq<char>>, fp: Seq<u16>, off: int) -> Map<Seq<char>, u16>
    decreases x.len(),
{
    if x.len() == 0 {
        Map::empty()
    } else {
        port_map(x.drop_last(), fp, off).insert(x.last(), fp[off + x.len() - 1])
    }
}

/// The registry that allocation builds: services taken in name order, each
/// exposed name given the next free port.
pub open spec fn alloc_view(services: ServiceMap, fp: Seq<u16>) -> Map<
    Seq<char>,
    Map<Seq<char>, u16>,
> {
    Map::new(
        |k: Seq<char>| services.view_map().dom().contains(k),
        |k: Seq<char>|
            port_map(expose_of(services.view_map()[k]), fp, exposed_before(services.entries(), k) as int),
    )
}

proof fn lemma_seq_lt_irreflexive(a: Seq<char>)
    ensures
        !seq_lt(a, a),
{
}

proof fn lemma_exposed_before_le_total(e: Seq<(String, ServiceSpec)>, name: Seq<char>)
    ensures
        exposed_before(e, name) <= exposed_total(e),
    decreases e.len(),
{
    if e.len() > 0 {
        lemma_exposed_before_le_total(e.drop_last(), name);
    }
}

proof fn lemma_total_prefix(e: Seq<(String, ServiceSpec)>, i: int)
    requires
        0 <= i <= e.len(),
    ensures
        exposed_total(e.take(i)) <= exposed_total(e),
        exposed_before(e.take(i), e[i].0@) + (if i < e.len() { expose_of(e[i].1).len() } else { 0 })
            <= exposed_total(e.take(i + 1)) || i == e.len(),
    decreases e.len() - i,
{
    if i < e.len() {
        lemma_total_prefix(e, i + 1);
        assert(e.take(i + 1).drop_last() =~= e.take(i));
        lemma_exposed_before_le_total(e.take(i), e[i].0@);
    } else {
        assert(e.take(i) =~= e);
    }
}

/// The offset of a service plus its own ports stays within the total.
proof fn lemma_offset_fits(e: Seq<(String, ServiceSpec)>, i: int)
    requires
        keys_distinct(e),
        0 <= i < e.len(),
    ensures
        exposed_before(e, e[i].0@) + expose_of(e[i].1).len() <= exposed_total(e),
    decreases e.len(),
{
    let name = e[i].0@;
    let p = e.drop_last();
    if i == e.len() - 1 {
        lemma_seq_lt_irreflexive(name);
        lemma_exposed_before_le_total(p, name);
    } else {
        assert(keys_distinct(p)) by {
            assert forall|a: int, b: int|
                0 <= a < p.len() && 0 <= b < p.len() && a != b implies #[trigger] p[a].0@
                != #[trigger] p[b].0@ by {
                assert(e[a].0@ != e[b].0@);
            }
        }
        assert(p[i] == e[i]);
        lemma_offset_fits(p, i);
    }
}

fn exposed_len(s: &ServiceSpec) -> (n: usize)
    ensures
        n == expose_of(*s).len(),
{
    match &s.expose {
        Some(v) => v.len(),
        None => 0,
    }
}

/// How many ports the services need, if that fits in a `usize`.
pub fn ports_needed(services: &ServiceMap) -> (r: Option<usize>)
    ensures
        match r {
            Some(n) => n == exposed_total(services.entries()),
            None => exposed_total(services.entries()) > usize::MAX,
        },
{
    let n = services.len();
    let ghost e = services.entries();
    let mut total: usize = 0;
    let mut i: usize = 0;
    while i < n
        invariant
            n == e.len(),
            e == services.entries(),
            i <= n,
            total == exposed_total(e.take(i as int)),
        decreases n - i,
    {
        let (_name, spec) = services.entry_at(i);
        let k = exposed_len(spec);
        assert(e.take(i + 1).drop_last() =~= e.take(i as int));
        match total.checked_add(k) {
            Some(t) => {
                total = t;
            },
            None => {
                proof {
                    lemma_total_prefix(e, i + 1);
                }
                return None;
            },
        }
        i += 1;
    }
    assert(e.take(n as int) =~= e);
    Some(total)
}

fn exposed_before_exec(services: &ServiceMap, name: &str) -> (r: usize)
    requires
        exposed_total(services.entries()) <= usize::MAX,
    ensures
        r == exposed_before(services.entries(), name@),
{
    let n = services.len();
    let ghost e = services.entries();
    let mut sum: usize = 0;
    let mut i: usize = 0;
    while i < n
        invariant
            n == e.len(),
            e == services.entries(),
            exposed_total(e) <= usize::MAX,
            i <= n,
            sum == exposed_before(e.take(i as int), name@),
        decreases n - i,
    {
        let (k, spec) = services.entry_at(i);
        assert(e.take(i + 1).drop_last() =~= e.take(i as int));
        proof {
            lemma_total_prefix(e, i + 1);
            lemma_exposed_before_le_total(e.take(i + 1), name@);
        }
        if str_lt(k.as_str(), name) {
            sum = sum + exposed_len(spec);
        }
        i += 1;
    }
    assert(e.take(n as int) =~= e);
    sum
}

proof fn lemma_port_map_shape(x: Seq<Seq<char>>, fp: Seq<u16>, off: int)
    ensures
        port_map(x, fp, off).dom() == x.to_set(),
        forall|n: Seq<char>|
            #[trigger] port_map(x, fp, off).dom().contains(n) ==> exists|j: int|
                0 <= j < x.len() && port_map(x, fp, off)[n] == #[trigger] fp[off + j],
    decreases x.len(),
{
    if x.len() > 0 {
        let d = x.drop_last();
        lemma_port_map_shape(d, fp, off);
        assert(x.to_set() =~= d.to_set().insert(x.last())) by {
            assert forall|a: Seq<char>| x.to_set().contains(a) <==> d.to_set().insert(x.last()).contains(a) by {
                if x.contains(a) && a != x.last() {
                    let i = choose|i: int| 0 <= i < x.len() && x[i] == a;
                    assert(i < x.len() - 1);
                    assert(d[i] == a);
                }
                if d.contains(a) {
                    let i = choose|i: int| 0 <= i < d.len() && d[i] == a;
                    assert(x[i] == a);
                }
            }
        }
        let m = port_map(x, fp, off);
        assert forall|n: Seq<char>| #[trigger] m.dom().contains(n) implies exists|j: int|
            0 <= j < x.len() && m[n] == #[trigger] fp[off + j] by {
            if n == x.last() {
                assert(m[n] == fp[off + (x.len() - 1)]);
            } else {
                let j = choose|j: int| 0 <= j < d.len() && port_map(d, fp, off)[n] == #[trigger] fp[off + j];
                assert(m[n] == fp[off + j]);
            }
        }
    }
}

/// Allocation gives every service, and nothing else, a port map whose names
/// are exactly the names it exposes; where every free port is positive, so
/// is every allocated port.
pub proof fn lemma_allocation_covers_exposed_names(services: ServiceMap, fp: Seq<u16>)
    requires
        keys_distinct(services.entries()),
        fp.len() >= exposed_total(services.entries()),
    ensures
        alloc_view(services, fp).dom() == services.view_map().dom(),
        forall|k: Seq<char>|
            services.view_map().dom().contains(k) ==> #[trigger] alloc_view(services, fp)[k].dom()
                == expose_of(services.view_map()[k]).to_set(),
        (forall|j: int| 0 <= j < fp.len() ==> #[trigger] fp[j] > 0) ==> forall|k: Seq<char>, n: Seq<char>|
            services.view_map().dom().contains(k) && #[trigger] alloc_view(services, fp)[k].dom().contains(n)
                ==> #[trigger] alloc_view(services, fp)[k][n] > 0,
{
    let e = services.entries();
    let a = alloc_view(services, fp);
    assert(a.dom() =~= services.view_map().dom());
    assert forall|k: Seq<char>| services.view_map().dom().contains(k) implies #[trigger] a[k].dom()
        == expose_of(services.view_map()[k]).to_set() by {
        lemma_port_map_shape(expose_of(services.view_map()[k]), fp, exposed_before(e, k) as int);
    }
    if forall|j: int| 0 <= j < fp.len() ==> #[trigger] fp[j] > 0 {
        assert forall|k: Seq<char>, n: Seq<char>|
            services.view_map().dom().contains(k) && #[trigger] a[k].dom().contains(n) implies #[trigger] a[k][n] > 0 by {
            let i = choose|i: int| 0 <= i < e.len() && e[i].0@ == k;
            lemma_entry_in_map(e, i);
            lemma_offset_fits(e, i);
            let x = expose_of(services.view_map()[k]);
            let off = exposed_before(e, k) as int;
            lemma_port_map_shape(x, fp, off);
            let j = choose|j: int| 0 <= j < x.len() && port_map(x, fp, off)[n] == #[trigger] fp[off + j];
            assert(0 <= off + j < fp.len());
        }
    }
}

/// Give every exposed port name of every service a port from `free_ports`.
///
/// Services are taken in name order and their names in the order listed,
/// each taking the next free port.
pub fn allocate_ports(services: &ServiceMap, free_ports: &Vec<u16>) -> (r: Result<
    PortRegistry,
    String,
>)
    requires
        free_ports@.len() >= exposed_total(services.entries()),
    ensures
        r matches Ok(p) && ports_view(p) == alloc_view(*services, free_ports@),
{
    let ghost fp = free_ports@;
    let nf = free_ports.len();
    let n = services.len();
    let ghost e = services.entries();
    let mut registry: PortRegistry = StrMap::new();
    let mut i: usize = 0;
    while i < n
        invariant
            n == e.len(),
            e == services.entries(),
            keys_distinct(e),
            fp == free_ports@,
            nf == fp.len(),
            fp.len() >= exposed_total(e),
            i <= n,
            forall|k: Seq<char>|
                #[trigger] ports_view(registry).dom().contains(k) <==> exists|j: int|
                    0 <= j < i && #[trigger] e[j].0@ == k,
            forall|k: Seq<char>|
                #[trigger] ports_view(registry).dom().contains(k) ==> ports_view(registry)[k]
                    == alloc_view(*services, fp)[k],
        decreases n - i,
    {
        let (name, spec) = services.entry_at(i);
        proof {
            lemma_offset_fits(e, i as int);
            lemma_exposed_before_le_total(e, name@);
            lemma_entry_in_map(e, i as int);
        }
        let off = exposed_before_exec(services, name.as_str());
        let mut svc_ports: StrMap<u16> = StrMap::new();
        let ghost x = expose_of(*spec);
        match &spec.expose {
            Some(list) => {
                let mut j: usize = 0;
                assert(x.take(0) =~= Seq::<Seq<char>>::empty());
                while j < list.len()
                    invariant
                        x == strs_view(list@),
                        j <= list@.len(),
                        off + list@.len() <= fp.len(),
                        nf == fp.len(),
                        fp == free_ports@,
                        svc_ports.view_map() == port_map(x.take(j as int), fp, off as int),
                    decreases list@.len() - j,
                {
                    assert(x.take(j + 1).drop_last() =~= x.take(j as int));
                    svc_ports.insert(list[j].clone(), free_ports[off + j]);
                    j += 1;
                }
                assert(x.take(list@.len() as int) =~= x);
            },
            None => {
                assert(x =~= Seq::<Seq<char>>::empty());
            },
        }
        let ghost old_reg = registry;
        registry.insert(name.clone(), svc_ports);
        proof {
            assert(ports_view(registry) =~= ports_view(old_reg).insert(name@, svc_ports.view_map()));
            assert(alloc_view(*services, fp)[name@] == svc_ports.view_map());
            assert forall|k: Seq<char>|
                #[trigger] ports_view(registry).dom().contains(k) <==> exists|j: int|
                    0 <= j < i + 1 && #[trigger] e[j].0@ == k by {
                if ports_view(registry).dom().contains(k) && k != name@ {
                    assert(ports_view(old_reg).dom().contains(k));
                }
                if exists|j: int| 0 <= j < i + 1 && #[trigger] e[j].0@ == k {
                    if k != name@ {
                        let j = choose|j: int| 0 <= j < i + 1 && #[trigger] e[j].0@ == k;
                        assert(j < i);
                        assert(ports_view(old_reg).dom().contains(k));
                    }
                }
            }
        }
        i += 1;
    }
    proof {
        assert(ports_view(registry) =~= alloc_view(*services, fp)) by {
            assert forall|k: Seq<char>|
                #[trigger] alloc_view(*services, fp).dom().contains(k) implies ports_view(registry).dom().contains(k) by {
                assert(services.view_map().dom().contains(k));
                assert(entries_map(e).dom().contains(k));
                let j = choose|j: int| 0 <= j < e.len() && e[j].0@ == k;
                assert(e[j].0@ == k);
            }
        }
    }
    Ok(registry)
}


// ---------------------------------------------------------------------------
// Placeholder injection into a service

/// Every value of an environment list has its placeholders resolved.
pub open spec fn env_ok(
    e: Seq<(String, String)>,
    my: Seq<char>,
    pv: Map<Seq<char>, Map<Seq<char>, u16>>,
) -> bool {
    forall|i: int| 0 <= i < e.len() ==> (#[trigger] replaced(e[i].1@, my, pv)) is Ok
}

/// An optional string whose placeholders resolve.
pub open spec fn opt_ok(
    s: Option<String>,
    my: Seq<char>,
    pv: Map<Seq<char>, Map<Seq<char>, u16>>,
) -> bool {
    s matches Some(h) ==> replaced(h@, my, pv) is Ok
}

pub open spec fn probe_ok(
    p: ReadinessProbe,
    my: Seq<char>,
    pv: Map<Seq<char>, Map<Seq<char>, u16>>,
) -> bool {
    &&& opt_ok(p.http_get, my, pv)
    &&& opt_ok(p.tcp_connect, my, pv)
    &&& port_field_spec(p.port@, my, pv) is Ok
}

/// Injection into service `my` succeeds.
pub open spec fn inject_ok(
    s: ServiceSpec,
    my: Seq<char>,
    pv: Map<Seq<char>, Map<Seq<char>, u16>>,
) -> bool {
    &&& replaced(s.entrypoint@, my, pv) is Ok
    &&& (s.env matches Some(m) ==> env_ok(m.entries(), my, pv))
    &&& (s.readiness_probe matches Some(p) ==> probe_ok(p, my, pv))
}

/// `e` is the error of one of the fields of `s`.
pub open spec fn is_field_error(
    s: ServiceSpec,
    my: Seq<char>,
    pv: Map<Seq<char>, Map<Seq<char>, u16>>,
    e: Seq<char>,
) -> bool {
    ||| replaced(s.entrypoint@, my, pv) == Err::<Seq<char>, Seq<char>>(e)
    ||| (s.env matches Some(m) && exists|i: int|
        0 <= i < m.entries().len() && #[trigger] replaced(m.entries()[i].1@, my, pv) == Err::<
            Seq<char>,
            Seq<char>,
        >(e))
    ||| (s.readiness_probe matches Some(p) && probe_field_error(p, my, pv, e))
}

/// `e` is the error of one of the fields of probe `p`.
pub open spec fn probe_field_error(
    p: ReadinessProbe,
    my: Seq<char>,
    pv: Map<Seq<char>, Map<Seq<char>, u16>>,
    e: Seq<char>,
) -> bool {
    ||| (p.http_get matches Some(h) && replaced(h@, my, pv) == Err::<Seq<char>, Seq<char>>(e))
    ||| (p.tcp_connect matches Some(h) && replaced(h@, my, pv) == Err::<Seq<char>, Seq<char>>(e))
    ||| port_field_spec(p.port@, my, pv) == Err::<Seq<char>, Seq<char>>(e)
}

pub open spec fn opt_strs(v: Option<Vec<String>>) -> Option<Seq<Seq<char>>> {
    match v {
        Some(x) => Some(strs_view(x@)),
        None => None,
    }
}

/// `new` holds the placeholders of `old` resolved.
pub open spec fn opt_injected(
    old: Option<String>,
    new: Option<String>,
    my: Seq<char>,
    pv: Map<Seq<char>, Map<Seq<char>, u16>>,
) -> bool {
    match (old, new) {
        (None, None) => true,
        (Some(a), Some(b)) => replaced(a@, my, pv) == Ok::<Seq<char>, Seq<char>>(b@),
        _ => false,
    }
}

pub open spec fn env_injected(
    old: Seq<(String, String)>,
    new: Seq<(String, String)>,
    my: Seq<char>,
    pv: Map<Seq<char>, Map<Seq<char>, u16>>,
) -> bool {
    &&& new.len() == old.len()
    &&& forall|i: int|
        0 <= i < old.len() ==> (#[trigger] new[i]).0@ == old[i].0@ && replaced(old[i].1@, my, pv)
            == Ok::<Seq<char>, Seq<char>>(new[i].1@)
}

/// `new` is `old` with every placeholder resolved for service `my`; the
/// dependency and expose lists are unchanged.
pub open spec fn injected_as(
    old: ServiceSpec,
    new: ServiceSpec,
    my: Seq<char>,
    pv: Map<Seq<char>, Map<Seq<char>, u16>>,
) -> bool {
    &&& replaced(old.entrypoint@, my, pv) == Ok::<Seq<char>, Seq<char>>(new.entrypoint@)
    &&& opt_strs(new.depends_on) == opt_strs(old.depends_on)
    &&& opt_strs(new.expose) == opt_strs(old.expose)
    &&& match (old.env, new.env) {
        (None, None) => true,
        (Some(a), Some(b)) => env_injected(a.entries(), b.entries(), my, pv),
        _ => false,
    }
    &&& match (old.readiness_probe, new.readiness_probe) {
        (None, None) => true,
        (Some(a), Some(b)) => {
            &&& opt_injected(a.http_get, b.http_get, my, pv)
            &&& opt_injected(a.tcp_connect, b.tcp_connect, my, pv)
            &&& port_field_spec(a.port@, my, pv) == Ok::<Seq<char>, Seq<char>>(b.port@)
        },
        _ => false,
    }
}

fn inject_opt(s: &Option<String>, my_name: &str, ports: &PortRegistry) -> (r: Result<
    Option<String>,
    String,
>)
    ensures
        r is Ok <==> opt_ok(*s, my_name@, ports_view(*ports)),
        r matches Ok(n) ==> opt_injected(*s, n, my_name@, ports_view(*ports)),
        r matches Err(e) ==> (s matches Some(h) && replaced(h@, my_name@, ports_view(*ports))
            == Err::<Seq<char>, Seq<char>>(e@)),
{
    match s {
        Some(h) => match replace_placeholders(h.as_str(), my_name, ports) {
            Ok(x) => Ok(Some(x)),
            Err(e) => Err(e),
        },
        None => Ok(None),
    }
}

fn inject_env(env: &StrMap<String>, my_name: &str, ports: &PortRegistry) -> (r: Result<
    StrMap<String>,
    String,
>)
    ensures
        r is Ok <==> env_ok(env.entries(), my_name@, ports_view(*ports)),
        r matches Ok(m) ==> env_injected(env.entries(), m.entries(), my_name@, ports_view(*ports)),
        r matches Err(x) ==> exists|i: int|
            0 <= i < env.entries().len() && #[trigger] replaced(
                env.entries()[i].1@,
                my_name@,
                ports_view(*ports),
            ) == Err::<Seq<char>, Seq<char>>(x@),
{
    let ghost pv = ports_view(*ports);
    let ghost e = env.entries();
    let n = env.len();
    let mut out: StrMap<String> = StrMap::new();
    let mut i: usize = 0;
    while i < n
        invariant
            n == e.len(),
            e == env.entries(),
            keys_distinct(e),
            pv == ports_view(*ports),
            i <= n,
            out.entries().len() == i,
            forall|k: int|
                0 <= k < i ==> (#[trigger] out.entries()[k]).0@ == e[k].0@ && replaced(
                    e[k].1@,
                    my_name@,
                    pv,
                ) == Ok::<Seq<char>, Seq<char>>(out.entries()[k].1@),
            forall|k: Seq<char>|
                #[trigger] out.view_map().dom().contains(k) ==> exists|j: int|
                    0 <= j < i && #[trigger] e[j].0@ == k,
        decreases n - i,
    {
        let (k, v) = env.entry_at(i);
        match replace_placeholders(v.as_str(), my_name, ports) {
            Err(x) => {
                proof {
                    assert(replaced(e[i as int].1@, my_name@, pv) == Err::<Seq<char>, Seq<char>>(x@));
                }
                return Err(x);
            },
            Ok(nv) => {
                let ghost o = out.entries();
                proof {
                    if out.view_map().dom().contains(k@) {
                        let j = choose|j: int| 0 <= j < i && #[trigger] e[j].0@ == k@;
                        assert(e[j].0@ != e[i as int].0@);
                    }
                }
                out.insert(k.clone(), nv);
                proof {
                    assert forall|q: Seq<char>|
                        #[trigger] out.view_map().dom().contains(q) implies exists|j: int|
                            0 <= j < i + 1 && #[trigger] e[j].0@ == q by {
                        if q != k@ {
                            assert(out.view_map().dom().contains(q));
                        } else {
                            assert(e[i as int].0@ == q);
                        }
                    }
                }
                i += 1;
            },
        }
    }
    proof {
        assert forall|q: int| 0 <= q < e.len() implies (#[trigger] replaced(e[q].1@, my_name@, pv)) is Ok by {
            assert(out.entries()[q].0@ == e[q].0@);
        }
    }
    Ok(out)
}

/// Injection keeps the dependency and expose lists and the environment
/// keys, and leaves no `{{` in the entrypoint, in any environment value or
/// in the probe's fields.
pub proof fn lemma_injection_resolves_everything(
    old: ServiceSpec,
    new: ServiceSpec,
    my: Seq<char>,
    pv: Map<Seq<char>, Map<Seq<char>, u16>>,
)
    requires
        injected_as(old, new, my, pv),
    ensures
        opt_strs(new.depends_on) == opt_strs(old.depends_on),
        opt_strs(new.expose) == opt_strs(old.expose),
        no_open_mark(new.entrypoint@),
        new.env is Some <==> old.env is Some,
        new.env matches Some(b) ==> old.env matches Some(a) && b.entries().len() == a.entries().len()
            && forall|i: int| 0 <= i < b.entries().len() ==> (#[trigger] b.entries()[i]).0@ == a.entries()[i].0@
            && no_open_mark(b.entries()[i].1@),
        new.readiness_probe is Some <==> old.readiness_probe is Some,
        new.readiness_probe matches Some(p) ==> (p.http_get matches Some(h) ==> no_open_mark(h@)) && (
        p.tcp_connect matches Some(c) ==> no_open_mark(c@)) && no_open_mark(p.port@),
{
    lemma_replaced_leaves_no_placeholder(old.entrypoint@, my, pv);
    match (old.env, new.env) {
        (Some(a), Some(b)) => {
            assert forall|i: int| 0 <= i < b.entries().len() implies no_open_mark(#[trigger] b.entries()[i].1@) by {
                lemma_replaced_leaves_no_placeholder(a.entries()[i].1@, my, pv);
            }
        },
        _ => {},
    }
    match (old.readiness_probe, new.readiness_probe) {
        (Some(a), Some(b)) => {
            match a.http_get {
                Some(h) => lemma_replaced_leaves_no_placeholder(h@, my, pv),
                None => {},
            }
            match a.tcp_connect {
                Some(c) => lemma_replaced_leaves_no_placeholder(c@, my, pv),
                None => {},
            }
            let t = trim(a.port@);
            lemma_replaced_leaves_no_placeholder(t, my, pv);
            if !contains_seq(t, open_mark()) {
                if all_ascii_digits(t) {
                    assert forall|i: int| 0 <= i && i + 1 < t.len() implies !#[trigger] open_at(t, i) by {
                        assert(is_ascii_digit(t[i]));
                    }
                } else {
                    match lookup_local_spec(my, t, pv) {
                        Ok(q) => {
                            lemma_dec_no_brace(q as nat);
                            let d = dec(q as nat);
                            assert forall|i: int| 0 <= i && i + 1 < d.len() implies !#[trigger] open_at(d, i) by {
                                assert(d[i] != '{');
                            }
                        },
                        Err(_) => {},
                    }
                }
            }
        },
        _ => {},
    }
}

/// Resolve the placeholders of one service: its entrypoint, its environment
/// values and its readiness probe.
pub fn inject_service_spec(spec: &ServiceSpec, my_name: &str, ports: &PortRegistry) -> (r: Result<
    ServiceSpec,
    String,
>)
    ensures
        r is Ok <==> inject_ok(*spec, my_name@, ports_view(*ports)),
        r matches Ok(n) ==> injected_as(*spec, n, my_name@, ports_view(*ports)),
        r matches Err(e) ==> is_field_error(*spec, my_name@, ports_view(*ports), e@),
        replaced(spec.entrypoint@, my_name@, ports_view(*ports)) matches Err(x) ==> r matches Err(
            e,
        ) && e@ == x,
{
    let entrypoint = match replace_placeholders(spec.entrypoint.as_str(), my_name, ports) {
        Ok(x) => x,
        Err(e) => {
            return Err(e);
        },
    };
    let env = match &spec.env {
        Some(m) => match inject_env(m, my_name, ports) {
            Ok(x) => Some(x),
            Err(e) => {
                return Err(e);
            },
        },
        None => None,
    };
    let readiness_probe = match &spec.readiness_probe {
        Some(p) => {
            let http_get = match inject_opt(&p.http_get, my_name, ports) {
                Ok(x) => x,
                Err(e) => {
                    return Err(e);
                },
            };
            let tcp_connect = match inject_opt(&p.tcp_connect, my_name, ports) {
                Ok(x) => x,
                Err(e) => {
                    return Err(e);
                },
            };
            let port = match resolve_port_field(p.port.as_str(), my_name, ports) {
                Ok(x) => x,
                Err(e) => {
                    return Err(e);
                },
            };
            Some(ReadinessProbe { http_get, tcp_connect, port })
        },
        None => None,
    };
    Ok(
        ServiceSpec {
            entrypoint,
            depends_on: copy_opt_strings(&spec.depends_on),
            expose: copy_opt_strings(&spec.expose),
            env,
            readiness_probe,
        },
    )
}

/// Injection succeeds for every service.
pub open spec fn all_inject_ok(services: ServiceMap, pv: Map<Seq<char>, Map<Seq<char>, u16>>) -> bool {
    forall|i: int|
        0 <= i < services.entries().len() ==> #[trigger] inject_ok(
            services.entries()[i].1,
            services.entries()[i].0@,
            pv,
        )
}

/// `out` holds every service of `services`, in the same order, injected.
pub open spec fn all_injected(
    services: ServiceMap,
    out: ServiceMap,
    pv: Map<Seq<char>, Map<Seq<char>, u16>>,
) -> bool {
    &&& out.entries().len() == services.entries().len()
    &&& forall|i: int|
        0 <= i < services.entries().len() ==> (#[trigger] out.entries()[i]).0@
            == services.entries()[i].0@ && injected_as(
            services.entries()[i].1,
            out.entries()[i].1,
            services.entries()[i].0@,
            pv,
        )
}

/// Some service fails injection, with error `x`.
pub open spec fn service_fails_with(
    services: ServiceMap,
    pv: Map<Seq<char>, Map<Seq<char>, u16>>,
    x: Seq<char>,
) -> bool {
    exists|i: int|
        0 <= i < services.entries().len() && !inject_ok(
            services.entries()[i].1,
            services.entries()[i].0@,
            pv,
        ) && #[trigger] is_field_error(services.entries()[i].1, services.entries()[i].0@, pv, x)
}

/// Resolve the placeholders of every service.
pub fn inject_all_services(services: &ServiceMap, ports: &PortRegistry) -> (r: Result<
    ServiceMap,
    String,
>)
    ensures
        r is Ok <==> all_inject_ok(*services, ports_view(*ports)),
        r matches Ok(m) ==> all_injected(*services, m, ports_view(*ports)),
        r matches Err(x) ==> service_fails_with(*services, ports_view(*ports), x@),
{
    let ghost pv = ports_view(*ports);
    let ghost e = services.entries();
    let n = services.len();
    let mut out: ServiceMap = StrMap::new();
    let mut i: usize = 0;
    while i < n
        invariant
            n == e.len(),
            e == services.entries(),
            keys_distinct(e),
            pv == ports_view(*ports),
            i <= n,
            out.entries().len() == i,
            forall|k: int|
                0 <= k < i ==> (#[trigger] out.entries()[k]).0@ == e[k].0@ && injected_as(
                    e[k].1,
                    out.entries()[k].1,
                    e[k].0@,
                    pv,
                ) && inject_ok(e[k].1, e[k].0@, pv),
            forall|k: Seq<char>|
                #[trigger] out.view_map().dom().contains(k) ==> exists|j: int|
                    0 <= j < i && #[trigger] e[j].0@ == k,
        decreases n - i,
    {
        let (name, spec) = services.entry_at(i);
        match inject_service_spec(spec, name.as_str(), ports) {
            Err(x) => {
                proof {
                    assert(*spec == e[i as int].1);
                    assert(!inject_ok(e[i as int].1, e[i as int].0@, pv));
                    assert(is_field_error(services.entries()[i as int].1, services.entries()[i as int].0@, pv, x@));
                    assert(service_fails_with(*services, pv, x@));
                }
                return Err(x);
            },
            Ok(ns) => {
                proof {
                    if out.view_map().dom().contains(name@) {
                        let j = choose|j: int| 0 <= j < i && #[trigger] e[j].0@ == name@;
                        assert(e[j].0@ != e[i as int].0@);
                    }
                }
                let ghost o = out.entries();
                let ghost nsv = ns;
                let key = name.clone();
                out.insert(key, ns);
                proof {
                    assert(out.entries() == o.push((key, nsv)));
                    assert(injected_as(e[i as int].1, nsv, e[i as int].0@, pv));
                    assert(inject_ok(e[i as int].1, e[i as int].0@, pv));
                    assert forall|k: int| 0 <= k < i + 1 implies (#[trigger] out.entries()[k]).0@ == e[k].0@ && injected_as(
                        e[k].1, out.entries()[k].1, e[k].0@, pv) && inject_ok(e[k].1, e[k].0@, pv) by {
                        if k < i {
                            assert(out.entries()[k] == o[k]);
                        }
                    }
                    assert forall|q: Seq<char>|
                        #[trigger] out.view_map().dom().contains(q) implies exists|j: int|
                            0 <= j < i + 1 && #[trigger] e[j].0@ == q by {
                        if q != name@ {
                            assert(out.view_map().dom().contains(q));
                        } else {
                            assert(e[i as int].0@ == q);
                        }
                    }
                }
                i += 1;
            },
        }
    }
    proof {
        assert forall|q: int| 0 <= q < e.len() implies #[trigger] inject_ok(
            services.entries()[q].1, services.entries()[q].0@, pv) by {
            assert(out.entries()[q].0@ == e[q].0@);
        }
    }
    Ok(out)
}

// ---------------------------------------------------------------------------
// The plan

/// Order the services, give them ports from `free_ports` and resolve their
/// placeholders.
pub fn build_supervisor_mode_plan(services: &ServiceMap, free_ports: &Vec<u16>) -> (r: Result<
    SupervisorModePlan,
    String,
>)
    requires
        free_ports@.len() >= exposed_total(services.entries()),
    ensures
        r is Ok <==> deps_known(service_graph(*services)) && !has_cycle(service_graph(*services))
            && all_inject_ok(*services, alloc_view(*services, free_ports@)),
        r matches Ok(plan) ==> {
            &&& is_dependency_order(service_graph(*services), strs_view(plan.startup_order@))
            &&& no_deps(service_graph(*services)) ==> names_ascending(strs_view(plan.startup_order@))
            &&& dependency_order(service_graph(*services)) == Ok::<Seq<Seq<char>>, Seq<char>>(strs_view(plan.startup_order@))
            &&& ports_view(plan.ports) == alloc_view(*services, free_ports@)
            &&& all_injected(*services, plan.services, alloc_view(*services, free_ports@))
        },
        r matches Err(x) ==> {
            ||| is_genuine_error(service_graph(*services), x@)
            ||| service_fails_with(*services, alloc_view(*services, free_ports@), x@)
        },
        !(deps_known(service_graph(*services)) && !has_cycle(service_graph(*services))) ==> (r matches Err(x)
            && is_genuine_error(service_graph(*services), x@)),
        dependency_order(service_graph(*services)) matches Err(e) ==> (r matches Err(x) && x@ == e),
{
    let startup_order = match resolve_dependencies(services) {
        Ok(o) => o,
        Err(e) => {
            return Err(e);
        },
    };
    let ports = match allocate_ports(services, free_ports) {
        Ok(p) => p,
        Err(e) => {
            return Err(e);
        },
    };
    let injected = match inject_all_services(services, &ports) {
        Ok(s) => s,
        Err(e) => {
            return Err(e);
        },
    };
    Ok(SupervisorModePlan { startup_order, ports, services: injected })
}

/// Timing of a supervisor-mode run, in milliseconds.
#[derive(Debug, Clone, Copy)]
pub struct SupervisorModeRunOptions {
    /// How long a service may take to become ready.
    pub readiness_timeout: u64,
    /// Pause between readiness probes.
    pub readiness_interval: u64,
    /// How long services get to stop after a termination signal.
    pub shutdown_grace: u64,
    /// How long to wait after killing a service.
    pub kill_wait: u64,
}

impl Default for SupervisorModeRunOptions {
    /// Ready within 30 s, probed every 200 ms; 2 s to stop, 250 ms after a kill.
    fn default() -> (r: Self)
        ensures
            r.readiness_timeout == 30_000,
            r.readiness_interval == 200,
            r.shutdown_grace == 2_000,
            r.kill_wait == 250,
    {
        SupervisorModeRunOptions {
            readiness_timeout: 30_000,
            readiness_interval: 200,
            shutdown_grace: 2_000,
            kill_wait: 250,
        }
    }
}

// ---------------------------------------------------------------------------
// Running the plan

/// An environment's entries as plain pairs.
pub open spec fn env_entries(e: Seq<(String, String)>) -> Seq<(Seq<char>, Seq<char>)> {
    e.map_values(|p: (String, String)| (p.0@, p.1@))
}

/// A service's ports as environment entries (name, decimal port).
pub open spec fn port_entries(e: Seq<(String, u16)>) -> Seq<(Seq<char>, Seq<char>)> {
    e.map_values(|p: (String, u16)| (p.0@, dec(p.1 as nat)))
}

/// The environment a service starts with: the manifest's variables, then
/// its allocated ports (which win over a variable of the same name).
pub open spec fn service_env_spec(spec_env: Option<StrMap<String>>, ports: Option<StrMap<u16>>) -> Seq<
    (Seq<char>, Seq<char>),
> {
    (match spec_env {
        Some(m) => env_entries(m.entries()),
        None => Seq::empty(),
    }) + (match ports {
        Some(p) => port_entries(p.entries()),
        None => Seq::empty(),
    })
}

fn push_env_entries(out: &mut Vec<(String, String)>, m: &StrMap<String>)
    ensures
        env_entries(final(out)@) == env_entries(old(out)@) + env_entries(m.entries()),
{
    let n = m.len();
    let ghost start = env_entries(out@);
    let mut i: usize = 0;
    while i < n
        invariant
            n == m.entries().len(),
            i <= n,
            env_entries(out@) == start + env_entries(m.entries()).take(i as int),
        decreases n - i,
    {
        let (k, v) = m.entry_at(i);
        let kc = k.clone();
        let vc = v.clone();
        let ghost before = out@;
        out.push((kc, vc));
        assert(out@ == before.push((kc, vc)));
        assert(env_entries(out@) =~= env_entries(before).push((kc@, vc@)));
        assert(env_entries(m.entries())[i as int] == (kc@, vc@));
        assert(env_entries(out@) =~= start + env_entries(m.entries()).take(i + 1));
        i += 1;
    }
    assert(env_entries(m.entries()).take(n as int) =~= env_entries(m.entries()));
}

fn push_port_entries(out: &mut Vec<(String, String)>, m: &StrMap<u16>)
    ensures
        env_entries(final(out)@) == env_entries(old(out)@) + port_entries(m.entries()),
{
    let n = m.len();
    let ghost start = env_entries(out@);
    let mut i: usize = 0;
    while i < n
        invariant
            n == m.entries().len(),
            i <= n,
            env_entries(out@) == start + port_entries(m.entries()).take(i as int),
        decreases n - i,
    {
        let (k, p) = m.entry_at(i);
        let kc = k.clone();
        let pc = u64_to_string(*p as u64);
        let ghost before = out@;
        out.push((kc, pc));
        assert(out@ == before.push((kc, pc)));
        assert(env_entries(out@) =~= env_entries(before).push((kc@, pc@)));
        assert(port_entries(m.entries())[i as int] == (kc@, pc@));
        assert(env_entries(out@) =~= start + port_entries(m.entries()).take(i + 1));
        i += 1;
    }
    assert(port_entries(m.entries()).take(n as int) =~= port_entries(m.entries()));
}

/// The command and environment of the service `name` of a plan.
pub fn service_start(plan: &SupervisorModePlan, name: &str) -> (r: Result<(String, Vec<(String, String)>), String>)
    ensures
        !plan.services.view_map().dom().contains(name@) ==> (r matches Err(m) && m@ == "Service '"@ + name@
            + "' missing from plan.services"@),
        plan.services.view_map().dom().contains(name@) ==> (r matches Ok((cmd, env)) && cmd@
            == plan.services.view_map()[name@].entrypoint@ && env_entries(env@) == service_env_spec(
            plan.services.view_map()[name@].env,
            if plan.ports.view_map().dom().contains(name@) {
                Some(plan.ports.view_map()[name@])
            } else {
                None
            },
        )),
{
    let spec = match plan.services.get(name) {
        Some(s) => s,
        None => {
            let mut m = String::from_str("Service '");
            m.append(name);
            m.append("' missing from plan.services");
            return Err(m);
        },
    };
    let mut env: Vec<(String, String)> = Vec::new();
    match &spec.env {
        Some(e) => push_env_entries(&mut env, e),
        None => {},
    }
    match plan.ports.get(name) {
        Some(p) => push_port_entries(&mut env, p),
        None => {},
    }
    Ok((spec.entrypoint.clone(), env))
}

/// `{:?}` of an exit code: `Some(<code>)` or `None`.
pub open spec fn code_debug(code: Option<i32>) -> Seq<char> {
    match code {
        Some(c) => "Some("@ + (if c < 0 { "-"@ + dec((-c) as nat) } else { dec(c as nat) }) + ")"@,
        None => "None"@,
    }
}

fn code_debug_string(code: Option<i32>) -> (r: String)
    ensures
        r@ == code_debug(code),
{
    match code {
        Some(c) => {
            let mut s = String::from_str("Some(");
            if c < 0 {
                s.append("-");
                let m: i64 = -(c as i64);
                let d = u64_to_string(m as u64);
                s.append(d.as_str());
            } else {
                let d = u64_to_string(c as u64);
                s.append(d.as_str());
            }
            s.append(")");
            s
        },
        None => "None".to_owned(),
    }
}

/// Why supervision ended.
#[derive(Debug)]
pub enum ShutdownReason {
    /// A termination signal arrived.
    Signal,
    /// A service exited, with its exit code (none when a signal ended it).
    ServiceExited { service: String, code: Option<i32> },
}

/// How a run ends: a signal is a clean stop, a service that exited fails
/// the run.
pub fn run_result(reason: &ShutdownReason) -> (r: Result<(), String>)
    ensures
        match reason {
            ShutdownReason::Signal => r is Ok,
            ShutdownReason::ServiceExited { service, code } => r matches Err(m) && m@ == "Service '"@ + service@
                + "' exited (code: "@ + code_debug(*code) + ")"@,
        },
{
    match reason {
        ShutdownReason::Signal => Ok(()),
        ShutdownReason::ServiceExited { service, code } => {
            let mut m = String::from_str("Service '");
            m.append(service.as_str());
            m.append("' exited (code: ");
            let c = code_debug_string(*code);
            m.append(c.as_str());
            m.append(")");
            Err(m)
        },
    }
}

/// A service's output line as printed without a log channel:
/// `[<service>] <line>`.
pub fn prefixed_line(service: &str, line: &str) -> (r: String)
    ensures
        r@ == "["@ + service@ + "] "@ + line@,
{
    let mut s = String::from_str("[");
    s.append(service);
    s.append("] ");
    s.append(line);
    s
}

// ---------------------------------------------------------------------------
// Supervising a run

/// Where a supervisor-mode run is.
#[derive(Debug, Clone, Copy, PartialEq, Eq, Structural)]
pub enum SupervisorPhase {
    /// Nothing started yet.
    Idle,
    /// The service at `next` in the startup order is being started.
    Starting,
    /// The service at `next` was started and its readiness is awaited.
    AwaitingReady,
    /// Every service runs; the run waits for an exit or a signal.
    Supervising,
    /// Every service is being stopped.
    ShuttingDown,
    /// The run is over.
    Finished,
}

/// The state of a run: the phase, the position in the startup order, and
/// the first exit or signal seen (one seen while services were still being
/// started is acted on once they all run).
#[derive(Debug)]
pub struct SupervisorState {
    pub phase: SupervisorPhase,
    pub next: usize,
    pub reason: Option<ShutdownReason>,
}

/// What the driver of a run reports.
#[derive(Debug)]
pub enum SupervisorEvent {
    /// Begin the run.
    Begin,
    /// The service being started was spawned.
    Started,
    /// Spawning it failed, with this message.
    StartFailed(String),
    /// The awaited service is ready.
    Ready,
    /// Its readiness probe failed (timed out, or its port is invalid), with
    /// this message.
    ReadinessFailed(String),
    /// A service exited.
    ServiceExited { service: String, code: Option<i32> },
    /// A termination signal arrived.
    Signal,
    /// Every service has been stopped.
    StoppedAll,
}

/// What the driver does next.
#[derive(Debug)]
pub enum SupervisorAction {
    /// Spawn a service: its command (run by the shell) and environment.
    Start { name: String, cmd: String, env: Vec<(String, String)> },
    /// Wait for the service's readiness probe.
    AwaitReady { name: String },
    /// Wait for a service to exit or a signal to arrive.
    Supervise,
    /// Stop every service.
    Shutdown,
    /// End the run with this result.
    Done(Result<(), String>),
    /// Nothing to do for this event.
    Wait,
}

/// The start of a run.
pub fn supervisor_start() -> (s: SupervisorState)
    ensures
        s.phase == SupervisorPhase::Idle,
        s.next == 0,
        s.reason is None,
{
    SupervisorState { phase: SupervisorPhase::Idle, next: 0, reason: None }
}

/// Whether the service `name` of the plan has a readiness probe.
pub open spec fn has_probe(plan: SupervisorModePlan, name: Seq<char>) -> bool {
    plan.services.view_map().dom().contains(name) && plan.services.view_map()[name].readiness_probe is Some
}

/// Moving on to position `k` of the startup order: start that service, or,
/// past the end, supervise (or shut down at once for an exit or signal seen
/// meanwhile). A service missing from the plan ends the run with the error
/// `service_start` gives.
pub open spec fn advanced(
    plan: SupervisorModePlan,
    k: int,
    reason: Option<ShutdownReason>,
    s: SupervisorState,
    a: SupervisorAction,
) -> bool {
    if k < plan.startup_order@.len() {
        let name = plan.startup_order@[k]@;
        if plan.services.view_map().dom().contains(name) {
            &&& s.phase == SupervisorPhase::Starting
            &&& s.next == k
            &&& s.reason == reason
            &&& a matches SupervisorAction::Start { name: n, cmd, env } && n@ == name && cmd@
                == plan.services.view_map()[name].entrypoint@ && env_entries(env@) == service_env_spec(
                plan.services.view_map()[name].env,
                if plan.ports.view_map().dom().contains(name) {
                    Some(plan.ports.view_map()[name])
                } else {
                    None
                },
            )
        } else {
            &&& s.phase == SupervisorPhase::Finished
            &&& s.next == k
            &&& a matches SupervisorAction::Done(Err(m)) && m@ == "Service '"@ + name
                + "' missing from plan.services"@
        }
    } else {
        &&& s.next == k
        &&& s.reason == reason
        &&& match reason {
            Some(_) => s.phase == SupervisorPhase::ShuttingDown && a is Shutdown,
            None => s.phase == SupervisorPhase::Supervising && a is Supervise,
        }
    }
}

/// `r` is how a run with this reason ends (see `run_result`).
pub open spec fn ends_with(reason: ShutdownReason, r: Result<(), String>) -> bool {
    match reason {
        ShutdownReason::Signal => r is Ok,
        ShutdownReason::ServiceExited { service, code } => r matches Err(m) && m@ == "Service '"@ + service@
            + "' exited (code: "@ + code_debug(code) + ")"@,
    }
}

/// The reason an exit or signal gives.
pub open spec fn event_reason(e: SupervisorEvent) -> Option<ShutdownReason> {
    match e {
        SupervisorEvent::ServiceExited { service, code } => Some(ShutdownReason::ServiceExited { service, code }),
        SupervisorEvent::Signal => Some(ShutdownReason::Signal),
        _ => None,
    }
}

/// One step of a run (the decisions of `run_supervisor_mode`): services
/// start one after another in the startup order, each awaited until ready
/// when it has a readiness probe; a failed start or readiness check ends the
/// run with its error; once all run, the first service exit or signal stops
/// every service, and the run ends with `Ok` for a signal and an error
/// naming the service for an exit.
pub open spec fn supervisor_next(
    plan: SupervisorModePlan,
    st: SupervisorState,
    e: SupervisorEvent,
    s: SupervisorState,
    a: SupervisorAction,
) -> bool {
    match (st.phase, e) {
        (SupervisorPhase::Idle, SupervisorEvent::Begin) => advanced(plan, 0, st.reason, s, a),
        (SupervisorPhase::Starting, SupervisorEvent::Started) => if has_probe(
            plan,
            plan.startup_order@[st.next as int]@,
        ) {
            &&& s.phase == SupervisorPhase::AwaitingReady
            &&& s.next == st.next
            &&& s.reason == st.reason
            &&& a matches SupervisorAction::AwaitReady { name } && name@ == plan.startup_order@[st.next as int]@
        } else {
            advanced(plan, st.next + 1, st.reason, s, a)
        },
        (SupervisorPhase::Starting, SupervisorEvent::StartFailed(m)) => s.phase == SupervisorPhase::Finished
            && (a matches SupervisorAction::Done(Err(x)) && x@ == m@),
        (SupervisorPhase::AwaitingReady, SupervisorEvent::Ready) => advanced(plan, st.next + 1, st.reason, s, a),
        (SupervisorPhase::AwaitingReady, SupervisorEvent::ReadinessFailed(m)) => s.phase
            == SupervisorPhase::Finished && (a matches SupervisorAction::Done(Err(x)) && x@ == m@),
        (SupervisorPhase::Supervising, SupervisorEvent::ServiceExited { .. })
        | (SupervisorPhase::Supervising, SupervisorEvent::Signal) => s.phase == SupervisorPhase::ShuttingDown
            && s.next == st.next && s.reason == event_reason(e) && a is Shutdown,
        (SupervisorPhase::Starting, SupervisorEvent::ServiceExited { .. })
        | (SupervisorPhase::Starting, SupervisorEvent::Signal)
        | (SupervisorPhase::AwaitingReady, SupervisorEvent::ServiceExited { .. })
        | (SupervisorPhase::AwaitingReady, SupervisorEvent::Signal) => s.phase == st.phase && s.next == st.next
            && s.reason == (if st.reason is Some { st.reason } else { event_reason(e) }) && a is Wait,
        (SupervisorPhase::ShuttingDown, SupervisorEvent::StoppedAll) => match st.reason {
            Some(reason) => s.phase == SupervisorPhase::Finished && (a matches SupervisorAction::Done(r)
                && ends_with(reason, r)),
            None => s.phase == st.phase && s.next == st.next && s.reason == st.reason && a is Wait,
        },
        _ => s.phase == st.phase && s.next == st.next && s.reason == st.reason && a is Wait,
    }
}

fn advance(plan: &SupervisorModePlan, k: usize, reason: Option<ShutdownReason>) -> (r: (
    SupervisorState,
    SupervisorAction,
))
    requires
        k <= plan.startup_order@.len(),
    ensures
        advanced(*plan, k as int, reason, r.0, r.1),
{
    if k < plan.startup_order.len() {
        let name = &plan.startup_order[k];
        match service_start(plan, name.as_str()) {
            Ok((cmd, env)) => (
                SupervisorState { phase: SupervisorPhase::Starting, next: k, reason },
                SupervisorAction::Start { name: name.clone(), cmd, env },
            ),
            Err(m) => (
                SupervisorState { phase: SupervisorPhase::Finished, next: k, reason },
                SupervisorAction::Done(Err(m)),
            ),
        }
    } else {
        match reason {
            Some(rs) => (
                SupervisorState { phase: SupervisorPhase::ShuttingDown, next: k, reason: Some(rs) },
                SupervisorAction::Shutdown,
            ),
            None => (
                SupervisorState { phase: SupervisorPhase::Supervising, next: k, reason: None },
                SupervisorAction::Supervise,
            ),
        }
    }
}

fn probe_of(plan: &SupervisorModePlan, name: &str) -> (b: bool)
    ensures
        b == has_probe(*plan, name@),
{
    match plan.services.get(name) {
        Some(spec) => spec.readiness_probe.is_some(),
        None => false,
    }
}

/// A state the driver can be in: its position stays within the startup
/// order, and it names a service there while one is being started or
/// awaited.
pub open spec fn state_ok(plan: SupervisorModePlan, st: SupervisorState) -> bool {
    &&& st.next <= plan.startup_order@.len()
    &&& (st.phase == SupervisorPhase::Starting || st.phase == SupervisorPhase::AwaitingReady) ==> st.next
        < plan.startup_order@.len()
}

/// One step of a run (see `supervisor_next`).
pub fn supervisor_step(plan: &SupervisorModePlan, st: SupervisorState, e: SupervisorEvent) -> (r: (
    SupervisorState,
    SupervisorAction,
))
    requires
        state_ok(*plan, st),
    ensures
        supervisor_next(*plan, st, e, r.0, r.1),
        state_ok(*plan, r.0),
{
    let phase = st.phase;
    let next = st.next;
    let total = plan.startup_order.len();
    assert(total == plan.startup_order@.len());
    match phase {
        SupervisorPhase::Idle => match e {
            SupervisorEvent::Begin => advance(plan, 0, st.reason),
            _ => (SupervisorState { phase, next, reason: st.reason }, SupervisorAction::Wait),
        },
        SupervisorPhase::Starting => match e {
            SupervisorEvent::Started => {
                let name = &plan.startup_order[next];
                if probe_of(plan, name.as_str()) {
                    let n = name.clone();
                    (
                        SupervisorState { phase: SupervisorPhase::AwaitingReady, next, reason: st.reason },
                        SupervisorAction::AwaitReady { name: n },
                    )
                } else {
                    advance(plan, next + 1, st.reason)
                }
            },
            SupervisorEvent::StartFailed(m) => (
                SupervisorState { phase: SupervisorPhase::Finished, next, reason: st.reason },
                SupervisorAction::Done(Err(m)),
            ),
            SupervisorEvent::ServiceExited { service, code } => {
                let reason = match st.reason {
                    Some(r) => Some(r),
                    None => Some(ShutdownReason::ServiceExited { service, code }),
                };
                (SupervisorState { phase, next, reason }, SupervisorAction::Wait)
            },
            SupervisorEvent::Signal => {
                let reason = match st.reason {
                    Some(r) => Some(r),
                    None => Some(ShutdownReason::Signal),
                };
                (SupervisorState { phase, next, reason }, SupervisorAction::Wait)
            },
            _ => (SupervisorState { phase, next, reason: st.reason }, SupervisorAction::Wait),
        },
        SupervisorPhase::AwaitingReady => match e {
            SupervisorEvent::Ready => advance(plan, next + 1, st.reason),
            SupervisorEvent::ReadinessFailed(m) => (
                SupervisorState { phase: SupervisorPhase::Finished, next, reason: st.reason },
                SupervisorAction::Done(Err(m)),
            ),
            SupervisorEvent::ServiceExited { service, code } => {
                let reason = match st.reason {
                    Some(r) => Some(r),
                    None => Some(ShutdownReason::ServiceExited { service, code }),
                };
                (SupervisorState { phase, next, reason }, SupervisorAction::Wait)
            },
            SupervisorEvent::Signal => {
                let reason = match st.reason {
                    Some(r) => Some(r),
                    None => Some(ShutdownReason::Signal),
                };
                (SupervisorState { phase, next, reason }, SupervisorAction::Wait)
            },
            _ => (SupervisorState { phase, next, reason: st.reason }, SupervisorAction::Wait),
        },
        SupervisorPhase::Supervising => match e {
            SupervisorEvent::ServiceExited { service, code } => (
                SupervisorState {
                    phase: SupervisorPhase::ShuttingDown,
                    next,
                    reason: Some(ShutdownReason::ServiceExited { service, code }),
                },
                SupervisorAction::Shutdown,
            ),
            SupervisorEvent::Signal => (
                SupervisorState { phase: SupervisorPhase::ShuttingDown, next, reason: Some(ShutdownReason::Signal) },
                SupervisorAction::Shutdown,
            ),
            _ => (SupervisorState { phase, next, reason: st.reason }, SupervisorAction::Wait),
        },
        SupervisorPhase::ShuttingDown => match e {
            SupervisorEvent::StoppedAll => match st.reason {
                Some(reason) => {
                    let r = run_result(&reason);
                    (
                        SupervisorState { phase: SupervisorPhase::Finished, next, reason: Some(reason) },
                        SupervisorAction::Done(r),
                    )
                },
                None => (SupervisorState { phase, next, reason: None }, SupervisorAction::Wait),
            },
            _ => (SupervisorState { phase, next, reason: st.reason }, SupervisorAction::Wait),
        },
        SupervisorPhase::Finished => (SupervisorState { phase, next, reason: st.reason }, SupervisorAction::Wait),
    }
}

/// Fail fast: while every service runs, the exit of any one stops them all,
/// and once they are stopped the run ends with an error naming it.
pub proof fn lemma_exit_stops_all_and_fails(
    plan: SupervisorModePlan,
    st: SupervisorState,
    service: String,
    code: Option<i32>,
    s1: SupervisorState,
    a1: SupervisorAction,
    s2: SupervisorState,
    a2: SupervisorAction,
)
    requires
        st.phase == SupervisorPhase::Supervising,
        supervisor_next(plan, st, SupervisorEvent::ServiceExited { service, code }, s1, a1),
        supervisor_next(plan, s1, SupervisorEvent::StoppedAll, s2, a2),
    ensures
        a1 is Shutdown,
        a2 matches SupervisorAction::Done(Err(m)) && m@ == "Service '"@ + service@ + "' exited (code: "@
            + code_debug(code) + ")"@,
{
}

/// A signal while every service runs stops them all, and the run then ends
/// with `Ok`.
pub proof fn lemma_signal_stops_all_cleanly(
    plan: SupervisorModePlan,
    st: SupervisorState,
    s1: SupervisorState,
    a1: SupervisorAction,
    s2: SupervisorState,
    a2: SupervisorAction,
)
    requires
        st.phase == SupervisorPhase::Supervising,
        supervisor_next(plan, st, SupervisorEvent::Signal, s1, a1),
        supervisor_next(plan, s1, SupervisorEvent::StoppedAll, s2, a2),
    ensures
        a1 is Shutdown,
        a2 matches SupervisorAction::Done(r) && r is Ok,
{
}

} // verus!
