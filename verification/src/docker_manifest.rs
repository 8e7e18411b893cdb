//! What the Docker runtime reads of a capsule manifest's JSON.

use vstd::prelude::*;
use crate::docker_launch::DockerManifestFields;
use crate::json::{as_str, as_u64, field, get, json_parse, json_value_of, oref, str_of, u64_of, JsonValue};
use crate::launch_env::pairs_view;
use crate::text::{opt_view, push_string, strs_view, trim, trim_str};

verus! {

/// The value at `a.b` of a document.
pub open spec fn at2(v: JsonValue, a: Seq<char>, b: Seq<char>) -> Option<JsonValue> {
    field(field(Some(v), a), b)
}

/// The first item of an array.
pub open spec fn first_item(o: Option<JsonValue>) -> Option<JsonValue> {
    match o {
        Some(JsonValue::Array(items)) => if items@.len() > 0 {
            Some(items@[0])
        } else {
            None
        },
        _ => None,
    }
}

/// The string items of a list, in order.
pub open spec fn strings_of(items: Seq<JsonValue>) -> Seq<Seq<char>>
    decreases items.len(),
{
    if items.len() == 0 {
        Seq::empty()
    } else {
        strings_of(items.drop_last()) + match items.last() {
            JsonValue::Str(s) => seq![s@],
            _ => Seq::empty(),
        }
    }
}

/// `(name, mount_path)` of the items that have both as strings, in order.
pub open spec fn volumes_of(items: Seq<JsonValue>) -> Seq<(Seq<char>, Seq<char>)>
    decreases items.len(),
{
    if items.len() == 0 {
        Seq::empty()
    } else {
        volumes_of(items.drop_last()) + match (
            str_of(field(Some(items.last()), "name"@)),
            str_of(field(Some(items.last()), "mount_path"@)),
        ) {
            (Some(n), Some(m)) => seq![(n, m)],
            _ => Seq::empty(),
        }
    }
}

/// An optional list of strings, by views.
pub open spec fn opt_strs_view(o: Option<Vec<String>>) -> Option<Seq<Seq<char>>> {
    match o {
        Some(v) => Some(strs_view(v@)),
        None => None,
    }
}

/// The fields are what the manifest `v` holds: `compute.image`,
/// `compute.port`, `execution.entrypoint`, `execution.port`, the
/// `containerPort` of the first entry of `docker.ports`,
/// `execution.env.HOST_PORT`, the string items of `compute.env` (when it is
/// a list) and the volumes of `storage.volumes` that name both a volume and a
/// mount path.
pub open spec fn docker_fields_spec(v: JsonValue, r: DockerManifestFields) -> bool {
    &&& opt_view(r.compute_image) == str_of(at2(v, "compute"@, "image"@))
    &&& r.compute_port == u64_of(at2(v, "compute"@, "port"@))
    &&& opt_view(r.execution_entrypoint) == str_of(at2(v, "execution"@, "entrypoint"@))
    &&& r.execution_port == u64_of(at2(v, "execution"@, "port"@))
    &&& r.docker_container_port == u64_of(field(first_item(at2(v, "docker"@, "ports"@)), "containerPort"@))
    &&& opt_view(r.execution_host_port) == str_of(field(at2(v, "execution"@, "env"@), "HOST_PORT"@))
    &&& opt_strs_view(r.compute_env) == match at2(v, "compute"@, "env"@) {
        Some(JsonValue::Array(items)) => Some(strings_of(items@)),
        _ => None,
    }
    &&& pairs_view(r.volumes@) == match at2(v, "storage"@, "volumes"@) {
        Some(JsonValue::Array(items)) => volumes_of(items@),
        _ => Seq::empty(),
    }
}

/// The value at `a.b`.
fn at2_exec<'a>(v: &'a JsonValue, a: &str, b: &str) -> (r: Option<&'a JsonValue>)
    ensures
        oref(r) == at2(*v, a@, b@),
{
    get(get(Some(v), a), b)
}

/// The string items of a list.
fn strings_in(items: &Vec<JsonValue>) -> (r: Vec<String>)
    ensures
        strs_view(r@) == strings_of(items@),
{
    let mut out: Vec<String> = Vec::new();
    let mut i: usize = 0;
    while i < items.len()
        invariant
            i <= items@.len(),
            strs_view(out@) == strings_of(items@.take(i as int)),
        decreases items@.len() - i,
    {
        assert(items@.take(i + 1).drop_last() =~= items@.take(i as int));
        assert(items@.take(i + 1).last() == items@[i as int]);
        match &items[i] {
            JsonValue::Str(s) => {
                push_string(&mut out, s.clone());
                assert(strs_view(out@) =~= strings_of(items@.take(i + 1)));
            },
            _ => {
                assert(strs_view(out@) =~= strings_of(items@.take(i + 1)));
            },
        }
        i += 1;
    }
    assert(items@.take(items@.len() as int) =~= items@);
    out
}

/// The volumes of a list.
fn volumes_in(items: &Vec<JsonValue>) -> (r: Vec<(String, String)>)
    ensures
        pairs_view(r@) == volumes_of(items@),
{
    let mut out: Vec<(String, String)> = Vec::new();
    let mut i: usize = 0;
    while i < items.len()
        invariant
            i <= items@.len(),
            pairs_view(out@) == volumes_of(items@.take(i as int)),
        decreases items@.len() - i,
    {
        assert(items@.take(i + 1).drop_last() =~= items@.take(i as int));
        assert(items@.take(i + 1).last() == items@[i as int]);
        let item = &items[i];
        let name = as_str(get(Some(item), "name"));
        let mount = as_str(get(Some(item), "mount_path"));
        match (name, mount) {
            (Some(n), Some(m)) => {
                out.push((n, m));
                assert(pairs_view(out@) =~= volumes_of(items@.take(i + 1)));
            },
            _ => {
                assert(pairs_view(out@) =~= volumes_of(items@.take(i + 1)));
            },
        }
        i += 1;
    }
    assert(items@.take(items@.len() as int) =~= items@);
    out
}

/// What the Docker runtime reads of a manifest (see `docker_fields_spec`).
pub fn docker_manifest_fields(v: &JsonValue) -> (r: DockerManifestFields)
    ensures
        docker_fields_spec(*v, r),
{
    let first_port = match at2_exec(v, "docker", "ports") {
        Some(JsonValue::Array(items)) => if items.len() > 0 {
            Some(&items[0])
        } else {
            None
        },
        _ => None,
    };
    let compute_env = match at2_exec(v, "compute", "env") {
        Some(JsonValue::Array(items)) => Some(strings_in(items)),
        _ => None,
    };
    let volumes = match at2_exec(v, "storage", "volumes") {
        Some(JsonValue::Array(items)) => volumes_in(items),
        _ => Vec::new(),
    };
    let r = DockerManifestFields {
        compute_image: as_str(at2_exec(v, "compute", "image")),
        compute_port: as_u64(at2_exec(v, "compute", "port")),
        execution_entrypoint: as_str(at2_exec(v, "execution", "entrypoint")),
        execution_port: as_u64(at2_exec(v, "execution", "port")),
        docker_container_port: as_u64(get(first_port, "containerPort")),
        execution_host_port: as_str(get(at2_exec(v, "execution", "env"), "HOST_PORT")),
        compute_env,
        volumes,
    };
    assert(pairs_view(Seq::<(String, String)>::empty()) =~= Seq::empty());
    r
}

/// What the Docker runtime reads of a manifest's JSON text; `None` where the
/// text is no JSON (the runtime then reads nothing of it).
pub fn docker_manifest_fields_of(json: &str) -> (r: Option<DockerManifestFields>)
    ensures
        match json_parse(json@) {
            Some(v) => r matches Some(f) && docker_fields_spec(v, f),
            None => r is None,
        },
{
    match json_value_of(json) {
        Some(v) => Some(docker_manifest_fields(&v)),
        None => None,
    }
}

/// The keys of an object, in order.
pub open spec fn keys_of(es: Seq<(String, JsonValue)>) -> Seq<Seq<char>> {
    es.map_values(|e: (String, JsonValue)| e.0@)
}

/// The ports an image exposes, from the output of `docker image inspect
/// --format '{{json .Config.ExposedPorts}}'`: the keys of the object it
/// prints (such as `8080/tcp`); none where it prints no JSON object.
pub fn exposed_ports_of(output: &str) -> (r: Vec<String>)
    ensures
        strs_view(r@) == match json_parse(trim(output@)) {
            Some(JsonValue::Object(es)) => keys_of(es@),
            _ => Seq::empty(),
        },
{
    let t = trim_str(output);
    match json_value_of(t.as_str()) {
        Some(JsonValue::Object(es)) => {
            let mut out: Vec<String> = Vec::new();
            let mut i: usize = 0;
            while i < es.len()
                invariant
                    i <= es@.len(),
                    strs_view(out@) == keys_of(es@).take(i as int),
                decreases es@.len() - i,
            {
                push_string(&mut out, es[i].0.clone());
                assert(strs_view(out@) =~= keys_of(es@).take(i + 1));
                i += 1;
            }
            assert(keys_of(es@).take(es@.len() as int) =~= keys_of(es@));
            out
        },
        _ => Vec::new(),
    }
}

} // verus!
