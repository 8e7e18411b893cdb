//! The development runtime: it serves a workload's static files with
//! `python3 -m http.server`. What it serves and how it is started is planned
//! here; the files and the process are the caller's.

use vstd::prelude::*;
use crate::launch_env::{
    env_pairs, env_pairs_of, first_value, first_value_of, last_value, last_value_of, pairs_view,
    proxy_env, proxy_env_for, proxy_url, proxy_url_for, ENV_KEY_EGRESS_TOKEN,
};
use crate::storage::{join_path, path_join};
use crate::text::strs_view;

verus! {

/// Development runtime serving static files.
#[derive(Debug)]
pub struct DevRuntime {
    pub egress_proxy_port: Option<u16>,
}

impl DevRuntime {
    pub fn new(egress_proxy_port: Option<u16>) -> (r: Self)
        ensures
            r.egress_proxy_port == egress_proxy_port,
    {
        DevRuntime { egress_proxy_port }
    }
}

/// Where a workload's own UI is looked for, under the serving directory, in order.
pub open spec fn dev_app_dirs(serve_dir: Seq<char>, workload_id: Seq<char>) -> Seq<Seq<char>> {
    seq![
        path_join(path_join(serve_dir, "examples/apps"@), workload_id),
        path_join(path_join(serve_dir, "../examples/apps"@), workload_id),
        path_join(path_join(serve_dir, "../../examples/apps"@), workload_id),
    ]
}

/// The directories to look in for a workload's UI (each must hold an `index.html`).
pub fn dev_app_candidates(serve_dir: &str, workload_id: &str) -> (r: Vec<String>)
    ensures
        strs_view(r@) == dev_app_dirs(serve_dir@, workload_id@),
{
    let mut r: Vec<String> = Vec::new();
    let a = join_path(serve_dir, "examples/apps");
    r.push(join_path(a.as_str(), workload_id));
    let b = join_path(serve_dir, "../examples/apps");
    r.push(join_path(b.as_str(), workload_id));
    let c = join_path(serve_dir, "../../examples/apps");
    r.push(join_path(c.as_str(), workload_id));
    assert(strs_view(r@) =~= dev_app_dirs(serve_dir@, workload_id@));
    r
}

/// The page served when a workload has no UI of its own.
pub open spec fn default_index_html(workload_id: Seq<char>) -> Seq<char> {
    "<html><body><h1>"@ + workload_id + "</h1><p>No custom UI found in examples/apps/"@ + workload_id
        + ".</p></body></html>"@
}

/// The default page for a workload.
pub fn dev_index_html(workload_id: &str) -> (r: String)
    ensures
        r@ == default_index_html(workload_id@),
{
    let mut s = String::from_str("<html><body><h1>");
    s.append(workload_id);
    s.append("</h1><p>No custom UI found in examples/apps/");
    s.append(workload_id);
    s.append(".</p></body></html>");
    s
}

/// The port served: the last `PORT` entry, else 8000.
pub open spec fn dev_port(env: Seq<Seq<char>>) -> Seq<char> {
    match last_value(env_pairs(env), "PORT"@) {
        Some(p) => p,
        None => "8000"@,
    }
}

/// A planned development server.
#[derive(Debug)]
pub struct DevLaunchPlan {
    pub port: String,
    /// The arguments that follow `python3`.
    pub args: Vec<String>,
    /// The proxy variables.
    pub proxy_env: Vec<(String, String)>,
}

/// The proxy variables of a development server: with an egress proxy, the
/// proxy address, with the first egress token among the entries if any.
pub open spec fn dev_proxy(env: Seq<Seq<char>>, workload_id: Seq<char>, egress_proxy_port: Option<u16>) -> Seq<(Seq<char>, Seq<char>)> {
    match egress_proxy_port {
        Some(p) => proxy_env(proxy_url(workload_id, first_value(env_pairs(env), ENV_KEY_EGRESS_TOKEN@), "127.0.0.1"@, p)),
        None => Seq::empty(),
    }
}

impl DevRuntime {
    /// Plan the development server of a workload from its process environment.
    pub fn plan_launch(&self, process_env: &Vec<String>, workload_id: &str) -> (r: DevLaunchPlan)
        ensures
            r.port@ == dev_port(strs_view(process_env@)),
            strs_view(r.args@) == seq!["-m"@, "http.server"@, dev_port(strs_view(process_env@))],
            pairs_view(r.proxy_env@) == dev_proxy(strs_view(process_env@), workload_id@, self.egress_proxy_port),
    {
        let pairs = env_pairs_of(process_env);
        let port = match last_value_of(&pairs, "PORT") {
            Some(p) => p,
            None => String::from_str("8000"),
        };
        let mut args: Vec<String> = Vec::new();
        args.push(String::from_str("-m"));
        args.push(String::from_str("http.server"));
        args.push(port.clone());
        assert(strs_view(args@) =~= seq!["-m"@, "http.server"@, port@]);
        let proxy = match self.egress_proxy_port {
            Some(p) => {
                let token = first_value_of(&pairs, ENV_KEY_EGRESS_TOKEN);
                let url = proxy_url_for(workload_id, &token, "127.0.0.1", p);
                proxy_env_for(url.as_str())
            },
            None => {
                let v: Vec<(String, String)> = Vec::new();
                assert(pairs_view(v@) =~= Seq::<(Seq<char>, Seq<char>)>::empty());
                v
            },
        };
        DevLaunchPlan { port, args, proxy_env: proxy }
    }
}

} // verus!
