//! Choosing how to run a capsule: the first of its targets, in preference
//! order, that this engine can run; or its legacy runtime when it declares no
//! target.

use vstd::prelude::*;
use crate::runtime::{RuntimeKind, kind_debug};
use crate::text::{
    ascii_lower, copy_opt_string, copy_strings, opt_str_same, str_eq, strs_contain, strs_view,
    all_ascii, to_ascii_lower, to_lowercase, trim, trim_str, unicode_lower, vec_contains_str, chars_of,
};

verus! {

/// Runtime named by a manifest's legacy `execution.runtime` field.
#[derive(Clone, Copy, Debug, PartialEq, Eq, Structural)]
pub enum RuntimeType {
    Wasm,
    Oci,
    Youki,
    Docker,
    Native,
    Source,
}

/// A WebAssembly component target.
#[derive(Debug)]
pub struct WasmTarget {
    pub digest: String,
    pub world: String,
}

/// A source-code target run by an interpreter.
#[derive(Debug)]
pub struct SourceTarget {
    pub language: String,
    pub version: Option<String>,
    pub entrypoint: String,
    pub dependencies: Option<String>,
    pub args: Vec<String>,
}

/// An OCI image target.
#[derive(Debug)]
pub struct OciTarget {
    pub image: String,
    pub digest: Option<String>,
    pub cmd: Vec<String>,
}

/// The targets a manifest declares and the order it prefers them in.
#[derive(Debug)]
pub struct TargetsConfig {
    pub preference: Vec<String>,
    pub wasm: Option<WasmTarget>,
    pub source: Option<SourceTarget>,
    pub oci: Option<OciTarget>,
}

/// The legacy execution section.
#[derive(Debug)]
pub struct CapsuleExecution {
    pub runtime: RuntimeType,
    pub entrypoint: String,
}

/// What resolution reads of a capsule manifest.
#[derive(Debug)]
pub struct CapsuleManifestV1 {
    pub name: String,
    pub version: String,
    pub execution: CapsuleExecution,
    pub targets: Option<TargetsConfig>,
}

pub open spec fn has_any(t: TargetsConfig) -> bool {
    t.wasm is Some || t.source is Some || t.oci is Some
}

/// The order in which targets are tried: the manifest's own, or wasm, source,
/// oci.
pub open spec fn pref_order(t: TargetsConfig) -> Seq<Seq<char>> {
    if t.preference@.len() > 0 {
        strs_view(t.preference@)
    } else {
        seq!["wasm"@, "source"@, "oci"@]
    }
}

impl TargetsConfig {
    /// Whether any target is declared.
    pub fn has_any_target(&self) -> (b: bool)
        ensures
            b == has_any(*self),
    {
        self.wasm.is_some() || self.source.is_some() || self.oci.is_some()
    }

    /// The order in which targets are tried.
    pub fn preference_order(&self) -> (r: Vec<String>)
        ensures
            strs_view(r@) == pref_order(*self),
    {
        if self.preference.len() > 0 {
            copy_strings(&self.preference)
        } else {
            let r = vec!["wasm".to_owned(), "source".to_owned(), "oci".to_owned()];
            assert(strs_view(r@) =~= pref_order(*self));
            r
        }
    }
}

/// Errors of runtime resolution.
#[derive(Debug)]
pub enum ResolveError {
    NoCompatibleTarget { provided: Vec<String>, supported: Vec<String> },
    UnsupportedTarget { target: String },
    ToolchainNotAvailable { toolchain: String },
    ConstraintNotSatisfied { constraint: String },
    InvalidConfiguration { message: String },
}

/// The target chosen to run, with what execution needs of it.
#[derive(Debug)]
pub enum ResolvedTarget {
    Wasm { digest: String, world: String, component_path: Option<String> },
    Source {
        language: String,
        version: Option<String>,
        entrypoint: String,
        dependencies: Option<String>,
        args: Vec<String>,
    },
    Oci { image: String, digest: Option<String>, cmd: Vec<String> },
    Legacy { runtime_type: RuntimeType, entrypoint: String },
}

pub open spec fn kind_of_target(t: ResolvedTarget) -> RuntimeKind {
    match t {
        ResolvedTarget::Wasm { .. } => RuntimeKind::Wasm,
        ResolvedTarget::Source { .. } => RuntimeKind::Source,
        ResolvedTarget::Oci { .. } => RuntimeKind::Youki,
        ResolvedTarget::Legacy { runtime_type, .. } => match runtime_type {
            RuntimeType::Wasm => RuntimeKind::Wasm,
            RuntimeType::Oci | RuntimeType::Youki | RuntimeType::Docker => RuntimeKind::Youki,
            RuntimeType::Native | RuntimeType::Source => RuntimeKind::Source,
        },
    }
}

pub open spec fn target_name(t: ResolvedTarget) -> Seq<char> {
    match t {
        ResolvedTarget::Wasm { .. } => "wasm"@,
        ResolvedTarget::Source { .. } => "source"@,
        ResolvedTarget::Oci { .. } => "oci"@,
        ResolvedTarget::Legacy { .. } => "legacy"@,
    }
}

impl ResolvedTarget {
    /// The runtime kind that runs this target: Wasm for components, the
    /// source runtime for every language, youki for images.
    pub fn runtime_kind(&self) -> (k: RuntimeKind)
        ensures
            k == kind_of_target(*self),
    {
        match self {
            ResolvedTarget::Wasm { .. } => RuntimeKind::Wasm,
            ResolvedTarget::Source { .. } => RuntimeKind::Source,
            ResolvedTarget::Oci { .. } => RuntimeKind::Youki,
            ResolvedTarget::Legacy { runtime_type, .. } => match runtime_type {
                RuntimeType::Wasm => RuntimeKind::Wasm,
                RuntimeType::Oci | RuntimeType::Youki | RuntimeType::Docker => RuntimeKind::Youki,
                RuntimeType::Native | RuntimeType::Source => RuntimeKind::Source,
            },
        }
    }

    pub fn target_type_name(&self) -> (r: &'static str)
        ensures
            r@ == target_name(*self),
    {
        match self {
            ResolvedTarget::Wasm { .. } => "wasm",
            ResolvedTarget::Source { .. } => "source",
            ResolvedTarget::Oci { .. } => "oci",
            ResolvedTarget::Legacy { .. } => "legacy",
        }
    }
}

/// What the engine can run.
#[derive(Debug)]
pub struct ResolveContext {
    /// Platform name, such as `darwin-arm64` or `linux-amd64`.
    pub platform: String,
    /// Runtime kinds the engine supports.
    pub supported_runtimes: Vec<RuntimeKind>,
    pub wasm_available: bool,
    pub docker_available: bool,
    pub gpu_available: bool,
    /// Toolchains present on the host.
    pub available_toolchains: Vec<String>,
    /// Toolchains the engine can provision itself.
    pub jit_toolchains: Vec<String>,
}

impl ResolveContext {
    /// The sets of the context hold no item twice.
    pub open spec fn well_formed(&self) -> bool {
        &&& self.supported_runtimes@.no_duplicates()
        &&& strs_view(self.available_toolchains@).no_duplicates()
        &&& strs_view(self.jit_toolchains@).no_duplicates()
    }
}

/// The engine has toolchain `n`, installed or provisionable.
pub open spec fn knows_toolchain(c: ResolveContext, n: Seq<char>) -> bool {
    strs_contain(c.available_toolchains@, n) || strs_contain(c.jit_toolchains@, n)
}

/// The engine has the toolchain for `language` (compared in lowercase;
/// `python3` and `nodejs` also accept `python` and `node`).
pub open spec fn has_toolchain_spec(c: ResolveContext, language: Seq<char>) -> bool {
    knows_toolchain(c, unicode_lower(language)) || (unicode_lower(language) == "python3"@
        && knows_toolchain(c, "python"@)) || (unicode_lower(language) == "nodejs"@
        && knows_toolchain(c, "node"@))
}

/// Platform name for an OS and an architecture (as Rust names them).
pub open spec fn platform_name(os: Seq<char>, arch: Seq<char>) -> Seq<char> {
    if os == "macos"@ && arch == "aarch64"@ {
        "darwin-arm64"@
    } else if os == "macos"@ && arch == "x86_64"@ {
        "darwin-x86_64"@
    } else if os == "linux"@ && arch == "x86_64"@ {
        "linux-amd64"@
    } else if os == "linux"@ && arch == "aarch64"@ {
        "linux-arm64"@
    } else {
        "unknown"@
    }
}

/// The platform string of the host with the given OS and architecture.
pub fn detect_current_platform(os: &str, arch: &str) -> (r: String)
    ensures
        r@ == platform_name(os@, arch@),
{
    if str_eq(os, "macos") && str_eq(arch, "aarch64") {
        "darwin-arm64".to_owned()
    } else if str_eq(os, "macos") && str_eq(arch, "x86_64") {
        "darwin-x86_64".to_owned()
    } else if str_eq(os, "linux") && str_eq(arch, "x86_64") {
        "linux-amd64".to_owned()
    } else if str_eq(os, "linux") && str_eq(arch, "aarch64") {
        "linux-arm64".to_owned()
    } else {
        "unknown".to_owned()
    }
}

fn kinds_contain(v: &Vec<RuntimeKind>, k: RuntimeKind) -> (r: bool)
    ensures
        r == v@.contains(k),
{
    let mut i: usize = 0;
    while i < v.len()
        invariant
            i <= v@.len(),
            forall|j: int| 0 <= j < i ==> v@[j] != k,
        decreases v@.len() - i,
    {
        if v[i] == k {
            assert(v@[i as int] == k);
            return true;
        }
        i += 1;
    }
    false
}

impl ResolveContext {
    /// A context in which every runtime is available: Wasm, youki and source;
    /// python and node installed; python, node, deno and bun provisionable.
    pub fn with_all_runtimes(platform: String) -> (c: Self)
        ensures
            c.platform@ == platform@,
            c.supported_runtimes@ == seq![RuntimeKind::Wasm, RuntimeKind::Youki, RuntimeKind::Source],
            c.wasm_available,
            c.docker_available,
            !c.gpu_available,
            strs_view(c.available_toolchains@) == seq!["python"@, "node"@],
            strs_view(c.jit_toolchains@) == seq!["python"@, "node"@, "deno"@, "bun"@],
            c.well_formed(),
    {
        let supported = vec![RuntimeKind::Wasm, RuntimeKind::Youki, RuntimeKind::Source];
        let toolchains = vec!["python".to_owned(), "node".to_owned()];
        let jit = vec!["python".to_owned(), "node".to_owned(), "deno".to_owned(), "bun".to_owned()];
        assert(strs_view(toolchains@) =~= seq!["python"@, "node"@]);
        assert(strs_view(jit@) =~= seq!["python"@, "node"@, "deno"@, "bun"@]);
        proof {
            reveal_strlit("python");
            reveal_strlit("node");
            reveal_strlit("deno");
            reveal_strlit("bun");
            assert("python"@[0] != "node"@[0]);
            assert("python"@[0] != "deno"@[0]);
            assert("python"@[0] != "bun"@[0]);
            assert("node"@[0] != "deno"@[0]);
            assert("node"@[0] != "bun"@[0]);
            assert("deno"@[0] != "bun"@[0]);
        }
        ResolveContext {
            platform,
            supported_runtimes: supported,
            wasm_available: true,
            docker_available: true,
            gpu_available: false,
            available_toolchains: toolchains,
            jit_toolchains: jit,
        }
    }

    /// Whether the toolchain for `language` is installed or provisionable.
    pub fn has_toolchain(&self, language: &str) -> (b: bool)
        ensures
            all_ascii(language@) ==> unicode_lower(language@) == ascii_lower(language@),
            b == has_toolchain_spec(*self, language@),
    {
        let normalized = to_lowercase(language);
        let n = normalized.as_str();
        proof {
            reveal_strlit("python3");
            reveal_strlit("nodejs");
            assert("python3"@[0] != "nodejs"@[0]);
        }
        if vec_contains_str(&self.available_toolchains, n) || vec_contains_str(&self.jit_toolchains, n) {
            return true;
        }
        if str_eq(n, "python3") {
            vec_contains_str(&self.available_toolchains, "python") || vec_contains_str(
                &self.jit_toolchains,
                "python",
            )
        } else if str_eq(n, "nodejs") {
            vec_contains_str(&self.available_toolchains, "node") || vec_contains_str(
                &self.jit_toolchains,
                "node",
            )
        } else {
            false
        }
    }
}

// ---------------------------------------------------------------------------
// Targets one by one

pub open spec fn wasm_ok(w: WasmTarget, c: ResolveContext) -> bool {
    c.supported_runtimes@.contains(RuntimeKind::Wasm) && c.wasm_available && w.digest@.len() > 0
}

/// `bun` and `deno` need an explicit, non-blank version.
pub open spec fn version_missing(s: SourceTarget) -> bool {
    let lang = ascii_lower(s.language@);
    (lang == "bun"@ || lang == "deno"@) && match s.version {
        Some(v) => trim(v@).len() == 0,
        None => true,
    }
}

pub open spec fn source_ok(s: SourceTarget, c: ResolveContext) -> bool {
    !version_missing(s) && has_toolchain_spec(c, s.language@) && s.entrypoint@.len() > 0
}

pub open spec fn oci_ok(o: OciTarget, c: ResolveContext) -> bool {
    (c.supported_runtimes@.contains(RuntimeKind::Youki) || c.docker_available) && o.image@.len()
        > 0
}

pub open spec fn wasm_copy(t: ResolvedTarget, w: WasmTarget) -> bool {
    t matches ResolvedTarget::Wasm { digest, world, component_path } && digest@ == w.digest@
        && world@ == w.world@ && component_path is None
}

pub open spec fn source_copy(t: ResolvedTarget, s: SourceTarget) -> bool {
    t matches ResolvedTarget::Source { language, version, entrypoint, dependencies, args }
        && language@ == s.language@ && opt_str_same(version, s.version) && entrypoint@
        == s.entrypoint@ && opt_str_same(dependencies, s.dependencies) && strs_view(args@)
        == strs_view(s.args@)
}

pub open spec fn oci_copy(t: ResolvedTarget, o: OciTarget) -> bool {
    t matches ResolvedTarget::Oci { image, digest, cmd } && image@ == o.image@ && opt_str_same(
        digest,
        o.digest,
    ) && strs_view(cmd@) == strs_view(o.cmd@)
}

fn try_resolve_wasm(w: &WasmTarget, c: &ResolveContext) -> (r: Result<ResolvedTarget, ResolveError>)
    ensures
        r is Ok <==> wasm_ok(*w, *c),
        r matches Ok(t) ==> wasm_copy(t, *w),
{
    if !kinds_contain(&c.supported_runtimes, RuntimeKind::Wasm) {
        return Err(ResolveError::UnsupportedTarget { target: "wasm".to_owned() });
    }
    if !c.wasm_available {
        return Err(ResolveError::ToolchainNotAvailable { toolchain: "wasmtime".to_owned() });
    }
    if chars_of(w.digest.as_str()).len() == 0 {
        return Err(
            ResolveError::InvalidConfiguration { message: "Wasm target digest is empty".to_owned() },
        );
    }
    Ok(ResolvedTarget::Wasm { digest: w.digest.clone(), world: w.world.clone(), component_path: None })
}

fn try_resolve_source(s: &SourceTarget, c: &ResolveContext) -> (r: Result<
    ResolvedTarget,
    ResolveError,
>)
    ensures
        r is Ok <==> source_ok(*s, *c),
        r matches Ok(t) ==> source_copy(t, *s),
        version_missing(*s) ==> (r matches Err(ResolveError::InvalidConfiguration { message })
            && message@ == "Source target version is required when language = '"@ + s.language@ + "'"@),
        !version_missing(*s) && !has_toolchain_spec(*c, s.language@) ==> (r matches Err(
            ResolveError::ToolchainNotAvailable { toolchain },
        ) && toolchain@ == s.language@),
        !version_missing(*s) && has_toolchain_spec(*c, s.language@) && s.entrypoint@.len() == 0 ==> (r matches Err(
            ResolveError::InvalidConfiguration { message },
        ) && message@ == "Source target entrypoint is empty"@),
{
    let lang = to_ascii_lower(s.language.as_str());
    let l = lang.as_str();
    if str_eq(l, "bun") || str_eq(l, "deno") {
        let blank = match &s.version {
            Some(v) => {
                let t = trim_str(v.as_str());
                chars_of(t.as_str()).len() == 0
            },
            None => true,
        };
        if blank {
            let mut m = String::from_str("Source target version is required when language = '");
            m.append(s.language.as_str());
            m.append("'");
            return Err(ResolveError::InvalidConfiguration { message: m });
        }
    }
    if !c.has_toolchain(s.language.as_str()) {
        return Err(ResolveError::ToolchainNotAvailable { toolchain: s.language.clone() });
    }
    if chars_of(s.entrypoint.as_str()).len() == 0 {
        return Err(
            ResolveError::InvalidConfiguration {
                message: "Source target entrypoint is empty".to_owned(),
            },
        );
    }
    Ok(
        ResolvedTarget::Source {
            language: s.language.clone(),
            version: copy_opt_string(&s.version),
            entrypoint: s.entrypoint.clone(),
            dependencies: copy_opt_string(&s.dependencies),
            args: copy_strings(&s.args),
        },
    )
}

fn try_resolve_oci(o: &OciTarget, c: &ResolveContext) -> (r: Result<ResolvedTarget, ResolveError>)
    ensures
        r is Ok <==> oci_ok(*o, *c),
        r matches Ok(t) ==> oci_copy(t, *o),
{
    if !kinds_contain(&c.supported_runtimes, RuntimeKind::Youki) && !c.docker_available {
        return Err(ResolveError::UnsupportedTarget { target: "oci".to_owned() });
    }
    if chars_of(o.image.as_str()).len() == 0 {
        return Err(
            ResolveError::InvalidConfiguration { message: "OCI target image is empty".to_owned() },
        );
    }
    Ok(
        ResolvedTarget::Oci {
            image: o.image.clone(),
            digest: copy_opt_string(&o.digest),
            cmd: copy_strings(&o.cmd),
        },
    )
}

// ---------------------------------------------------------------------------
// Resolution

/// The target taken: the first name in `prefs` that names a declared target
/// the engine can run (0 wasm, 1 source, 2 oci). Other names are skipped.
pub open spec fn chosen(prefs: Seq<Seq<char>>, t: TargetsConfig, c: ResolveContext) -> Option<int>
    decreases prefs.len(),
{
    if prefs.len() == 0 {
        None
    } else if prefs[0] == "wasm"@ && (t.wasm matches Some(w) && wasm_ok(w, c)) {
        Some(0)
    } else if prefs[0] == "source"@ && (t.source matches Some(s) && source_ok(s, c)) {
        Some(1)
    } else if prefs[0] == "oci"@ && (t.oci matches Some(o) && oci_ok(o, c)) {
        Some(2)
    } else {
        chosen(prefs.drop_first(), t, c)
    }
}

/// Preference `p` names a declared target that the engine can run.
pub open spec fn pref_ok(p: Seq<char>, t: TargetsConfig, c: ResolveContext) -> bool {
    ||| p == "wasm"@ && (t.wasm matches Some(w) && wasm_ok(w, c))
    ||| p == "source"@ && (t.source matches Some(s) && source_ok(s, c))
    ||| p == "oci"@ && (t.oci matches Some(o) && oci_ok(o, c))
}

/// The target kind a preference names: 0 for wasm, 1 for source, 2 for oci.
pub open spec fn pref_kind(p: Seq<char>) -> int {
    if p == "wasm"@ {
        0
    } else if p == "source"@ {
        1
    } else {
        2
    }
}

/// The chosen target is the one named by the first preference that names a
/// declared target the engine can run; unknown names and targets that
/// cannot run are passed over; with no such preference nothing is chosen.
pub proof fn lemma_chosen_is_first_runnable(prefs: Seq<Seq<char>>, t: TargetsConfig, c: ResolveContext)
    ensures
        match chosen(prefs, t, c) {
            Some(k) => exists|i0: int|
                0 <= i0 < prefs.len() && #[trigger] pref_ok(prefs[i0], t, c) && k == pref_kind(prefs[i0])
                    && forall|i: int| 0 <= i < i0 ==> !#[trigger] pref_ok(prefs[i], t, c),
            None => forall|i: int| 0 <= i < prefs.len() ==> !#[trigger] pref_ok(prefs[i], t, c),
        },
    decreases prefs.len(),
{
    reveal_strlit("wasm");
    reveal_strlit("source");
    reveal_strlit("oci");
    assert("wasm"@[0] != "source"@[0]);
    assert("wasm"@[0] != "oci"@[0]);
    assert("source"@[0] != "oci"@[0]);
    if prefs.len() > 0 {
        let rest = prefs.drop_first();
        lemma_chosen_is_first_runnable(rest, t, c);
        if pref_ok(prefs[0], t, c) {
            assert(forall|i: int| 0 <= i < 0 ==> !#[trigger] pref_ok(prefs[i], t, c));
        } else {
            assert(forall|i: int| 0 <= i < rest.len() ==> #[trigger] rest[i] == prefs[i + 1]);
            match chosen(rest, t, c) {
                Some(k) => {
                    let i0 = choose|i0: int|
                        0 <= i0 < rest.len() && #[trigger] pref_ok(rest[i0], t, c) && k == pref_kind(rest[i0])
                            && forall|i: int| 0 <= i < i0 ==> !#[trigger] pref_ok(rest[i], t, c);
                    assert(pref_ok(prefs[i0 + 1], t, c));
                    assert forall|i: int| 0 <= i < i0 + 1 implies !#[trigger] pref_ok(prefs[i], t, c) by {
                        if i > 0 {
                            assert(prefs[i] == rest[i - 1]);
                        }
                    }
                },
                None => {
                    assert forall|i: int| 0 <= i < prefs.len() implies !#[trigger] pref_ok(prefs[i], t, c) by {
                        if i > 0 {
                            assert(prefs[i] == rest[i - 1]);
                        }
                    }
                },
            }
        }
    }
}

/// An OCI target with an image runs wherever youki is supported or Docker
/// is available, and nowhere else: with only that target declared and the
/// default order, resolution gives it back exactly when one of the two
/// holds.
pub proof fn lemma_oci_runs_on_youki_or_docker(
    r: Result<ResolvedTarget, ResolveError>,
    t: TargetsConfig,
    c: ResolveContext,
)
    requires
        t.preference@.len() == 0,
        t.wasm is None,
        t.source is None,
        t.oci matches Some(o) && o.image@.len() > 0,
        multi_result(r, t, c),
    ensures
        (c.supported_runtimes@.contains(RuntimeKind::Youki) || c.docker_available) ==> (r matches Ok(
            ResolvedTarget::Oci { image, .. },
        ) && image@ == t.oci.unwrap().image@),
        !(c.supported_runtimes@.contains(RuntimeKind::Youki) || c.docker_available) ==> r is Err,
{
    reveal_strlit("wasm");
    reveal_strlit("source");
    reveal_strlit("oci");
    assert("wasm"@[0] != "source"@[0]);
    assert("wasm"@[0] != "oci"@[0]);
    assert("source"@[0] != "oci"@[0]);
    let p = pref_order(t);
    assert(p.drop_first() =~= seq!["source"@, "oci"@]);
    assert(p.drop_first().drop_first() =~= seq!["oci"@]);
    assert(p.drop_first().drop_first().drop_first() =~= Seq::<Seq<char>>::empty());
    let p3 = p.drop_first().drop_first().drop_first();
    assert(chosen(p3, t, c) is None);
    let p2 = p.drop_first().drop_first();
    let o = t.oci.unwrap();
    assert(p2[0] == "oci"@);
    assert(chosen(p2, t, c) == if oci_ok(o, c) { Some(2int) } else { chosen(p3, t, c) });
    let p1 = p.drop_first();
    assert(p1[0] == "source"@);
    assert(chosen(p1, t, c) == chosen(p2, t, c));
    assert(p[0] == "wasm"@);
    assert(chosen(p, t, c) == chosen(p1, t, c));
}

/// Names of the declared targets, in the order wasm, source, oci.
pub open spec fn provided_names(t: TargetsConfig) -> Seq<Seq<char>> {
    (if t.wasm is Some { seq!["wasm"@] } else { Seq::empty() }) + (if t.source is Some {
        seq!["source"@]
    } else {
        Seq::empty()
    }) + (if t.oci is Some { seq!["oci"@] } else { Seq::empty() })
}

/// Debug names of the supported kinds.
pub open spec fn kind_names(v: Seq<RuntimeKind>) -> Seq<Seq<char>> {
    Seq::new(v.len(), |i: int| kind_debug(v[i]))
}

/// `r` is what multi-target resolution gives for `t` in context `c`.
pub open spec fn multi_result(r: Result<ResolvedTarget, ResolveError>, t: TargetsConfig, c: ResolveContext) -> bool {
    match chosen(pref_order(t), t, c) {
        Some(k) => r matches Ok(x) && if k == 0 {
            t.wasm matches Some(w) && wasm_copy(x, w)
        } else if k == 1 {
            t.source matches Some(s) && source_copy(x, s)
        } else {
            t.oci matches Some(o) && oci_copy(x, o)
        },
        None => r matches Err(ResolveError::NoCompatibleTarget { provided, supported }) && strs_view(
            provided@,
        ) == provided_names(t) && strs_view(supported@) == kind_names(c.supported_runtimes@),
    }
}

fn supported_names(c: &ResolveContext) -> (r: Vec<String>)
    ensures
        strs_view(r@) == kind_names(c.supported_runtimes@),
{
    let mut r: Vec<String> = Vec::new();
    let mut i: usize = 0;
    while i < c.supported_runtimes.len()
        invariant
            i <= c.supported_runtimes@.len(),
            r@.len() == i,
            forall|k: int| 0 <= k < i ==> #[trigger] r@[k]@ == kind_debug(c.supported_runtimes@[k]),
        decreases c.supported_runtimes@.len() - i,
    {
        r.push(c.supported_runtimes[i].debug_name().to_owned());
        i += 1;
    }
    assert(strs_view(r@) =~= kind_names(c.supported_runtimes@));
    r
}

/// Resolve declared targets: the first target, in preference order, that
/// the engine can run; unknown names in the order are skipped; when none
/// can run, `NoCompatibleTarget` with the declared and the supported kinds.
pub fn resolve_multi_target(t: &TargetsConfig, c: &ResolveContext) -> (r: Result<
    ResolvedTarget,
    ResolveError,
>)
    ensures
        multi_result(r, *t, *c),
{
    let prefs = t.preference_order();
    let ghost pv = strs_view(prefs@);
    let mut provided: Vec<String> = Vec::new();
    if t.wasm.is_some() {
        provided.push("wasm".to_owned());
    }
    if t.source.is_some() {
        provided.push("source".to_owned());
    }
    if t.oci.is_some() {
        provided.push("oci".to_owned());
    }
    assert(strs_view(provided@) =~= provided_names(*t));
    let mut i: usize = 0;
    assert(pv.skip(0) =~= pv);
    proof {
        reveal_strlit("wasm");
        reveal_strlit("source");
        reveal_strlit("oci");
        assert("wasm"@[0] != "source"@[0]);
        assert("wasm"@[0] != "oci"@[0]);
        assert("source"@[0] != "oci"@[0]);
    }
    while i < prefs.len()
        invariant
            pv == strs_view(prefs@),
            pv == pref_order(*t),
            i <= prefs@.len(),
            chosen(pv, *t, *c) == chosen(pv.skip(i as int), *t, *c),
            "wasm"@ != "source"@,
            "wasm"@ != "oci"@,
            "source"@ != "oci"@,
        decreases prefs@.len() - i,
    {
        let p = prefs[i].as_str();
        assert(pv.skip(i as int)[0] == p@);
        assert(pv.skip(i as int).drop_first() =~= pv.skip(i + 1));
        if str_eq(p, "wasm") {
            if let Some(w) = &t.wasm {
                match try_resolve_wasm(w, c) {
                    Ok(x) => {
                        return Ok(x);
                    },
                    Err(_) => {},
                }
            }
        } else if str_eq(p, "source") {
            if let Some(s) = &t.source {
                match try_resolve_source(s, c) {
                    Ok(x) => {
                        return Ok(x);
                    },
                    Err(_) => {},
                }
            }
        } else if str_eq(p, "oci") {
            if let Some(o) = &t.oci {
                match try_resolve_oci(o, c) {
                    Ok(x) => {
                        return Ok(x);
                    },
                    Err(_) => {},
                }
            }
        }
        i += 1;
    }
    let supported = supported_names(c);
    Err(ResolveError::NoCompatibleTarget { provided, supported })
}

/// Resolve the target to run: with declared targets, the first in preference
/// order that the engine can run, or `NoCompatibleTarget`; without, the
/// legacy runtime and entrypoint of `execution`.
pub fn resolve_runtime(manifest: &CapsuleManifestV1, context: &ResolveContext) -> (r: Result<
    ResolvedTarget,
    ResolveError,
>)
    ensures
        match manifest.targets {
            Some(t) if has_any(t) => multi_result(r, t, *context),
            _ => r matches Ok(ResolvedTarget::Legacy { runtime_type, entrypoint }) && runtime_type
                == manifest.execution.runtime && entrypoint@ == manifest.execution.entrypoint@,
        },
{
    if let Some(targets) = &manifest.targets {
        if targets.has_any_target() {
            return resolve_multi_target(targets, context);
        }
    }
    Ok(
        ResolvedTarget::Legacy {
            runtime_type: manifest.execution.runtime,
            entrypoint: manifest.execution.entrypoint.clone(),
        },
    )
}

} // verus!
