use nacelle::strmap::StrMap;
use nacelle::supervisor_mode::{
    allocate_ports, build_supervisor_mode_plan, inject_all_services, ports_needed,
    resolve_dependencies, PortRegistry, ServiceMap, ServiceSpec,
};

fn svc(entrypoint: &str, depends_on: &[&str]) -> ServiceSpec {
    ServiceSpec {
        entrypoint: entrypoint.to_string(),
        depends_on: if depends_on.is_empty() {
            None
        } else {
            Some(depends_on.iter().map(|s| s.to_string()).collect())
        },
        expose: None,
        env: None,
        readiness_probe: None,
    }
}

fn svc_with_expose(entrypoint: &str, expose: &[&str]) -> ServiceSpec {
    ServiceSpec {
        entrypoint: entrypoint.to_string(),
        depends_on: None,
        expose: if expose.is_empty() {
            None
        } else {
            Some(expose.iter().map(|s| s.to_string()).collect())
        },
        env: None,
        readiness_probe: None,
    }
}

fn port_map(entries: &[(&str, u16)]) -> StrMap<u16> {
    let mut m = StrMap::new();
    for (k, v) in entries {
        m.insert(k.to_string(), *v);
    }
    m
}

#[test]
fn topo_sort_orders_dependencies_first() {
    let mut services: ServiceMap = StrMap::new();
    services.insert("b".to_string(), svc("/bin/echo b", &[]));
    services.insert("a".to_string(), svc("/bin/echo a", &["b"]));

    let order = resolve_dependencies(&services).unwrap();
    assert_eq!(order, vec!["b".to_string(), "a".to_string()]);
}

#[test]
fn topo_sort_is_deterministic_for_independent_services() {
    let mut services: ServiceMap = StrMap::new();
    services.insert("web".to_string(), svc("node ui.js", &[]));
    services.insert("llm".to_string(), svc("python server.py", &[]));

    let order = resolve_dependencies(&services).unwrap();
    assert_eq!(order, vec!["llm".to_string(), "web".to_string()]);
}

#[test]
fn unknown_dependency_is_error() {
    let mut services: ServiceMap = StrMap::new();
    services.insert("a".to_string(), svc("/bin/echo a", &["missing"]));

    let err = resolve_dependencies(&services).unwrap_err();
    assert!(err.contains("depends on unknown service"));
}

#[test]
fn cycle_is_error() {
    let mut services: ServiceMap = StrMap::new();
    services.insert("a".to_string(), svc("/bin/echo a", &["b"]));
    services.insert("b".to_string(), svc("/bin/echo b", &["a"]));

    let err = resolve_dependencies(&services).unwrap_err();
    assert!(err.contains("Circular dependency detected"));
}

#[test]
fn allocate_ports_assigns_ports_for_exposed_names() {
    let mut services: ServiceMap = StrMap::new();
    services.insert(
        "llm".to_string(),
        svc_with_expose("python server.py --port {{PORT}}", &["PORT"]),
    );
    services.insert(
        "web".to_string(),
        svc_with_expose("node ui.js --port {{WEB_PORT}}", &["WEB_PORT"]),
    );

    let needed = ports_needed(&services).unwrap();
    let free_ports: Vec<u16> = (0..needed).map(|i| 41000 + i as u16).collect();
    let ports = allocate_ports(&services, &free_ports).unwrap();
    assert!(ports.get("llm").unwrap().get("PORT").unwrap() > &0);
    assert!(ports.get("web").unwrap().get("WEB_PORT").unwrap() > &0);
}

#[test]
fn inject_replaces_local_and_cross_service_placeholders() {
    let mut services: ServiceMap = StrMap::new();

    let llm = svc_with_expose("python server.py --port {{PORT}}", &["PORT"]);
    let mut web = svc_with_expose("node ui.js", &["WEB_PORT"]);
    web.depends_on = Some(vec!["llm".to_string()]);
    let mut env = StrMap::new();
    env.insert(
        "API_URL".to_string(),
        "http://localhost:{{services.llm.ports.PORT}}".to_string(),
    );
    web.env = Some(env);

    services.insert("llm".to_string(), llm);
    services.insert("web".to_string(), web);

    let mut ports: PortRegistry = StrMap::new();
    ports.insert("llm".to_string(), port_map(&[("PORT", 54321)]));
    ports.insert("web".to_string(), port_map(&[("WEB_PORT", 40000)]));

    let injected = inject_all_services(&services, &ports).unwrap();

    assert_eq!(
        injected.get("llm").unwrap().entrypoint,
        "python server.py --port 54321"
    );
    assert_eq!(
        injected
            .get("web")
            .unwrap()
            .env
            .as_ref()
            .unwrap()
            .get("API_URL")
            .unwrap(),
        "http://localhost:54321"
    );
}

#[test]
fn inject_errors_on_unknown_placeholder() {
    let mut services: ServiceMap = StrMap::new();
    services.insert("a".to_string(), svc_with_expose("echo {{MISSING}}", &["PORT"]));
    let mut ports: PortRegistry = StrMap::new();
    ports.insert("a".to_string(), port_map(&[("PORT", 12345)]));

    let err = inject_all_services(&services, &ports).unwrap_err();
    assert!(err.contains("has no exposed port named"));
}

#[test]
fn allocation_follows_name_order() {
    // Services take ports in name order, whatever order they were added in.
    let mut services: ServiceMap = StrMap::new();
    services.insert("web".to_string(), svc_with_expose("node", &["HTTP", "ADMIN"]));
    services.insert("api".to_string(), svc_with_expose("python", &["PORT"]));
    services.insert("idle".to_string(), svc("sleep", &[]));
    assert_eq!(ports_needed(&services), Some(3));

    let ports = allocate_ports(&services, &vec![5000, 5001, 5002]).unwrap();
    assert_eq!(*ports.get("api").unwrap().get("PORT").unwrap(), 5000);
    assert_eq!(*ports.get("web").unwrap().get("HTTP").unwrap(), 5001);
    assert_eq!(*ports.get("web").unwrap().get("ADMIN").unwrap(), 5002);
    assert_eq!(ports.get("idle").unwrap().len(), 0);
}

#[test]
fn plan_orders_allocates_and_injects() {
    let mut services: ServiceMap = StrMap::new();
    let mut web = svc_with_expose("node ui.js --api {{services.api.ports.PORT}}", &[]);
    web.depends_on = Some(vec!["api".to_string()]);
    services.insert("web".to_string(), web);
    services.insert("api".to_string(), svc_with_expose("serve --port {{ PORT }}", &["PORT"]));

    let plan = build_supervisor_mode_plan(&services, &vec![7777]).unwrap();
    assert_eq!(plan.startup_order, vec!["api".to_string(), "web".to_string()]);
    assert_eq!(plan.services.get("api").unwrap().entrypoint, "serve --port 7777");
    assert_eq!(plan.services.get("web").unwrap().entrypoint, "node ui.js --api 7777");
}

#[test]
fn placeholder_errors_name_the_problem() {
    let mut services: ServiceMap = StrMap::new();
    services.insert("a".to_string(), svc_with_expose("run {{PORT", &["PORT"]));
    let err = build_supervisor_mode_plan(&services, &vec![1234]).unwrap_err();
    assert_eq!(err, "Unclosed placeholder in: run {{PORT");

    let mut services: ServiceMap = StrMap::new();
    services.insert("a".to_string(), svc_with_expose("run {{services.b.port.X}}", &[]));
    let err = build_supervisor_mode_plan(&services, &vec![]).unwrap_err();
    assert_eq!(err, "Invalid placeholder '{{services.b.port.X}}': expected 'ports'");

    let mut services: ServiceMap = StrMap::new();
    services.insert("a".to_string(), svc_with_expose("run {{services.b.ports.X}}", &[]));
    let err = build_supervisor_mode_plan(&services, &vec![]).unwrap_err();
    assert_eq!(err, "Unknown service 'b' in placeholder '{{services.b.ports.X}}'");
}

#[test]
fn unknown_dependency_message_names_both_services() {
    let mut services: ServiceMap = StrMap::new();
    services.insert("a".to_string(), svc("x", &["ghost"]));
    let err = resolve_dependencies(&services).unwrap_err();
    assert_eq!(err, "Service 'a' depends on unknown service 'ghost'");
}

#[test]
fn cycle_message_shows_the_path() {
    let mut services: ServiceMap = StrMap::new();
    services.insert("b".to_string(), svc("x", &["a"]));
    services.insert("a".to_string(), svc("x", &["b"]));
    let err = resolve_dependencies(&services).unwrap_err();
    assert_eq!(err, "Circular dependency detected: a -> b -> a");
}

use nacelle::supervisor_mode::{prefixed_line, run_result, service_start, ShutdownReason, SupervisorModePlan};

#[test]
fn service_start_sets_env_then_ports() {
    let mut env = StrMap::new();
    env.insert("MODE".to_string(), "prod".to_string());
    env.insert("PORT".to_string(), "1".to_string());
    let mut services: ServiceMap = StrMap::new();
    services.insert(
        "web".to_string(),
        ServiceSpec { entrypoint: "python app.py".to_string(), depends_on: None, expose: None, env: Some(env), readiness_probe: None },
    );
    let mut ports: PortRegistry = StrMap::new();
    ports.insert("web".to_string(), port_map(&[("PORT", 8080)]));
    let plan = SupervisorModePlan { startup_order: vec!["web".to_string()], ports, services };
    let (cmd, env) = service_start(&plan, "web").unwrap();
    assert_eq!(cmd, "python app.py");
    assert_eq!(
        env,
        vec![
            ("MODE".to_string(), "prod".to_string()),
            ("PORT".to_string(), "1".to_string()),
            ("PORT".to_string(), "8080".to_string())
        ]
    );
    assert_eq!(service_start(&plan, "db").unwrap_err(), "Service 'db' missing from plan.services");
}

#[test]
fn run_ends_by_signal_or_by_a_service_exit() {
    assert!(run_result(&ShutdownReason::Signal).is_ok());
    assert_eq!(
        run_result(&ShutdownReason::ServiceExited { service: "api".to_string(), code: Some(3) }).unwrap_err(),
        "Service 'api' exited (code: Some(3))"
    );
    assert_eq!(
        run_result(&ShutdownReason::ServiceExited { service: "api".to_string(), code: None }).unwrap_err(),
        "Service 'api' exited (code: None)"
    );
    assert_eq!(
        run_result(&ShutdownReason::ServiceExited { service: "w".to_string(), code: Some(-1) }).unwrap_err(),
        "Service 'w' exited (code: Some(-1))"
    );
    assert_eq!(prefixed_line("web", "listening"), "[web] listening");
}

use nacelle::supervisor_mode::{
    supervisor_start, supervisor_step, ReadinessProbe, SupervisorAction, SupervisorEvent, SupervisorPhase,
};

fn two_service_plan() -> SupervisorModePlan {
    let mut services: ServiceMap = StrMap::new();
    let mut db = svc("postgres", &[]);
    db.readiness_probe = Some(ReadinessProbe { http_get: None, tcp_connect: None, port: "5432".to_string() });
    services.insert("db".to_string(), db);
    services.insert("web".to_string(), svc("node app.js", &["db"]));
    SupervisorModePlan { startup_order: vec!["db".to_string(), "web".to_string()], ports: StrMap::new(), services }
}

#[test]
fn supervisor_starts_in_order_waiting_for_readiness() {
    let plan = two_service_plan();
    let (st, a) = supervisor_step(&plan, supervisor_start(), SupervisorEvent::Begin);
    assert!(matches!(a, SupervisorAction::Start { ref name, ref cmd, .. } if name == "db" && cmd == "postgres"));
    let (st, a) = supervisor_step(&plan, st, SupervisorEvent::Started);
    assert!(matches!(a, SupervisorAction::AwaitReady { ref name } if name == "db"));
    let (st, a) = supervisor_step(&plan, st, SupervisorEvent::Ready);
    assert!(matches!(a, SupervisorAction::Start { ref name, .. } if name == "web"));
    let (st, a) = supervisor_step(&plan, st, SupervisorEvent::Started);
    assert!(matches!(a, SupervisorAction::Supervise));
    assert_eq!(st.phase, SupervisorPhase::Supervising);
    let (st, a) = supervisor_step(&plan, st, SupervisorEvent::ServiceExited { service: "web".to_string(), code: Some(1) });
    assert!(matches!(a, SupervisorAction::Shutdown));
    let (_st, a) = supervisor_step(&plan, st, SupervisorEvent::StoppedAll);
    match a {
        SupervisorAction::Done(Err(m)) => assert_eq!(m, "Service 'web' exited (code: Some(1))"),
        other => panic!("unexpected {:?}", other),
    }
}

#[test]
fn supervisor_signal_and_failures() {
    let plan = two_service_plan();
    let (st, _) = supervisor_step(&plan, supervisor_start(), SupervisorEvent::Begin);
    let (st, _) = supervisor_step(&plan, st, SupervisorEvent::Started);
    let (_st, a) = supervisor_step(&plan, st, SupervisorEvent::ReadinessFailed("Readiness probe timed out for 'db'".to_string()));
    assert!(matches!(a, SupervisorAction::Done(Err(ref m)) if m == "Readiness probe timed out for 'db'"));

    let (st, _) = supervisor_step(&plan, supervisor_start(), SupervisorEvent::Begin);
    let (st, a) = supervisor_step(&plan, st, SupervisorEvent::Signal);
    assert!(matches!(a, SupervisorAction::Wait));
    let (st, _) = supervisor_step(&plan, st, SupervisorEvent::Started);
    let (st, _) = supervisor_step(&plan, st, SupervisorEvent::Ready);
    let (st, a) = supervisor_step(&plan, st, SupervisorEvent::Started);
    assert!(matches!(a, SupervisorAction::Shutdown));
    let (_st, a) = supervisor_step(&plan, st, SupervisorEvent::StoppedAll);
    assert!(matches!(a, SupervisorAction::Done(Ok(()))));

    let mut bad = two_service_plan();
    bad.startup_order.push("ghost".to_string());
    let (st, _) = supervisor_step(&bad, supervisor_start(), SupervisorEvent::Begin);
    let (_st, a) = supervisor_step(&bad, st, SupervisorEvent::StartFailed("Failed to spawn service 'db': boom".to_string()));
    assert!(matches!(a, SupervisorAction::Done(Err(ref m)) if m.starts_with("Failed to spawn")));
}

#[test]
fn injection_leaves_no_placeholder_behind() {
    let mut services: ServiceMap = StrMap::new();
    let mut api = svc_with_expose("serve --port={{PORT}} --x={{ PORT }}{", &["PORT"]);
    let mut env = StrMap::new();
    env.insert("SELF".to_string(), "{{PORT}}{{PORT}}".to_string());
    api.env = Some(env);
    services.insert("api".to_string(), api);
    let mut ports: PortRegistry = StrMap::new();
    ports.insert("api".to_string(), port_map(&[("PORT", 7)]));
    let injected = inject_all_services(&services, &ports).unwrap();
    let out = injected.get("api").unwrap();
    assert_eq!(out.entrypoint, "serve --port=7 --x=7{");
    assert!(!out.entrypoint.contains("{{"));
    let v = out.env.as_ref().unwrap().get("SELF").unwrap();
    assert_eq!(v, "77");
    assert_eq!(out.expose, Some(vec!["PORT".to_string()]));
}

#[test]
fn allocation_covers_exactly_the_exposed_names() {
    let mut services: ServiceMap = StrMap::new();
    services.insert("b".to_string(), svc_with_expose("b", &["HTTP", "GRPC"]));
    services.insert("a".to_string(), svc_with_expose("a", &[]));
    let free: Vec<u16> = vec![9001, 9002];
    let reg = allocate_ports(&services, &free).unwrap();
    assert_eq!(reg.get("a").unwrap().len(), 0);
    let b = reg.get("b").unwrap();
    assert_eq!(b.len(), 2);
    assert_eq!(*b.get("HTTP").unwrap(), 9001);
    assert_eq!(*b.get("GRPC").unwrap(), 9002);
    assert!(reg.get("c").is_none());
}

#[test]
fn startup_order_is_depth_first_from_names_in_order() {
    let mut services: ServiceMap = StrMap::new();
    services.insert("web".to_string(), svc("w", &["db", "cache"]));
    services.insert("cache".to_string(), svc("c", &["db"]));
    services.insert("db".to_string(), svc("d", &[]));
    services.insert("admin".to_string(), svc("a", &["web"]));
    let order = resolve_dependencies(&services).unwrap();
    // Roots in name order: admin first, whose visit reaches web, then db
    // and cache in the order web lists them.
    assert_eq!(order, vec!["db", "cache", "web", "admin"]);
    let plan = build_supervisor_mode_plan(&services, &Vec::new()).unwrap();
    assert_eq!(plan.startup_order, order);
}
