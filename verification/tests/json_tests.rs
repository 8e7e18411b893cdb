use nacelle::docker_manifest::{docker_manifest_fields_of, exposed_ports_of};

#[test]
fn docker_fields_from_a_manifest() {
    let json = r#"{
        "compute": {"image": "nginx:1", "port": 8080, "env": ["PORT=9000", 5, "HOST_PORT=18080"]},
        "execution": {"entrypoint": "ignored:latest", "port": 7000, "env": {"HOST_PORT": "3000"}},
        "docker": {"ports": [{"containerPort": 8443}, {"containerPort": 1}]},
        "storage": {"volumes": [{"name": "data", "mount_path": "/data"}, {"name": "x"}, {"mount_path": "/y"}]}
    }"#;
    let f = docker_manifest_fields_of(json).unwrap();
    assert_eq!(f.compute_image.as_deref(), Some("nginx:1"));
    assert_eq!(f.compute_port, Some(8080));
    assert_eq!(f.execution_entrypoint.as_deref(), Some("ignored:latest"));
    assert_eq!(f.execution_port, Some(7000));
    assert_eq!(f.docker_container_port, Some(8443));
    assert_eq!(f.execution_host_port.as_deref(), Some("3000"));
    assert_eq!(f.compute_env, Some(vec!["PORT=9000".to_string(), "HOST_PORT=18080".to_string()]));
    assert_eq!(f.volumes, vec![("data".to_string(), "/data".to_string())]);
}

#[test]
fn docker_fields_of_other_shapes() {
    assert!(docker_manifest_fields_of("not json").is_none());
    let f = docker_manifest_fields_of(r#"{"compute": {"port": -1, "env": "PORT=1"}, "docker": {"ports": []}}"#).unwrap();
    assert_eq!(f.compute_port, None);
    assert_eq!(f.compute_env, None);
    assert_eq!(f.docker_container_port, None);
    assert_eq!(f.compute_image, None);
    assert!(f.volumes.is_empty());
}

#[test]
fn exposed_ports_from_inspect_output() {
    let mut keys = exposed_ports_of(" {\"8080/tcp\":{},\"53/udp\":{}}\n");
    keys.sort();
    assert_eq!(keys, vec!["53/udp".to_string(), "8080/tcp".to_string()]);
    assert!(exposed_ports_of("null").is_empty());
    assert!(exposed_ports_of("").is_empty());
}
