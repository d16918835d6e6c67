use openshell_relay::driver_config::{
    apply_guest_tls, local_endpoint_text, DockerComputeConfig, KubernetesComputeConfig,
    PodmanComputeConfig, VmComputeConfig,
};
use openshell_relay::drivers::{
    install_default_compute_drivers, install_in_tree_compute_drivers, install_mxc_compute_driver,
    install_unsupported_windows_compute_drivers, unsupported_windows_compute_driver, GatewayBuild,
    GatewayError,
};
use openshell_relay::registry::{
    ComputeDriverRegistration, ComputeDriverRegistry, Detection, Factory, InstallError,
};
use openshell_relay::text::{
    decimal_text, is_blank, same_text, starts_with, text_order, TextOrder,
};
use std::path::PathBuf;

fn build(windows: bool, bits: u32) -> GatewayBuild {
    GatewayBuild {
        windows,
        docker: bits & 1 != 0,
        kubernetes: bits & 2 != 0,
        podman: bits & 4 != 0,
        vm: bits & 8 != 0,
        mxc: bits & 16 != 0,
    }
}

#[test]
fn windows_builtin_compute_drivers_report_unsupported() {
    for bits in 0..32 {
        let registry = install_default_compute_drivers(&build(true, bits));
        for name in registry
            .installed_driver_names()
            .iter()
            .filter(|name| *name != "mxc")
        {
            let GatewayError::Config(message) = unsupported_windows_compute_driver(name);
            assert!(
                message.contains("unsupported on Windows"),
                "{name} rejection should be explicit, got: {message}"
            );
            let registration = registry.get(name).unwrap();
            assert_eq!(registration.factory, Factory::UnsupportedOnWindows);
            assert_eq!(registration.detection, None);
        }
    }
}

#[test]
fn default_registry_contains_exactly_the_enabled_compute_drivers() {
    for windows in [false, true] {
        for bits in 0..32 {
            let build = build(windows, bits);
            let mut expected: Vec<&str> = Vec::new();
            if build.docker {
                expected.push("docker");
            }
            if build.kubernetes {
                expected.push("kubernetes");
            }
            if build.windows && build.mxc {
                expected.push("mxc");
            }
            if build.podman {
                expected.push("podman");
            }
            if build.vm {
                expected.push("vm");
            }
            assert_eq!(
                install_default_compute_drivers(&build).installed_driver_names(),
                expected
            );
        }
    }
}

#[test]
fn refusal_names_the_driver() {
    assert_eq!(
        unsupported_windows_compute_driver("podman"),
        GatewayError::Config("compute driver 'podman' is unsupported on Windows".to_string())
    );
}

#[test]
fn in_tree_drivers_are_registered_in_full() {
    let mut registry = ComputeDriverRegistry::new();
    install_in_tree_compute_drivers(&mut registry, &build(false, 15));
    let kubernetes = registry.get("kubernetes").unwrap();
    assert_eq!(kubernetes.priority, 100);
    assert_eq!(kubernetes.detection, Some(Detection::KubernetesServiceHost));
    assert_eq!(kubernetes.factory, Factory::Kubernetes);
    assert_eq!(kubernetes.telemetry_category, Some("kubernetes".to_string()));
    assert!(!kubernetes.local_singleplayer);
    assert!(!kubernetes.mtls_user_auth);
    assert!(kubernetes.in_process_tracing);
    assert_eq!(
        kubernetes.inherited_config_keys,
        vec![
            "namespace",
            "default_image",
            "supervisor_image",
            "client_tls_secret_name",
            "service_account_name",
            "host_gateway_ip",
            "enable_user_namespaces",
            "sa_token_ttl_secs",
        ]
    );
    let podman = registry.get("podman").unwrap();
    assert_eq!(podman.priority, 200);
    assert_eq!(podman.detection, Some(Detection::PodmanAvailable));
    assert!(podman.local_singleplayer && podman.mtls_user_auth && podman.in_process_tracing);
    assert_eq!(podman.inherited_config_keys.len(), 6);
    let docker = registry.get("docker").unwrap();
    assert_eq!(docker.priority, 300);
    assert_eq!(docker.detection, Some(Detection::DockerAvailable));
    assert_eq!(docker.inherited_config_keys[0], "sandbox_namespace");
    let vm = registry.get("vm").unwrap();
    assert_eq!(vm.priority, u16::MAX);
    assert_eq!(vm.detection, None);
    assert!(!vm.in_process_tracing);
    assert_eq!(
        vm.inherited_config_keys,
        vec!["default_image", "guest_tls_ca", "guest_tls_cert", "guest_tls_key"]
    );
    assert!(registry.get("mxc").is_none());
}

#[test]
fn names_of_drivers_that_are_not_linked_in_may_be_taken() {
    for windows in [false, true] {
        let mut registry = ComputeDriverRegistry::new();
        let own = ComputeDriverRegistration::new("vm", 7, None, Factory::Mxc);
        assert_eq!(registry.install(own), Ok(()));
        if windows {
            install_unsupported_windows_compute_drivers(&mut registry, &build(true, 1));
        } else {
            install_in_tree_compute_drivers(&mut registry, &build(false, 1));
        }
        assert_eq!(registry.installed_driver_names(), ["docker", "vm"]);
        assert_eq!(registry.get("vm").unwrap().priority, 7);
    }
}

#[test]
fn detection_priorities_differ() {
    let registry = install_default_compute_drivers(&build(false, 15));
    let priority = |name: &str| registry.get(name).unwrap().priority;
    assert!(priority("kubernetes") < priority("podman"));
    assert!(priority("podman") < priority("docker"));
    assert!(priority("docker") < priority("vm"));
}

#[test]
fn mxc_is_local_and_never_detected() {
    let mut registry = ComputeDriverRegistry::new();
    install_mxc_compute_driver(&mut registry);
    let mxc = registry.get("mxc").unwrap();
    assert_eq!(mxc.factory, Factory::Mxc);
    assert_eq!(mxc.priority, u16::MAX);
    assert_eq!(mxc.detection, None);
    assert!(mxc.local_singleplayer);
    assert_eq!(mxc.telemetry_category, Some("mxc".to_string()));
}

#[test]
fn a_name_is_installed_once() {
    let mut registry = ComputeDriverRegistry::new();
    for name in ["b", "a", "c"] {
        let registration = ComputeDriverRegistration::new(name, 1, None, Factory::Vm);
        assert_eq!(registry.install(registration), Ok(()));
    }
    let again = ComputeDriverRegistration::new("b", 2, None, Factory::Docker);
    assert_eq!(registry.install(again), Err(InstallError::DuplicateName));
    assert_eq!(registry.installed_driver_names(), vec!["a", "b", "c"]);
    assert_eq!(registry.get("b").unwrap().priority, 1);
}

#[test]
fn guest_tls_defaults_fill_an_empty_configuration() {
    let path = |p: &str| PathBuf::from(p);
    let (mut ca, mut cert, mut key) = (None, None, None);
    apply_guest_tls(
        &mut ca,
        &mut cert,
        &mut key,
        Some((path("ca"), path("cert"), path("key"))),
    );
    assert_eq!(
        (ca.clone(), cert.clone(), key.clone()),
        (Some(path("ca")), Some(path("cert")), Some(path("key")))
    );
    apply_guest_tls(&mut ca, &mut cert, &mut key, Some((path("x"), path("y"), path("z"))));
    assert_eq!((ca, cert, key), (Some(path("ca")), Some(path("cert")), Some(path("key"))));
}

#[test]
fn guest_tls_defaults_leave_a_partial_configuration_alone() {
    let (mut ca, mut cert, mut key) = (None, Some("own"), None);
    apply_guest_tls(&mut ca, &mut cert, &mut key, Some(("ca", "cert", "key")));
    assert_eq!((ca, cert, key), (None, Some("own"), None));
    let (mut ca, mut cert, mut key) = (None::<&str>, None, None);
    apply_guest_tls(&mut ca, &mut cert, &mut key, None);
    assert_eq!((ca, cert, key), (None, None, None));
}

#[test]
fn kubernetes_takes_over_the_environment() {
    let mut config = KubernetesComputeConfig {
        workspace_default_storage_size: "1Gi".to_string(),
        workspace_storage_class: "slow".to_string(),
    };
    config.settle(Some("5Gi".to_string()), None);
    assert_eq!(config.workspace_default_storage_size, "5Gi");
    assert_eq!(config.workspace_storage_class, "slow");
    config.settle(None, Some("fast".to_string()));
    assert_eq!(config.workspace_default_storage_size, "5Gi");
    assert_eq!(config.workspace_storage_class, "fast");
}

#[test]
fn docker_gets_the_guest_tls_files() {
    let mut config = DockerComputeConfig {
        guest_tls_ca: None,
        guest_tls_cert: None,
        guest_tls_key: None,
    };
    config.settle(Some(("ca", "cert", "key")));
    assert_eq!(config.guest_tls_cert, Some("cert"));
}

#[test]
fn podman_takes_over_port_and_environment() {
    let mut config = PodmanComputeConfig {
        gateway_port: 1,
        socket_path: Some("/old.sock"),
        host_gateway_ip: "10.0.0.1".to_string(),
        userns: None,
        guest_tls_ca: None,
        guest_tls_cert: None,
        guest_tls_key: Some("own"),
    };
    config.settle(
        8080,
        Some("/run/podman.sock"),
        None,
        Some("keep-id".to_string()),
        Some(("ca", "cert", "key")),
    );
    assert_eq!(config.gateway_port, 8080);
    assert_eq!(config.socket_path, Some("/run/podman.sock"));
    assert_eq!(config.host_gateway_ip, "10.0.0.1");
    assert_eq!(config.userns, Some("keep-id".to_string()));
    assert_eq!(config.guest_tls_ca, None);
    assert_eq!(config.guest_tls_key, Some("own"));
}

fn vm(endpoint: &str) -> VmComputeConfig<&'static str> {
    VmComputeConfig {
        state_dir: "",
        grpc_endpoint: endpoint.to_string(),
        guest_tls_ca: None,
        guest_tls_cert: None,
        guest_tls_key: None,
    }
}

#[test]
fn vm_endpoint_defaults_to_the_gateway() {
    let mut config = vm(" \t\u{3000}");
    config.settle(true, "/var/state", false, 8443, None);
    assert_eq!(config.grpc_endpoint, "http://127.0.0.1:8443");
    assert_eq!(config.state_dir, "/var/state");
    let mut config = vm("");
    config.settle(false, "/var/state", true, 443, Some(("ca", "cert", "key")));
    assert_eq!(config.grpc_endpoint, "https://127.0.0.1:443");
    assert_eq!(config.state_dir, "");
    assert_eq!(config.guest_tls_ca, Some("ca"));
}

#[test]
fn vm_endpoint_is_kept_where_set_or_where_guests_could_not_call() {
    let mut config = vm("https://example:1");
    config.settle(false, "", false, 8443, None);
    assert_eq!(config.grpc_endpoint, "https://example:1");
    let mut config = vm(" ");
    config.settle(false, "", true, 8443, None);
    assert_eq!(config.grpc_endpoint, " ");
}

#[test]
fn endpoint_text() {
    assert_eq!(local_endpoint_text(true, 0), "https://127.0.0.1:0");
    assert_eq!(local_endpoint_text(false, 65535), "http://127.0.0.1:65535");
}

#[test]
fn numbers_in_decimal() {
    for n in [0u16, 9, 10, 42, 100, 9999, 65535] {
        assert_eq!(decimal_text(n), n.to_string());
    }
}

#[test]
fn texts_compare_by_characters() {
    assert_eq!(text_order("docker", "kubernetes"), TextOrder::Before);
    assert_eq!(text_order("b", "ab"), TextOrder::After);
    assert_eq!(text_order("vm", "vm"), TextOrder::Same);
    assert_eq!(text_order("vm", "vmm"), TextOrder::Before);
    assert_eq!(text_order("é", "z"), TextOrder::After);
    assert!(same_text("é", "é") && !same_text("e", "é"));
    assert!(starts_with("SESSION_FAILED:x", "SESSION_FAILED:"));
    assert!(starts_with("x", "") && !starts_with("", "x") && !starts_with("abc", "abd"));
}

#[test]
fn blank_texts_are_white_space_alone() {
    assert!(is_blank("") && is_blank(" \t\r\n\u{85}\u{a0}\u{2028}"));
    assert!(!is_blank(" x ") && !is_blank("\u{200b}"));
    let white = |n: u32| {
        matches!(
            n,
            0x9..=0xd
                | 0x20
                | 0x85
                | 0xa0
                | 0x1680
                | 0x2000..=0x200a
                | 0x2028
                | 0x2029
                | 0x202f
                | 0x205f
                | 0x3000
        )
    };
    for n in 0..=0x10ffffu32 {
        if let Some(c) = char::from_u32(n) {
            let text = c.to_string();
            assert_eq!(is_blank(&text), white(n));
            assert_eq!(is_blank(&text), text.trim().is_empty());
        }
    }
}
