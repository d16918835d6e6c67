//! The first-party compute drivers of the standard gateway.

use crate::registry;
use crate::registry::{
    ComputeDriverRegistration, ComputeDriverRegistry, Detection, Factory, RegistrationView,
};
use vstd::prelude::*;
use vstd::string::StringExecFns;

verus! {

/// What a gateway is built for, and which drivers are linked into it.
#[derive(Clone, Copy, Debug, PartialEq, Eq, Structural)]
pub struct GatewayBuild {
    pub windows: bool,
    pub docker: bool,
    pub kubernetes: bool,
    pub podman: bool,
    pub vm: bool,
    pub mxc: bool,
}

/// An error of the gateway.
#[derive(Debug, PartialEq, Eq)]
pub enum GatewayError {
    /// The configuration asks for what cannot be.
    Config(String),
}

/// What is said of a driver that does not run on Windows.
pub open spec fn unsupported_message(name: Seq<char>) -> Seq<char> {
    "compute driver '"@ + name + "' is unsupported on Windows"@
}

/// The refusal of a driver that does not run on Windows.
pub fn unsupported_windows_compute_driver(name: &str) -> (error: GatewayError)
    ensures
        error matches GatewayError::Config(message) && message@ == unsupported_message(name@),
{
    let mut message = "compute driver '".to_owned();
    message.append(name);
    message.append("' is unsupported on Windows");
    GatewayError::Config(message)
}

/// The Kubernetes driver.
pub open spec fn kubernetes_driver() -> RegistrationView {
    RegistrationView {
        telemetry_category: Some("kubernetes"@),
        mtls_user_auth: false,
        in_process_tracing: true,
        inherited_config_keys: seq![
            "namespace"@,
            "default_image"@,
            "supervisor_image"@,
            "client_tls_secret_name"@,
            "service_account_name"@,
            "host_gateway_ip"@,
            "enable_user_namespaces"@,
            "sa_token_ttl_secs"@,
        ],
        ..registry::plain_registration(
            "kubernetes"@,
            100,
            Some(Detection::KubernetesServiceHost),
            Factory::Kubernetes,
        )
    }
}

/// The Podman driver.
pub open spec fn podman_driver() -> RegistrationView {
    RegistrationView {
        telemetry_category: Some("podman"@),
        local_singleplayer: true,
        in_process_tracing: true,
        inherited_config_keys: seq![
            "default_image"@,
            "supervisor_image"@,
            "host_gateway_ip"@,
            "guest_tls_ca"@,
            "guest_tls_cert"@,
            "guest_tls_key"@,
        ],
        ..registry::plain_registration(
            "podman"@,
            200,
            Some(Detection::PodmanAvailable),
            Factory::Podman,
        )
    }
}

/// The Docker driver.
pub open spec fn docker_driver() -> RegistrationView {
    RegistrationView {
        telemetry_category: Some("docker"@),
        local_singleplayer: true,
        in_process_tracing: true,
        inherited_config_keys: seq![
            "sandbox_namespace"@,
            "default_image"@,
            "supervisor_image"@,
            "host_gateway_ip"@,
            "guest_tls_ca"@,
            "guest_tls_cert"@,
            "guest_tls_key"@,
        ],
        ..registry::plain_registration(
            "docker"@,
            300,
            Some(Detection::DockerAvailable),
            Factory::Docker,
        )
    }
}

/// The VM driver.
pub open spec fn vm_driver() -> RegistrationView {
    RegistrationView {
        telemetry_category: Some("vm"@),
        local_singleplayer: true,
        inherited_config_keys: seq![
            "default_image"@,
            "guest_tls_ca"@,
            "guest_tls_cert"@,
            "guest_tls_key"@,
        ],
        ..registry::plain_registration("vm"@, u16::MAX, None, Factory::Vm)
    }
}

/// The MXC driver.
pub open spec fn mxc_driver() -> RegistrationView {
    RegistrationView {
        telemetry_category: Some("mxc"@),
        local_singleplayer: true,
        ..registry::plain_registration("mxc"@, u16::MAX, None, Factory::Mxc)
    }
}

/// A driver that does not run on Windows, on Windows.
pub open spec fn unsupported_driver(name: Seq<char>) -> RegistrationView {
    registry::plain_registration(name, u16::MAX, None, Factory::UnsupportedOnWindows)
}

/// `drivers`, with one more where it is enabled.
pub open spec fn with_driver(
    drivers: Map<Seq<char>, RegistrationView>,
    enabled: bool,
    driver: RegistrationView,
) -> Map<Seq<char>, RegistrationView> {
    if enabled {
        drivers.insert(driver.name, driver)
    } else {
        drivers
    }
}

/// `drivers`, with the drivers that do not run on Windows.
pub open spec fn with_in_tree_drivers(
    drivers: Map<Seq<char>, RegistrationView>,
    build: GatewayBuild,
) -> Map<Seq<char>, RegistrationView> {
    let drivers = with_driver(drivers, build.kubernetes, kubernetes_driver());
    let drivers = with_driver(drivers, build.podman, podman_driver());
    let drivers = with_driver(drivers, build.docker, docker_driver());
    with_driver(drivers, build.vm, vm_driver())
}

/// `drivers`, with the refusals of the drivers that do not run on Windows.
pub open spec fn with_unsupported_drivers(
    drivers: Map<Seq<char>, RegistrationView>,
    build: GatewayBuild,
) -> Map<Seq<char>, RegistrationView> {
    let drivers = with_driver(drivers, build.docker, unsupported_driver("docker"@));
    let drivers = with_driver(drivers, build.kubernetes, unsupported_driver("kubernetes"@));
    let drivers = with_driver(drivers, build.podman, unsupported_driver("podman"@));
    with_driver(drivers, build.vm, unsupported_driver("vm"@))
}

/// The drivers of a gateway.
pub open spec fn default_drivers(build: GatewayBuild) -> Map<Seq<char>, RegistrationView> {
    let none = Map::<Seq<char>, RegistrationView>::empty();
    if build.windows {
        with_unsupported_drivers(with_driver(none, build.mxc, mxc_driver()), build)
    } else {
        with_in_tree_drivers(none, build)
    }
}

/// The names of the first-party drivers differ.
proof fn lemma_names_differ()
    ensures
        "docker"@ != "kubernetes"@,
        "docker"@ != "podman"@,
        "docker"@ != "vm"@,
        "docker"@ != "mxc"@,
        "kubernetes"@ != "podman"@,
        "kubernetes"@ != "vm"@,
        "kubernetes"@ != "mxc"@,
        "podman"@ != "vm"@,
        "podman"@ != "mxc"@,
        "vm"@ != "mxc"@,
{
    reveal_strlit("docker");
    reveal_strlit("kubernetes");
    reveal_strlit("podman");
    reveal_strlit("vm");
    reveal_strlit("mxc");
    assert("docker"@.len() == 6 && "podman"@.len() == 6 && "docker"@[0] != "podman"@[0]);
    assert("kubernetes"@.len() == 10);
    assert("vm"@.len() == 2 && "mxc"@.len() == 3);
}

/// Installs a driver under a name that is free.
fn install(registry: &mut ComputeDriverRegistry, registration: ComputeDriverRegistration)
    requires
        !old(registry)@.contains_key(registration@.name),
    ensures
        final(registry)@ == old(registry)@.insert(registration@.name, registration@),
{
    let _installed = registry.install(registration);
}

fn kubernetes_registration() -> (registration: ComputeDriverRegistration)
    ensures
        registration@ == kubernetes_driver(),
{
    let registration = ComputeDriverRegistration::new(
        "kubernetes",
        100,
        Some(Detection::KubernetesServiceHost),
        Factory::Kubernetes,
    ).with_telemetry_category(
        "kubernetes",
    ).without_mtls_user_auth().with_in_process_tracing().with_inherited_config_keys(
        &[
            "namespace",
            "default_image",
            "supervisor_image",
            "client_tls_secret_name",
            "service_account_name",
            "host_gateway_ip",
            "enable_user_namespaces",
            "sa_token_ttl_secs",
        ],
    );
    assert(registration@ =~~= kubernetes_driver());
    registration
}

fn podman_registration() -> (registration: ComputeDriverRegistration)
    ensures
        registration@ == podman_driver(),
{
    let registration = ComputeDriverRegistration::new(
        "podman",
        200,
        Some(Detection::PodmanAvailable),
        Factory::Podman,
    ).with_telemetry_category(
        "podman",
    ).with_local_singleplayer().with_in_process_tracing().with_inherited_config_keys(
        &[
            "default_image",
            "supervisor_image",
            "host_gateway_ip",
            "guest_tls_ca",
            "guest_tls_cert",
            "guest_tls_key",
        ],
    );
    assert(registration@ =~~= podman_driver());
    registration
}

fn docker_registration() -> (registration: ComputeDriverRegistration)
    ensures
        registration@ == docker_driver(),
{
    let registration = ComputeDriverRegistration::new(
        "docker",
        300,
        Some(Detection::DockerAvailable),
        Factory::Docker,
    ).with_telemetry_category(
        "docker",
    ).with_local_singleplayer().with_in_process_tracing().with_inherited_config_keys(
        &[
            "sandbox_namespace",
            "default_image",
            "supervisor_image",
            "host_gateway_ip",
            "guest_tls_ca",
            "guest_tls_cert",
            "guest_tls_key",
        ],
    );
    assert(registration@ =~~= docker_driver());
    registration
}

fn vm_registration() -> (registration: ComputeDriverRegistration)
    ensures
        registration@ == vm_driver(),
{
    let registration = ComputeDriverRegistration::new(
        "vm",
        u16::MAX,
        None,
        Factory::Vm,
    ).with_telemetry_category("vm").with_local_singleplayer().with_inherited_config_keys(
        &["default_image", "guest_tls_ca", "guest_tls_cert", "guest_tls_key"],
    );
    assert(registration@ =~~= vm_driver());
    registration
}

/// Installs the drivers that do not run on Windows.
pub fn install_in_tree_compute_drivers(registry: &mut ComputeDriverRegistry, build: &GatewayBuild)
    requires
        build.kubernetes ==> !old(registry)@.contains_key("kubernetes"@),
        build.podman ==> !old(registry)@.contains_key("podman"@),
        build.docker ==> !old(registry)@.contains_key("docker"@),
        build.vm ==> !old(registry)@.contains_key("vm"@),
    ensures
        final(registry)@ == with_in_tree_drivers(old(registry)@, *build),
{
    proof {
        lemma_names_differ();
    }
    if build.kubernetes {
        install(registry, kubernetes_registration());
    }
    if build.podman {
        install(registry, podman_registration());
    }
    if build.docker {
        install(registry, docker_registration());
    }
    if build.vm {
        install(registry, vm_registration());
    }
}

/// Installs the MXC driver.
pub fn install_mxc_compute_driver(registry: &mut ComputeDriverRegistry)
    requires
        !old(registry)@.contains_key("mxc"@),
    ensures
        final(registry)@ == old(registry)@.insert("mxc"@, mxc_driver()),
{
    let registration = ComputeDriverRegistration::new(
        "mxc",
        u16::MAX,
        None,
        Factory::Mxc,
    ).with_telemetry_category("mxc").with_local_singleplayer();
    assert(registration@ =~~= mxc_driver());
    install(registry, registration);
}

fn unsupported_registration(name: &str) -> (registration: ComputeDriverRegistration)
    ensures
        registration@ == unsupported_driver(name@),
{
    ComputeDriverRegistration::new(name, u16::MAX, None, Factory::UnsupportedOnWindows)
}

/// Installs the refusals of the drivers that do not run on Windows.
pub fn install_unsupported_windows_compute_drivers(
    registry: &mut ComputeDriverRegistry,
    build: &GatewayBuild,
)
    requires
        build.kubernetes ==> !old(registry)@.contains_key("kubernetes"@),
        build.podman ==> !old(registry)@.contains_key("podman"@),
        build.docker ==> !old(registry)@.contains_key("docker"@),
        build.vm ==> !old(registry)@.contains_key("vm"@),
    ensures
        final(registry)@ == with_unsupported_drivers(old(registry)@, *build),
{
    proof {
        lemma_names_differ();
    }
    if build.docker {
        install(registry, unsupported_registration("docker"));
    }
    if build.kubernetes {
        install(registry, unsupported_registration("kubernetes"));
    }
    if build.podman {
        install(registry, unsupported_registration("podman"));
    }
    if build.vm {
        install(registry, unsupported_registration("vm"));
    }
}

/// Installs every first-party compute driver that is linked into the gateway.
pub fn install_default_compute_drivers(build: &GatewayBuild) -> (registry: ComputeDriverRegistry)
    ensures
        registry@ == default_drivers(*build),
{
    let mut registry = ComputeDriverRegistry::new();
    proof {
        lemma_names_differ();
    }
    if !build.windows {
        install_in_tree_compute_drivers(&mut registry, build);
    } else {
        if build.mxc {
            install_mxc_compute_driver(&mut registry);
        }
        install_unsupported_windows_compute_drivers(&mut registry, build);
    }
    registry
}

/// Whether `build` links the driver `name` in, for the platform it is built for.
pub open spec fn is_enabled(build: GatewayBuild, name: Seq<char>) -> bool {
    ||| name == "docker"@ && build.docker
    ||| name == "kubernetes"@ && build.kubernetes
    ||| name == "mxc"@ && build.mxc && build.windows
    ||| name == "podman"@ && build.podman
    ||| name == "vm"@ && build.vm
}

/// A gateway has exactly the drivers that are enabled in it, each under its own name.
pub proof fn law_exactly_the_enabled_drivers(build: GatewayBuild, name: Seq<char>)
    ensures
        default_drivers(build).contains_key(name) <==> is_enabled(build, name),
        default_drivers(build).contains_key(name) ==> default_drivers(build)[name].name == name,
{
    lemma_names_differ();
}

/// On Windows every driver but MXC is there to be refused, and cannot be detected;
/// off Windows no driver is refused.
pub proof fn law_windows_refuses_all_but_mxc(build: GatewayBuild, name: Seq<char>)
    requires
        default_drivers(build).contains_key(name),
    ensures
        build.windows && name != "mxc"@ ==> default_drivers(build)[name] == unsupported_driver(
            name,
        ),
        default_drivers(build)[name].factory == Factory::UnsupportedOnWindows <==> build.windows
            && name != "mxc"@,
{
    lemma_names_differ();
}

/// No two drivers that can be detected have one priority: Kubernetes has the
/// lowest, then come Podman and Docker, and last those that cannot be detected.
pub proof fn law_detection_priorities(build: GatewayBuild, a: Seq<char>, b: Seq<char>)
    requires
        default_drivers(build).contains_key(a),
        default_drivers(build).contains_key(b),
        default_drivers(build)[a].detection is Some,
        a != b,
    ensures
        default_drivers(build)[a].priority != default_drivers(build)[b].priority,
        default_drivers(build)[b].detection is None ==> default_drivers(build)[a].priority
            < default_drivers(build)[b].priority,
        a == "kubernetes"@ ==> default_drivers(build)[a].priority
            < default_drivers(build)[b].priority,
        a == "podman"@ && b == "docker"@ ==> default_drivers(build)[a].priority
            < default_drivers(build)[b].priority,
{
    lemma_names_differ();
}

/// Each driver is built by its own factory, off Windows and MXC on it, and by no
/// other's; so no two drivers that can run share a factory.
pub proof fn law_each_driver_has_its_own_factory(build: GatewayBuild, name: Seq<char>)
    requires
        default_drivers(build).contains_key(name),
    ensures
        ({
            let factory = default_drivers(build)[name].factory;
            &&& factory == Factory::Docker <==> !build.windows && name == "docker"@
            &&& factory == Factory::Kubernetes <==> !build.windows && name == "kubernetes"@
            &&& factory == Factory::Podman <==> !build.windows && name == "podman"@
            &&& factory == Factory::Vm <==> !build.windows && name == "vm"@
            &&& factory == Factory::Mxc <==> build.windows && name == "mxc"@
            &&& factory == Factory::UnsupportedOnWindows <==> build.windows && name != "mxc"@
        }),
{
    lemma_names_differ();
}

/// Off Windows Kubernetes, Podman and Docker are each detected in their own way, and
/// considered in that order; every other driver cannot be detected, and comes last.
pub proof fn law_each_driver_has_its_own_detection(build: GatewayBuild, name: Seq<char>)
    requires
        default_drivers(build).contains_key(name),
    ensures
        ({
            let driver = default_drivers(build)[name];
            if !build.windows && name == "kubernetes"@ {
                driver.detection == Some(Detection::KubernetesServiceHost) && driver.priority == 100
            } else if !build.windows && name == "podman"@ {
                driver.detection == Some(Detection::PodmanAvailable) && driver.priority == 200
            } else if !build.windows && name == "docker"@ {
                driver.detection == Some(Detection::DockerAvailable) && driver.priority == 300
            } else {
                driver.detection is None && driver.priority == 0xffff
            }
        }),
{
    lemma_names_differ();
}

/// Telemetry names every driver that can run by its own name, and none that is refused.
pub proof fn law_telemetry_names_the_driver(build: GatewayBuild, name: Seq<char>)
    requires
        default_drivers(build).contains_key(name),
    ensures
        build.windows && name != "mxc"@ ==> default_drivers(build)[name].telemetry_category is None,
        !build.windows || name == "mxc"@ ==> default_drivers(build)[name].telemetry_category
            == Some(name),
{
    lemma_names_differ();
}

/// Every driver that can run but Kubernetes is for a single local user; Kubernetes
/// alone does without the authentication of users by mutual TLS; and those that are
/// detected trace in the gateway's process.
pub proof fn law_how_drivers_are_treated(build: GatewayBuild, name: Seq<char>)
    requires
        default_drivers(build).contains_key(name),
    ensures
        ({
            let driver = default_drivers(build)[name];
            &&& driver.local_singleplayer <==> (if build.windows {
                name == "mxc"@
            } else {
                name != "kubernetes"@
            })
            &&& driver.mtls_user_auth <==> build.windows || name != "kubernetes"@
            &&& driver.in_process_tracing <==> !build.windows && name != "vm"@
        }),
{
    lemma_names_differ();
}

/// Off Windows each driver inherits the settings that it understands, and on Windows
/// none does.
pub proof fn law_what_drivers_inherit(build: GatewayBuild, name: Seq<char>)
    requires
        default_drivers(build).contains_key(name),
    ensures
        ({
            let keys = default_drivers(build)[name].inherited_config_keys;
            &&& build.windows ==> keys.len() == 0
            &&& !build.windows && name == "kubernetes"@ ==> keys == seq![
                "namespace"@,
                "default_image"@,
                "supervisor_image"@,
                "client_tls_secret_name"@,
                "service_account_name"@,
                "host_gateway_ip"@,
                "enable_user_namespaces"@,
                "sa_token_ttl_secs"@,
            ]
            &&& !build.windows && name == "podman"@ ==> keys == seq![
                "default_image"@,
                "supervisor_image"@,
                "host_gateway_ip"@,
                "guest_tls_ca"@,
                "guest_tls_cert"@,
                "guest_tls_key"@,
            ]
            &&& !build.windows && name == "docker"@ ==> keys == seq![
                "sandbox_namespace"@,
                "default_image"@,
                "supervisor_image"@,
                "host_gateway_ip"@,
                "guest_tls_ca"@,
                "guest_tls_cert"@,
                "guest_tls_key"@,
            ]
            &&& !build.windows && name == "vm"@ ==> keys == seq![
                "default_image"@,
                "guest_tls_ca"@,
                "guest_tls_cert"@,
                "guest_tls_key"@,
            ]
        }),
{
    lemma_names_differ();
}

/// Whether `build` links in the driver `name`, one that does not run on Windows.
pub open spec fn is_linked(build: GatewayBuild, name: Seq<char>) -> bool {
    ||| name == "docker"@ && build.docker
    ||| name == "kubernetes"@ && build.kubernetes
    ||| name == "podman"@ && build.podman
    ||| name == "vm"@ && build.vm
}

/// To install drivers is to add those that are linked in to the ones that are there,
/// and to leave the others as they are: each is the one that a fresh gateway would
/// have, off Windows or on it.
pub proof fn law_installing_adds_the_linked_drivers(
    drivers: Map<Seq<char>, RegistrationView>,
    build: GatewayBuild,
    name: Seq<char>,
)
    ensures
        ({
            let more = with_in_tree_drivers(drivers, build);
            let fresh = default_drivers(GatewayBuild { windows: false, ..build });
            &&& more.contains_key(name) <==> is_linked(build, name) || drivers.contains_key(name)
            &&& is_linked(build, name) ==> more[name] == fresh[name]
            &&& !is_linked(build, name) && drivers.contains_key(name) ==> more[name]
                == drivers[name]
        }),
        ({
            let more = with_unsupported_drivers(drivers, build);
            let fresh = default_drivers(GatewayBuild { windows: true, ..build });
            &&& more.contains_key(name) <==> is_linked(build, name) || drivers.contains_key(name)
            &&& is_linked(build, name) ==> more[name] == fresh[name]
            &&& !is_linked(build, name) && drivers.contains_key(name) ==> more[name]
                == drivers[name]
        }),
        build.windows && build.mxc ==> default_drivers(build)["mxc"@] == mxc_driver(),
{
    lemma_names_differ();
}

/// A refusal names the driver, between words that are the same for all drivers.
pub proof fn law_refusal_names_the_driver(name: Seq<char>)
    ensures
        ({
            let message = unsupported_message(name);
            let start = "compute driver '"@.len() as int;
            let end = start + name.len();
            &&& message.len() == end + "' is unsupported on Windows"@.len()
            &&& message.take(start) == "compute driver '"@
            &&& message.subrange(start, end) == name
            &&& message.skip(end) == "' is unsupported on Windows"@
        }),
{
    let message = unsupported_message(name);
    let start = "compute driver '"@.len() as int;
    let end = start + name.len();
    assert(message.take(start) =~= "compute driver '"@);
    assert(message.subrange(start, end) =~= name);
    assert(message.skip(end) =~= "' is unsupported on Windows"@);
}

} // verus!
