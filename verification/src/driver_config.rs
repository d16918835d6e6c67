//! What the gateway settles in a driver's configuration before it builds the
//! driver: overrides from the environment, the TLS files of guests, the endpoint
//! that virtual machines call back.
//!
//! Paths are values of any type `P`; nothing here looks into them.

use crate::text;
use crate::text::{decimal_text, is_blank};
use vstd::prelude::*;
use vstd::string::StringExecFns;

verus! {

/// The three TLS files of guests, as configured: certificate authority,
/// certificate and key.
pub struct GuestTlsView<P> {
    pub ca: Option<P>,
    pub cert: Option<P>,
    pub key: Option<P>,
}

/// The TLS files that a configuration ends up with: the gateway's, where it names
/// none itself; else its own, however few.
pub open spec fn settled_guest_tls<P>(
    own: GuestTlsView<P>,
    defaults: Option<(P, P, P)>,
) -> GuestTlsView<P> {
    match defaults {
        Some(files) => if own.ca is None && own.cert is None && own.key is None {
            GuestTlsView { ca: Some(files.0), cert: Some(files.1), key: Some(files.2) }
        } else {
            own
        },
        None => own,
    }
}

/// Fills in the gateway's TLS files for guests, unless the configuration names any
/// of them itself.
pub fn apply_guest_tls<P>(
    ca: &mut Option<P>,
    cert: &mut Option<P>,
    key: &mut Option<P>,
    defaults: Option<(P, P, P)>,
)
    ensures
        (GuestTlsView { ca: *final(ca), cert: *final(cert), key: *final(key) })
            == settled_guest_tls(
            GuestTlsView { ca: *old(ca), cert: *old(cert), key: *old(key) },
            defaults,
        ),
{
    if ca.is_none() && cert.is_none() && key.is_none() {
        if let Some((default_ca, default_cert, default_key)) = defaults {
            *ca = Some(default_ca);
            *cert = Some(default_cert);
            *key = Some(default_key);
        }
    }
}

/// The files of a guest are never mixed: they are the configuration's own or all
/// three of the gateway's; and what is settled once stays settled.
pub proof fn law_guest_tls_is_all_or_nothing<P>(
    own: GuestTlsView<P>,
    defaults: Option<(P, P, P)>,
    later: Option<(P, P, P)>,
)
    ensures
        ({
            let settled = settled_guest_tls(own, defaults);
            ||| settled == own
            ||| defaults matches Some(files) && settled == (GuestTlsView {
                ca: Some(files.0),
                cert: Some(files.1),
                key: Some(files.2),
            })
        }),
        own.ca is Some || own.cert is Some || own.key is Some ==> settled_guest_tls(own, defaults)
            == own,
        defaults is Some ==> settled_guest_tls(settled_guest_tls(own, defaults), later)
            == settled_guest_tls(own, defaults),
{
}

/// The part of the Kubernetes driver's configuration that the environment overrides.
#[derive(Debug, PartialEq, Eq)]
pub struct KubernetesComputeConfig {
    pub workspace_default_storage_size: String,
    pub workspace_storage_class: String,
}

impl KubernetesComputeConfig {
    /// Takes over what the environment says.
    pub fn settle(&mut self, storage_size: Option<String>, storage_class: Option<String>)
        ensures
            final(self).workspace_default_storage_size == match storage_size {
                Some(size) => size,
                None => old(self).workspace_default_storage_size,
            },
            final(self).workspace_storage_class == match storage_class {
                Some(class) => class,
                None => old(self).workspace_storage_class,
            },
    {
        if let Some(size) = storage_size {
            self.workspace_default_storage_size = size;
        }
        if let Some(class) = storage_class {
            self.workspace_storage_class = class;
        }
    }
}

/// The part of the Docker driver's configuration that the gateway settles.
#[derive(Debug, PartialEq, Eq)]
pub struct DockerComputeConfig<P> {
    pub guest_tls_ca: Option<P>,
    pub guest_tls_cert: Option<P>,
    pub guest_tls_key: Option<P>,
}

impl<P> DockerComputeConfig<P> {
    /// The TLS files of guests.
    pub open spec fn guest_tls(self) -> GuestTlsView<P> {
        GuestTlsView { ca: self.guest_tls_ca, cert: self.guest_tls_cert, key: self.guest_tls_key }
    }

    /// Fills in the gateway's TLS files for guests.
    pub fn settle(&mut self, guest_tls: Option<(P, P, P)>)
        ensures
            final(self).guest_tls() == settled_guest_tls(old(self).guest_tls(), guest_tls),
    {
        apply_guest_tls(
            &mut self.guest_tls_ca,
            &mut self.guest_tls_cert,
            &mut self.guest_tls_key,
            guest_tls,
        );
    }
}

/// The part of the Podman driver's configuration that the gateway settles.
#[derive(Debug, PartialEq, Eq)]
pub struct PodmanComputeConfig<P> {
    pub gateway_port: u16,
    pub socket_path: Option<P>,
    pub host_gateway_ip: String,
    pub userns: Option<String>,
    pub guest_tls_ca: Option<P>,
    pub guest_tls_cert: Option<P>,
    pub guest_tls_key: Option<P>,
}

impl<P> PodmanComputeConfig<P> {
    /// The TLS files of guests.
    pub open spec fn guest_tls(self) -> GuestTlsView<P> {
        GuestTlsView { ca: self.guest_tls_ca, cert: self.guest_tls_cert, key: self.guest_tls_key }
    }

    /// Sets the gateway's port, takes over what the environment says, and fills in
    /// the gateway's TLS files for guests.
    pub fn settle(
        &mut self,
        gateway_port: u16,
        socket: Option<P>,
        host_gateway_ip: Option<String>,
        userns: Option<String>,
        guest_tls: Option<(P, P, P)>,
    )
        ensures
            final(self).gateway_port == gateway_port,
            final(self).socket_path == match socket {
                Some(path) => Some(path),
                None => old(self).socket_path,
            },
            final(self).host_gateway_ip == match host_gateway_ip {
                Some(ip) => ip,
                None => old(self).host_gateway_ip,
            },
            final(self).userns == match userns {
                Some(mode) => Some(mode),
                None => old(self).userns,
            },
            final(self).guest_tls() == settled_guest_tls(old(self).guest_tls(), guest_tls),
    {
        self.gateway_port = gateway_port;
        if let Some(path) = socket {
            self.socket_path = Some(path);
        }
        if let Some(ip) = host_gateway_ip {
            self.host_gateway_ip = ip;
        }
        if let Some(mode) = userns {
            self.userns = Some(mode);
        }
        apply_guest_tls(
            &mut self.guest_tls_ca,
            &mut self.guest_tls_cert,
            &mut self.guest_tls_key,
            guest_tls,
        );
    }
}

/// The gateway's own endpoint, as seen on the host.
pub open spec fn local_endpoint(tls: bool, port: u16) -> Seq<char> {
    (if tls {
        "https"@
    } else {
        "http"@
    }) + "://127.0.0.1:"@ + text::decimal(port as nat)
}

/// The gateway's own endpoint, as seen on the host.
pub fn local_endpoint_text(tls: bool, port: u16) -> (endpoint: String)
    ensures
        endpoint@ == local_endpoint(tls, port),
{
    let scheme = if tls {
        "https"
    } else {
        "http"
    };
    let mut endpoint = scheme.to_owned();
    endpoint.append("://127.0.0.1:");
    let digits = decimal_text(port);
    endpoint.append(digits.as_str());
    endpoint
}

/// The part of the VM driver's configuration that the gateway settles.
#[derive(Debug, PartialEq, Eq)]
pub struct VmComputeConfig<P> {
    pub state_dir: P,
    pub grpc_endpoint: String,
    pub guest_tls_ca: Option<P>,
    pub guest_tls_cert: Option<P>,
    pub guest_tls_key: Option<P>,
}

/// The endpoint that virtual machines call: the configured one, unless it is blank
/// and the gateway can be called without TLS, or with TLS files that guests get.
pub open spec fn settled_endpoint(
    own: Seq<char>,
    tls: bool,
    port: u16,
    has_guest_tls: bool,
) -> Seq<char> {
    if text::blank(own) && (!tls || has_guest_tls) {
        local_endpoint(tls, port)
    } else {
        own
    }
}

impl<P> VmComputeConfig<P> {
    /// The TLS files of guests.
    pub open spec fn guest_tls(self) -> GuestTlsView<P> {
        GuestTlsView { ca: self.guest_tls_ca, cert: self.guest_tls_cert, key: self.guest_tls_key }
    }

    /// Fills in the state directory, where none is configured (its path is empty),
    /// the endpoint that virtual machines call, and the gateway's TLS files for guests.
    pub fn settle(
        &mut self,
        state_dir_is_empty: bool,
        default_state_dir: P,
        gateway_tls: bool,
        gateway_port: u16,
        guest_tls: Option<(P, P, P)>,
    )
        ensures
            final(self).state_dir == if state_dir_is_empty {
                default_state_dir
            } else {
                old(self).state_dir
            },
            final(self).grpc_endpoint@ == settled_endpoint(
                old(self).grpc_endpoint@,
                gateway_tls,
                gateway_port,
                guest_tls is Some,
            ),
            final(self).guest_tls() == settled_guest_tls(old(self).guest_tls(), guest_tls),
    {
        if state_dir_is_empty {
            self.state_dir = default_state_dir;
        }
        if is_blank(self.grpc_endpoint.as_str()) && (!gateway_tls || guest_tls.is_some()) {
            self.grpc_endpoint = local_endpoint_text(gateway_tls, gateway_port);
        }
        apply_guest_tls(
            &mut self.guest_tls_ca,
            &mut self.guest_tls_cert,
            &mut self.guest_tls_key,
            guest_tls,
        );
    }
}

/// A configured endpoint is kept, and what is settled once stays settled.
pub proof fn law_endpoint_is_settled_once(
    own: Seq<char>,
    tls: bool,
    port: u16,
    has_guest_tls: bool,
    later_port: u16,
)
    ensures
        !text::blank(own) ==> settled_endpoint(own, tls, port, has_guest_tls) == own,
        !text::blank(local_endpoint(tls, port)),
        settled_endpoint(
            settled_endpoint(own, tls, port, has_guest_tls),
            tls,
            later_port,
            has_guest_tls,
        ) == settled_endpoint(own, tls, port, has_guest_tls),
{
    reveal_strlit("https");
    reveal_strlit("http");
    let scheme = if tls {
        "https"@
    } else {
        "http"@
    };
    let endpoint = local_endpoint(tls, port);
    assert(scheme[0] == 'h');
    assert(endpoint[0] == 'h');
    assert(!text::is_white_space(endpoint[0]));
}

/// A guest whose configuration names no TLS file gets the gateway's three, each in its
/// place, where the gateway has them; in every other case it keeps what it has.
pub proof fn law_guest_tls_defaults_fill_an_empty_configuration<P>(
    own: GuestTlsView<P>,
    ca: P,
    cert: P,
    key: P,
)
    ensures
        own.ca is None && own.cert is None && own.key is None ==> {
            let settled = settled_guest_tls(own, Some((ca, cert, key)));
            &&& settled.ca == Some(ca)
            &&& settled.cert == Some(cert)
            &&& settled.key == Some(key)
        },
        !(own.ca is None && own.cert is None && own.key is None) ==> settled_guest_tls(
            own,
            Some((ca, cert, key)),
        ) == own,
        settled_guest_tls(own, None) == own,
{
}

/// The TLS files of a configuration are those in its fields.
pub proof fn law_guest_tls_is_in_the_fields<P>(
    docker: DockerComputeConfig<P>,
    podman: PodmanComputeConfig<P>,
    vm: VmComputeConfig<P>,
)
    ensures
        docker.guest_tls().ca == docker.guest_tls_ca,
        docker.guest_tls().cert == docker.guest_tls_cert,
        docker.guest_tls().key == docker.guest_tls_key,
        podman.guest_tls().ca == podman.guest_tls_ca,
        podman.guest_tls().cert == podman.guest_tls_cert,
        podman.guest_tls().key == podman.guest_tls_key,
        vm.guest_tls().ca == vm.guest_tls_ca,
        vm.guest_tls().cert == vm.guest_tls_cert,
        vm.guest_tls().key == vm.guest_tls_key,
{
}

/// Whether `endpoint` is reached over `scheme` on the host itself, at `port`: behind
/// the scheme and the address stand decimal digits whose value is the port, without
/// leading zeros.
pub open spec fn is_local_endpoint(endpoint: Seq<char>, scheme: Seq<char>, port: u16) -> bool {
    exists|digits: Seq<char>|
        {
            &&& endpoint == #[trigger] (scheme + "127.0.0.1:"@ + digits)
            &&& digits.len() > 0
            &&& forall|i: int| 0 <= i < digits.len() ==> '0' <= #[trigger] digits[i] <= '9'
            &&& text::decimal_value(digits) == port
            &&& digits[0] == '0' ==> digits.len() == 1
        }
}

proof fn lemma_local_endpoint(tls: bool, port: u16)
    ensures
        is_local_endpoint(
            local_endpoint(tls, port),
            if tls {
                "https://"@
            } else {
                "http://"@
            },
            port,
        ),
{
    reveal_strlit("https");
    reveal_strlit("http");
    reveal_strlit("https://");
    reveal_strlit("http://");
    reveal_strlit("://127.0.0.1:");
    reveal_strlit("127.0.0.1:");
    let digits = text::decimal(port as nat);
    let scheme = if tls {
        "https://"@
    } else {
        "http://"@
    };
    text::law_decimal_reads_back(port as nat);
    assert(local_endpoint(tls, port) =~= scheme + "127.0.0.1:"@ + digits);
}

/// The endpoint that a blank configuration is given is the gateway's own: over HTTPS
/// exactly where the gateway has TLS, on the host itself, at the gateway's port. It is
/// given wherever guests can call it; else, and where an endpoint is configured, the
/// configuration keeps what it has.
pub proof fn law_blank_endpoint_becomes_the_gateways(
    own: Seq<char>,
    tls: bool,
    port: u16,
    has_guest_tls: bool,
)
    ensures
        is_local_endpoint(local_endpoint(true, port), "https://"@, port),
        is_local_endpoint(local_endpoint(false, port), "http://"@, port),
        text::has_prefix(local_endpoint(tls, port), "https://"@) <==> tls,
        text::has_prefix(local_endpoint(tls, port), "http://"@) <==> !tls,
        text::blank(own) && !tls ==> is_local_endpoint(
            settled_endpoint(own, tls, port, has_guest_tls),
            "http://"@,
            port,
        ),
        text::blank(own) && tls && has_guest_tls ==> is_local_endpoint(
            settled_endpoint(own, tls, port, has_guest_tls),
            "https://"@,
            port,
        ),
        !text::blank(own) || (tls && !has_guest_tls) ==> settled_endpoint(
            own,
            tls,
            port,
            has_guest_tls,
        ) == own,
{
    lemma_local_endpoint(true, port);
    lemma_local_endpoint(false, port);
    reveal_strlit("https://");
    reveal_strlit("http://");
    let endpoint = local_endpoint(tls, port);
    let scheme = if tls {
        "https://"@
    } else {
        "http://"@
    };
    let digits = choose|digits: Seq<char>|
        {
            &&& endpoint == #[trigger] (scheme + "127.0.0.1:"@ + digits)
            &&& digits.len() > 0
            &&& forall|i: int| 0 <= i < digits.len() ==> '0' <= #[trigger] digits[i] <= '9'
            &&& text::decimal_value(digits) == port
            &&& digits[0] == '0' ==> digits.len() == 1
        };
    assert(endpoint =~= scheme + ("127.0.0.1:"@ + digits));
    assert(endpoint.take(scheme.len() as int) =~= scheme);
    assert(endpoint[4] == scheme[4]);
    if text::has_prefix(endpoint, "https://"@) {
        assert(endpoint.take(8)[4] == "https://"@[4]);
    }
    if text::has_prefix(endpoint, "http://"@) {
        assert(endpoint.take(7)[4] == "http://"@[4]);
    }
}

} // verus!
