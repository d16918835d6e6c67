//! The registry of the compute drivers that are linked into a gateway.

use crate::text;
use crate::text::{text_order, TextOrder};
use vstd::prelude::*;

verus! {

/// What tells that a driver can run here.
#[derive(Clone, Copy, Debug, PartialEq, Eq, Structural)]
pub enum Detection {
    /// The environment variable `KUBERNETES_SERVICE_HOST` is set.
    KubernetesServiceHost,
    /// The Podman driver finds its service.
    PodmanAvailable,
    /// The Docker driver finds its service.
    DockerAvailable,
}

/// What builds a driver.
#[derive(Clone, Copy, Debug, PartialEq, Eq, Structural)]
pub enum Factory {
    Kubernetes,
    Podman,
    Docker,
    Vm,
    Mxc,
    /// Builds nothing: the driver does not run on Windows.
    UnsupportedOnWindows,
}

/// A compute driver and how the gateway treats it.
#[derive(Debug, PartialEq, Eq)]
pub struct ComputeDriverRegistration {
    pub name: String,
    /// Where the driver stands among those that can be detected.
    pub priority: u16,
    /// How the driver is detected, where it can be.
    pub detection: Option<Detection>,
    pub factory: Factory,
    /// The driver that telemetry names, where it names one.
    pub telemetry_category: Option<String>,
    pub local_singleplayer: bool,
    pub mtls_user_auth: bool,
    pub in_process_tracing: bool,
    /// The gateway-wide settings that the driver's own settings inherit.
    pub inherited_config_keys: Vec<String>,
}

/// The contents of a [`ComputeDriverRegistration`].
#[verifier::ext_equal]
pub struct RegistrationView {
    pub name: Seq<char>,
    pub priority: u16,
    pub detection: Option<Detection>,
    pub factory: Factory,
    pub telemetry_category: Option<Seq<char>>,
    pub local_singleplayer: bool,
    pub mtls_user_auth: bool,
    pub in_process_tracing: bool,
    pub inherited_config_keys: Seq<Seq<char>>,
}

impl View for ComputeDriverRegistration {
    type V = RegistrationView;

    open spec fn view(&self) -> RegistrationView {
        RegistrationView {
            name: self.name@,
            priority: self.priority,
            detection: self.detection,
            factory: self.factory,
            telemetry_category: match self.telemetry_category {
                Some(category) => Some(category@),
                None => None,
            },
            local_singleplayer: self.local_singleplayer,
            mtls_user_auth: self.mtls_user_auth,
            in_process_tracing: self.in_process_tracing,
            inherited_config_keys: self.inherited_config_keys@.map_values(|k: String| k@),
        }
    }
}

/// A driver of which nothing but this is said.
pub open spec fn plain_registration(
    name: Seq<char>,
    priority: u16,
    detection: Option<Detection>,
    factory: Factory,
) -> RegistrationView {
    RegistrationView {
        name,
        priority,
        detection,
        factory,
        telemetry_category: None,
        local_singleplayer: false,
        mtls_user_auth: true,
        in_process_tracing: false,
        inherited_config_keys: Seq::empty(),
    }
}

impl ComputeDriverRegistration {
    /// Registers a driver under `name`.
    pub fn new(
        name: &str,
        priority: u16,
        detection: Option<Detection>,
        factory: Factory,
    ) -> (registration: ComputeDriverRegistration)
        ensures
            registration@ == plain_registration(name@, priority, detection, factory),
    {
        let registration = ComputeDriverRegistration {
            name: name.to_owned(),
            priority,
            detection,
            factory,
            telemetry_category: None,
            local_singleplayer: false,
            mtls_user_auth: true,
            in_process_tracing: false,
            inherited_config_keys: Vec::new(),
        };
        assert(registration@ =~= plain_registration(name@, priority, detection, factory));
        registration
    }

    /// Lets telemetry name the driver by `category`.
    pub fn with_telemetry_category(self, category: &str) -> (registration:
        ComputeDriverRegistration)
        ensures
            registration@ == (RegistrationView { telemetry_category: Some(category@), ..self@ }),
    {
        let mut registration = self;
        registration.telemetry_category = Some(category.to_owned());
        registration
    }

    /// Marks the driver as one for a single local user.
    pub fn with_local_singleplayer(self) -> (registration: ComputeDriverRegistration)
        ensures
            registration@ == (RegistrationView { local_singleplayer: true, ..self@ }),
    {
        let mut registration = self;
        registration.local_singleplayer = true;
        registration
    }

    /// Takes the authentication of users by mutual TLS away.
    pub fn without_mtls_user_auth(self) -> (registration: ComputeDriverRegistration)
        ensures
            registration@ == (RegistrationView { mtls_user_auth: false, ..self@ }),
    {
        let mut registration = self;
        registration.mtls_user_auth = false;
        registration
    }

    /// Lets the driver trace in the gateway's process.
    pub fn with_in_process_tracing(self) -> (registration: ComputeDriverRegistration)
        ensures
            registration@ == (RegistrationView { in_process_tracing: true, ..self@ }),
    {
        let mut registration = self;
        registration.in_process_tracing = true;
        registration
    }

    /// Names the gateway-wide settings that the driver's own settings inherit.
    pub fn with_inherited_config_keys(self, keys: &[&str]) -> (registration:
        ComputeDriverRegistration)
        ensures
            registration@ == (RegistrationView {
                inherited_config_keys: keys@.map_values(|k: &str| k@),
                ..self@
            }),
    {
        let mut owned: Vec<String> = Vec::new();
        let mut i: usize = 0;
        while i < keys.len()
            invariant
                i <= keys.len(),
                owned@.len() == i,
                forall|j: int| 0 <= j < i ==> (#[trigger] owned@[j])@ == keys@[j]@,
            decreases keys.len() - i,
        {
            owned.push(keys[i].to_owned());
            i = i + 1;
        }
        let mut registration = self;
        registration.inherited_config_keys = owned;
        assert(registration@.inherited_config_keys =~= keys@.map_values(|k: &str| k@));
        registration
    }
}

/// Why a driver could not be installed.
#[derive(Clone, Copy, Debug, PartialEq, Eq, Structural)]
pub enum InstallError {
    /// A driver of that name is installed already.
    DuplicateName,
}

/// Whether the drivers stand in the order of their names, no two under one name.
pub open spec fn ordered(drivers: Seq<ComputeDriverRegistration>) -> bool {
    forall|i: int, j: int|
        0 <= i < j < drivers.len() ==> text::precedes(
            #[trigger] drivers[i].name@,
            #[trigger] drivers[j].name@,
        )
}

/// Whether `drivers[i]` is called `name`.
pub open spec fn named_at(
    drivers: Seq<ComputeDriverRegistration>,
    name: Seq<char>,
    i: int,
) -> bool {
    0 <= i < drivers.len() && drivers[i].name@ == name
}

/// The drivers by name.
pub open spec fn by_name(drivers: Seq<ComputeDriverRegistration>) -> Map<
    Seq<char>,
    RegistrationView,
> {
    Map::new(
        |name: Seq<char>| exists|i: int| named_at(drivers, name, i),
        |name: Seq<char>| drivers[choose|i: int| named_at(drivers, name, i)]@,
    )
}

proof fn lemma_by_name(drivers: Seq<ComputeDriverRegistration>, i: int)
    requires
        ordered(drivers),
        0 <= i < drivers.len(),
    ensures
        by_name(drivers).contains_key(drivers[i].name@),
        by_name(drivers)[drivers[i].name@] == drivers[i]@,
{
    let name = drivers[i].name@;
    assert(named_at(drivers, name, i));
    let j = choose|j: int| named_at(drivers, name, j);
    text::law_order_is_strict(name, name);
    assert(i == j);
}

proof fn lemma_insert(
    drivers: Seq<ComputeDriverRegistration>,
    at: int,
    registration: ComputeDriverRegistration,
)
    requires
        ordered(drivers),
        0 <= at <= drivers.len(),
        forall|i: int|
            0 <= i < at ==> text::precedes((#[trigger] drivers[i]).name@, registration.name@),
        at < drivers.len() ==> text::precedes(registration.name@, drivers[at].name@),
    ensures
        ordered(drivers.insert(at, registration)),
        !by_name(drivers).contains_key(registration.name@),
        by_name(drivers.insert(at, registration)) == by_name(drivers).insert(
            registration.name@,
            registration@,
        ),
{
    let more = drivers.insert(at, registration);
    let name = registration.name@;
    assert forall|j: int| at <= j < drivers.len() implies text::precedes(
        name,
        (#[trigger] drivers[j]).name@,
    ) by {
        if j > at {
            assert(text::precedes(drivers[at].name@, drivers[j].name@));
            text::law_order_is_transitive(name, drivers[at].name@, drivers[j].name@);
        }
    }
    assert forall|i: int, j: int| 0 <= i < j < more.len() implies text::precedes(
        #[trigger] more[i].name@,
        #[trigger] more[j].name@,
    ) by {
        let p = if i < at {
            i
        } else {
            i - 1
        };
        let q = if j < at {
            j
        } else {
            j - 1
        };
        if i == at {
            assert(more[j] == drivers[q]);
        } else if j == at {
            assert(more[i] == drivers[p]);
        } else {
            assert(more[i] == drivers[p] && more[j] == drivers[q]);
            assert(text::precedes(drivers[p].name@, drivers[q].name@));
        }
    }
    assert(!by_name(drivers).contains_key(name)) by {
        if by_name(drivers).contains_key(name) {
            let i = choose|i: int| named_at(drivers, name, i);
            text::law_order_is_strict(name, name);
            assert(drivers[i].name@ == name);
        }
    }
    let wanted = by_name(drivers).insert(name, registration@);
    let got = by_name(more);
    assert forall|n: Seq<char>|
        #![trigger got.dom().contains(n)]
        #![trigger got[n]]
        got.dom().contains(n) == wanted.dom().contains(n) && (got.dom().contains(n) ==> got[n]
            == wanted[n]) by {
        if by_name(more).contains_key(n) {
            let i = choose|i: int| named_at(more, n, i);
            lemma_by_name(more, i);
            if i != at {
                let p = if i < at {
                    i
                } else {
                    i - 1
                };
                assert(more[i] == drivers[p]);
                lemma_by_name(drivers, p);
            } else {
                assert(more[at] == registration);
            }
        }
        if n == name {
            assert(more[at] == registration);
            lemma_by_name(more, at);
        } else if by_name(drivers).contains_key(n) {
            let p = choose|p: int| named_at(drivers, n, p);
            let i = if p < at {
                p
            } else {
                p + 1
            };
            assert(more[i] == drivers[p]);
            lemma_by_name(more, i);
            lemma_by_name(drivers, p);
        }
    }
    assert(got =~= wanted);
}

/// The compute drivers that are linked into a gateway.
pub struct ComputeDriverRegistry {
    drivers: Vec<ComputeDriverRegistration>,
}

impl View for ComputeDriverRegistry {
    type V = Map<Seq<char>, RegistrationView>;

    closed spec fn view(&self) -> Map<Seq<char>, RegistrationView> {
        by_name(self.drivers@)
    }
}

impl ComputeDriverRegistry {
    #[verifier::type_invariant]
    spec fn well_formed(&self) -> bool {
        ordered(self.drivers@)
    }

    /// Makes a registry without drivers.
    pub fn new() -> (registry: ComputeDriverRegistry)
        ensures
            registry@ == Map::<Seq<char>, RegistrationView>::empty(),
    {
        let registry = ComputeDriverRegistry { drivers: Vec::new() };
        assert(registry@ =~= Map::<Seq<char>, RegistrationView>::empty());
        registry
    }

    /// Installs a driver, unless one of its name is installed already.
    pub fn install(&mut self, registration: ComputeDriverRegistration) -> (installed: Result<
        (),
        InstallError,
    >)
        ensures
            installed is Err <==> old(self)@.contains_key(registration@.name),
            installed is Err ==> final(self)@ == old(self)@,
            installed is Ok ==> final(self)@ == old(self)@.insert(
                registration@.name,
                registration@,
            ),
    {
        proof {
            use_type_invariant(&*self);
        }
        let mut at: usize = 0;
        while at < self.drivers.len()
            invariant
                ordered(self.drivers@),
                at <= self.drivers@.len(),
                *self == *old(self),
                forall|i: int|
                    0 <= i < at ==> text::precedes(
                        (#[trigger] self.drivers@[i]).name@,
                        registration.name@,
                    ),
            ensures
                at < self.drivers@.len() ==> text::precedes(
                    registration.name@,
                    self.drivers@[at as int].name@,
                ),
            decreases self.drivers@.len() - at,
        {
            let order = text_order(self.drivers[at].name.as_str(), registration.name.as_str());
            if order == TextOrder::Same {
                proof {
                    lemma_by_name(self.drivers@, at as int);
                }
                return Err(InstallError::DuplicateName);
            }
            if order == TextOrder::After {
                break;
            }
            at = at + 1;
        }
        proof {
            lemma_insert(self.drivers@, at as int, registration);
        }
        let mut drivers: Vec<ComputeDriverRegistration> = Vec::new();
        std::mem::swap(&mut drivers, &mut self.drivers);
        drivers.insert(at, registration);
        self.drivers = drivers;
        Ok(())
    }

    /// The names of the installed drivers, in order.
    pub fn installed_driver_names(&self) -> (names: Vec<String>)
        ensures
            forall|name: Seq<char>| #[trigger]
                self@.contains_key(name) <==> exists|i: int|
                    0 <= i < names@.len() && (#[trigger] names@[i])@ == name,
            forall|i: int, j: int|
                0 <= i < j < names@.len() ==> text::precedes(
                    #[trigger] names@[i]@,
                    #[trigger] names@[j]@,
                ),
    {
        proof {
            use_type_invariant(self);
        }
        let mut names: Vec<String> = Vec::new();
        let mut i: usize = 0;
        while i < self.drivers.len()
            invariant
                i <= self.drivers@.len(),
                names@.len() == i,
                forall|j: int|
                    0 <= j < i ==> (#[trigger] names@[j])@ == self.drivers@[j].name@,
            decreases self.drivers@.len() - i,
        {
            names.push(self.drivers[i].name.clone());
            i = i + 1;
        }
        assert forall|name: Seq<char>| #[trigger] self@.contains_key(name) implies exists|i: int|
            0 <= i < names@.len() && (#[trigger] names@[i])@ == name by {
            let k = choose|k: int| named_at(self.drivers@, name, k);
            assert(names@[k]@ == name);
        }
        assert forall|name: Seq<char>|
            (exists|i: int| 0 <= i < names@.len() && (#[trigger] names@[i])@ == name) implies
            #[trigger] self@.contains_key(name) by {
            let k = choose|i: int| 0 <= i < names@.len() && (#[trigger] names@[i])@ == name;
            lemma_by_name(self.drivers@, k);
        }
        names
    }

    /// The driver that is installed under `name`.
    pub fn get(&self, name: &str) -> (registration: Option<&ComputeDriverRegistration>)
        ensures
            registration is Some <==> self@.contains_key(name@),
            registration matches Some(r) ==> r@ == self@[name@],
    {
        proof {
            use_type_invariant(self);
        }
        let mut i: usize = 0;
        while i < self.drivers.len()
            invariant
                ordered(self.drivers@),
                i <= self.drivers@.len(),
                forall|j: int| 0 <= j < i ==> (#[trigger] self.drivers@[j]).name@ != name@,
            decreases self.drivers@.len() - i,
        {
            if crate::text::same_text(self.drivers[i].name.as_str(), name) {
                proof {
                    lemma_by_name(self.drivers@, i as int);
                }
                return Some(&self.drivers[i]);
            }
            i = i + 1;
        }
        None
    }
}

/// A registration begins with what it is made of: nothing inherited, no telemetry, no
/// tracing, not for a single local user, and with users authenticated by mutual TLS.
pub proof fn law_registration_begins_plain(
    name: Seq<char>,
    priority: u16,
    detection: Option<Detection>,
    factory: Factory,
)
    ensures
        ({
            let plain = plain_registration(name, priority, detection, factory);
            &&& plain.name == name
            &&& plain.priority == priority
            &&& plain.detection == detection
            &&& plain.factory == factory
            &&& plain.telemetry_category is None
            &&& !plain.local_singleplayer
            &&& plain.mtls_user_auth
            &&& !plain.in_process_tracing
            &&& plain.inherited_config_keys.len() == 0
        }),
{
}

/// The view of a registration holds what the registration holds.
pub proof fn law_registration_view_is_faithful(registration: ComputeDriverRegistration, i: int)
    ensures
        registration@.name == registration.name@,
        registration@.priority == registration.priority,
        registration@.detection == registration.detection,
        registration@.factory == registration.factory,
        registration@.telemetry_category is Some <==> registration.telemetry_category is Some,
        registration.telemetry_category matches Some(category)
            ==> registration@.telemetry_category == Some(category@),
        registration@.local_singleplayer == registration.local_singleplayer,
        registration@.mtls_user_auth == registration.mtls_user_auth,
        registration@.in_process_tracing == registration.in_process_tracing,
        registration@.inherited_config_keys.len() == registration.inherited_config_keys@.len(),
        0 <= i < registration.inherited_config_keys@.len()
            ==> registration@.inherited_config_keys[i] == registration.inherited_config_keys@[i]@,
{
}

} // verus!
