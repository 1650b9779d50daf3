//! The optional listeners: which there are, and starting and stopping them one
//! by one or by mode. The API and the outbound worker are always on and are not
//! controlled here.
use vstd::prelude::*;
use crate::text;
use crate::text::{same_text, to_ascii_lower, trim};

verus! {

/// A listener that can be started and stopped.
#[derive(Debug, Clone, Copy, PartialEq, Eq, Hash, Structural)]
pub enum Service {
    Dns,
    Smtp,
}

/// The service that a name stands for.
pub open spec fn service_of(name: Seq<char>) -> Option<Service> {
    let word = text::ascii_lower(text::trimmed(name));
    if word == "dns"@ {
        Some(Service::Dns)
    } else if word == "smtp"@ {
        Some(Service::Smtp)
    } else {
        None
    }
}

/// The name of a service.
pub open spec fn service_name(service: Service) -> Seq<char> {
    match service {
        Service::Dns => "dns"@,
        Service::Smtp => "smtp"@,
    }
}

impl Service {
    /// Every service, in a fixed order.
    pub fn all() -> (out: [Service; 2])
        ensures
            out@ == seq![Service::Dns, Service::Smtp],
    {
        [Service::Dns, Service::Smtp]
    }

    /// Read the name of a service; letter case and white space around it make
    /// no difference.
    pub fn parse(s: &str) -> (out: Option<Service>)
        ensures
            out == service_of(s@),
    {
        let clean = trim(s);
        let word = to_ascii_lower(clean.as_str());
        if same_text(word.as_str(), "dns") {
            Some(Service::Dns)
        } else if same_text(word.as_str(), "smtp") {
            Some(Service::Smtp)
        } else {
            None
        }
    }

    /// The name of this service.
    pub fn as_str(&self) -> (out: &'static str)
        ensures
            out@ == service_name(*self),
    {
        match self {
            Service::Dns => "dns",
            Service::Smtp => "smtp",
        }
    }
}

/// Whether a listener was started and not stopped since.
#[derive(Debug, Clone, Copy, PartialEq, Eq, Structural)]
pub enum Status {
    Idle,
    Running,
}

/// A choice of listeners.
#[derive(Debug, Clone, Copy, PartialEq, Eq, Structural)]
pub enum BootMode {
    /// All of them.
    Full,
    /// SMTP alone.
    Smtp,
    /// DNS alone.
    Dns,
    /// None of them; the API stays on.
    ApiOnly,
    /// None of them.
    Off,
}

impl Default for BootMode {
    fn default() -> (out: BootMode)
        ensures
            out == BootMode::Full,
    {
        BootMode::Full
    }
}

/// The mode that a name stands for.
pub open spec fn mode_of(name: Seq<char>) -> Option<BootMode> {
    if name == "full"@ {
        Some(BootMode::Full)
    } else if name == "smtp"@ {
        Some(BootMode::Smtp)
    } else if name == "dns"@ {
        Some(BootMode::Dns)
    } else if name == "api-only"@ {
        Some(BootMode::ApiOnly)
    } else if name == "off"@ {
        Some(BootMode::Off)
    } else {
        None
    }
}

impl BootMode {
    /// The mode wants the service to run.
    pub open spec fn wants(self, service: Service) -> bool {
        match self {
            BootMode::Full => true,
            BootMode::Smtp => service == Service::Smtp,
            BootMode::Dns => service == Service::Dns,
            BootMode::ApiOnly => false,
            BootMode::Off => false,
        }
    }

    /// Read the name of a mode.
    pub fn parse(name: &str) -> (out: Option<BootMode>)
        ensures
            out == mode_of(name@),
    {
        if same_text(name, "full") {
            Some(BootMode::Full)
        } else if same_text(name, "smtp") {
            Some(BootMode::Smtp)
        } else if same_text(name, "dns") {
            Some(BootMode::Dns)
        } else if same_text(name, "api-only") {
            Some(BootMode::ApiOnly)
        } else if same_text(name, "off") {
            Some(BootMode::Off)
        } else {
            None
        }
    }

    /// The services that this mode starts, each once.
    pub fn services(&self) -> (out: Vec<Service>)
        ensures
            forall|s: Service| #[trigger] out@.contains(s) <==> self.wants(s),
            out@.no_duplicates(),
    {
        let mut out: Vec<Service> = Vec::new();
        match self {
            BootMode::Full => {
                out.push(Service::Dns);
                out.push(Service::Smtp);
                assert(out@[0] == Service::Dns);
                assert(out@[1] == Service::Smtp);
            },
            BootMode::Smtp => {
                out.push(Service::Smtp);
                assert(out@[0] == Service::Smtp);
            },
            BootMode::Dns => {
                out.push(Service::Dns);
                assert(out@[0] == Service::Dns);
            },
            BootMode::ApiOnly => {},
            BootMode::Off => {},
        }
        out
    }
}

/// The status of one service.
#[derive(Debug, Clone, Copy, PartialEq, Eq, Structural)]
pub struct ServiceReport {
    pub service: Service,
    pub status: Status,
}

/// What came of starting or stopping a service. `changed` is `false` where it
/// was running or idle already.
#[derive(Debug, Clone, Copy, PartialEq, Eq, Structural)]
pub struct ServiceResult {
    pub service: Service,
    pub status: Status,
    pub changed: bool,
}

/// A service that was told to stop, with the task that has to be ended for it.
pub struct Stopped<H> {
    pub result: ServiceResult,
    pub handle: Option<H>,
}

/// `spawned` is what `spawn` may give for the service at that address.
pub open spec fn may_spawn<H, F: Fn(Service, &str) -> Result<H, String>>(
    spawn: F,
    service: Service,
    addr: Seq<char>,
    spawned: Result<H, String>,
) -> bool {
    exists|text: &str| #[trigger] call_ensures(spawn, (service, text), spawned) && text@ == addr
}

/// `task` is what is left of a service after `spawn` was called for it: its
/// handle, or nothing where it failed.
pub open spec fn task_after_spawn<H, F: Fn(Service, &str) -> Result<H, String>>(
    spawn: F,
    service: Service,
    addr: Seq<char>,
    task: Option<H>,
) -> bool {
    exists|spawned: Result<H, String>| #[trigger]
        may_spawn(spawn, service, addr, spawned) && task == (match spawned {
            Ok(handle) => Some(handle),
            Err(_) => None,
        })
}

/// What came of a change of mode: the status of every service, and the tasks
/// that have to be ended.
pub struct Applied<H> {
    pub reports: Vec<ServiceReport>,
    pub handles: Vec<H>,
}

/// The task, if there is one, as a sequence.
pub open spec fn as_seq<H>(task: Option<H>) -> Seq<H> {
    match task {
        Some(handle) => seq![handle],
        None => Seq::empty(),
    }
}

/// The control over the listeners. `H` is the handle of a running task.
pub struct ServiceManager<H> {
    dns: Option<H>,
    smtp: Option<H>,
    dns_addr: String,
    smtp_addr: String,
}

impl<H> ServiceManager<H> {
    /// The task of a service, if it runs.
    pub closed spec fn task(self, service: Service) -> Option<H> {
        match service {
            Service::Dns => self.dns,
            Service::Smtp => self.smtp,
        }
    }

    /// Where a service listens.
    pub closed spec fn addr(self, service: Service) -> Seq<char> {
        match service {
            Service::Dns => self.dns_addr@,
            Service::Smtp => self.smtp_addr@,
        }
    }

    /// The status of a service.
    pub open spec fn status(self, service: Service) -> Status {
        if self.task(service) is Some {
            Status::Running
        } else {
            Status::Idle
        }
    }

    /// `self` differs from `old` at most in the task of `service`.
    pub open spec fn changed_only(self, before: ServiceManager<H>, service: Service) -> bool {
        forall|other: Service|
            #![trigger self.addr(other)]
            #![trigger self.task(other)]
            self.addr(other) == before.addr(other) && (other != service ==> self.task(other)
                == before.task(other))
    }

    /// Control over listeners at the given addresses, none of which runs.
    pub fn new(dns_addr: String, smtp_addr: String) -> (out: ServiceManager<H>)
        ensures
            out.addr(Service::Dns) == dns_addr@,
            out.addr(Service::Smtp) == smtp_addr@,
            forall|s: Service| #[trigger] out.task(s) is None,
    {
        ServiceManager { dns: None, smtp: None, dns_addr, smtp_addr }
    }

    /// Control over listeners at addresses that bind no fixed port.
    pub fn for_test() -> (out: ServiceManager<H>)
        ensures
            out.addr(Service::Dns) == "127.0.0.1:0"@,
            out.addr(Service::Smtp) == "127.0.0.1:0"@,
            forall|s: Service| #[trigger] out.task(s) is None,
    {
        ServiceManager::new("127.0.0.1:0".to_owned(), "127.0.0.1:0".to_owned())
    }

    fn addr_of(&self, service: Service) -> (out: &str)
        ensures
            out@ == self.addr(service),
    {
        match service {
            Service::Dns => self.dns_addr.as_str(),
            Service::Smtp => self.smtp_addr.as_str(),
        }
    }

    /// The status of one service.
    pub fn status_of(&self, service: Service) -> (out: Status)
        ensures
            out == self.status(service),
    {
        let running = match service {
            Service::Dns => self.dns.is_some(),
            Service::Smtp => self.smtp.is_some(),
        };
        if running {
            Status::Running
        } else {
            Status::Idle
        }
    }

    /// Start one service by `spawn`, which is called with the service and its
    /// address and gives the handle of the task. A service that runs is left
    /// alone; where `spawn` fails the service stays idle.
    pub fn start<F: Fn(Service, &str) -> Result<H, String>>(
        &mut self,
        service: Service,
        spawn: &F,
    ) -> (out: Result<ServiceResult, String>)
        requires
            forall|addr: &str| call_requires(spawn, (service, addr)),
        ensures
            final(self).changed_only(*old(self), service),
            old(self).status(service) == Status::Running ==> {
                &&& out == Ok::<_, String>(
                    (ServiceResult { service, status: Status::Running, changed: false }),
                )
                &&& final(self).task(service) == old(self).task(service)
            },
            old(self).status(service) == Status::Idle ==> exists|spawned: Result<H, String>|
                #[trigger]
                may_spawn(*spawn, service, old(self).addr(service), spawned) && match spawned {
                    Ok(handle) => out == Ok::<_, String>(
                        (ServiceResult { service, status: Status::Running, changed: true }),
                    ) && final(self).task(service) == Some(handle),
                    Err(e) => out == Err::<ServiceResult, _>(e) && final(self).task(service) is None,
                },
    {
        if self.status_of(service) == Status::Running {
            return Ok(ServiceResult { service, status: Status::Running, changed: false });
        }
        let spawned = spawn(service, self.addr_of(service));
        assert(may_spawn(*spawn, service, old(self).addr(service), spawned));
        let handle = match spawned {
            Ok(handle) => handle,
            Err(e) => return Err(e),
        };
        match service {
            Service::Dns => {
                self.dns = Some(handle);
            },
            Service::Smtp => {
                self.smtp = Some(handle);
            },
        }
        Ok(ServiceResult { service, status: Status::Running, changed: true })
    }

    /// Stop one service. What was its task is handed over, to be ended. An idle
    /// service is left alone.
    pub fn stop(&mut self, service: Service) -> (out: Stopped<H>)
        ensures
            final(self).changed_only(*old(self), service),
            final(self).task(service) is None,
            out.handle == old(self).task(service),
            out.result == (ServiceResult {
                service,
                status: Status::Idle,
                changed: old(self).status(service) == Status::Running,
            }),
    {
        let handle = match service {
            Service::Dns => self.dns.take(),
            Service::Smtp => self.smtp.take(),
        };
        let changed = handle.is_some();
        Stopped { result: ServiceResult { service, status: Status::Idle, changed }, handle }
    }

    /// The status of every service, in the order of [`Service::all`].
    pub fn list(&self) -> (out: Vec<ServiceReport>)
        ensures
            out@ == self.reports(),
    {
        let mut out: Vec<ServiceReport> = Vec::new();
        out.push(ServiceReport { service: Service::Dns, status: self.status_of(Service::Dns) });
        out.push(ServiceReport { service: Service::Smtp, status: self.status_of(Service::Smtp) });
        out
    }

    /// The status of every service.
    pub open spec fn reports(self) -> Seq<ServiceReport> {
        seq![
            ServiceReport { service: Service::Dns, status: self.status(Service::Dns) },
            ServiceReport { service: Service::Smtp, status: self.status(Service::Smtp) },
        ]
    }
}

impl<H> ServiceManager<H> {
    /// After a change of mode from `before`: a service that is not wanted is
    /// idle, one that is wanted and ran is left alone, and one that is wanted
    /// and was idle was spawned.
    pub open spec fn in_mode<F: Fn(Service, &str) -> Result<H, String>>(
        self,
        before: ServiceManager<H>,
        mode: BootMode,
        spawn: F,
        service: Service,
    ) -> bool {
        &&& self.addr(service) == before.addr(service)
        &&& !mode.wants(service) ==> self.task(service) is None
        &&& mode.wants(service) && before.task(service) is Some ==> self.task(service)
            == before.task(service)
        &&& mode.wants(service) && before.task(service) is None ==> task_after_spawn(
            spawn,
            service,
            before.addr(service),
            self.task(service),
        )
    }

    /// Bring one service into the mode; its task, if it has to be ended.
    fn apply_one<F: Fn(Service, &str) -> Result<H, String>>(
        &mut self,
        mode: BootMode,
        service: Service,
        wanted: bool,
        spawn: &F,
    ) -> (out: Option<H>)
        requires
            forall|addr: &str| call_requires(spawn, (service, addr)),
            wanted == mode.wants(service),
        ensures
            final(self).changed_only(*old(self), service),
            final(self).in_mode(*old(self), mode, *spawn, service),
            out == (if wanted {
                None
            } else {
                old(self).task(service)
            }),
    {
        if wanted {
            let _ = self.start(service, spawn);
            None
        } else {
            let stopped = self.stop(service);
            stopped.handle
        }
    }

    /// Start every service that the mode wants, and stop the others. A service
    /// that cannot be started stays idle and does not keep the rest from
    /// starting.
    pub fn apply_mode<F: Fn(Service, &str) -> Result<H, String>>(
        &mut self,
        mode: BootMode,
        spawn: &F,
    ) -> (out: Applied<H>)
        requires
            forall|service: Service, addr: &str| call_requires(spawn, (service, addr)),
        ensures
            out.reports@ == final(self).reports(),
            forall|service: Service| #[trigger]
                final(self).in_mode(*old(self), mode, *spawn, service),
            out.handles@ == (if mode.wants(Service::Dns) {
                Seq::empty()
            } else {
                as_seq(old(self).task(Service::Dns))
            }) + (if mode.wants(Service::Smtp) {
                Seq::empty()
            } else {
                as_seq(old(self).task(Service::Smtp))
            }),
    {
        let mut handles: Vec<H> = Vec::new();
        let wants_dns = matches!(mode, BootMode::Full | BootMode::Dns);
        let wants_smtp = matches!(mode, BootMode::Full | BootMode::Smtp);
        let dns = self.apply_one(mode, Service::Dns, wants_dns, spawn);
        let ghost mid = *self;
        let smtp = self.apply_one(mode, Service::Smtp, wants_smtp, spawn);
        proof {
            assert(self.task(Service::Dns) == mid.task(Service::Dns));
            assert(self.addr(Service::Dns) == mid.addr(Service::Dns));
            assert(mid.task(Service::Smtp) == old(self).task(Service::Smtp));
            assert(mid.addr(Service::Smtp) == old(self).addr(Service::Smtp));
            assert(self.in_mode(*old(self), mode, *spawn, Service::Dns));
            assert(self.in_mode(*old(self), mode, *spawn, Service::Smtp));
        }
        if let Some(handle) = dns {
            handles.push(handle);
        }
        if let Some(handle) = smtp {
            handles.push(handle);
        }
        Applied { reports: self.list(), handles }
    }

    /// Start the services of a mode; the others are left alone.
    pub fn boot<F: Fn(Service, &str) -> Result<H, String>>(&mut self, mode: BootMode, spawn: &F)
        requires
            forall|service: Service, addr: &str| call_requires(spawn, (service, addr)),
        ensures
            forall|service: Service|
                #![trigger final(self).task(service)]
                {
                    &&& final(self).addr(service) == old(self).addr(service)
                    &&& !mode.wants(service) || old(self).task(service) is Some
                        ==> final(self).task(service) == old(self).task(service)
                    &&& mode.wants(service) && old(self).task(service) is None
                        ==> task_after_spawn(
                        *spawn,
                        service,
                        old(self).addr(service),
                        final(self).task(service),
                    )
                },
    {
        let ghost before = *self;
        if matches!(mode, BootMode::Full | BootMode::Dns) {
            let _ = self.start(Service::Dns, spawn);
        }
        let ghost mid = *self;
        proof {
            assert(mid.task(Service::Smtp) == before.task(Service::Smtp));
            assert(mid.addr(Service::Smtp) == before.addr(Service::Smtp));
            assert(mid.addr(Service::Dns) == before.addr(Service::Dns));
        }
        if matches!(mode, BootMode::Full | BootMode::Smtp) {
            let _ = self.start(Service::Smtp, spawn);
        }
        proof {
            assert(self.task(Service::Dns) == mid.task(Service::Dns));
            assert(self.addr(Service::Smtp) == mid.addr(Service::Smtp));
            assert(self.addr(Service::Dns) == mid.addr(Service::Dns));
        }
    }

    /// Stop every service; the tasks that have to be ended.
    pub fn stop_all(&mut self) -> (handles: Vec<H>)
        ensures
            forall|service: Service|
                #![trigger final(self).task(service)]
                final(self).task(service) is None && final(self).addr(service) == old(self).addr(
                    service,
                ),
            handles@ == as_seq(old(self).task(Service::Dns)) + as_seq(
                old(self).task(Service::Smtp),
            ),
    {
        let mut handles: Vec<H> = Vec::new();
        let dns = self.stop(Service::Dns);
        let ghost mid = *self;
        let smtp = self.stop(Service::Smtp);
        proof {
            assert(self.task(Service::Dns) == mid.task(Service::Dns));
            assert(mid.task(Service::Smtp) == old(self).task(Service::Smtp));
            assert(self.addr(Service::Smtp) == mid.addr(Service::Smtp));
            assert(self.addr(Service::Dns) == mid.addr(Service::Dns));
            assert(mid.addr(Service::Smtp) == old(self).addr(Service::Smtp));
            assert(mid.addr(Service::Dns) == old(self).addr(Service::Dns));
        }
        if let Some(handle) = dns.handle {
            handles.push(handle);
        }
        if let Some(handle) = smtp.handle {
            handles.push(handle);
        }
        handles
    }
}

// ---------------------------------------------------------------------------
// Laws
// ---------------------------------------------------------------------------

/// The name of a service is read back as that service.
pub proof fn law_service_name_round_trips(service: Service)
    ensures
        service_of(service_name(service)) == Some(service),
{
    reveal_strlit("dns");
    reveal_strlit("smtp");
    reveal_with_fuel(text::drop_leading, 2);
    reveal_with_fuel(text::drop_trailing, 2);
    let dns = "dns"@;
    let smtp = "smtp"@;
    assert(!text::white_space().contains(dns[0]));
    assert(!text::white_space().contains(dns.last()));
    assert(!text::white_space().contains(smtp[0]));
    assert(!text::white_space().contains(smtp.last()));
    assert(text::ascii_lower(dns) == dns);
    assert(text::ascii_lower(smtp) == smtp);
    assert(dns.len() != smtp.len());
}

/// A mode without a listener stops them all, and the mode with all listeners
/// wants each.
pub proof fn law_modes_without_listeners(service: Service)
    ensures
        !BootMode::ApiOnly.wants(service),
        !BootMode::Off.wants(service),
        BootMode::Full.wants(service),
        BootMode::Full.wants(service) == (BootMode::Smtp.wants(service) || BootMode::Dns.wants(
            service,
        )),
{
}

/// Where every spawn succeeds, exactly the services of the mode run after a
/// change of mode.
pub proof fn law_mode_decides_what_runs<H, F: Fn(Service, &str) -> Result<H, String>>(
    before: ServiceManager<H>,
    after: ServiceManager<H>,
    mode: BootMode,
    spawn: F,
    service: Service,
)
    requires
        after.in_mode(before, mode, spawn, service),
        forall|text: &str, spawned: Result<H, String>| #[trigger]
            call_ensures(spawn, (service, text), spawned) ==> spawned is Ok,
    ensures
        after.status(service) == Status::Running <==> mode.wants(service),
{
    if mode.wants(service) && before.task(service) is None {
        let spawned = choose|spawned: Result<H, String>| #[trigger]
            may_spawn(spawn, service, before.addr(service), spawned) && after.task(service) == (
            match spawned {
                Ok(handle) => Some(handle),
                Err(_) => None,
            });
        let text = choose|text: &str| #[trigger]
            call_ensures(spawn, (service, text), spawned) && text@ == before.addr(service);
        assert(call_ensures(spawn, (service, text), spawned));
    }
}

/// A service is named `dns` or `smtp`, in whatever letter case and with whatever
/// white space around it; no other name is that of a service.
pub proof fn law_services_are_read_by_name(front: Seq<char>, word: Seq<char>, back: Seq<char>)
    requires
        text::is_blank(front),
        text::is_blank(back),
        text::is_bare(word),
    ensures
        service_of(front + word + back) == Some(Service::Dns) <==> text::ascii_lower(word) == "dns"@,
        service_of(front + word + back) == Some(Service::Smtp) <==> text::ascii_lower(word)
            == "smtp"@,
        service_of(front + word + back) is None <==> text::ascii_lower(word) != "dns"@
            && text::ascii_lower(word) != "smtp"@,
        service_name(Service::Dns) == "dns"@,
        service_name(Service::Smtp) == "smtp"@,
{
    text::law_trimming_leaves_the_inside(front, word, back);
    reveal_strlit("dns");
    reveal_strlit("smtp");
    assert("dns"@.len() == 3);
    assert("smtp"@.len() == 4);
}

/// Each mode has one name, and each name one mode.
pub proof fn law_modes_are_read_by_name(name: Seq<char>)
    ensures
        mode_of(name) == Some(BootMode::Full) <==> name == "full"@,
        mode_of(name) == Some(BootMode::Smtp) <==> name == "smtp"@,
        mode_of(name) == Some(BootMode::Dns) <==> name == "dns"@,
        mode_of(name) == Some(BootMode::ApiOnly) <==> name == "api-only"@,
        mode_of(name) == Some(BootMode::Off) <==> name == "off"@,
{
    reveal_strlit("full");
    reveal_strlit("smtp");
    reveal_strlit("dns");
    reveal_strlit("api-only");
    reveal_strlit("off");
    assert("full"@.len() == 4 && "full"@[0] == 'f');
    assert("smtp"@.len() == 4 && "smtp"@[0] == 's');
    assert("dns"@.len() == 3 && "dns"@[0] == 'd');
    assert("api-only"@.len() == 8);
    assert("off"@.len() == 3 && "off"@[0] == 'o');
}

/// A mode that is named after one listener wants that one and not the other.
pub proof fn law_modes_of_one_listener(service: Service)
    ensures
        BootMode::Smtp.wants(service) <==> service == Service::Smtp,
        BootMode::Dns.wants(service) <==> service == Service::Dns,
{
}

/// A service runs exactly where it has a task, and the report tells so of each
/// service once.
pub proof fn law_reports_tell_what_runs<H>(manager: ServiceManager<H>)
    ensures
        manager.reports().len() == 2,
        manager.reports()[0].service == Service::Dns,
        manager.reports()[1].service == Service::Smtp,
        manager.reports()[0].status == Status::Running <==> manager.task(Service::Dns) is Some,
        manager.reports()[1].status == Status::Running <==> manager.task(Service::Smtp) is Some,
{
}

/// A change of mode stops what the mode does not want, leaves alone what runs
/// and is wanted, and starts nothing else: a wanted service that was idle is
/// called for at its own address.
pub proof fn law_modes_leave_running_services_alone<H, F: Fn(Service, &str) -> Result<H, String>>(
    before: ServiceManager<H>,
    after: ServiceManager<H>,
    mode: BootMode,
    spawn: F,
    service: Service,
)
    requires
        after.in_mode(before, mode, spawn, service),
    ensures
        mode == BootMode::Off || mode == BootMode::ApiOnly ==> after.task(service) is None,
        mode == BootMode::Full && before.task(service) is Some ==> after.task(service)
            == before.task(service),
        mode == BootMode::Smtp && service == Service::Smtp && before.task(service) is Some
            ==> after.task(service) == before.task(service),
        mode == BootMode::Smtp && service == Service::Dns ==> after.task(service) is None,
        mode == BootMode::Dns && service == Service::Dns && before.task(service) is Some
            ==> after.task(service) == before.task(service),
        mode == BootMode::Dns && service == Service::Smtp ==> after.task(service) is None,
        before.task(service) is None && after.task(service) is Some ==> exists|
            text: &str,
            spawned: Result<H, String>,
        | #[trigger]
            call_ensures(spawn, (service, text), spawned) && text@ == before.addr(service)
                && spawned == Ok::<H, String>(after.task(service)->0),
        after.addr(service) == before.addr(service),
{
    if before.task(service) is None && after.task(service) is Some {
        let spawned = choose|spawned: Result<H, String>| #[trigger]
            may_spawn(spawn, service, before.addr(service), spawned) && after.task(service) == (
            match spawned {
                Ok(handle) => Some(handle),
                Err(_) => None,
            });
        let text = choose|text: &str| #[trigger]
            call_ensures(spawn, (service, text), spawned) && text@ == before.addr(service);
        assert(call_ensures(spawn, (service, text), spawned));
    }
}

/// What changes one service leaves the others as they are, and moves none.
pub proof fn law_other_services_are_left_alone<H>(
    before: ServiceManager<H>,
    after: ServiceManager<H>,
    service: Service,
    other: Service,
)
    requires
        after.changed_only(before, service),
        other != service,
    ensures
        after.task(other) == before.task(other),
        after.status(other) == before.status(other),
        after.addr(other) == before.addr(other),
        after.addr(service) == before.addr(service),
{
    assert(after.addr(service) == before.addr(service));
}

/// The task of a running service has to be ended, and of an idle one there is
/// none to end.
pub proof fn law_tasks_are_handed_over<H>(handle: H)
    ensures
        as_seq(Some(handle)).len() == 1,
        as_seq(Some(handle))[0] == handle,
        as_seq(None::<H>).len() == 0,
{
}

} // verus!
