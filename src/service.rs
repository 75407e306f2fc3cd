//! Configured services, their probes, and how probe results are applied back.
use vstd::prelude::*;
use vstd::string::*;
use crate::text::{has_prefix, same_text, starts_with};

verus! {

/// The kind of probe that checks a service.
#[derive(Debug, Clone, Copy, PartialEq, Eq, Structural)]
pub enum ServiceType {
    Ping,
    Port,
    Http,
}

/// A configured service and the outcome of its last check.
pub struct Service {
    pub name: String,
    pub svc_type: ServiceType,
    pub host: String,
    pub up: bool,
    pub port: Option<u16>,
    pub ssl: bool,
}

/// A titled, ordered group of services.
pub struct ServiceGroup {
    pub title: String,
    pub services: Vec<Service>,
}

/// What one probe must do.
pub enum Probe {
    /// An echo request to `host`.
    Ping { host: String },
    /// A TCP connect to `host` on `port`.
    Port { host: String, port: u16 },
    /// An HTTP GET of `url`.
    Http { url: String },
}

/// Case folding of a string, as std's `to_lowercase` performs it.
pub uninterp spec fn lower_of(s: Seq<char>) -> Seq<char>;

/// Relies on `str::to_lowercase`: the result depends on the characters alone.
#[verifier::external_body]
fn lowercase(s: &str) -> (r: String)
    ensures
        r@ == lower_of(s@),
{
    s.to_lowercase()
}

/// The service type named by an already lower-cased word.
pub open spec fn service_type_spec(lowered: Seq<char>) -> Option<ServiceType> {
    if lowered == "ping"@ {
        Some(ServiceType::Ping)
    } else if lowered == "port"@ {
        Some(ServiceType::Port)
    } else if lowered == "http"@ {
        Some(ServiceType::Http)
    } else {
        None
    }
}

/// The message given for a word that names no service type.
pub open spec fn unknown_type_message(lowered: Seq<char>) -> Seq<char> {
    "unknown service type: "@ + lowered
}

/// The service type named by `lowered`, a word already in lower case.
pub fn service_type_of_lowered(lowered: &str) -> (r: Result<ServiceType, String>)
    ensures
        r matches Ok(t) ==> service_type_spec(lowered@) == Some(t),
        r matches Err(e) ==> service_type_spec(lowered@) is None && e@ == unknown_type_message(lowered@),
{
    if same_text(lowered, "ping") {
        Ok(ServiceType::Ping)
    } else if same_text(lowered, "port") {
        Ok(ServiceType::Port)
    } else if same_text(lowered, "http") {
        Ok(ServiceType::Http)
    } else {
        Err(String::from_str("unknown service type: ").concat(lowered))
    }
}

/// The service type named by `s`, in any letter case.
pub fn parse_service_type(s: &str) -> (r: Result<ServiceType, String>)
    ensures
        r matches Ok(t) ==> service_type_spec(lower_of(s@)) == Some(t),
        r matches Err(e) ==> service_type_spec(lower_of(s@)) is None && e@ == unknown_type_message(lower_of(s@)),
{
    let lowered = lowercase(s);
    service_type_of_lowered(lowered.as_str())
}

impl std::str::FromStr for ServiceType {
    type Err = String;

    /// The service type named by `s`, in any letter case.
    fn from_str(s: &str) -> Result<ServiceType, String> {
        parse_service_type(s)
    }
}

/// The URL that the HTTP probe fetches: `host` itself when it names a scheme,
/// else `host` behind `https://` or `http://` as `ssl` says.
pub open spec fn http_url_spec(host: Seq<char>, ssl: bool) -> Seq<char> {
    if has_prefix(host, "http://"@) || has_prefix(host, "https://"@) {
        host
    } else if ssl {
        "https://"@ + host
    } else {
        "http://"@ + host
    }
}

/// The URL that the HTTP probe fetches for `host`.
pub fn http_url(host: &str, ssl: bool) -> (r: String)
    ensures
        r@ == http_url_spec(host@, ssl),
{
    if starts_with(host, "http://") || starts_with(host, "https://") {
        String::from_str(host)
    } else if ssl {
        String::from_str("https://").concat(host)
    } else {
        String::from_str("http://").concat(host)
    }
}

/// The name of a service's history page: its name with spaces as underscores.
pub open spec fn page_name_spec(name: Seq<char>) -> Seq<char> {
    Seq::new(name.len(), |i: int| if name[i] == ' ' { '_' } else { name[i] })
}

/// The name of a service's history page (without directory or extension).
pub fn page_name(name: &str) -> (r: String)
    ensures
        r@ == page_name_spec(name@),
{
    let n = name.unicode_len();
    let mut r = String::new();
    let mut i: usize = 0;
    while i < n
        invariant
            n == name@.len(),
            i <= n,
            r@ =~= page_name_spec(name@.subrange(0, i as int)),
        decreases n - i,
    {
        if name.get_char(i) == ' ' {
            r.append("_");
            proof { reveal_strlit("_"); }
        } else {
            r.append(name.substring_char(i, i + 1));
        }
        assert(r@ =~= page_name_spec(name@.subrange(0, i + 1)));
        i += 1;
    }
    assert(name@.subrange(0, n as int) =~= name@);
    r
}

/// `s` with its status set to `up`, all else kept.
pub open spec fn with_status(s: Service, up: bool) -> Service {
    Service { name: s.name, svc_type: s.svc_type, host: s.host, up, port: s.port, ssl: s.ssl }
}

/// Each service of `s` with its status taken from the same position of `results`.
pub open spec fn set_statuses(s: Seq<Service>, results: Seq<bool>) -> Seq<Service> {
    Seq::new(s.len(), |i: int| with_status(s[i], results[i]))
}

/// The services of all groups, group by group, each group in its own order.
pub open spec fn flat(groups: Seq<ServiceGroup>) -> Seq<Service>
    decreases groups.len(),
{
    if groups.len() == 0 {
        Seq::empty()
    } else {
        flat(groups.drop_last()) + groups.last().services@
    }
}

/// The probe `p` is the one that checks `s`.
pub open spec fn probe_matches(p: Probe, s: Service) -> bool {
    match s.svc_type {
        ServiceType::Ping => p matches Probe::Ping { host } && host@ == s.host@,
        ServiceType::Port => p matches Probe::Port { host, port } && host@ == s.host@ && s.port == Some(port),
        ServiceType::Http => p matches Probe::Http { url } && url@ == http_url_spec(s.host@, s.ssl),
    }
}

/// Every service in `s` that is checked by port has a port.
pub open spec fn all_wf(s: Seq<Service>) -> bool {
    forall|i: int| 0 <= i < s.len() ==> (#[trigger] s[i]).wf()
}

impl Service {
    /// A port check names its port.
    pub open spec fn wf(&self) -> bool {
        self.svc_type == ServiceType::Port ==> self.port is Some
    }

    /// A service not yet checked (reported down); `None` for a port check without a port.
    pub fn new(name: String, svc_type: ServiceType, host: String, port: Option<u16>, ssl: bool) -> (r: Option<Service>)
        ensures
            r is None <==> (svc_type == ServiceType::Port && port is None),
            r matches Some(s) ==> s.wf() && s == (Service { name, svc_type, host, up: false, port, ssl }),
    {
        if svc_type == ServiceType::Port && port.is_none() {
            None
        } else {
            Some(Service { name, svc_type, host, up: false, port, ssl })
        }
    }

    /// This service with its status set to `up`.
    pub fn with_status(&self, up: bool) -> (r: Service)
        ensures
            r == with_status(*self, up),
    {
        Service {
            name: self.name.clone(),
            svc_type: self.svc_type,
            host: self.host.clone(),
            up,
            port: self.port,
            ssl: self.ssl,
        }
    }

    /// The probe that checks this service.
    pub fn probe(&self) -> (r: Probe)
        requires
            self.wf(),
        ensures
            probe_matches(r, *self),
    {
        match self.svc_type {
            ServiceType::Ping => Probe::Ping { host: self.host.clone() },
            ServiceType::Port => {
                let port = match self.port {
                    Some(p) => p,
                    None => 0,
                };
                Probe::Port { host: self.host.clone(), port }
            },
            ServiceType::Http => Probe::Http { url: http_url(self.host.as_str(), self.ssl) },
        }
    }
}

/// The services of all groups in traversal order: group by group, each in its order.
pub fn flatten(groups: &Vec<ServiceGroup>) -> (r: Vec<Service>)
    ensures
        r@ == flat(groups@),
{
    let mut r: Vec<Service> = Vec::new();
    let mut g: usize = 0;
    while g < groups.len()
        invariant
            g <= groups.len(),
            r@ =~= flat(groups@.subrange(0, g as int)),
        decreases groups.len() - g,
    {
        let services = &groups[g].services;
        let ghost before = r@;
        let mut j: usize = 0;
        while j < services.len()
            invariant
                g < groups.len(),
                services == groups@[g as int].services,
                j <= services.len(),
                r@ =~= before + services@.subrange(0, j as int),
            decreases services.len() - j,
        {
            r.push(services[j].with_status(services[j].up));
            j += 1;
        }
        assert(groups@.subrange(0, g + 1).drop_last() =~= groups@.subrange(0, g as int));
        assert(services@.subrange(0, j as int) =~= services@);
        g += 1;
    }
    assert(groups@.subrange(0, g as int) =~= groups@);
    r
}

/// One probe per service, in the same order.
pub fn plan_probes(services: &Vec<Service>) -> (r: Vec<Probe>)
    requires
        all_wf(services@),
    ensures
        r.len() == services.len(),
        forall|i: int| 0 <= i < r.len() ==> probe_matches(#[trigger] r@[i], services@[i]),
{
    let mut r: Vec<Probe> = Vec::new();
    let mut i: usize = 0;
    while i < services.len()
        invariant
            all_wf(services@),
            i <= services.len(),
            r.len() == i,
            forall|k: int| 0 <= k < i ==> probe_matches(#[trigger] r@[k], services@[k]),
        decreases services.len() - i,
    {
        r.push(services[i].probe());
        i += 1;
    }
    r
}

/// Lemma: splitting the services splits the statuses applied to them.
proof fn lemma_set_statuses_concat(a: Seq<Service>, b: Seq<Service>, ra: Seq<bool>, rb: Seq<bool>)
    requires
        ra.len() == a.len(),
        rb.len() == b.len(),
    ensures
        set_statuses(a, ra) + set_statuses(b, rb) == set_statuses(a + b, ra + rb),
{
    assert(set_statuses(a, ra) + set_statuses(b, rb) =~= set_statuses(a + b, ra + rb));
}

/// The groups with the probe results applied: the service at traversal position
/// `i` takes `results[i]` as its status; titles, order and all else are kept.
pub fn apply_results(groups: &Vec<ServiceGroup>, results: &Vec<bool>) -> (r: Vec<ServiceGroup>)
    requires
        results.len() == flat(groups@).len(),
    ensures
        r.len() == groups.len(),
        forall|g: int| 0 <= g < r.len() ==> (#[trigger] r@[g]).title == groups@[g].title
            && r@[g].services.len() == groups@[g].services.len(),
        flat(r@) == set_statuses(flat(groups@), results@),
{
    let mut r: Vec<ServiceGroup> = Vec::new();
    let mut g: usize = 0;
    let mut k: usize = 0;
    while g < groups.len()
        invariant
            g <= groups.len(),
            results.len() == flat(groups@).len(),
            r.len() == g,
            forall|h: int| 0 <= h < g ==> (#[trigger] r@[h]).title == groups@[h].title
                && r@[h].services.len() == groups@[h].services.len(),
            k == flat(groups@.subrange(0, g as int)).len(),
            k <= results.len(),
            flat(r@) == set_statuses(flat(groups@.subrange(0, g as int)), results@.subrange(0, k as int)),
        decreases groups.len() - g,
    {
        proof {
            lemma_flat_prefix(groups@, g as int + 1);
        }
        let services = &groups[g].services;
        let mut updated: Vec<Service> = Vec::new();
        let mut j: usize = 0;
        while j < services.len()
            invariant
                g < groups.len(),
                services == groups@[g as int].services,
                j <= services.len(),
                k + services.len() <= results.len(),
                updated@ == set_statuses(services@.subrange(0, j as int), results@.subrange(k as int, k + j)),
            decreases services.len() - j,
        {
            updated.push(services[j].with_status(results[k + j]));
            proof {
                assert(updated@ =~= set_statuses(services@.subrange(0, j + 1), results@.subrange(k as int, k + j + 1)));
            }
            j += 1;
        }
        let ghost prev = r@;
        r.push(ServiceGroup { title: groups[g].title.clone(), services: updated });
        proof {
            assert(r@.drop_last() =~= prev);
            assert(groups@.subrange(0, g + 1).drop_last() =~= groups@.subrange(0, g as int));
            assert(services@.subrange(0, j as int) =~= services@);
            lemma_set_statuses_concat(
                flat(groups@.subrange(0, g as int)),
                services@,
                results@.subrange(0, k as int),
                results@.subrange(k as int, k + j),
            );
            assert(results@.subrange(0, k as int) + results@.subrange(k as int, k + j) =~= results@.subrange(0, k + j));
        }
        k = k + j;
        g += 1;
    }
    assert(groups@.subrange(0, g as int) =~= groups@);
    assert(results@.subrange(0, k as int) =~= results@);
    r
}

/// Lemma: the services of a prefix of the groups fit within all of them.
proof fn lemma_flat_prefix(groups: Seq<ServiceGroup>, n: int)
    requires
        0 <= n <= groups.len(),
    ensures
        flat(groups.subrange(0, n)).len() <= flat(groups).len(),
        n > 0 ==> flat(groups.subrange(0, n)).len() == flat(groups.subrange(0, n - 1)).len() + groups[n - 1].services.len(),
    decreases groups.len() - n,
{
    if n > 0 {
        assert(groups.subrange(0, n).drop_last() =~= groups.subrange(0, n - 1));
    }
    if n < groups.len() {
        lemma_flat_prefix(groups, n + 1);
        assert(groups.subrange(0, n + 1).drop_last() =~= groups.subrange(0, n));
    } else {
        assert(groups.subrange(0, n) =~= groups);
    }
}

/// Results come back in the order of the probes, and each is applied to the
/// service its probe was planned for, whatever the mix of service types.
pub proof fn lemma_results_follow_probes(services: Seq<Service>, probes: Seq<Probe>, results: Seq<bool>)
    requires
        probes.len() == services.len(),
        forall|i: int| 0 <= i < probes.len() ==> probe_matches(#[trigger] probes[i], services[i]),
        results.len() == probes.len(),
    ensures
        set_statuses(services, results).len() == probes.len(),
        forall|i: int| 0 <= i < probes.len() ==> probe_matches(#[trigger] probes[i], set_statuses(services, results)[i])
            && set_statuses(services, results)[i].up == results[i]
            && set_statuses(services, results)[i].name == services[i].name,
{
    assert forall|i: int| 0 <= i < probes.len() implies probe_matches(#[trigger] probes[i], set_statuses(services, results)[i])
        && set_statuses(services, results)[i].up == results[i]
        && set_statuses(services, results)[i].name == services[i].name by {
        assert(probe_matches(probes[i], services[i]));
    }
}

} // verus!
